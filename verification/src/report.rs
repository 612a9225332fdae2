//! The batch reporter: per-node update results aggregated into a
//! deployment summary — totals, failure count, and timing — ready for the
//! caller to print.

use vstd::arithmetic::div_mod::lemma_div_by_multiple;
use vstd::arithmetic::div_mod::lemma_div_is_ordered;
use vstd::arithmetic::mul::lemma_mul_inequality;
use vstd::prelude::*;
use vstd::string::StringSliceAdditionalSpecFns;
use crate::orchestrator::FlashStatus;
use crate::strutil::chars_to_string;
use crate::strutil::decimal_chars;
use crate::strutil::spec_decimal;

verus! {

/// One node's update attempt: which binary, how it ended, how long it
/// took (milliseconds).
pub struct UpdateResult {
    pub bin: String,
    pub result: FlashStatus,
    pub duration_ms: u64,
}

/// The aggregated outcome of a whole batch run.
pub struct DeploymentReport {
    pub total: u64,
    pub succeeded: u64,
    pub failed: u64,
    pub total_duration_ms: u64,
    pub avg_duration_ms: u64,
}

/// Whether a result counts as a failure: only `Failed` does; a skipped
/// node (`CrcMatch`) counts as a success.
pub open spec fn spec_is_failed(r: &UpdateResult) -> bool {
    r.result is Failed
}

/// How many of the results failed.
pub open spec fn spec_failed_count(rs: Seq<UpdateResult>) -> nat
    decreases rs.len(),
{
    if rs.len() == 0 {
        0
    } else {
        spec_failed_count(rs.drop_last()) + (if spec_is_failed(&rs.last()) {
            1nat
        } else {
            0nat
        })
    }
}

/// The sum of all durations.
pub open spec fn spec_duration_sum(ds: Seq<u64>) -> int
    decreases ds.len(),
{
    if ds.len() == 0 {
        0
    } else {
        spec_duration_sum(ds.drop_last()) + ds.last()
    }
}

/// The mean of the durations, rounded down; zero for an empty batch.
pub fn average_duration(durations: &Vec<u64>) -> (r: u64)
    ensures
        durations@.len() == 0 ==> r == 0,
        durations@.len() > 0 ==> r == spec_duration_sum(durations@) / (durations@.len() as int),
{
    let n = durations.len();
    if n == 0 {
        return 0;
    }
    let mut sum: u128 = 0;
    let mut i: usize = 0;
    while i < n
        invariant
            i <= n,
            n == durations@.len(),
            sum == spec_duration_sum(durations@.take(i as int)),
            sum <= (i as int) * (u64::MAX as int),
        decreases n - i,
    {
        proof {
            assert(durations@.take(i + 1).drop_last() =~= durations@.take(i as int));
            lemma_mul_inequality(i as int, n as int, u64::MAX as int);
            assert((i + 1) as int * (u64::MAX as int) == (i as int) * (u64::MAX as int) + (
            u64::MAX as int)) by {
                vstd::arithmetic::mul::lemma_mul_is_distributive_add_other_way(
                    u64::MAX as int,
                    i as int,
                    1,
                );
                vstd::arithmetic::mul::lemma_mul_basics(u64::MAX as int);
            }
        }
        sum = sum + durations[i] as u128;
        i = i + 1;
    }
    proof {
        assert(durations@.take(n as int) =~= durations@);
        lemma_mul_inequality(n as int, n as int, u64::MAX as int);
    }
    let avg: u128 = sum / (n as u128);
    proof {
        lemma_div_is_ordered(
            sum as int,
            (n as int) * (u64::MAX as int),
            n as int,
        );
        lemma_div_by_multiple(u64::MAX as int, n as int);
        vstd::arithmetic::mul::lemma_mul_is_commutative(n as int, u64::MAX as int);
    }
    avg as u64
}

/// Aggregate a batch's per-node results: the counts are exact — a node
/// counts as failed exactly when its status is `Failed` — and the average
/// is the mean of the per-node durations, rounded down.
pub fn deployment_summary(results: &Vec<UpdateResult>, total_duration_ms: u64) -> (r:
    DeploymentReport)
    requires
        results@.len() <= u64::MAX,
    ensures
        r.total == results@.len(),
        r.failed == spec_failed_count(results@),
        r.succeeded == results@.len() - spec_failed_count(results@),
        r.total_duration_ms == total_duration_ms,
        results@.len() == 0 ==> r.avg_duration_ms == 0,
        results@.len() > 0 ==> r.avg_duration_ms == spec_duration_sum(
            results@.map_values(|u: UpdateResult| u.duration_ms),
        ) / (results@.len() as int),
{
    let n = results.len();
    let mut failed: u64 = 0;
    let mut durations: Vec<u64> = Vec::new();
    let mut i: usize = 0;
    proof {
        assert(spec_failed_count(results@.take(0)) == 0);
    }
    while i < n
        invariant
            i <= n,
            n == results@.len(),
            n <= u64::MAX,
            failed == spec_failed_count(results@.take(i as int)),
            failed <= i,
            durations@ == results@.take(i as int).map_values(|u: UpdateResult| u.duration_ms),
        decreases n - i,
    {
        proof {
            assert(results@.take(i + 1).drop_last() =~= results@.take(i as int));
            assert(results@.take(i + 1).last() == results@[i as int]);
            lemma_failed_count_le_len(results@.take(i + 1));
        }
        let is_failed = match &results[i].result {
            FlashStatus::Failed(_) => true,
            FlashStatus::CrcMatch => false,
            FlashStatus::DownloadSuccess => false,
        };
        if is_failed {
            failed = failed + 1;
        }
        durations.push(results[i].duration_ms);
        proof {
            assert(durations@ =~= results@.take(i + 1).map_values(
                |u: UpdateResult| u.duration_ms,
            ));
        }
        i = i + 1;
    }
    proof {
        assert(results@.take(n as int) =~= results@);
    }
    let avg = average_duration(&durations);
    DeploymentReport {
        total: n as u64,
        succeeded: (n as u64) - failed,
        failed,
        total_duration_ms,
        avg_duration_ms: avg,
    }
}

/// No more results fail than there are.
proof fn lemma_failed_count_le_len(rs: Seq<UpdateResult>)
    ensures
        spec_failed_count(rs) <= rs.len(),
    decreases rs.len(),
{
    if rs.len() > 0 {
        lemma_failed_count_le_len(rs.drop_last());
    }
}

/// The characters of a duration rendered as seconds with three fractional
/// digits, e.g. 1234 milliseconds as `1.234s`.
pub open spec fn spec_fmt_dur(ms: u64) -> Seq<char> {
    spec_decimal((ms / 1000) as nat) + seq!['.'] + spec_pad3((ms % 1000) as nat) + seq!['s']
}

/// Three decimal digits, zero-padded on the left.
pub open spec fn spec_pad3(f: nat) -> Seq<char>
    recommends
        f < 1000,
{
    if f < 10 {
        seq!['0', '0'] + spec_decimal(f)
    } else if f < 100 {
        seq!['0'] + spec_decimal(f)
    } else {
        spec_decimal(f)
    }
}

/// Render a duration in milliseconds as seconds with three fractional
/// digits.
pub fn fmt_dur(ms: u64) -> (r: String)
    ensures
        r@ == spec_fmt_dur(ms),
{
    let secs = ms / 1000;
    let frac = ms % 1000;
    let mut chars = decimal_chars(secs);
    chars.push('.');
    if frac < 10 {
        chars.push('0');
        chars.push('0');
    } else if frac < 100 {
        chars.push('0');
    }
    let mut frac_chars = decimal_chars(frac);
    chars.append(&mut frac_chars);
    chars.push('s');
    proof {
        assert(chars@ =~= spec_fmt_dur(ms));
    }
    chars_to_string(chars)
}

/// Shorten a cell to at most `max` columns, ending a shortened one with
/// an ellipsis. A string short enough — counted in bytes, as the table
/// layout does — passes through unchanged; otherwise the first `max - 1`
/// characters are kept, as far as there are any.
pub fn truncate(s: &str, max: usize) -> (r: String)
    requires
        s.spec_bytes().len() <= usize::MAX,
    ensures
        s.spec_bytes().len() <= max ==> r@ == s@,
        s.spec_bytes().len() > max && max > 1 ==> r@ == s@.take(
            if max - 1 <= s@.len() {
                (max - 1) as int
            } else {
                s@.len() as int
            },
        ) + "…"@,
        s.spec_bytes().len() > max && max <= 1 ==> r@ == "…"@,
{
    if s.len() <= max {
        s.to_owned()
    } else if max > 1 {
        let chars = s.unicode_len();
        let keep = if max - 1 <= chars {
            max - 1
        } else {
            chars
        };
        let head = s.substring_char(0, keep);
        let mut out = head.to_owned();
        out.append("…");
        proof {
            assert(s@.subrange(0, keep as int) =~= s@.take(keep as int));
            assert(out@ == s@.take(keep as int) + "…"@);
        }
        out
    } else {
        let out = String::from_str("…");
        proof {
            assert(out@ == "…"@);
        }
        out
    }
}

/// Split a batch target of the form `node:/path/to/bin` at its first
/// colon; a target without a colon is malformed.
pub fn parse_update_pair(s: &str) -> (r: Option<(String, String)>)
    ensures
        (forall|i: int| 0 <= i < s@.len() ==> s@[i] != ':') ==> r is None,
        (exists|i: int| 0 <= i < s@.len() && s@[i] == ':') ==> (r matches Some(pair) && {
            let i = choose|i: int|
                0 <= i < s@.len() && s@[i] == ':' && (forall|j: int| 0 <= j < i ==> s@[j] != ':');
            &&& pair.0@ == s@.take(i)
            &&& pair.1@ == s@.skip(i + 1)
        }),
{
    let n = s.unicode_len();
    let mut i: usize = 0;
    while i < n
        invariant
            i <= n,
            n == s@.len(),
            forall|j: int| 0 <= j < i ==> s@[j] != ':',
        decreases n - i,
    {
        if s.get_char(i) == ':' {
            let node = s.substring_char(0, i);
            let path = s.substring_char(i + 1, n);
            proof {
                let w = choose|w: int|
                    0 <= w < s@.len() && s@[w] == ':' && (forall|j: int|
                        0 <= j < w ==> s@[j] != ':');
                assert(s@[i as int] == ':');
                assert(w == i);
                assert(s@.subrange(0, i as int) =~= s@.take(i as int));
                assert(s@.subrange(i + 1, n as int) =~= s@.skip(i + 1));
            }
            return Some((node.to_owned(), path.to_owned()));
        }
        i = i + 1;
    }
    None
}

} // verus!
