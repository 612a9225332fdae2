//! The log processor's pure pieces: the record header types of the
//! JSON-lines logs, the star-only wildcard matcher and path-pattern
//! splitter used to expand inputs, the line-protocol escaping rules, the
//! command-line splitter of the offloader's exec mode, and the index
//! parser for rolled binary log files.

use vstd::prelude::*;
use crate::strutil::chars_to_string;
use crate::strutil::is_space;
use crate::strutil::spec_is_space;
use crate::strutil::spec_rfind_char;

verus! {

/// The bus header of one log record.
pub struct Bus {
    pub iface: Option<String>,
    pub name: Option<String>,
}

/// The identifier header of one log record.
pub struct Id {
    pub err: Option<bool>,
    pub ext: Option<bool>,
    pub rtr: Option<bool>,
    pub val: Option<i64>,
}

/// Whether a pattern whose only wildcard is `*` (matching any sequence,
/// including the empty one) matches a text.
pub open spec fn spec_star_matches(p: Seq<char>, t: Seq<char>) -> bool
    decreases p.len() + t.len(),
{
    if p.len() == 0 {
        t.len() == 0
    } else if p[0] == '*' {
        spec_star_matches(p.drop_first(), t) || (t.len() > 0 && spec_star_matches(
            p,
            t.drop_first(),
        ))
    } else {
        t.len() > 0 && p[0] == t[0] && spec_star_matches(p.drop_first(), t.drop_first())
    }
}

/// The matcher from the given positions onward.
fn star_match_at(p: &str, t: &str, pi: usize, ti: usize) -> (r: bool)
    requires
        pi <= p@.len(),
        ti <= t@.len(),
    ensures
        r == spec_star_matches(p@.skip(pi as int), t@.skip(ti as int)),
    decreases p@.len() - pi + t@.len() - ti,
{
    let pn = p.unicode_len();
    let tn = t.unicode_len();
    if pi == pn {
        proof {
            assert(p@.skip(pi as int) =~= Seq::<char>::empty());
        }
        return ti == tn;
    }
    proof {
        assert(p@.skip(pi as int)[0] == p@[pi as int]);
        assert(p@.skip(pi as int).drop_first() =~= p@.skip(pi + 1));
    }
    let pc = p.get_char(pi);
    if pc == '*' {
        if star_match_at(p, t, pi + 1, ti) {
            return true;
        }
        if ti < tn {
            proof {
                assert(t@.skip(ti as int).drop_first() =~= t@.skip(ti + 1));
            }
            return star_match_at(p, t, pi, ti + 1);
        }
        false
    } else {
        if ti == tn {
            return false;
        }
        proof {
            assert(t@.skip(ti as int)[0] == t@[ti as int]);
            assert(t@.skip(ti as int).drop_first() =~= t@.skip(ti + 1));
        }
        if pc != t.get_char(ti) {
            return false;
        }
        star_match_at(p, t, pi + 1, ti + 1)
    }
}

/// Whether the star-only wildcard pattern matches the text: `*` matches
/// any sequence of characters, the empty one included; everything else
/// matches itself. No escaping; path separators are not special, since
/// only base names are matched.
pub fn matches_star_only(pattern: &str, text: &str) -> (r: bool)
    ensures
        r == spec_star_matches(pattern@, text@),
{
    proof {
        assert(pattern@.skip(0) =~= pattern@);
        assert(text@.skip(0) =~= text@);
    }
    star_match_at(pattern, text, 0, 0)
}

/// A matched text is reproduced by a pattern without stars; in
/// particular, a star-free pattern matches exactly itself.
pub proof fn lemma_starless_pattern_matches_itself(p: Seq<char>)
    requires
        forall|i: int| 0 <= i < p.len() ==> p[i] != '*',
    ensures
        spec_star_matches(p, p),
    decreases p.len(),
{
    if p.len() > 0 {
        lemma_starless_pattern_matches_itself(p.drop_first());
    }
}

/// Measurement names escape commas and spaces.
pub open spec fn spec_escape_measurement_char(c: char) -> Seq<char> {
    if c == ',' || c == ' ' {
        seq!['\\', c]
    } else {
        seq![c]
    }
}

/// Every character of the sequence under this escaping rule.
pub open spec fn spec_escape_measurement_seq(s: Seq<char>) -> Seq<char>
    decreases s.len(),
{
    if s.len() == 0 {
        Seq::empty()
    } else {
        spec_escape_measurement_seq(s.drop_last()) + spec_escape_measurement_char(s.last())
    }
}

/// Tag keys and values escape commas, spaces and equals signs.
pub open spec fn spec_escape_tag_char(c: char) -> Seq<char> {
    if c == ',' || c == ' ' || c == '=' {
        seq!['\\', c]
    } else {
        seq![c]
    }
}

/// Every character of the sequence under this escaping rule.
pub open spec fn spec_escape_tag_seq(s: Seq<char>) -> Seq<char>
    decreases s.len(),
{
    if s.len() == 0 {
        Seq::empty()
    } else {
        spec_escape_tag_seq(s.drop_last()) + spec_escape_tag_char(s.last())
    }
}

/// Field keys escape commas and spaces.
pub open spec fn spec_escape_field_key_char(c: char) -> Seq<char> {
    if c == ',' || c == ' ' {
        seq!['\\', c]
    } else {
        seq![c]
    }
}

/// Every character of the sequence under this escaping rule.
pub open spec fn spec_escape_field_key_seq(s: Seq<char>) -> Seq<char>
    decreases s.len(),
{
    if s.len() == 0 {
        Seq::empty()
    } else {
        spec_escape_field_key_seq(s.drop_last()) + spec_escape_field_key_char(s.last())
    }
}

/// Field string values escape backslashes and double quotes.
pub open spec fn spec_escape_field_string_char(c: char) -> Seq<char> {
    if c == '\\' || c == '"' {
        seq!['\\', c]
    } else {
        seq![c]
    }
}

/// Every character of the sequence under this escaping rule.
pub open spec fn spec_escape_field_string_seq(s: Seq<char>) -> Seq<char>
    decreases s.len(),
{
    if s.len() == 0 {
        Seq::empty()
    } else {
        spec_escape_field_string_seq(s.drop_last()) + spec_escape_field_string_char(s.last())
    }
}

/// Escape a measurement name for the line protocol.
pub fn escape_measurement(s: &str) -> (r: String)
    ensures
        r@ == spec_escape_measurement_seq(s@),
{
    let n = s.unicode_len();
    let mut out: Vec<char> = Vec::new();
    let mut i: usize = 0;
    while i < n
        invariant
            i <= n,
            n == s@.len(),
            out@ == spec_escape_measurement_seq(s@.take(i as int)),
        decreases n - i,
    {
        let c = s.get_char(i);
        proof {
            assert(s@.take(i + 1).drop_last() =~= s@.take(i as int));
            assert(s@.take(i + 1).last() == s@[i as int]);
        }
        if c == ',' || c == ' ' {
            out.push('\\');
            out.push(c);
        } else {
            out.push(c);
        }
        proof {
            assert(out@ =~= spec_escape_measurement_seq(s@.take(i + 1)));
        }
        i = i + 1;
    }
    proof {
        assert(s@.take(n as int) =~= s@);
    }
    chars_to_string(out)
}

/// Escape a tag key or value for the line protocol.
pub fn escape_tag_key_val(s: &str) -> (r: String)
    ensures
        r@ == spec_escape_tag_seq(s@),
{
    let n = s.unicode_len();
    let mut out: Vec<char> = Vec::new();
    let mut i: usize = 0;
    while i < n
        invariant
            i <= n,
            n == s@.len(),
            out@ == spec_escape_tag_seq(s@.take(i as int)),
        decreases n - i,
    {
        let c = s.get_char(i);
        proof {
            assert(s@.take(i + 1).drop_last() =~= s@.take(i as int));
            assert(s@.take(i + 1).last() == s@[i as int]);
        }
        if c == ',' || c == ' ' || c == '=' {
            out.push('\\');
            out.push(c);
        } else {
            out.push(c);
        }
        proof {
            assert(out@ =~= spec_escape_tag_seq(s@.take(i + 1)));
        }
        i = i + 1;
    }
    proof {
        assert(s@.take(n as int) =~= s@);
    }
    chars_to_string(out)
}

/// Escape a field key for the line protocol.
pub fn escape_field_key(s: &str) -> (r: String)
    ensures
        r@ == spec_escape_field_key_seq(s@),
{
    let n = s.unicode_len();
    let mut out: Vec<char> = Vec::new();
    let mut i: usize = 0;
    while i < n
        invariant
            i <= n,
            n == s@.len(),
            out@ == spec_escape_field_key_seq(s@.take(i as int)),
        decreases n - i,
    {
        let c = s.get_char(i);
        proof {
            assert(s@.take(i + 1).drop_last() =~= s@.take(i as int));
            assert(s@.take(i + 1).last() == s@[i as int]);
        }
        if c == ',' || c == ' ' {
            out.push('\\');
            out.push(c);
        } else {
            out.push(c);
        }
        proof {
            assert(out@ =~= spec_escape_field_key_seq(s@.take(i + 1)));
        }
        i = i + 1;
    }
    proof {
        assert(s@.take(n as int) =~= s@);
    }
    chars_to_string(out)
}

/// Escape a field string value for the line protocol.
pub fn escape_field_string(s: &str) -> (r: String)
    ensures
        r@ == spec_escape_field_string_seq(s@),
{
    let n = s.unicode_len();
    let mut out: Vec<char> = Vec::new();
    let mut i: usize = 0;
    while i < n
        invariant
            i <= n,
            n == s@.len(),
            out@ == spec_escape_field_string_seq(s@.take(i as int)),
        decreases n - i,
    {
        let c = s.get_char(i);
        proof {
            assert(s@.take(i + 1).drop_last() =~= s@.take(i as int));
            assert(s@.take(i + 1).last() == s@[i as int]);
        }
        if c == '\\' || c == '"' {
            out.push('\\');
            out.push(c);
        } else {
            out.push(c);
        }
        proof {
            assert(out@ =~= spec_escape_field_string_seq(s@.take(i + 1)));
        }
        i = i + 1;
    }
    proof {
        assert(s@.take(n as int) =~= s@);
    }
    chars_to_string(out)
}

/// Error for a pattern that names no base name to match.
#[derive(Debug, Clone, Copy, PartialEq, Eq, Structural)]
pub struct PatternError {}

/// Split a pattern like `some/dir/*.ext` into its directory and its base
/// name pattern: the part after the last separator is the base name; a
/// pattern without a separator lives in `.`; a pattern ending in a
/// separator has no base name and is rejected.
pub fn split_dir_and_basename_pattern(pat: &str) -> (r: Result<(String, String), PatternError>)
    ensures
        (match spec_rfind_char(pat@, '/') {
            None => if pat@.len() == 0 {
                r is Err
            } else {
                r matches Ok(p) && p.0@ == "."@ && p.1@ == pat@
            },
            Some(i) => if i + 1 == pat@.len() {
                r is Err
            } else {
                r matches Ok(p) && p.1@ == pat@.skip(i + 1) && (if i == 0 {
                    p.0@ == "/"@
                } else {
                    p.0@ == pat@.take(i)
                })
            },
        }),
{
    let n = pat.unicode_len();
    let mut sep: Option<usize> = None;
    let mut i: usize = 0;
    while i < n
        invariant
            i <= n,
            n == pat@.len(),
            sep is None ==> (forall|j: int| 0 <= j < i ==> pat@[j] != '/'),
            sep matches Some(k) ==> (k < i && pat@[k as int] == '/' && (forall|j: int|
                k < j < i ==> pat@[j] != '/')),
        decreases n - i,
    {
        if pat.get_char(i) == '/' {
            sep = Some(i);
        }
        i = i + 1;
    }
    proof {
        match sep {
            None => {
                assert(spec_rfind_char(pat@, '/') is None) by {
                    if exists|w: int| 0 <= w < pat@.len() && pat@[w] == '/' {
                        let w = choose|w: int| 0 <= w < pat@.len() && pat@[w] == '/';
                        assert(pat@[w] != '/');
                    }
                }
            },
            Some(k) => {
                assert(spec_rfind_char(pat@, '/') == Some(k as int)) by {
                    assert(0 <= k < pat@.len() && pat@[k as int] == '/' && (forall|j: int|
                        k < j < pat@.len() ==> pat@[j] != '/'));
                    let w = choose|w: int|
                        0 <= w < pat@.len() && pat@[w] == '/' && (forall|j: int|
                            w < j < pat@.len() ==> pat@[j] != '/');
                    if w < k {
                        assert(pat@[k as int] != '/');
                    } else if w > k {
                        assert(pat@[w] != '/');
                    }
                }
            },
        }
    }
    match sep {
        None => {
            if n == 0 {
                Err(PatternError {})
            } else {
                proof {
                    assert(pat@.skip(0) =~= pat@);
                }
                Ok((String::from_str("."), pat.to_owned()))
            }
        },
        Some(k) => {
            if k + 1 == n {
                Err(PatternError {})
            } else {
                let base = pat.substring_char(k + 1, n);
                proof {
                    assert(pat@.subrange(k + 1, n as int) =~= pat@.skip(k + 1));
                }
                if k == 0 {
                    Ok((String::from_str("/"), base.to_owned()))
                } else {
                    let dir = pat.substring_char(0, k);
                    proof {
                        assert(pat@.subrange(0, k as int) =~= pat@.take(k as int));
                    }
                    Ok((dir.to_owned(), base.to_owned()))
                }
            }
        },
    }
}

/// The value of a fixed-width decimal digit string.
pub open spec fn spec_dec_value(s: Seq<char>) -> Option<nat>
    decreases s.len(),
{
    if s.len() == 0 {
        Some(0)
    } else {
        match (spec_dec_value(s.drop_last()), crate::canbridge::spec_dec_digit_val(s.last())) {
            (Some(v), Some(d)) => Some((v * 10 + d) as nat),
            _ => None,
        }
    }
}

/// How a rolled log file name parses: it must end in `.bin`, hold a dash,
/// and carry exactly six decimal digits between the last dash and the
/// extension; the index is their value.
pub open spec fn spec_parse_index(name: Seq<char>) -> Option<nat> {
    if name.len() < 4 || name.skip(name.len() - 4) != ".bin"@ {
        None
    } else {
        let stem = name.take(name.len() - 4);
        match spec_rfind_char(stem, '-') {
            None => None,
            Some(d) => {
                let digits = stem.skip(d + 1);
                if digits.len() == 6 {
                    spec_dec_value(digits)
                } else {
                    None
                }
            },
        }
    }
}

/// Parse the rolling index out of a log file's name.
pub fn parse_index_from_filename(name: &str) -> (r: Option<u64>)
    ensures
        (match r {
            Some(v) => spec_parse_index(name@) == Some(v as nat),
            None => spec_parse_index(name@) is None,
        }),
{
    let n = name.unicode_len();
    if n < 4 {
        return None;
    }
    let ext = name.substring_char(n - 4, n);
    proof {
        reveal_strlit(".bin");
        assert(name@.subrange(n - 4, n as int) =~= name@.skip(n - 4));
    }
    if !crate::strutil::str_eq(ext, ".bin") {
        return None;
    }
    let mut dash: Option<usize> = None;
    let stem_len = n - 4;
    let ghost stem = name@.take(n - 4);
    let mut i: usize = 0;
    while i < stem_len
        invariant
            i <= stem_len,
            stem_len == n - 4,
            n == name@.len(),
            stem == name@.take(n - 4),
            dash is None ==> (forall|j: int| 0 <= j < i ==> stem[j] != '-'),
            dash matches Some(k) ==> (k < i && stem[k as int] == '-' && (forall|j: int|
                k < j < i ==> stem[j] != '-')),
        decreases stem_len - i,
    {
        proof {
            assert(stem[i as int] == name@[i as int]);
        }
        if name.get_char(i) == '-' {
            dash = Some(i);
        }
        i = i + 1;
    }
    match dash {
        None => {
            proof {
                assert(spec_rfind_char(stem, '-') is None) by {
                    if exists|w: int| 0 <= w < stem.len() && stem[w] == '-' {
                        let w = choose|w: int| 0 <= w < stem.len() && stem[w] == '-';
                        assert(stem[w] != '-');
                    }
                }
            }
            None
        },
        Some(d) => {
            proof {
                assert(spec_rfind_char(stem, '-') == Some(d as int)) by {
                    assert(0 <= d < stem.len() && stem[d as int] == '-' && (forall|j: int|
                        d < j < stem.len() ==> stem[j] != '-'));
                    let w = choose|w: int|
                        0 <= w < stem.len() && stem[w] == '-' && (forall|j: int|
                            w < j < stem.len() ==> stem[j] != '-');
                    if w < d {
                        assert(stem[d as int] != '-');
                    } else if w > d {
                        assert(stem[w] != '-');
                    }
                }
            }
            let digits_len = stem_len - (d + 1);
            let ghost digits = stem.skip(d + 1);
            if digits_len != 6 {
                return None;
            }
            let mut value: u64 = 0;
            let mut k: usize = 0;
            while k < 6
                invariant
                    k <= 6,
                    n == name@.len(),
                    n >= 4,
                    stem == name@.take(n - 4),
                    name@.skip(n - 4) == ".bin"@,
                    spec_rfind_char(stem, '-') == Some(d as int),
                    digits == stem.skip(d + 1),
                    digits.len() == 6,
                    d + 1 + 6 == n - 4,
                    d < n,
                    value < spec_pow10(k as nat),
                    spec_dec_value(digits.take(k as int)) == Some(value as nat),
                decreases 6 - k,
            {
                proof {
                    assert(digits.take(k + 1).drop_last() =~= digits.take(k as int));
                    assert(digits.take(k + 1).last() == digits[k as int]);
                    assert(digits[k as int] == name@[d + 1 + k]);
                }
                let c = name.get_char(d + 1 + k);
                let u = c as u32;
                if !(48 <= u && u <= 57) {
                    proof {
                        lemma_dec_prefix_dooms(digits, k + 1);
                    }
                    return None;
                }
                proof {
                    lemma_pow10_bound(k as nat);
                }
                value = value * 10 + (u - 48) as u64;
                k = k + 1;
            }
            proof {
                assert(digits.take(6) =~= digits);
                lemma_pow10_bound(6);
            }
            Some(value)
        },
    }
}

/// Powers of ten, for bounding a fixed-width decimal value.
pub open spec fn spec_pow10(k: nat) -> nat
    decreases k,
{
    if k == 0 {
        1
    } else {
        10 * spec_pow10((k - 1) as nat)
    }
}

proof fn lemma_pow10_bound(k: nat)
    requires
        k <= 6,
    ensures
        spec_pow10(k) <= 1000000,
{
    assert(spec_pow10(0) == 1);
    assert(spec_pow10(1) == 10);
    assert(spec_pow10(2) == 100);
    assert(spec_pow10(3) == 1000);
    assert(spec_pow10(4) == 10000);
    assert(spec_pow10(5) == 100000);
    assert(spec_pow10(6) == 1000000);
}

/// The whitespace-separated tokens of a command line, in order: maximal
/// runs of non-whitespace characters.
pub open spec fn spec_tokens(s: Seq<char>) -> Seq<Seq<char>>
    decreases s.len(),
{
    if s.len() == 0 {
        Seq::empty()
    } else {
        let rest = spec_tokens(s.drop_last());
        let c = s.last();
        if spec_is_space(c) {
            rest
        } else if s.len() == 1 || spec_is_space(s[s.len() - 2]) {
            rest.push(seq![c])
        } else {
            rest.update(rest.len() - 1, rest.last().push(c))
        }
    }
}

/// Split a command line into the program and its arguments, on
/// whitespace. A line without any token hands itself back as the program,
/// so the caller's spawn fails with the original text in hand. (For
/// anything that needs shell quoting, a wrapper script is the way.)
pub fn split_cmd(s: &str) -> (r: (String, Vec<String>))
    ensures
        ({
            let toks = spec_tokens(s@);
            &&& toks.len() == 0 ==> r.0@ == s@ && r.1.deep_view() == Seq::<Seq<char>>::empty()
            &&& toks.len() > 0 ==> r.0@ == toks[0] && r.1.deep_view() == toks.skip(1)
        }),
{
    let n = s.unicode_len();
    let mut out: Vec<String> = Vec::new();
    let mut cur: Vec<char> = Vec::new();
    let mut i: usize = 0;
    proof {
        assert(s@.take(0) =~= Seq::<char>::empty());
        assert(out.deep_view() =~= Seq::<Seq<char>>::empty());
    }
    while i < n
        invariant
            i <= n,
            n == s@.len(),
            cur@.len() == 0 ==> spec_tokens(s@.take(i as int)) == out.deep_view() && (i == 0
                || spec_is_space(s@[i - 1])),
            cur@.len() > 0 ==> i > 0 && !spec_is_space(s@[i - 1]) && spec_tokens(
                s@.take(i as int),
            ) == out.deep_view().push(cur@),
        decreases n - i,
    {
        let c = s.get_char(i);
        proof {
            assert(s@.take(i + 1).drop_last() =~= s@.take(i as int));
            assert(s@.take(i + 1).last() == s@[i as int]);
            if i > 0 {
                assert(s@.take(i + 1)[i - 1] == s@[i - 1]);
            }
        }
        if is_space(c) {
            if cur.len() > 0 {
                let token = chars_to_string(cur);
                out.push(token);
                cur = Vec::new();
                proof {
                    assert(out.deep_view() =~~= spec_tokens(s@.take(i + 1)));
                }
            }
        } else {
            if cur.len() == 0 {
                cur.push(c);
                proof {
                    assert(cur@ =~= seq![c]);
                    assert(spec_tokens(s@.take(i + 1)) =~= out.deep_view().push(cur@));
                }
            } else {
                cur.push(c);
                proof {
                    assert(spec_tokens(s@.take(i + 1)) =~= out.deep_view().push(cur@));
                }
            }
        }
        i = i + 1;
    }
    proof {
        assert(s@.take(n as int) =~= s@);
    }
    if cur.len() > 0 {
        let token = chars_to_string(cur);
        out.push(token);
        proof {
            assert(out.deep_view() =~~= spec_tokens(s@));
        }
    }
    if out.len() == 0 {
        (s.to_owned(), out)
    } else {
        let ghost toks = out.deep_view();
        let prog = out.remove(0);
        proof {
            assert(out.deep_view() =~~= toks.skip(1));
        }
        (prog, out)
    }
}

/// A bad digit anywhere dooms the fixed-width value.
proof fn lemma_dec_prefix_dooms(s: Seq<char>, i: int)
    requires
        0 <= i <= s.len(),
        spec_dec_value(s.take(i)) is None,
    ensures
        spec_dec_value(s) is None,
    decreases s.len() - i,
{
    if i < s.len() {
        assert(s.take(i + 1).drop_last() =~= s.take(i));
        lemma_dec_prefix_dooms(s, i + 1);
    } else {
        assert(s.take(i) =~= s);
    }
}

} // verus!
