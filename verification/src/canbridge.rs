//! The CAN-frame side of the bridge tool: portable frame and event types,
//! the include-filters with their ID-range parser (hex or decimal, single
//! values or ranges), and the raw-bit extraction helpers signals are
//! decoded with.

use vstd::prelude::*;
use crate::strutil::lower_of;
use crate::strutil::lowercase;
use crate::strutil::spec_find_char;
use crate::strutil::spec_trim;
use crate::strutil::spec_trim_end;
use crate::strutil::spec_trim_start;
use crate::strutil::trim_bounds;

verus! {

/// One CAN frame, independent of the socket layer's layout.
#[derive(Clone, Copy, Debug)]
pub struct CanFrame {
    pub can_id: u32,
    pub can_dlc: u8,
    pub data: [u8; 8],
}

/// One received frame with its bus and optional hardware timestamp
/// (seconds, nanoseconds).
#[derive(Clone, Debug)]
pub struct Event {
    pub bus: String,
    pub frame: CanFrame,
    pub ts_opt: Option<(u64, u32)>,
}

/// The lifecycle state of one listened-to bus.
#[derive(Copy, Clone, Debug, PartialEq, Eq, Structural)]
pub enum BusState {
    Failed,
    Starting,
    Active,
    Error,
}

/// An inclusive range of CAN identifiers.
#[derive(Clone, Copy)]
pub struct IdRange {
    pub start: u32,
    /// Inclusive upper end.
    pub end: u32,
}

impl IdRange {
    /// Whether the identifier lies in the range, ends included.
    pub fn contains(&self, x: u32) -> (r: bool)
        ensures
            r == (self.start <= x && x <= self.end),
    {
        self.start <= x && x <= self.end
    }
}

/// The output filters: any matching ID range passes a frame; message and
/// signal name filters hold lowercased substrings.
#[derive(Clone)]
pub struct Filters {
    pub id_ranges: Vec<IdRange>,
    pub msg_filters: Vec<String>,
    pub sig_filters: Vec<String>,
}

/// Error for an ID token that names no identifier or range.
#[derive(Debug, Clone, Copy, PartialEq, Eq, Structural)]
pub struct ParseIdError {}

/// The numeric value of one hex digit, either case.
pub open spec fn spec_hex_digit_val(c: char) -> Option<u32> {
    let u = c as u32;
    if 48 <= u <= 57 {
        Some((u - 48) as u32)
    } else if 97 <= u <= 102 {
        Some((u - 87) as u32)
    } else if 65 <= u <= 70 {
        Some((u - 55) as u32)
    } else {
        None
    }
}

/// The numeric value of one decimal digit.
pub open spec fn spec_dec_digit_val(c: char) -> Option<u32> {
    let u = c as u32;
    if 48 <= u <= 57 {
        Some((u - 48) as u32)
    } else {
        None
    }
}

/// The numeric value of one digit in the given base (10 or 16).
pub open spec fn spec_digit_val(c: char, hex: bool) -> Option<u32> {
    if hex {
        spec_hex_digit_val(c)
    } else {
        spec_dec_digit_val(c)
    }
}

/// The unbounded value of a digit string, most significant first; `None`
/// on any character that is no digit of the base.
pub open spec fn spec_radix_value(s: Seq<char>, hex: bool) -> Option<nat>
    decreases s.len(),
{
    if s.len() == 0 {
        Some(0)
    } else {
        match (spec_radix_value(s.drop_last(), hex), spec_digit_val(s.last(), hex)) {
            (Some(v), Some(d)) => Some((v * (if hex { 16nat } else { 10nat }) + d) as nat),
            _ => None,
        }
    }
}

/// How a digit string parses as a 32-bit value: empty strings, stray
/// characters and values over `u32::MAX` are rejected.
pub open spec fn spec_parse_radix(s: Seq<char>, hex: bool) -> Result<u32, ParseIdError> {
    if s.len() == 0 {
        Err(ParseIdError {})
    } else {
        match spec_radix_value(s, hex) {
            Some(v) => if v <= u32::MAX {
                Ok(v as u32)
            } else {
                Err(ParseIdError {})
            },
            None => Err(ParseIdError {}),
        }
    }
}

/// Whether the trimmed token holds a hex letter anywhere (so that bare
/// hex like `1F` parses as hex even without a `0x` prefix).
pub open spec fn spec_has_hex_letter(s: Seq<char>) -> bool {
    exists|i: int|
        0 <= i < s.len() && {
            let u = #[trigger] s[i] as u32;
            (97 <= u <= 102) || (65 <= u <= 70)
        }
}

/// How one ID token parses: trimmed, then hex with an `0x`/`0X` prefix,
/// hex when a hex letter occurs anywhere, decimal otherwise.
pub open spec fn spec_parse_u32_id(s: Seq<char>) -> Result<u32, ParseIdError> {
    let t = spec_trim(s);
    if t.len() >= 2 && t[0] == '0' && (t[1] == 'x' || t[1] == 'X') {
        spec_parse_radix(t.skip(2), true)
    } else if spec_has_hex_letter(t) {
        spec_parse_radix(t, true)
    } else {
        spec_parse_radix(t, false)
    }
}

/// How one ID-range token parses: a single value `V` is the range
/// `V..=V`; `A-B` is the range between the two, whichever order they
/// come in.
pub open spec fn spec_parse_id_range(s: Seq<char>) -> Result<IdRange, ParseIdError> {
    let t = spec_trim(s);
    match spec_find_char(t, '-') {
        Some(i) => match (spec_parse_u32_id(t.take(i)), spec_parse_u32_id(t.skip(i + 1))) {
            (Ok(a), Ok(b)) => if a <= b {
                Ok(IdRange { start: a, end: b })
            } else {
                Ok(IdRange { start: b, end: a })
            },
            (Err(e), _) => Err(e),
            (_, Err(e)) => Err(e),
        },
        None => match spec_parse_u32_id(t) {
            Ok(v) => Ok(IdRange { start: v, end: v }),
            Err(e) => Err(e),
        },
    }
}

/// The digit value of one character in the given base.
fn digit_val(c: char, hex: bool) -> (r: Option<u32>)
    ensures
        r == spec_digit_val(c, hex),
{
    let u = c as u32;
    if 48 <= u && u <= 57 {
        Some(u - 48)
    } else if hex && 97 <= u && u <= 102 {
        Some(u - 87)
    } else if hex && 65 <= u && u <= 70 {
        Some(u - 55)
    } else {
        None
    }
}

/// A prefix that already exceeds `u32::MAX`, or holds a bad digit, dooms
/// the whole string.
proof fn lemma_radix_prefix_dooms(s: Seq<char>, hex: bool, i: int)
    requires
        0 <= i <= s.len(),
        match spec_radix_value(s.take(i), hex) {
            Some(v) => v > u32::MAX,
            None => true,
        },
    ensures
        match spec_radix_value(s, hex) {
            Some(v) => v > u32::MAX,
            None => true,
        },
    decreases s.len() - i,
{
    if i < s.len() {
        assert(s.take(i + 1).drop_last() =~= s.take(i));
        assert(s.take(i + 1).last() == s[i]);
        match spec_radix_value(s.take(i), hex) {
            Some(v) => {
                match spec_digit_val(s[i], hex) {
                    Some(d) => {
                        let radix: nat = if hex {
                            16
                        } else {
                            10
                        };
                        assert(v * radix >= v) by {
                            vstd::arithmetic::mul::lemma_mul_inequality(1, radix as int, v as int);
                            vstd::arithmetic::mul::lemma_mul_is_commutative(radix as int, v as int);
                            vstd::arithmetic::mul::lemma_mul_basics(v as int);
                        }
                    },
                    None => {},
                }
            },
            None => {},
        }
        lemma_radix_prefix_dooms(s, hex, i + 1);
    } else {
        assert(s.take(i) =~= s);
    }
}

/// Parse a digit string in the given base.
fn parse_radix(s: &str, start: usize, end: usize, hex: bool) -> (r: Result<u32, ParseIdError>)
    requires
        start <= end <= s@.len(),
    ensures
        r == spec_parse_radix(s@.subrange(start as int, end as int), hex),
{
    let ghost t = s@.subrange(start as int, end as int);
    if start == end {
        return Err(ParseIdError {});
    }
    let mut acc: u64 = 0;
    let mut i: usize = start;
    while i < end
        invariant
            start <= i <= end <= s@.len(),
            t == s@.subrange(start as int, end as int),
            acc <= u32::MAX,
            spec_radix_value(t.take(i - start), hex) == Some(acc as nat),
        decreases end - i,
    {
        let c = s.get_char(i);
        proof {
            assert(t.take(i - start + 1).drop_last() =~= t.take(i - start));
            assert(t.take(i - start + 1).last() == s@[i as int]);
        }
        match digit_val(c, hex) {
            None => {
                proof {
                    lemma_radix_prefix_dooms(t, hex, i - start + 1);
                }
                return Err(ParseIdError {});
            },
            Some(d) => {
                let radix: u64 = if hex {
                    16
                } else {
                    10
                };
                acc = acc * radix + d as u64;
                if acc > 0xFFFF_FFFF {
                    proof {
                        lemma_radix_prefix_dooms(t, hex, i - start + 1);
                    }
                    return Err(ParseIdError {});
                }
            },
        }
        i = i + 1;
    }
    proof {
        assert(t.take(end - start) =~= t);
    }
    Ok(acc as u32)
}

/// Parse one ID token, hex or decimal.
pub fn parse_u32_id(tok: &str) -> (r: Result<u32, ParseIdError>)
    ensures
        r == spec_parse_u32_id(tok@),
{
    let (lo, hi) = trim_bounds(tok);
    let ghost t = spec_trim(tok@);
    if hi - lo >= 2 && tok.get_char(lo) == '0' && {
        let c1 = tok.get_char(lo + 1);
        c1 == 'x' || c1 == 'X'
    } {
        proof {
            assert(t.skip(2) =~= tok@.subrange(lo + 2, hi as int));
        }
        parse_radix(tok, lo + 2, hi, true)
    } else {
        let mut has_letter = false;
        let mut i: usize = lo;
        while i < hi
            invariant
                lo <= i <= hi <= tok@.len(),
                t == tok@.subrange(lo as int, hi as int),
                has_letter == exists|j: int|
                    lo <= j < i && {
                        let u = #[trigger] tok@[j] as u32;
                        (97 <= u <= 102) || (65 <= u <= 70)
                    },
            decreases hi - i,
        {
            let u = tok.get_char(i) as u32;
            if (97 <= u && u <= 102) || (65 <= u && u <= 70) {
                has_letter = true;
            }
            i = i + 1;
        }
        proof {
            assert(spec_has_hex_letter(t) == has_letter) by {
                if has_letter {
                    let j = choose|j: int|
                        lo <= j < hi && {
                            let u = #[trigger] tok@[j] as u32;
                            (97 <= u <= 102) || (65 <= u <= 70)
                        };
                    assert(t[j - lo] == tok@[j]);
                }
                if spec_has_hex_letter(t) {
                    let j = choose|j: int|
                        0 <= j < t.len() && {
                            let u = #[trigger] t[j] as u32;
                            (97 <= u <= 102) || (65 <= u <= 70)
                        };
                    assert(tok@[j + lo] == t[j]);
                }
            }
        }
        parse_radix(tok, lo, hi, has_letter)
    }
}

/// Parse one ID-range token.
pub fn parse_id_range(s: &str) -> (r: Result<IdRange, ParseIdError>)
    ensures
        r == spec_parse_id_range(s@),
{
    let (lo, hi) = trim_bounds(s);
    let ghost t = spec_trim(s@);
    let mut i: usize = lo;
    while i < hi
        invariant
            lo <= i <= hi <= s@.len(),
            t == s@.subrange(lo as int, hi as int),
            t == spec_trim(s@),
            forall|j: int| lo <= j < i ==> s@[j] != '-',
        decreases hi - i,
    {
        if s.get_char(i) == '-' {
            proof {
                assert(t[i - lo] == s@[i as int]);
                assert(forall|j: int| 0 <= j < i - lo ==> t[j] == s@[j + lo] && t[j] != '-');
                assert(spec_find_char(t, '-') == Some(i - lo)) by {
                    assert(0 <= i - lo < t.len() && t[i - lo] == '-' && (forall|j: int|
                        0 <= j < i - lo ==> t[j] != '-'));
                    let w = choose|w: int|
                        0 <= w < t.len() && t[w] == '-' && (forall|j: int|
                            0 <= j < w ==> t[j] != '-');
                    if w < i - lo {
                        assert(t[w] != '-');
                    } else if w > i - lo {
                        assert(t[i - lo] != '-');
                    }
                }
                assert(t.take(i - lo) =~= s@.subrange(lo as int, i as int));
                assert(t.skip(i - lo + 1) =~= s@.subrange(i + 1, hi as int));
            }
            let a = parse_u32_id_sub(s, lo, i);
            let b = parse_u32_id_sub(s, i + 1, hi);
            return match (a, b) {
                (Ok(av), Ok(bv)) => if av <= bv {
                    Ok(IdRange { start: av, end: bv })
                } else {
                    Ok(IdRange { start: bv, end: av })
                },
                (Err(e), _) => Err(e),
                (_, Err(e)) => Err(e),
            };
        }
        i = i + 1;
    }
    proof {
        assert(forall|j: int| 0 <= j < t.len() ==> t[j] == s@[j + lo] && t[j] != '-');
        assert(spec_find_char(t, '-') is None);
        assert(spec_trim(t) =~= t) by {
            lemma_trim_of_trimmed(s@);
        }
    }
    match parse_u32_id_sub(s, lo, hi) {
        Ok(v) => Ok(IdRange { start: v, end: v }),
        Err(e) => Err(e),
    }
}

/// Parse the ID token standing between two positions of a larger string.
fn parse_u32_id_sub(s: &str, start: usize, end: usize) -> (r: Result<u32, ParseIdError>)
    requires
        start <= end <= s@.len(),
    ensures
        r == spec_parse_u32_id(s@.subrange(start as int, end as int)),
{
    let sub = s.substring_char(start, end);
    parse_u32_id(sub)
}

/// Trimming is idempotent.
proof fn lemma_trim_of_trimmed(s: Seq<char>)
    ensures
        spec_trim(spec_trim(s)) == spec_trim(s),
{
    lemma_trim_start_no_leading_space(s);
    lemma_trim_end_no_trailing_space(spec_trim_start(s));
    lemma_trim_end_keeps_head(spec_trim_start(s));
    let t = spec_trim(s);
    assert(spec_trim_start(t) == t);
    assert(spec_trim_end(t) == t);
}

proof fn lemma_trim_start_no_leading_space(s: Seq<char>)
    ensures
        spec_trim_start(s).len() > 0 ==> !crate::strutil::spec_is_space(spec_trim_start(s)[0]),
    decreases s.len(),
{
    if s.len() > 0 && crate::strutil::spec_is_space(s[0]) {
        lemma_trim_start_no_leading_space(s.drop_first());
    }
}

proof fn lemma_trim_end_no_trailing_space(s: Seq<char>)
    ensures
        spec_trim_end(s).len() > 0 ==> !crate::strutil::spec_is_space(spec_trim_end(s).last()),
    decreases s.len(),
{
    if s.len() > 0 && crate::strutil::spec_is_space(s.last()) {
        lemma_trim_end_no_trailing_space(s.drop_last());
    }
}

proof fn lemma_trim_end_keeps_head(s: Seq<char>)
    ensures
        spec_trim_end(s).len() > 0 ==> spec_trim_end(s)[0] == s[0],
    decreases s.len(),
{
    if s.len() > 0 && crate::strutil::spec_is_space(s.last()) {
        lemma_trim_end_keeps_head(s.drop_last());
    }
}

impl Filters {
    /// Build the filters from the command line's tokens: every ID token
    /// must parse; message and signal substrings are lowercased.
    pub fn from_parts(ids: &Vec<String>, msgs: &Vec<String>, sigs: &Vec<String>) -> (r: Result<
        Filters,
        ParseIdError,
    >)
        ensures
            r is Ok <==> (forall|i: int|
                0 <= i < ids@.len() ==> (#[trigger] spec_parse_id_range(ids@[i]@)) is Ok),
            r matches Ok(f) ==> {
                &&& f.id_ranges@.len() == ids@.len()
                &&& forall|i: int|
                    0 <= i < ids@.len() ==> Ok::<IdRange, ParseIdError>(
                        #[trigger] f.id_ranges@[i],
                    ) == spec_parse_id_range(ids@[i]@)
                &&& f.msg_filters@.len() == msgs@.len()
                &&& forall|i: int|
                    0 <= i < msgs@.len() ==> (#[trigger] f.msg_filters@[i])@ == lower_of(msgs@[i]@)
                &&& f.sig_filters@.len() == sigs@.len()
                &&& forall|i: int|
                    0 <= i < sigs@.len() ==> (#[trigger] f.sig_filters@[i])@ == lower_of(sigs@[i]@)
            },
    {
        let mut id_ranges: Vec<IdRange> = Vec::new();
        let mut i: usize = 0;
        while i < ids.len()
            invariant
                i <= ids@.len(),
                id_ranges@.len() == i,
                forall|j: int|
                    0 <= j < i ==> (#[trigger] spec_parse_id_range(ids@[j]@)) is Ok,
                forall|j: int|
                    0 <= j < i ==> Ok::<IdRange, ParseIdError>(#[trigger] id_ranges@[j])
                        == spec_parse_id_range(ids@[j]@),
            decreases ids@.len() - i,
        {
            match parse_id_range(ids[i].as_str()) {
                Ok(range) => {
                    id_ranges.push(range);
                },
                Err(e) => {
                    return Err(e);
                },
            }
            i = i + 1;
        }
        let mut msg_filters: Vec<String> = Vec::new();
        let mut k: usize = 0;
        while k < msgs.len()
            invariant
                k <= msgs@.len(),
                msg_filters@.len() == k,
                forall|j: int|
                    0 <= j < k ==> (#[trigger] msg_filters@[j])@ == lower_of(msgs@[j]@),
            decreases msgs@.len() - k,
        {
            msg_filters.push(lowercase(msgs[k].as_str()));
            k = k + 1;
        }
        let mut sig_filters: Vec<String> = Vec::new();
        let mut m: usize = 0;
        while m < sigs.len()
            invariant
                m <= sigs@.len(),
                sig_filters@.len() == m,
                forall|j: int|
                    0 <= j < m ==> (#[trigger] sig_filters@[j])@ == lower_of(sigs@[j]@),
            decreases sigs@.len() - m,
        {
            sig_filters.push(lowercase(sigs[m].as_str()));
            m = m + 1;
        }
        Ok(Filters { id_ranges, msg_filters, sig_filters })
    }

    /// Whether a frame with this identifier passes: no ID filter passes
    /// everything; otherwise any one matching range suffices.
    pub fn match_id(&self, id: u32) -> (r: bool)
        ensures
            r == (self.id_ranges@.len() == 0 || exists|i: int|
                0 <= i < self.id_ranges@.len() && (#[trigger] self.id_ranges@[i]).start <= id
                    && id <= self.id_ranges@[i].end),
    {
        if self.id_ranges.len() == 0 {
            return true;
        }
        let mut i: usize = 0;
        while i < self.id_ranges.len()
            invariant
                i <= self.id_ranges@.len(),
                forall|j: int|
                    0 <= j < i ==> !((#[trigger] self.id_ranges@[j]).start <= id
                        && id <= self.id_ranges@[j].end),
            decreases self.id_ranges@.len() - i,
        {
            if self.id_ranges[i].contains(id) {
                return true;
            }
            i = i + 1;
        }
        false
    }
}

/// Clamp a signal bit length into the representable 0..=64.
pub fn safe_len(len: usize) -> (r: usize)
    ensures
        r == (if len == 0 {
            0int
        } else if len >= 64 {
            64int
        } else {
            len as int
        }),
{
    if len == 0 {
        0
    } else if len >= 64 {
        64
    } else {
        len
    }
}

/// The low `len` bits set, for clamped lengths up to 64.
pub open spec fn spec_bitmask(len: nat) -> u64 {
    if len == 0 {
        0u64
    } else if len >= 64 {
        u64::MAX
    } else {
        ((1u64 << len) - 1) as u64
    }
}

/// The mask with the low `len` bits set.
pub fn bitmask(len: usize) -> (r: u64)
    ensures
        r == spec_bitmask(len as nat),
{
    let len = safe_len(len);
    if len == 0 {
        0
    } else if len == 64 {
        u64::MAX
    } else {
        proof {
            assert((1u64 << (len as u64)) >= 1) by (bit_vector)
                requires
                    0 < len < 64,
            ;
        }
        (1u64 << (len as u64)) - 1
    }
}

/// The 64-bit little-endian value of the frame's eight data bytes.
pub open spec fn spec_u64_from_le(b: Seq<u8>) -> u64
    recommends
        b.len() == 8,
{
    (b[0] as u64) | ((b[1] as u64) << 8) | ((b[2] as u64) << 16) | ((b[3] as u64) << 24) | ((
    b[4] as u64) << 32) | ((b[5] as u64) << 40) | ((b[6] as u64) << 48) | ((b[7] as u64) << 56)
}

/// Extract `len` bits starting at `start_bit` of the frame data read as
/// one little-endian 64-bit value.
pub fn extract_le_bits(data: &[u8; 8], start_bit: usize, len: usize) -> (r: u64)
    requires
        start_bit < 64,
    ensures
        r == (spec_u64_from_le(data@) >> (start_bit as u64)) & spec_bitmask(
            if len == 0 {
                0nat
            } else if len >= 64 {
                64nat
            } else {
                len as nat
            },
        ),
        len == 0 ==> r == 0,
{
    let len = safe_len(len);
    if len == 0 {
        proof {
            let x = spec_u64_from_le(data@) >> (start_bit as u64);
            assert(x & 0u64 == 0u64) by (bit_vector);
        }
        return 0;
    }
    let le = (data[0] as u64) | ((data[1] as u64) << 8u64) | ((data[2] as u64) << 16u64) | ((
    data[3] as u64) << 24u64) | ((data[4] as u64) << 32u64) | ((data[5] as u64) << 40u64) | ((
    data[6] as u64) << 48u64) | ((data[7] as u64) << 56u64);
    (le >> (start_bit as u64)) & bitmask(len)
}

/// One bit of the frame data in big-endian (Motorola, MSB0) numbering.
pub open spec fn spec_be_bit(data: Seq<u8>, pos: nat) -> u64
    recommends
        pos < 64,
{
    ((data[(pos / 8) as int] as u64) >> ((7 - pos % 8) as u64)) & 1
}

/// The accumulator after consuming `k` bits downward from `start`: bits
/// past position zero contribute nothing and end the walk.
pub open spec fn spec_be_acc(data: Seq<u8>, start: nat, k: nat) -> u64
    decreases k,
{
    if k == 0 {
        0u64
    } else {
        let prev = spec_be_acc(data, start, (k - 1) as nat);
        if k - 1 <= start {
            (prev << 1) | spec_be_bit(data, (start - (k - 1)) as nat)
        } else {
            prev
        }
    }
}

/// Extract `len` bits of the frame data in big-endian (Motorola, MSB0)
/// numbering, walking down from `start_bit`; the walk stops at bit zero.
pub fn extract_be_bits(data: &[u8; 8], start_bit: usize, len: usize) -> (r: u64)
    requires
        start_bit < 64,
    ensures
        r == spec_be_acc(
            data@,
            start_bit as nat,
            if len == 0 {
                0nat
            } else if len >= 64 {
                64nat
            } else {
                len as nat
            },
        ),
        len == 0 ==> r == 0,
{
    let l = safe_len(len);
    if l == 0 {
        return 0;
    }
    let mut out: u64 = 0;
    let mut j: usize = 0;
    while j < l
        invariant
            j <= l <= 64,
            l >= 1,
            l == (if len == 0 { 0int } else if len >= 64 { 64int } else { len as int }),
            start_bit < 64,
            data@.len() == 8,
            out == spec_be_acc(data@, start_bit as nat, j as nat),
        decreases l - j,
    {
        if j > start_bit {
            proof {
                lemma_be_acc_stalls(data@, start_bit as nat, j as nat, l as nat);
            }
            return out;
        }
        let pos = start_bit - j;
        let byte = pos / 8;
        let bit_in_byte = 7 - (pos % 8);
        let bit = (data[byte] >> (bit_in_byte as u8)) & 1;
        proof {
            let bv: u8 = data@[pos as int / 8];
            let sh: u8 = (7 - pos as int % 8) as u8;
            assert(sh < 8);
            assert(((bv as u64) >> (sh as u64)) & 1 == ((bv >> sh) & 1) as u64) by (bit_vector);
            assert(spec_be_bit(data@, pos as nat) == bit as u64);
        }
        out = (out << 1u64) | (bit as u64);
        j = j + 1;
    }
    out
}

/// Once the walk has passed bit zero, further steps change nothing.
proof fn lemma_be_acc_stalls(data: Seq<u8>, start: nat, j: nat, k: nat)
    requires
        j <= k,
        j > start,
    ensures
        spec_be_acc(data, start, k) == spec_be_acc(data, start, j),
    decreases k - j,
{
    if j < k {
        lemma_be_acc_stalls(data, start, j, (k - 1) as nat);
    }
}

/// Interpret the low `len` bits of `raw` as a two's-complement signed
/// value: the sign bit extends upward when set, and is cleared away when
/// not.
pub fn sign_extend_u64(raw: u64, len: usize) -> (r: i64)
    ensures
        len == 0 ==> r == 0,
        1 <= len < 64 ==> r == (if raw & (1u64 << ((len - 1) as u64)) != 0 {
            (raw | ((!0u64) << (len as u64))) as i64
        } else {
            (raw & !((!0u64) << (len as u64))) as i64
        }),
        len >= 64 ==> r == raw as i64,
{
    let len = safe_len(len);
    if len == 0 {
        return 0;
    }
    if len == 64 {
        return raw as i64;
    }
    let sign_bit = 1u64 << ((len - 1) as u64);
    let mask = (!0u64) << (len as u64);
    if (raw & sign_bit) != 0 {
        (raw | mask) as i64
    } else {
        (raw & !mask) as i64
    }
}

} // verus!
