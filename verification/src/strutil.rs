//! Small verified string helpers shared by the parsing and reporting
//! modules, plus the one trusted conversion from a vector of characters
//! back into a `String`.

use vstd::prelude::*;

verus! {

/// Character-by-character string equality.
pub fn str_eq(a: &str, b: &str) -> (r: bool)
    ensures
        r == (a@ == b@),
{
    let an = a.unicode_len();
    let bn = b.unicode_len();
    if an != bn {
        proof {
            assert(a@ != b@);
        }
        return false;
    }
    let mut i: usize = 0;
    while i < an
        invariant
            i <= an,
            an == a@.len(),
            an == b@.len(),
            forall|j: int| 0 <= j < i ==> a@[j] == b@[j],
        decreases an - i,
    {
        if a.get_char(i) != b.get_char(i) {
            return false;
        }
        i = i + 1;
    }
    proof {
        assert(a@ =~= b@);
    }
    true
}

/// Relies on `String::from_iter` over `char`: the resulting string holds
/// exactly the given characters, in order.
#[verifier::external_body]
pub fn chars_to_string(v: Vec<char>) -> (r: String)
    ensures
        r@ == v@,
{
    v.into_iter().collect()
}

/// What `str::to_lowercase` returns; the result depends on the characters
/// alone.
pub uninterp spec fn lower_of(s: Seq<char>) -> Seq<char>;

/// Relies on `str::to_lowercase`: Unicode lowercasing, a function of the
/// characters alone; an empty string stays empty.
#[verifier::external_body]
pub fn lowercase(s: &str) -> (r: String)
    ensures
        r@ == lower_of(s@),
        s@.len() == 0 ==> r@.len() == 0,
{
    s.to_lowercase()
}

/// The ASCII whitespace characters the parsers trim.
pub open spec fn spec_is_space(c: char) -> bool {
    c == ' ' || c == '\t' || c == '\n' || c == '\r'
}

/// The sequence without its leading whitespace.
pub open spec fn spec_trim_start(s: Seq<char>) -> Seq<char>
    decreases s.len(),
{
    if s.len() > 0 && spec_is_space(s[0]) {
        spec_trim_start(s.drop_first())
    } else {
        s
    }
}

/// The sequence without its trailing whitespace.
pub open spec fn spec_trim_end(s: Seq<char>) -> Seq<char>
    decreases s.len(),
{
    if s.len() > 0 && spec_is_space(s.last()) {
        spec_trim_end(s.drop_last())
    } else {
        s
    }
}

/// The sequence without leading and trailing whitespace.
pub open spec fn spec_trim(s: Seq<char>) -> Seq<char> {
    spec_trim_end(spec_trim_start(s))
}

/// Whether a character is ASCII whitespace.
pub fn is_space(c: char) -> (r: bool)
    ensures
        r == spec_is_space(c),
{
    c == ' ' || c == '\t' || c == '\n' || c == '\r'
}

/// The bounds of the trimmed middle of `s`: the characters from `lo` to
/// `hi` are `s` without its leading and trailing whitespace.
pub fn trim_bounds(s: &str) -> (r: (usize, usize))
    ensures
        r.0 <= r.1 <= s@.len(),
        s@.subrange(r.0 as int, r.1 as int) == spec_trim(s@),
{
    let n = s.unicode_len();
    let mut lo: usize = 0;
    proof {
        assert(s@.skip(0) =~= s@);
    }
    while lo < n && is_space(s.get_char(lo))
        invariant
            lo <= n,
            n == s@.len(),
            spec_trim_start(s@) == spec_trim_start(s@.skip(lo as int)),
        decreases n - lo,
    {
        proof {
            assert(s@.skip(lo as int)[0] == s@[lo as int]);
            assert(s@.skip(lo as int).drop_first() =~= s@.skip(lo + 1));
        }
        lo = lo + 1;
    }
    proof {
        if lo == n {
            assert(s@.skip(lo as int) =~= Seq::<char>::empty());
        }
        assert(spec_trim_start(s@) == s@.skip(lo as int));
    }
    let mut hi: usize = n;
    proof {
        assert(s@.skip(lo as int).take(n - lo) =~= s@.skip(lo as int));
    }
    while hi > lo && is_space(s.get_char(hi - 1))
        invariant
            lo <= hi <= n,
            n == s@.len(),
            spec_trim_start(s@) == s@.skip(lo as int),
            spec_trim_end(s@.skip(lo as int)) == spec_trim_end(
                s@.skip(lo as int).take(hi - lo),
            ),
        decreases hi,
    {
        proof {
            let sub = s@.skip(lo as int).take(hi - lo);
            assert(sub.last() == s@[hi - 1]);
            assert(sub.drop_last() =~= s@.skip(lo as int).take(hi - 1 - lo));
        }
        hi = hi - 1;
    }
    proof {
        let sub = s@.skip(lo as int).take(hi - lo);
        if hi == lo {
            assert(sub =~= Seq::<char>::empty());
        } else {
            assert(sub.last() == s@[hi - 1]);
        }
        assert(spec_trim(s@) == sub);
        assert(s@.subrange(lo as int, hi as int) =~= sub);
    }
    (lo, hi)
}

/// The first position of `c` in `s`, if any.
pub open spec fn spec_find_char(s: Seq<char>, c: char) -> Option<int> {
    if exists|i: int| 0 <= i < s.len() && s[i] == c {
        Some(
            choose|i: int|
                0 <= i < s.len() && s[i] == c && (forall|j: int| 0 <= j < i ==> s[j] != c),
        )
    } else {
        None
    }
}

/// The last position of `c` in `s`, if any.
pub open spec fn spec_rfind_char(s: Seq<char>, c: char) -> Option<int> {
    if exists|i: int| 0 <= i < s.len() && s[i] == c {
        Some(
            choose|i: int|
                0 <= i < s.len() && s[i] == c && (forall|j: int| i < j < s.len() ==> s[j] != c),
        )
    } else {
        None
    }
}

/// Characters an uploaded binary may keep in its stored file name:
/// ASCII letters and digits, dash, dot and underscore.
pub open spec fn spec_filename_char_kept(c: char) -> bool {
    let u = c as u32;
    (48 <= u <= 57) || (65 <= u <= 90) || (97 <= u <= 122) || c == '-' || c == '.' || c == '_'
}

/// The name with every disallowed character replaced by an underscore.
pub open spec fn spec_sanitize_chars(s: Seq<char>) -> Seq<char>
    decreases s.len(),
{
    if s.len() == 0 {
        Seq::empty()
    } else {
        spec_sanitize_chars(s.drop_last()).push(
            if spec_filename_char_kept(s.last()) {
                s.last()
            } else {
                '_'
            },
        )
    }
}

/// The part of a path after its last separator: the whole path when it
/// holds none.
pub open spec fn spec_basename(s: Seq<char>) -> Seq<char> {
    match spec_rfind_char(s, '/') {
        Some(i) => s.skip(i + 1),
        None => s,
    }
}

/// Reduce an uploaded file name to a safe one: only the part after the
/// last path separator is kept, every character outside ASCII letters,
/// digits, `-`, `.` and `_` becomes an underscore, and a name with
/// nothing left falls back to `firmware.bin`.
pub fn sanitize_filename(raw: &str) -> (r: String)
    ensures
        r@ == (if spec_sanitize_chars(spec_basename(raw@)).len() == 0 {
            "firmware.bin"@
        } else {
            spec_sanitize_chars(spec_basename(raw@))
        }),
{
    let n = raw.unicode_len();
    let mut start: usize = 0;
    let mut i: usize = 0;
    while i < n
        invariant
            i <= n,
            n == raw@.len(),
            start <= i,
            start == 0 ==> (forall|j: int| 0 <= j < i ==> raw@[j] != '/'),
            start > 0 ==> (raw@[start - 1] == '/' && (forall|j: int|
                start <= j < i ==> raw@[j] != '/')),
        decreases n - i,
    {
        if raw.get_char(i) == '/' {
            start = i + 1;
        }
        i = i + 1;
    }
    proof {
        if start == 0 {
            assert(spec_rfind_char(raw@, '/') is None || raw@.len() == 0 || !(exists|w: int|
                0 <= w < raw@.len() && raw@[w] == '/')) by {
                if exists|w: int| 0 <= w < raw@.len() && raw@[w] == '/' {
                    let w = choose|w: int| 0 <= w < raw@.len() && raw@[w] == '/';
                    assert(raw@[w] != '/');
                }
            }
            assert(spec_basename(raw@) =~= raw@.skip(0));
            assert(raw@.skip(0) =~= raw@);
        } else {
            assert(spec_rfind_char(raw@, '/') == Some(start - 1)) by {
                assert(0 <= start - 1 < raw@.len() && raw@[start - 1] == '/' && (forall|j: int|
                    start - 1 < j < raw@.len() ==> raw@[j] != '/'));
                let w = choose|w: int|
                    0 <= w < raw@.len() && raw@[w] == '/' && (forall|j: int|
                        w < j < raw@.len() ==> raw@[j] != '/');
                if w < start - 1 {
                    assert(raw@[start - 1] != '/');
                } else if w > start - 1 {
                    assert(raw@[w] != '/');
                }
            }
            assert(spec_basename(raw@) == raw@.skip(start as int));
        }
    }
    let mut out: Vec<char> = Vec::new();
    let mut k: usize = start;
    proof {
        assert(raw@.skip(start as int).take(0) =~= Seq::<char>::empty());
    }
    while k < n
        invariant
            start <= k <= n,
            n == raw@.len(),
            spec_basename(raw@) == raw@.skip(start as int),
            out@ == spec_sanitize_chars(raw@.skip(start as int).take(k - start)),
        decreases n - k,
    {
        let c = raw.get_char(k);
        let u = c as u32;
        let kept = (48 <= u && u <= 57) || (65 <= u && u <= 90) || (97 <= u && u <= 122) || c
            == '-' || c == '.' || c == '_';
        proof {
            let sub = raw@.skip(start as int).take(k - start + 1);
            assert(sub.drop_last() =~= raw@.skip(start as int).take(k - start));
            assert(sub.last() == raw@[k as int]);
        }
        if kept {
            out.push(c);
        } else {
            out.push('_');
        }
        k = k + 1;
    }
    proof {
        assert(raw@.skip(start as int).take(n - start) =~= raw@.skip(start as int));
    }
    if out.len() == 0 {
        String::from_str("firmware.bin")
    } else {
        chars_to_string(out)
    }
}

/// The characters of the decimal form of `n`, most significant first.
pub open spec fn spec_decimal(n: nat) -> Seq<char>
    decreases n,
{
    if n < 10 {
        seq![spec_digit_char(n)]
    } else {
        spec_decimal(n / 10).push(spec_digit_char(n % 10))
    }
}

/// The character for one decimal digit.
pub open spec fn spec_digit_char(d: nat) -> char
    recommends
        d < 10,
{
    if d == 0 { '0' }
    else if d == 1 { '1' }
    else if d == 2 { '2' }
    else if d == 3 { '3' }
    else if d == 4 { '4' }
    else if d == 5 { '5' }
    else if d == 6 { '6' }
    else if d == 7 { '7' }
    else if d == 8 { '8' }
    else { '9' }
}

fn digit_char(d: u64) -> (r: char)
    requires
        d < 10,
    ensures
        r == spec_digit_char(d as nat),
{
    if d == 0 { '0' }
    else if d == 1 { '1' }
    else if d == 2 { '2' }
    else if d == 3 { '3' }
    else if d == 4 { '4' }
    else if d == 5 { '5' }
    else if d == 6 { '6' }
    else if d == 7 { '7' }
    else if d == 8 { '8' }
    else { '9' }
}

/// The decimal digits of `n` as characters, most significant first.
pub fn decimal_chars(n: u64) -> (r: Vec<char>)
    ensures
        r@ == spec_decimal(n as nat),
    decreases n,
{
    if n < 10 {
        let mut v: Vec<char> = Vec::new();
        v.push(digit_char(n));
        proof {
            assert(v@ =~= spec_decimal(n as nat));
        }
        v
    } else {
        let mut v = decimal_chars(n / 10);
        v.push(digit_char(n % 10));
        v
    }
}

} // verus!
