//! Character-level string operations used by the applet's rules: trimming
//! user input, matching Bluetooth addresses without regard to ASCII case,
//! finding a substring and reading a small decimal number.
use vstd::prelude::*;
use vstd::string::*;

verus! {

/// The Unicode `White_Space` property, the set of characters that
/// `char::is_whitespace` accepts.
pub open spec fn is_white_space(c: char) -> bool {
    let u = c as u32;
    ||| 0x09 <= u <= 0x0D
    ||| u == 0x20
    ||| u == 0x85
    ||| u == 0xA0
    ||| u == 0x1680
    ||| 0x2000 <= u <= 0x200A
    ||| u == 0x2028
    ||| u == 0x2029
    ||| u == 0x202F
    ||| u == 0x205F
    ||| u == 0x3000
}

/// `s` without its leading white space.
pub open spec fn trim_start_spec(s: Seq<char>) -> Seq<char>
    decreases s.len(),
{
    if s.len() > 0 && is_white_space(s[0]) {
        trim_start_spec(s.drop_first())
    } else {
        s
    }
}

/// `s` without its trailing white space.
pub open spec fn trim_end_spec(s: Seq<char>) -> Seq<char>
    decreases s.len(),
{
    if s.len() > 0 && is_white_space(s.last()) {
        trim_end_spec(s.drop_last())
    } else {
        s
    }
}

/// `s` without leading and trailing white space.
pub open spec fn trim_spec(s: Seq<char>) -> Seq<char> {
    trim_end_spec(trim_start_spec(s))
}

/// The code of `c` with an ASCII capital letter replaced by its small letter.
pub open spec fn ascii_fold(c: char) -> int {
    let u = c as u32;
    if 0x41 <= u <= 0x5A {
        u + 0x20
    } else {
        u as int
    }
}

/// The two strings are equal once ASCII capitals are read as small letters.
pub open spec fn eq_ignore_ascii_case_spec(a: Seq<char>, b: Seq<char>) -> bool {
    &&& a.len() == b.len()
    &&& forall|i: int| 0 <= i < a.len() ==> #[trigger] ascii_fold(a[i]) == ascii_fold(b[i])
}

/// `needle` occurs in `hay` at position `i`.
pub open spec fn occurs_at(hay: Seq<char>, needle: Seq<char>, i: int) -> bool {
    0 <= i && i + needle.len() <= hay.len() && hay.subrange(i, i + needle.len()) == needle
}

/// `needle` occurs somewhere in `hay`.
pub open spec fn contains_spec(hay: Seq<char>, needle: Seq<char>) -> bool {
    exists|i: int| occurs_at(hay, needle, i)
}

/// The character is one of the ASCII digits `0` to `9`.
pub open spec fn is_digit(c: char) -> bool {
    0x30 <= (c as u32) <= 0x39
}

/// The value of a run of decimal digits.
pub open spec fn digits_value(s: Seq<char>) -> nat
    decreases s.len(),
{
    if s.len() == 0 {
        0
    } else {
        (10 * digits_value(s.drop_last()) + ((s.last() as u32) - 0x30)) as nat
    }
}

/// `s` without one leading `+`, if it has one.
pub open spec fn unsigned_digits(s: Seq<char>) -> Seq<char> {
    if s.len() > 0 && s[0] == '+' {
        s.drop_first()
    } else {
        s
    }
}

/// What parsing `s` as a `u8` gives: an optional `+`, then at least one
/// decimal digit, and a value below 256.
pub open spec fn parse_u8_spec(s: Seq<char>) -> Option<u8> {
    let body = unsigned_digits(s);
    if body.len() > 0 && (forall|i: int| 0 <= i < body.len() ==> #[trigger] is_digit(body[i]))
        && digits_value(body) < 256 {
        Some(digits_value(body) as u8)
    } else {
        None
    }
}

/// Tells whether `c` has the Unicode `White_Space` property.
pub fn is_white_space_char(c: char) -> (b: bool)
    ensures
        b == is_white_space(c),
{
    let u = c as u32;
    (0x09 <= u && u <= 0x0D) || u == 0x20 || u == 0x85 || u == 0xA0 || u == 0x1680 || (0x2000
        <= u && u <= 0x200A) || u == 0x2028 || u == 0x2029 || u == 0x202F || u == 0x205F || u
        == 0x3000
}

proof fn lemma_trim_start_step(s: Seq<char>, i: int, n: int)
    requires
        0 <= i < n,
        n == s.len(),
        is_white_space(s[i]),
    ensures
        trim_start_spec(s.subrange(i, n)) == trim_start_spec(s.subrange(i + 1, n)),
{
    assert(s.subrange(i, n).drop_first() =~= s.subrange(i + 1, n));
}

proof fn lemma_trim_end_step(s: Seq<char>, i: int, j: int)
    requires
        0 <= i < j <= s.len(),
        is_white_space(s[j - 1]),
    ensures
        trim_end_spec(s.subrange(i, j)) == trim_end_spec(s.subrange(i, j - 1)),
{
    assert(s.subrange(i, j).drop_last() =~= s.subrange(i, j - 1));
}

/// `s` with leading and trailing white space removed, as `str::trim` does.
pub fn trim(s: &str) -> (t: String)
    ensures
        t@ == trim_spec(s@),
{
    let n = s.unicode_len();
    let mut start: usize = 0;
    assert(s@.subrange(0, n as int) =~= s@);
    while start < n && is_white_space_char(s.get_char(start))
        invariant
            start <= n,
            n == s@.len(),
            trim_start_spec(s@) == trim_start_spec(s@.subrange(start as int, n as int)),
        decreases n - start,
    {
        proof {
            lemma_trim_start_step(s@, start as int, n as int);
        }
        start = start + 1;
    }
    assert(trim_start_spec(s@) == s@.subrange(start as int, n as int));
    let mut end: usize = n;
    while end > start && is_white_space_char(s.get_char(end - 1))
        invariant
            start <= end <= n,
            n == s@.len(),
            trim_spec(s@) == trim_end_spec(s@.subrange(start as int, end as int)),
        decreases end - start,
    {
        proof {
            lemma_trim_end_step(s@, start as int, end as int);
        }
        end = end - 1;
    }
    let kept = s.substring_char(start, end);
    kept.to_owned()
}

/// Code of `c` with an ASCII capital letter read as its small letter.
fn ascii_fold_code(c: char) -> (u: u32)
    ensures
        u == ascii_fold(c),
{
    let u = c as u32;
    if 0x41 <= u && u <= 0x5A {
        u + 0x20
    } else {
        u
    }
}

/// Compares two strings as `str::eq_ignore_ascii_case` does: equal once
/// ASCII letters are read without case.
pub fn eq_ignore_ascii_case(a: &str, b: &str) -> (r: bool)
    ensures
        r == eq_ignore_ascii_case_spec(a@, b@),
{
    let n = a.unicode_len();
    let m = b.unicode_len();
    if n != m {
        return false;
    }
    let mut i: usize = 0;
    while i < n
        invariant
            n == a@.len(),
            n == b@.len(),
            i <= n,
            forall|k: int| 0 <= k < i ==> #[trigger] ascii_fold(a@[k]) == ascii_fold(b@[k]),
        decreases n - i,
    {
        if ascii_fold_code(a.get_char(i)) != ascii_fold_code(b.get_char(i)) {
            assert(!(ascii_fold(a@[i as int]) == ascii_fold(b@[i as int])));
            return false;
        }
        i = i + 1;
    }
    true
}

/// Tells whether `needle` occurs in `hay`, as `str::contains` does for a
/// string pattern.
pub fn contains(hay: &str, needle: &str) -> (r: bool)
    ensures
        r == contains_spec(hay@, needle@),
{
    let n = hay.unicode_len();
    let m = needle.unicode_len();
    if m > n {
        assert forall|i: int| !occurs_at(hay@, needle@, i) by {}
        return false;
    }
    if m == 0 {
        assert(hay@.subrange(0, 0) =~= needle@);
        assert(occurs_at(hay@, needle@, 0));
        return true;
    }
    let mut i: usize = 0;
    while i <= n - m
        invariant
            n == hay@.len(),
            m == needle@.len(),
            1 <= m <= n,
            i <= n - m + 1,
            forall|j: int| 0 <= j < i ==> !#[trigger] occurs_at(hay@, needle@, j),
        decreases n - m + 1 - i,
    {
        let mut k: usize = 0;
        let mut same = true;
        while k < m && same
            invariant
                n == hay@.len(),
                m == needle@.len(),
                i + m <= n,
                k <= m,
                same ==> forall|q: int| 0 <= q < k ==> hay@[i + q] == needle@[q],
                !same ==> !occurs_at(hay@, needle@, i as int),
            decreases m - k + (if same { 1int } else { 0 }),
        {
            if hay.get_char(i + k) != needle.get_char(k) {
                assert(hay@.subrange(i as int, i + m)[k as int] != needle@[k as int]);
                same = false;
            } else {
                k = k + 1;
            }
        }
        if same {
            assert(hay@.subrange(i as int, i + m) =~= needle@);
            assert(occurs_at(hay@, needle@, i as int));
            return true;
        }
        i = i + 1;
    }
    assert forall|j: int| !occurs_at(hay@, needle@, j) by {
        if 0 <= j && j + m <= n {
            assert(j < i);
        }
    }
    false
}

proof fn lemma_digits_push(s: Seq<char>, c: char)
    requires
        is_digit(c),
    ensures
        digits_value(s.push(c)) == 10 * digits_value(s) + ((c as u32) - 0x30),
        digits_value(s.push(c)) >= digits_value(s),
{
    assert(s.push(c).drop_last() =~= s);
}

/// Reads `s` as a `u8` as `str::parse::<u8>` does: an optional `+`, then
/// decimal digits whose value is below 256; anything else gives `None`.
pub fn parse_u8(s: &str) -> (r: Option<u8>)
    ensures
        r == parse_u8_spec(s@),
{
    let n = s.unicode_len();
    let mut start: usize = 0;
    if n > 0 && s.get_char(0) == '+' {
        start = 1;
    }
    let ghost body = unsigned_digits(s@);
    assert(body =~= s@.subrange(start as int, n as int));
    if start == n {
        assert(body.len() == 0);
        return None;
    }
    // `acc` holds the value read so far, capped at 256.
    let mut acc: u32 = 0;
    let mut i: usize = start;
    while i < n
        invariant
            start <= i <= n,
            start < n,
            n == s@.len(),
            body == unsigned_digits(s@),
            body =~= s@.subrange(start as int, n as int),
            forall|k: int| start <= k < i ==> #[trigger] is_digit(s@[k]),
            acc <= 256,
            acc == if digits_value(s@.subrange(start as int, i as int)) < 256 {
                digits_value(s@.subrange(start as int, i as int))
            } else {
                256
            },
        decreases n - i,
    {
        let c = s.get_char(i);
        let u = c as u32;
        if u < 0x30 || u > 0x39 {
            assert(!is_digit(body[i - start]));
            assert(!(forall|k: int| 0 <= k < body.len() ==> #[trigger] is_digit(body[k])));
            return None;
        }
        proof {
            lemma_digits_push(s@.subrange(start as int, i as int), c);
            assert(s@.subrange(start as int, i as int).push(c) =~= s@.subrange(
                start as int,
                i + 1,
            ));
        }
        let next = acc * 10 + (u - 0x30);
        if next < 256 {
            acc = next;
        } else {
            acc = 256;
        }
        i = i + 1;
    }
    assert(s@.subrange(start as int, n as int) =~= body);
    if acc < 256 {
        Some(acc as u8)
    } else {
        None
    }
}

/// The Unicode lower-case form of `s`, as `str::to_lowercase` computes it.
pub uninterp spec fn unicode_lowercase(s: Seq<char>) -> Seq<char>;

/// Calls `str::to_lowercase`. The result is claimed to be a function of the
/// characters of `s` alone (the Unicode `Lowercase` mapping), named
/// `unicode_lowercase`; nothing more of that mapping is stated.
#[verifier::external_body]
pub(crate) fn to_lowercase(s: &str) -> (r: String)
    ensures
        r@ == unicode_lowercase(s@),
{
    s.to_lowercase()
}

} // verus!
