//! Character-level helpers used by the parsers: ASCII case folding and
//! whitespace trimming with exact specifications.

use vstd::prelude::*;

verus! {

/// Upper-case ASCII letters map to lower case; every other char is kept.
pub open spec fn lower_char(c: char) -> char {
    if 'A' <= c && c <= 'Z' {
        ((c as u32) + 32) as char
    } else {
        c
    }
}

pub open spec fn lower_seq(s: Seq<char>) -> Seq<char> {
    Seq::new(s.len(), |i: int| lower_char(s[i]))
}

pub fn ascii_lower_char(c: char) -> (r: char)
    ensures
        r == lower_char(c),
{
    if 'A' <= c && c <= 'Z' {
        let b: u8 = (c as u8) + 32;
        b as char
    } else {
        c
    }
}

/// Lower-case ASCII letters map to upper case; every other char is kept.
pub open spec fn upper_char(c: char) -> char {
    if 'a' <= c && c <= 'z' {
        ((c as u32) - 32) as char
    } else {
        c
    }
}

pub open spec fn upper_seq(s: Seq<char>) -> Seq<char> {
    Seq::new(s.len(), |i: int| upper_char(s[i]))
}

pub fn ascii_upper_char(c: char) -> (r: char)
    ensures
        r == upper_char(c),
{
    if 'a' <= c && c <= 'z' {
        let b: u8 = (c as u8) - 32;
        b as char
    } else {
        c
    }
}

pub fn to_ascii_uppercase(s: &str) -> (r: String)
    ensures
        r@ == upper_seq(s@),
{
    let n = s.unicode_len();
    let mut out = String::new();
    let mut i: usize = 0;
    while i < n
        invariant
            n == s@.len(),
            i <= n,
            out@ == upper_seq(s@.subrange(0, i as int)),
        decreases n - i,
    {
        let c = s.get_char(i);
        string_push(&mut out, ascii_upper_char(c));
        assert(upper_seq(s@.subrange(0, i + 1)) =~= upper_seq(s@.subrange(0, i as int)).push(upper_char(c)));
        i += 1;
    }
    assert(s@.subrange(0, n as int) =~= s@);
    out
}

/// `String::push` appends one char.
#[verifier::external_body]
pub(crate) fn string_push(s: &mut String, c: char)
    ensures
        final(s)@ == old(s)@.push(c),
{
    s.push(c);
}

pub fn to_ascii_lowercase(s: &str) -> (r: String)
    ensures
        r@ == lower_seq(s@),
{
    let n = s.unicode_len();
    let mut out = String::new();
    let mut i: usize = 0;
    while i < n
        invariant
            n == s@.len(),
            i <= n,
            out@ == lower_seq(s@.subrange(0, i as int)),
        decreases n - i,
    {
        let c = s.get_char(i);
        string_push(&mut out, ascii_lower_char(c));
        assert(lower_seq(s@.subrange(0, i + 1)) =~= lower_seq(s@.subrange(0, i as int)).push(lower_char(c)));
        i += 1;
    }
    assert(s@.subrange(0, n as int) =~= s@);
    out
}

} // verus!

verus! {

/// The characters that `char::is_whitespace` accepts (Unicode `White_Space`).
pub open spec fn is_ws(c: char) -> bool {
    ||| c == '\t' || c == '\n' || c == '\u{B}' || c == '\u{C}' || c == '\r' || c == ' '
    ||| c == '\u{85}' || c == '\u{A0}' || c == '\u{1680}'
    ||| ('\u{2000}' <= c && c <= '\u{200A}')
    ||| c == '\u{2028}' || c == '\u{2029}' || c == '\u{202F}' || c == '\u{205F}' || c == '\u{3000}'
}

pub fn is_whitespace(c: char) -> (r: bool)
    ensures
        r == is_ws(c),
{
    c == '\t' || c == '\n' || c == '\u{B}' || c == '\u{C}' || c == '\r' || c == ' '
        || c == '\u{85}' || c == '\u{A0}' || c == '\u{1680}' || ('\u{2000}' <= c && c <= '\u{200A}')
        || c == '\u{2028}' || c == '\u{2029}' || c == '\u{202F}' || c == '\u{205F}'
        || c == '\u{3000}'
}

/// `[a, b)` is the part of `s` that trimming whitespace on both ends keeps.
pub open spec fn trim_bounds_ok(s: Seq<char>, a: int, b: int) -> bool {
    &&& 0 <= a <= b <= s.len()
    &&& forall|i: int| 0 <= i < a ==> is_ws(#[trigger] s[i])
    &&& forall|i: int| b <= i < s.len() ==> is_ws(#[trigger] s[i])
    &&& a < b ==> !is_ws(s[a]) && !is_ws(s[b - 1])
    &&& a == b ==> a == s.len()
}

pub proof fn lemma_trim_bounds_unique(s: Seq<char>, a: int, b: int, a2: int, b2: int)
    requires
        trim_bounds_ok(s, a, b),
        trim_bounds_ok(s, a2, b2),
    ensures
        a == a2,
        b == b2,
{
    if a < b {
        if a2 < b2 {
        } else {
            assert(is_ws(s[a]));
        }
    } else {
        if a2 < b2 {
            assert(is_ws(s[a2]));
        }
    }
}

pub proof fn lemma_trim_bounds_exist(s: Seq<char>)
    ensures
        exists|a: int, b: int| trim_bounds_ok(s, a, b),
    decreases s.len(),
{
    if s.len() == 0 {
        assert(trim_bounds_ok(s, 0, 0));
    } else {
        let t = s.drop_last();
        lemma_trim_bounds_exist(t);
        let (a, b) = choose|a: int, b: int| trim_bounds_ok(t, a, b);
        assert forall|i: int| 0 <= i < t.len() implies t[i] == s[i] by {}
        assert forall|i: int| 0 <= i < a implies is_ws(#[trigger] s[i]) by {
            assert(t[i] == s[i]);
        }
        assert forall|i: int| b <= i < t.len() implies is_ws(#[trigger] s[i]) by {
            assert(t[i] == s[i]);
        }
        if a < b {
            assert(t[a] == s[a] && t[b - 1] == s[b - 1]);
        }
        if is_ws(s.last()) {
            if a == b {
                assert(trim_bounds_ok(s, s.len() as int, s.len() as int));
            } else {
                assert(trim_bounds_ok(s, a, b));
            }
        } else {
            if a == b {
                assert(trim_bounds_ok(s, s.len() - 1, s.len() as int));
            } else {
                assert(trim_bounds_ok(s, a, s.len() as int));
            }
        }
    }
}

/// What `str::trim` keeps of `s`.
pub open spec fn trim_seq(s: Seq<char>) -> Seq<char> {
    let (a, b) = choose|a: int, b: int| trim_bounds_ok(s, a, b);
    s.subrange(a, b)
}

pub fn trim(s: &str) -> (r: &str)
    ensures
        r@ == trim_seq(s@),
{
    let n = s.unicode_len();
    let mut a: usize = 0;
    while a < n && is_whitespace(s.get_char(a))
        invariant
            n == s@.len(),
            a <= n,
            forall|i: int| 0 <= i < a ==> is_ws(#[trigger] s@[i]),
        decreases n - a,
    {
        a += 1;
    }
    let mut b: usize = n;
    while b > a && is_whitespace(s.get_char(b - 1))
        invariant
            n == s@.len(),
            a <= b <= n,
            forall|i: int| b <= i < n ==> is_ws(#[trigger] s@[i]),
        decreases b - a,
    {
        b -= 1;
    }
    proof {
        assert(trim_bounds_ok(s@, a as int, b as int));
        lemma_trim_bounds_exist(s@);
        let (a2, b2) = choose|a2: int, b2: int| trim_bounds_ok(s@, a2, b2);
        lemma_trim_bounds_unique(s@, a as int, b as int, a2, b2);
    }
    s.substring_char(a, b)
}

/// Char-by-char equality of two strings.
pub fn str_eq(x: &str, y: &str) -> (r: bool)
    ensures
        r == (x@ == y@),
{
    let n = x.unicode_len();
    let m = y.unicode_len();
    if n != m {
        return false;
    }
    let mut i: usize = 0;
    while i < n
        invariant
            n == x@.len(),
            n == y@.len(),
            i <= n,
            forall|j: int| 0 <= j < i ==> x@[j] == y@[j],
        decreases n - i,
    {
        if x.get_char(i) != y.get_char(i) {
            return false;
        }
        i += 1;
    }
    assert(x@ =~= y@);
    true
}

} // verus!

verus! {

/// What `{:?}` prints for a string: the text in double quotes, with escapes.
pub uninterp spec fn debug_str(s: Seq<char>) -> Seq<char>;

/// Formats `s` with `Debug` (`format!("{s:?}")`). The contract names the
/// result; the escaping rules of `Debug` are not restated here.
#[verifier::external_body]
pub(crate) fn debug_quote(s: &str) -> (r: String)
    ensures
        r@ == debug_str(s@),
{
    format!("{s:?}")
}

/// `s` with `t` appended.
pub fn concat_str(s: String, t: &str) -> (r: String)
    ensures
        r@ == s@ + t@,
{
    let mut s = s;
    s.append(t);
    s
}

} // verus!

verus! {

/// A name with no surrounding whitespace and no upper-case ASCII letter is its
/// own normalized key.
pub proof fn lemma_plain_key(s: Seq<char>)
    requires
        s.len() > 0,
        !is_ws(s[0]),
        !is_ws(s[s.len() - 1]),
        forall|i: int| 0 <= i < s.len() ==> !('A' <= #[trigger] s[i] && s[i] <= 'Z'),
    ensures
        lower_seq(trim_seq(s)) == s,
{
    assert(trim_bounds_ok(s, 0, s.len() as int));
    lemma_trim_bounds_exist(s);
    let (a, b) = choose|a: int, b: int| trim_bounds_ok(s, a, b);
    lemma_trim_bounds_unique(s, 0, s.len() as int, a, b);
    assert(s.subrange(0, s.len() as int) =~= s);
    assert(lower_seq(s) =~= s);
}

} // verus!

verus! {

/// UTF-8 bytes of a char sequence.
pub open spec fn utf8_of(s: Seq<char>) -> Seq<u8> {
    vstd::utf8::encode_utf8(s)
}

} // verus!

verus! {

/// `needle` occurs in `hay` at position `i`.
pub open spec fn occurs_at(hay: Seq<char>, needle: Seq<char>, i: int) -> bool {
    0 <= i && i + needle.len() <= hay.len() && hay.subrange(i, i + needle.len()) == needle
}

pub open spec fn seq_contains(hay: Seq<char>, needle: Seq<char>) -> bool {
    exists|i: int| #[trigger] occurs_at(hay, needle, i)
}

fn occurs_at_exec(hay: &str, needle: &str, i: usize, n: usize, m: usize) -> (r: bool)
    requires
        n == hay@.len(),
        m == needle@.len(),
        i + m <= n,
    ensures
        r == occurs_at(hay@, needle@, i as int),
{
    let mut j: usize = 0;
    while j < m
        invariant
            n == hay@.len(),
            m == needle@.len(),
            i + m <= n,
            j <= m,
            forall|k: int| 0 <= k < j ==> hay@[i + k] == needle@[k],
        decreases m - j,
    {
        if hay.get_char(i + j) != needle.get_char(j) {
            assert(hay@.subrange(i as int, i + m)[j as int] != needle@[j as int]);
            return false;
        }
        j += 1;
    }
    assert(hay@.subrange(i as int, i + m) =~= needle@);
    true
}

pub fn str_contains(hay: &str, needle: &str) -> (r: bool)
    ensures
        r == seq_contains(hay@, needle@),
{
    let n = hay.unicode_len();
    let m = needle.unicode_len();
    if m > n {
        return false;
    }
    if m == 0 {
        assert(hay@.subrange(0, 0) =~= needle@);
        assert(occurs_at(hay@, needle@, 0));
        return true;
    }
    let mut i: usize = 0;
    while i <= n - m
        invariant
            n == hay@.len(),
            m == needle@.len(),
            1 <= m <= n,
            i <= n - m + 1,
            forall|k: int| 0 <= k < i ==> !#[trigger] occurs_at(hay@, needle@, k),
        decreases n - m + 1 - i,
    {
        if occurs_at_exec(hay, needle, i, n, m) {
            return true;
        }
        i += 1;
    }
    assert forall|k: int| !#[trigger] occurs_at(hay@, needle@, k) by {
        if 0 <= k < i {
        }
    }
    false
}

pub fn str_starts_with(hay: &str, prefix: &str) -> (r: bool)
    ensures
        r == occurs_at(hay@, prefix@, 0),
{
    let n = hay.unicode_len();
    let m = prefix.unicode_len();
    if m > n {
        return false;
    }
    occurs_at_exec(hay, prefix, 0, n, m)
}

pub open spec fn is_ascii_alnum(c: char) -> bool {
    ('0' <= c && c <= '9') || ('a' <= c && c <= 'z') || ('A' <= c && c <= 'Z')
}

pub fn ascii_alnum(c: char) -> (r: bool)
    ensures
        r == is_ascii_alnum(c),
{
    ('0' <= c && c <= '9') || ('a' <= c && c <= 'z') || ('A' <= c && c <= 'Z')
}

pub open spec fn digit_char(d: int) -> char {
    (d + 48) as char
}

/// Decimal digits of `n`, most significant first, no leading zeros.
pub open spec fn dec_seq(n: nat) -> Seq<char>
    decreases n,
{
    if n < 10 {
        seq![digit_char(n as int)]
    } else {
        dec_seq(n / 10).push(digit_char((n % 10) as int))
    }
}

/// `s` left-padded with '0' to at least `w` chars.
pub open spec fn zero_pad(s: Seq<char>, w: nat) -> Seq<char> {
    if s.len() >= w {
        s
    } else {
        Seq::new((w - s.len()) as nat, |i: int| '0') + s
    }
}

fn digit(d: u64) -> (c: char)
    requires
        d < 10,
    ensures
        c == digit_char(d as int),
{
    let b: u8 = (d as u8) + 48;
    b as char
}

/// `n` in decimal (`format!("{n}")`).
pub fn u64_decimal(n: u64) -> (r: String)
    ensures
        r@ == dec_seq(n as nat),
    decreases n,
{
    if n < 10 {
        let mut s = String::new();
        string_push(&mut s, digit(n));
        assert(s@ =~= seq![digit_char(n as int)]);
        s
    } else {
        let mut s = u64_decimal(n / 10);
        string_push(&mut s, digit(n % 10));
        s
    }
}

/// `n` in decimal, zero-padded to `w` (`format!("{n:0w$}")`).
pub fn u64_decimal_padded(n: u64, w: usize) -> (r: String)
    ensures
        r@ == zero_pad(dec_seq(n as nat), w as nat),
{
    let d = u64_decimal(n);
    let len = d.unicode_len();
    if len >= w {
        return d;
    }
    let mut s = String::new();
    let mut i: usize = 0;
    while i < w - len
        invariant
            len < w,
            i <= w - len,
            s@ == Seq::new(i as nat, |k: int| '0'),
        decreases w - len - i,
    {
        string_push(&mut s, '0');
        assert(s@ =~= Seq::new((i + 1) as nat, |k: int| '0'));
        i += 1;
    }
    concat_str(s, d.as_str())
}

pub proof fn lemma_dec_alnum(n: nat)
    ensures
        forall|i: int| 0 <= i < dec_seq(n).len() ==> is_ascii_alnum(#[trigger] dec_seq(n)[i]),
        dec_seq(n).len() >= 1,
    decreases n,
{
    if n >= 10 {
        lemma_dec_alnum(n / 10);
    }
}

pub open spec fn pow10(k: nat) -> nat
    decreases k,
{
    if k == 0 {
        1
    } else {
        10 * pow10((k - 1) as nat)
    }
}

pub proof fn lemma_dec_len(n: nat, k: nat)
    requires
        k >= 1,
        n < pow10(k),
    ensures
        dec_seq(n).len() <= k,
    decreases k,
{
    if n >= 10 {
        assert(k >= 2) by {
            if k == 1 {
                assert(pow10(1) == 10) by {
                    assert(pow10(0) == 1);
                }
            }
        }
        assert(n / 10 < pow10((k - 1) as nat)) by (nonlinear_arith)
            requires
                n < 10 * pow10((k - 1) as nat),
        ;
        lemma_dec_len(n / 10, (k - 1) as nat);
    }
}

} // verus!

verus! {

/// The value of a decimal digit char.
pub open spec fn digit_value(c: char) -> int {
    (c as int) - ('0' as int)
}

pub open spec fn is_digit(c: char) -> bool {
    '0' <= c && c <= '9'
}

/// The number that a run of decimal digits denotes.
pub open spec fn dec_value(s: Seq<char>) -> nat
    decreases s.len(),
{
    if s.len() == 0 {
        0
    } else {
        (dec_value(s.drop_last()) * 10 + digit_value(s.last())) as nat
    }
}

pub open spec fn all_digits(s: Seq<char>) -> bool {
    forall|i: int| 0 <= i < s.len() ==> is_digit(#[trigger] s[i])
}

proof fn lemma_dec_value_grows(s: Seq<char>, i: int, j: int)
    requires
        0 <= i <= j <= s.len(),
        all_digits(s),
    ensures
        dec_value(s.subrange(0, i)) <= dec_value(s.subrange(0, j)),
    decreases j - i,
{
    if i < j {
        lemma_dec_value_grows(s, i, j - 1);
        assert(s.subrange(0, j).drop_last() =~= s.subrange(0, j - 1));
        assert(is_digit(s[j - 1]));
    }
}

/// A nonempty run of digits that fits in `u64`, as its value.
pub open spec fn digits_u64_spec(body: Seq<char>) -> Option<u64> {
    if body.len() == 0 || !all_digits(body) || dec_value(body) > u64::MAX {
        None
    } else {
        Some(dec_value(body) as u64)
    }
}

/// The digits of `s` from `start` on, as a `u64`.
pub fn digits_u64(s: &str, start: usize) -> (r: Option<u64>)
    requires
        start <= s@.len(),
    ensures
        r == digits_u64_spec(s@.skip(start as int)),
{
    let n = s.unicode_len();
    let ghost body = s@.skip(start as int);
    if start >= n {
        return None;
    }
    let mut i: usize = start;
    while i < n
        invariant
            n == s@.len(),
            start <= i <= n,
            body == s@.skip(start as int),
            forall|k: int| start <= k < i ==> is_digit(#[trigger] s@[k]),
        decreases n - i,
    {
        let c = s.get_char(i);
        if !('0' <= c && c <= '9') {
            proof {
                let k = i - start;
                assert(body[k] == s@[i as int]);
                assert(!all_digits(body));
            }
            return None;
        }
        i += 1;
    }
    assert(all_digits(body)) by {
        assert forall|k: int| 0 <= k < body.len() implies is_digit(#[trigger] body[k]) by {
            assert(body[k] == s@[start + k]);
        }
    }
    let mut acc: u64 = 0;
    let mut j: usize = start;
    while j < n
        invariant
            n == s@.len(),
            start <= j <= n,
            body == s@.skip(start as int),
            all_digits(body),
            acc == dec_value(body.subrange(0, j - start)),
        decreases n - j,
    {
        let c = s.get_char(j);
        assert(c == body[j - start]);
        let d: u64 = ((c as u32) - ('0' as u32)) as u64;
        assert(body.subrange(0, j - start + 1).drop_last() =~= body.subrange(0, j - start));
        proof {
            let p = body.subrange(0, j - start + 1);
            assert(p.last() == c);
            assert(dec_value(p) == acc * 10 + digit_value(c));
        }
        let m = acc.checked_mul(10);
        match m {
            None => {
                proof {
                    lemma_dec_value_grows(body, j - start + 1, body.len() as int);
                    assert(body.subrange(0, body.len() as int) =~= body);
                }
                return None;
            },
            Some(m) => {
                match m.checked_add(d) {
                    None => {
                        proof {
                            lemma_dec_value_grows(body, j - start + 1, body.len() as int);
                            assert(body.subrange(0, body.len() as int) =~= body);
                        }
                        return None;
                    },
                    Some(v) => {
                        acc = v;
                    },
                }
            },
        }
        j += 1;
    }
    assert(body.subrange(0, body.len() as int) =~= body);
    Some(acc)
}

/// What `str::parse::<usize>` accepts: an optional `+`, then one or more
/// ASCII digits, denoting at most `usize::MAX`.
pub open spec fn usize_of_dec(s: Seq<char>) -> Option<usize> {
    let body = if s.len() > 0 && s[0] == '+' {
        s.drop_first()
    } else {
        s
    };
    if body.len() == 0 || !all_digits(body) {
        None
    } else if dec_value(body) > usize::MAX {
        None
    } else {
        Some(dec_value(body) as usize)
    }
}

/// Decimal text to `usize`, as `str::parse` reads it.
pub fn parse_usize(s: &str) -> (r: Option<usize>)
    ensures
        r == usize_of_dec(s@),
{
    let start: usize = if s.unicode_len() > 0 && s.get_char(0) == '+' {
        1
    } else {
        0
    };
    assert(start == 1 ==> s@.skip(1) =~= s@.drop_first());
    assert(start == 0 ==> s@.skip(0) =~= s@);
    match digits_u64(s, start) {
        Some(v) => {
            if v as u128 <= usize::MAX as u128 {
                Some(v as usize)
            } else {
                None
            }
        },
        None => None,
    }
}

/// What `str::parse::<i64>` accepts: an optional sign, then one or more ASCII
/// digits, denoting a value in range.
pub open spec fn i64_of_dec(s: Seq<char>) -> Option<i64> {
    let neg = s.len() > 0 && s[0] == '-';
    let body = if s.len() > 0 && (s[0] == '-' || s[0] == '+') {
        s.drop_first()
    } else {
        s
    };
    if body.len() == 0 || !all_digits(body) {
        None
    } else if neg {
        if dec_value(body) > 0x8000_0000_0000_0000 {
            None
        } else {
            Some((-(dec_value(body) as int)) as i64)
        }
    } else if dec_value(body) > i64::MAX {
        None
    } else {
        Some(dec_value(body) as i64)
    }
}

/// Decimal text to `i64`, as `str::parse` reads it.
pub fn parse_i64(s: &str) -> (r: Option<i64>)
    ensures
        r == i64_of_dec(s@),
{
    let n = s.unicode_len();
    let neg = n > 0 && s.get_char(0) == '-';
    let start: usize = if n > 0 && (s.get_char(0) == '-' || s.get_char(0) == '+') {
        1
    } else {
        0
    };
    assert(start == 1 ==> s@.skip(1) =~= s@.drop_first());
    assert(start == 0 ==> s@.skip(0) =~= s@);
    match digits_u64(s, start) {
        None => None,
        Some(v) => {
            if neg {
                if v > 0x8000_0000_0000_0000 {
                    None
                } else if v == 0x8000_0000_0000_0000 {
                    Some(i64::MIN)
                } else {
                    Some(-(v as i64))
                }
            } else if v > i64::MAX as u64 {
                None
            } else {
                Some(v as i64)
            }
        },
    }
}

} // verus!

verus! {

/// The pieces of `s` between occurrences of `c`, as `str::split(c)` gives them.
pub open spec fn split_on(s: Seq<char>, c: char) -> Seq<Seq<char>>
    decreases s.len(),
{
    if s.len() == 0 {
        seq![Seq::<char>::empty()]
    } else {
        let prev = split_on(s.drop_last(), c);
        if s.last() == c {
            prev.push(Seq::<char>::empty())
        } else {
            prev.update(prev.len() - 1, prev.last().push(s.last()))
        }
    }
}

proof fn lemma_split_nonempty(s: Seq<char>, c: char)
    ensures
        split_on(s, c).len() >= 1,
    decreases s.len(),
{
    if s.len() > 0 {
        lemma_split_nonempty(s.drop_last(), c);
    }
}

/// Splits `s` at every `c`.
pub fn split_char(s: &str, c: char) -> (r: Vec<String>)
    ensures
        r@.map_values(|x: String| x@) == split_on(s@, c),
{
    let n = s.unicode_len();
    let mut done: Vec<String> = Vec::new();
    let mut cur = String::new();
    let mut i: usize = 0;
    assert(s@.subrange(0, 0) =~= Seq::<char>::empty());
    assert(done@.map_values(|x: String| x@).push(cur@) =~= split_on(s@.subrange(0, 0), c));
    while i < n
        invariant
            n == s@.len(),
            i <= n,
            done@.map_values(|x: String| x@).push(cur@) == split_on(s@.subrange(0, i as int), c),
        decreases n - i,
    {
        let ch = s.get_char(i);
        let ghost before = done@.map_values(|x: String| x@).push(cur@);
        proof {
            lemma_split_nonempty(s@.subrange(0, i as int), c);
            assert(s@.subrange(0, i + 1).drop_last() =~= s@.subrange(0, i as int));
            assert(s@.subrange(0, i + 1).last() == ch);
        }
        if ch == c {
            let piece = cur;
            done.push(piece);
            cur = String::new();
            assert(done@.map_values(|x: String| x@).push(cur@) =~= before.push(Seq::<char>::empty()));
        } else {
            string_push(&mut cur, ch);
            assert(done@.map_values(|x: String| x@).push(cur@) =~= before.update(
                before.len() - 1,
                before.last().push(ch),
            ));
        }
        i += 1;
    }
    assert(s@.subrange(0, n as int) =~= s@);
    done.push(cur);
    done
}

} // verus!

verus! {

/// What `str::parse::<u64>` accepts: an optional `+`, then one or more ASCII
/// digits, denoting at most `u64::MAX`.
pub open spec fn u64_of_dec(s: Seq<char>) -> Option<u64> {
    let body = if s.len() > 0 && s[0] == '+' {
        s.drop_first()
    } else {
        s
    };
    digits_u64_spec(body)
}

/// Decimal text to `u64`, as `str::parse` reads it.
pub fn parse_u64(s: &str) -> (r: Option<u64>)
    ensures
        r == u64_of_dec(s@),
{
    let start: usize = if s.unicode_len() > 0 && s.get_char(0) == '+' {
        1
    } else {
        0
    };
    assert(start == 1 ==> s@.skip(1) =~= s@.drop_first());
    assert(start == 0 ==> s@.skip(0) =~= s@);
    digits_u64(s, start)
}

/// The maximal runs of non-whitespace in `s`, as `str::split_whitespace`
/// gives them.
pub open spec fn words(s: Seq<char>) -> Seq<Seq<char>>
    decreases s.len(),
{
    if s.len() == 0 {
        Seq::empty()
    } else {
        let w = words(s.drop_last());
        if is_ws(s.last()) {
            w
        } else if s.len() >= 2 && !is_ws(s[s.len() - 2]) {
            w.update(w.len() - 1, w.last().push(s.last()))
        } else {
            w.push(seq![s.last()])
        }
    }
}

/// Splits `s` at runs of whitespace, dropping empty pieces.
pub fn split_ws(s: &str) -> (r: Vec<String>)
    ensures
        r@.map_values(|x: String| x@) == words(s@),
{
    let n = s.unicode_len();
    let mut done: Vec<String> = Vec::new();
    let mut cur = String::new();
    let mut in_word = false;
    let mut i: usize = 0;
    assert(s@.subrange(0, 0) =~= Seq::<char>::empty());
    assert(done@.map_values(|x: String| x@) =~= words(s@.subrange(0, 0)));
    while i < n
        invariant
            n == s@.len(),
            i <= n,
            in_word == (i > 0 && !is_ws(s@[i - 1])),
            !in_word ==> cur@.len() == 0,
            (if in_word {
                done@.map_values(|x: String| x@).push(cur@)
            } else {
                done@.map_values(|x: String| x@)
            }) == words(s@.subrange(0, i as int)),
        decreases n - i,
    {
        let ch = s.get_char(i);
        let ghost p = s@.subrange(0, i + 1);
        let ghost dv = done@.map_values(|x: String| x@);
        proof {
            assert(p.drop_last() =~= s@.subrange(0, i as int));
            assert(p.last() == ch);
            if i > 0 {
                assert(p[p.len() - 2] == s@[i - 1]);
            }
        }
        if is_whitespace(ch) {
            if in_word {
                let piece = cur;
                done.push(piece);
                cur = String::new();
                assert(done@.map_values(|x: String| x@) =~= dv.push(piece@));
            }
            in_word = false;
        } else {
            proof {
                if in_word {
                    let w = words(s@.subrange(0, i as int));
                    assert(w == dv.push(cur@));
                    assert(w.update(w.len() - 1, w.last().push(ch)) =~= dv.push(cur@.push(ch)));
                } else {
                    assert(cur@.push(ch) =~= seq![ch]);
                }
            }
            string_push(&mut cur, ch);
            in_word = true;
        }
        i += 1;
    }
    assert(s@.subrange(0, n as int) =~= s@);
    if in_word {
        done.push(cur);
    }
    proof {
        let dv = done@.map_values(|x: String| x@);
        assert(dv == words(s@));
    }
    done
}

} // verus!
