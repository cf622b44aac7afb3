//! Characters and tokens: what counts as space, as a digit and as part of
//! a name, and where a run of such characters ends.

use vstd::prelude::*;

verus! {

/// Whether `c` is white space: one of the twenty-five characters that
/// Unicode gives the property `White_Space`.
pub open spec fn is_space(c: char) -> bool {
    let n = c as u32;
    ||| 0x09 <= n <= 0x0D
    ||| n == 0x20
    ||| n == 0x85
    ||| n == 0xA0
    ||| n == 0x1680
    ||| 0x2000 <= n <= 0x200A
    ||| n == 0x2028
    ||| n == 0x2029
    ||| n == 0x202F
    ||| n == 0x205F
    ||| n == 0x3000
}

/// Whether `c` is one of the ten decimal digits.
pub open spec fn is_digit(c: char) -> bool {
    '0' <= c <= '9'
}

/// Whether a name may begin with `c`: an ASCII letter or an underscore.
pub open spec fn is_name_start(c: char) -> bool {
    ('a' <= c <= 'z') || ('A' <= c <= 'Z') || c == '_'
}

/// Whether a name may go on with `c`: an ASCII letter, a digit or an
/// underscore.
pub open spec fn is_name_part(c: char) -> bool {
    is_name_start(c) || is_digit(c)
}

/// The number that the digit `c` stands for.
pub open spec fn digit_value(c: char) -> int {
    c as u32 - '0' as u32
}

/// The number that a sequence of digits writes in base ten.
pub open spec fn number(digits: Seq<char>) -> nat
    decreases digits.len(),
{
    if digits.len() == 0 {
        0
    } else {
        (number(digits.drop_last()) * 10 + digit_value(digits.last())) as nat
    }
}

/// The first position from `i` on that holds no white space.
pub open spec fn skip_space(s: Seq<char>, i: int) -> int
    decreases s.len() - i,
{
    if 0 <= i < s.len() && is_space(s[i]) {
        skip_space(s, i + 1)
    } else {
        i
    }
}

/// The first position from `i` on that holds no digit.
pub open spec fn digits_end(s: Seq<char>, i: int) -> int
    decreases s.len() - i,
{
    if 0 <= i < s.len() && is_digit(s[i]) {
        digits_end(s, i + 1)
    } else {
        i
    }
}

/// The first position from `i` on that holds no character of a name.
pub open spec fn name_end(s: Seq<char>, i: int) -> int
    decreases s.len() - i,
{
    if 0 <= i < s.len() && is_name_part(s[i]) {
        name_end(s, i + 1)
    } else {
        i
    }
}

/// Where the name that begins at `i` ends, if one begins there: a name is
/// a letter or underscore followed by as many letters, digits and
/// underscores as there are.
pub open spec fn name_at(s: Seq<char>, i: int) -> Option<int> {
    if 0 <= i < s.len() && is_name_start(s[i]) {
        Some(name_end(s, i + 1))
    } else {
        None
    }
}

/// Where the integer literal that begins at `i` ends, if one begins there:
/// a literal is a single `0`, or a digit other than `0` followed by as many
/// digits as there are.
pub open spec fn literal_at(s: Seq<char>, i: int) -> Option<int> {
    if 0 <= i < s.len() && is_digit(s[i]) {
        if s[i] == '0' {
            Some(i + 1)
        } else {
            Some(digits_end(s, i + 1))
        }
    } else {
        None
    }
}

/// Whether `w` is the word `let`.
pub open spec fn is_let(w: Seq<char>) -> bool {
    w == seq!['l', 'e', 't']
}

/// `String::push` puts one character at the end of the string.
pub assume_specification[ String::push ](s: &mut String, c: char)
    ensures
        final(s)@ == old(s)@.push(c),
;

/// Whether `c` is white space.
pub fn space(c: char) -> (r: bool)
    ensures
        r == is_space(c),
{
    let n: u32 = c as u32;
    (0x09 <= n && n <= 0x0D) || n == 0x20 || n == 0x85 || n == 0xA0 || n == 0x1680 || (0x2000 <= n
        && n <= 0x200A) || n == 0x2028 || n == 0x2029 || n == 0x202F || n == 0x205F || n == 0x3000
}

/// Whether `c` is a decimal digit.
pub fn digit(c: char) -> (r: bool)
    ensures
        r == is_digit(c),
{
    '0' <= c && c <= '9'
}

/// Whether a name may begin with `c`.
pub fn name_start(c: char) -> (r: bool)
    ensures
        r == is_name_start(c),
{
    ('a' <= c && c <= 'z') || ('A' <= c && c <= 'Z') || c == '_'
}

/// Whether a name may go on with `c`.
pub fn name_part(c: char) -> (r: bool)
    ensures
        r == is_name_part(c),
{
    name_start(c) || digit(c)
}

/// The characters of `src`, in order.
pub fn characters(src: &str) -> (r: Vec<char>)
    ensures
        r@ == src@,
{
    let mut out: Vec<char> = Vec::new();
    for c in it: src.chars()
        invariant
            out@ == it.seq().take(it.index()),
    {
        out.push(c);
    }
    out
}

/// The text of `src` from `from` up to `to`.
pub fn text_of(src: &Vec<char>, from: usize, to: usize) -> (r: String)
    requires
        from <= to <= src.len(),
    ensures
        r@ == src@.subrange(from as int, to as int),
{
    let mut out = String::new();
    let mut k: usize = from;
    while k < to
        invariant
            from <= k <= to <= src.len(),
            out@ == src@.subrange(from as int, k as int),
        decreases to - k,
    {
        out.push(src[k]);
        k = k + 1;
        assert(out@ == src@.subrange(from as int, k as int));
    }
    out
}

/// The first position from `i` on that holds no white space.
pub fn skip_spaces(src: &Vec<char>, i: usize) -> (r: usize)
    requires
        i <= src.len(),
    ensures
        r == skip_space(src@, i as int),
        i <= r <= src.len(),
{
    let mut k: usize = i;
    while k < src.len() && space(src[k])
        invariant
            i <= k <= src.len(),
            skip_space(src@, i as int) == skip_space(src@, k as int),
        decreases src.len() - k,
    {
        k = k + 1;
    }
    k
}

/// The first position from `i` on that holds no digit.
pub fn skip_digits(src: &Vec<char>, i: usize) -> (r: usize)
    requires
        i <= src.len(),
    ensures
        r == digits_end(src@, i as int),
        i <= r <= src.len(),
        forall|p: int| i <= p < r ==> is_digit(#[trigger] src@[p]),
{
    let mut k: usize = i;
    while k < src.len() && digit(src[k])
        invariant
            i <= k <= src.len(),
            digits_end(src@, i as int) == digits_end(src@, k as int),
            forall|p: int| i <= p < k ==> is_digit(#[trigger] src@[p]),
        decreases src.len() - k,
    {
        k = k + 1;
    }
    k
}

/// The first position from `i` on that holds no character of a name.
pub fn skip_name(src: &Vec<char>, i: usize) -> (r: usize)
    requires
        i <= src.len(),
    ensures
        r == name_end(src@, i as int),
        i <= r <= src.len(),
{
    let mut k: usize = i;
    while k < src.len() && name_part(src[k])
        invariant
            i <= k <= src.len(),
            name_end(src@, i as int) == name_end(src@, k as int),
        decreases src.len() - k,
    {
        k = k + 1;
    }
    k
}

/// Where the name that begins at `i` ends, if one begins there.
pub fn name_span(src: &Vec<char>, i: usize) -> (r: Option<usize>)
    requires
        i <= src.len(),
    ensures
        r matches Some(k) ==> name_at(src@, i as int) == Some(k as int) && i < k <= src.len(),
        r is None ==> name_at(src@, i as int) is None,
{
    if i < src.len() && name_start(src[i]) {
        Some(skip_name(src, i + 1))
    } else {
        None
    }
}

/// Where the integer literal that begins at `i` ends, if one begins there.
pub fn literal_span(src: &Vec<char>, i: usize) -> (r: Option<usize>)
    requires
        i <= src.len(),
    ensures
        r matches Some(k) ==> literal_at(src@, i as int) == Some(k as int) && i < k <= src.len()
            && forall|p: int| i <= p < k ==> is_digit(#[trigger] src@[p]),
        r is None ==> literal_at(src@, i as int) is None,
{
    if i < src.len() && digit(src[i]) {
        if src[i] == '0' {
            Some(i + 1)
        } else {
            Some(skip_digits(src, i + 1))
        }
    } else {
        None
    }
}

/// Skipping white space goes forward and stays within the text.
pub proof fn lemma_skip_space_bounds(s: Seq<char>, i: int)
    requires
        0 <= i <= s.len(),
    ensures
        i <= skip_space(s, i) <= s.len(),
    decreases s.len() - i,
{
    if i < s.len() && is_space(s[i]) {
        lemma_skip_space_bounds(s, i + 1);
    }
}

/// A name that begins at `i` ends after `i` and within the text.
pub proof fn lemma_name_bounds(s: Seq<char>, i: int)
    requires
        0 <= i <= s.len(),
    ensures
        i <= name_end(s, i) <= s.len(),
        name_at(s, i) matches Some(k) ==> i < k <= s.len(),
    decreases s.len() - i,
{
    if i < s.len() {
        lemma_name_bounds(s, i + 1);
    }
}

/// A literal that begins at `i` ends after `i` and within the text.
pub proof fn lemma_literal_bounds(s: Seq<char>, i: int)
    requires
        0 <= i <= s.len(),
    ensures
        i <= digits_end(s, i) <= s.len(),
        literal_at(s, i) matches Some(k) ==> i < k <= s.len(),
    decreases s.len() - i,
{
    if i < s.len() {
        lemma_literal_bounds(s, i + 1);
    }
}

/// A longer sequence of digits writes a number that is no smaller.
pub proof fn lemma_number_grows(digits: Seq<char>, k: int)
    requires
        0 <= k <= digits.len(),
        forall|p: int| 0 <= p < digits.len() ==> is_digit(#[trigger] digits[p]),
    ensures
        number(digits.take(k)) <= number(digits),
    decreases digits.len() - k,
{
    if k == digits.len() {
        assert(digits.take(k) == digits);
    } else {
        lemma_number_grows(digits, k + 1);
        assert(digits.take(k + 1).drop_last() == digits.take(k));
    }
}

/// The number that the digits of `src` from `from` up to `to` write, if it
/// is no more than the largest sixty-four-bit integer.
pub fn literal_value(src: &Vec<char>, from: usize, to: usize) -> (r: Option<i64>)
    requires
        from <= to <= src.len(),
        forall|p: int| from <= p < to ==> is_digit(#[trigger] src@[p]),
    ensures
        r == (if number(src@.subrange(from as int, to as int)) <= i64::MAX {
            Some(number(src@.subrange(from as int, to as int)) as i64)
        } else {
            None
        }),
{
    let ghost digits = src@.subrange(from as int, to as int);
    let mut acc: i64 = 0;
    let mut k: usize = from;
    assert(digits.take(0).len() == 0);
    while k < to
        invariant
            from <= k <= to <= src.len(),
            digits == src@.subrange(from as int, to as int),
            forall|p: int| 0 <= p < digits.len() ==> is_digit(#[trigger] digits[p]),
            acc == number(digits.take(k - from)),
            0 <= acc,
        decreases to - k,
    {
        let c = src[k];
        assert(is_digit(digits[k - from]));
        let d: i64 = (c as u32 - '0' as u32) as i64;
        proof {
            assert(digits.take(k - from + 1).drop_last() == digits.take(k - from));
            assert(digits.take(k - from + 1).last() == c);
            lemma_number_grows(digits, k - from + 1);
        }
        if acc > (i64::MAX - d) / 10 {
            return None;
        }
        acc = acc * 10 + d;
        k = k + 1;
    }
    assert(digits.take(to - from) == digits);
    Some(acc)
}

} // verus!
