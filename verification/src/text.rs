//! Text building blocks: characters of a string, decimal and hexadecimal
//! digits, zero padding, trimming.

use vstd::prelude::*;

verus! {

/// Whether a character has the Unicode property White_Space: the controls
/// from tab to carriage return, the space, the next-line control, the
/// no-break space, the Ogham space mark, the spaces from en quad to hair
/// space, the line and the paragraph separator, the narrow no-break space,
/// the medium mathematical space and the ideographic space.
pub open spec fn is_whitespace(c: char) -> bool {
    let code = c as u32;
    ||| 0x09 <= code <= 0x0d
    ||| code == 0x20
    ||| code == 0x85
    ||| code == 0xa0
    ||| code == 0x1680
    ||| 0x2000 <= code <= 0x200a
    ||| code == 0x2028
    ||| code == 0x2029
    ||| code == 0x202f
    ||| code == 0x205f
    ||| code == 0x3000
}

/// The result of `str::to_lowercase`: the Unicode lowercase form of a text.
pub uninterp spec fn lowercase(s: Seq<char>) -> Seq<char>;

/// Whether a character has the Unicode property White_Space, as
/// `char::is_whitespace` tells it.
pub fn char_is_whitespace(c: char) -> (r: bool)
    ensures
        r == is_whitespace(c),
{
    let code: u32 = c as u32;
    (0x09 <= code && code <= 0x0d) || code == 0x20 || code == 0x85 || code == 0xa0 || code
        == 0x1680 || (0x2000 <= code && code <= 0x200a) || code == 0x2028 || code == 0x2029
        || code == 0x202f || code == 0x205f || code == 0x3000
}

/// Calls `str::to_lowercase`. Trusted: the result is the named text
/// [`lowercase`] of the argument, of which nothing more is claimed.
#[verifier::external_body]
pub(crate) fn to_lowercase(s: &str) -> (r: String)
    ensures
        r@ == lowercase(s@),
{
    s.to_lowercase()
}

/// Calls `String::push`. Trusted: the character is appended and nothing else
/// changes.
#[verifier::external_body]
pub(crate) fn push_char(s: &mut String, c: char)
    ensures
        final(s)@ == old(s)@.push(c),
{
    s.push(c)
}

/// The characters of a string, in order.
pub fn to_chars(s: &str) -> (r: Vec<char>)
    ensures
        r@ == s@,
{
    let mut out: Vec<char> = Vec::new();
    for c in it: s.chars()
        invariant
            it.seq() == s@,
            out@ == it.seq().take(it.index() as int),
    {
        out.push(c);
    }
    out
}

/// The string made of the given characters, in order.
pub fn from_chars(chars: &Vec<char>) -> (r: String)
    ensures
        r@ == chars@,
{
    let mut out = String::new();
    let mut i: usize = 0;
    while i < chars.len()
        invariant
            i <= chars.len(),
            out@ == chars@.take(i as int),
        decreases chars.len() - i,
    {
        push_char(&mut out, chars[i]);
        i += 1;
    }
    out
}

/// The character that writes the digit `d` in base ten.
pub open spec fn digit_char(d: int) -> char {
    ((48 + d) as u8) as char
}

/// The decimal digits of a natural number, most significant first, without
/// leading zeros (zero is the single digit `0`).
pub open spec fn decimal_digits(n: nat) -> Seq<char>
    decreases n,
{
    if n < 10 {
        seq![digit_char(n as int)]
    } else {
        decimal_digits(n / 10).push(digit_char((n % 10) as int))
    }
}

/// The decimal text of an integer: a minus sign for a negative number, then
/// the digits of its magnitude.
pub open spec fn decimal_text(n: int) -> Seq<char> {
    if n < 0 {
        seq!['-'] + decimal_digits((-n) as nat)
    } else {
        decimal_digits(n as nat)
    }
}

/// `digits` with zeros put in front until it is `width` long; unchanged when
/// it is that long already.
pub open spec fn zero_padded(digits: Seq<char>, width: nat) -> Seq<char> {
    if digits.len() < width {
        Seq::new((width - digits.len()) as nat, |i: int| '0') + digits
    } else {
        digits
    }
}

/// The character that writes the digit `d` in base sixteen, in lower case.
pub open spec fn hex_digit_char(d: int) -> char {
    if d < 10 {
        ((48 + d) as u8) as char
    } else {
        ((87 + d) as u8) as char
    }
}

/// The two lower-case hexadecimal digits of a byte.
pub open spec fn hex_byte(b: u8) -> Seq<char> {
    seq![hex_digit_char(b as int / 16), hex_digit_char(b as int % 16)]
}

fn digit(d: u8) -> (r: char)
    requires
        d < 10,
    ensures
        r == digit_char(d as int),
{
    (48u8 + d) as char
}

fn hex_digit(d: u8) -> (r: char)
    requires
        d < 16,
    ensures
        r == hex_digit_char(d as int),
{
    if d < 10 {
        (48u8 + d) as char
    } else {
        (87u8 + d) as char
    }
}

/// Appends the decimal digits of `n` to `out`.
pub fn push_decimal_digits(out: &mut Vec<char>, n: u128)
    ensures
        final(out)@ == old(out)@ + decimal_digits(n as nat),
    decreases n,
{
    if n < 10 {
        out.push(digit(n as u8));
    } else {
        push_decimal_digits(out, n / 10);
        out.push(digit((n % 10) as u8));
    }
}

/// Appends the decimal text of `n` to `out`.
pub fn push_decimal_text(out: &mut Vec<char>, n: i64)
    ensures
        final(out)@ == old(out)@ + decimal_text(n as int),
{
    if n < 0 {
        out.push('-');
        let magnitude: u128 = (-(n as i128)) as u128;
        push_decimal_digits(out, magnitude);
    } else {
        push_decimal_digits(out, n as u128);
    }
}

/// Appends the decimal digits of `n`, with zeros in front up to `width`.
pub fn push_zero_padded(out: &mut Vec<char>, n: u128, width: usize)
    ensures
        final(out)@ == old(out)@ + zero_padded(decimal_digits(n as nat), width as nat),
{
    let mut digits: Vec<char> = Vec::new();
    push_decimal_digits(&mut digits, n);
    let ghost before = out@;
    let mut count: usize = digits.len();
    while count < width
        invariant
            digits.len() <= count,
            count <= width || count == digits.len(),
            out@ == before + Seq::new((count - digits.len()) as nat, |i: int| '0'),
        decreases width - count,
    {
        out.push('0');
        count += 1;
    }
    let ghost zeros = out@;
    let mut i: usize = 0;
    while i < digits.len()
        invariant
            i <= digits.len(),
            out@ == zeros + digits@.take(i as int),
        decreases digits.len() - i,
    {
        out.push(digits[i]);
        i += 1;
    }
    proof {
        assert(digits@.take(digits.len() as int) =~= digits@);
        assert(out@ =~= before + zero_padded(digits@, width as nat));
    }
}

/// Appends the two lower-case hexadecimal digits of `b`.
pub fn push_hex_byte(out: &mut Vec<char>, b: u8)
    ensures
        final(out)@ == old(out)@ + hex_byte(b),
{
    out.push(hex_digit(b / 16));
    out.push(hex_digit(b % 16));
}

/// Appends the characters of `s`.
pub fn push_chars(out: &mut Vec<char>, s: &str)
    ensures
        final(out)@ == old(out)@ + s@,
{
    let chars = to_chars(s);
    let ghost before = out@;
    let mut i: usize = 0;
    while i < chars.len()
        invariant
            i <= chars.len(),
            out@ == before + chars@.take(i as int),
        decreases chars.len() - i,
    {
        out.push(chars[i]);
        i += 1;
    }
    proof {
        assert(chars@.take(chars.len() as int) =~= chars@);
    }
}

/// Whether two strings hold the same characters.
pub fn str_equal(a: &str, b: &str) -> (r: bool)
    ensures
        r == (a@ == b@),
{
    let x = to_chars(a);
    let y = to_chars(b);
    chars_equal(&x, &y)
}

/// Whether two character sequences are the same.
pub fn chars_equal(x: &Vec<char>, y: &Vec<char>) -> (r: bool)
    ensures
        r == (x@ == y@),
{
    if x.len() != y.len() {
        return false;
    }
    let mut i: usize = 0;
    while i < x.len()
        invariant
            i <= x.len(),
            x.len() == y.len(),
            x@.take(i as int) == y@.take(i as int),
        decreases x.len() - i,
    {
        if x[i] != y[i] {
            return false;
        }
        i += 1;
        proof {
            assert(x@.take(i as int) =~= x@.take(i - 1).push(x@[i - 1]));
            assert(y@.take(i as int) =~= y@.take(i - 1).push(y@[i - 1]));
        }
    }
    proof {
        assert(x@.take(x.len() as int) =~= x@);
        assert(y@.take(y.len() as int) =~= y@);
    }
    true
}

/// `s` without the whitespace characters at its start.
pub open spec fn trimmed_start(s: Seq<char>) -> Seq<char>
    decreases s.len(),
{
    if s.len() > 0 && is_whitespace(s[0]) {
        trimmed_start(s.drop_first())
    } else {
        s
    }
}

/// `s` without the whitespace characters at its end.
pub open spec fn trimmed_end(s: Seq<char>) -> Seq<char>
    decreases s.len(),
{
    if s.len() > 0 && is_whitespace(s.last()) {
        trimmed_end(s.drop_last())
    } else {
        s
    }
}

/// `s` without the whitespace characters at its start and at its end.
pub open spec fn trimmed(s: Seq<char>) -> Seq<char> {
    trimmed_end(trimmed_start(s))
}

/// `s` without any of its whitespace characters.
pub open spec fn without_whitespace(s: Seq<char>) -> Seq<char> {
    s.filter(|c: char| !is_whitespace(c))
}

proof fn lemma_trimmed_start_skip(s: Seq<char>, k: int)
    requires
        0 <= k <= s.len(),
        forall|j: int| 0 <= j < k ==> is_whitespace(s[j]),
    ensures
        trimmed_start(s) == trimmed_start(s.skip(k)),
    decreases k,
{
    if k == 0 {
        assert(s.skip(0) =~= s);
    } else {
        lemma_trimmed_start_skip(s.drop_first(), k - 1);
        assert(s.drop_first().skip(k - 1) =~= s.skip(k));
    }
}

proof fn lemma_trimmed_end_take(s: Seq<char>, k: int)
    requires
        0 <= k <= s.len(),
        forall|j: int| k <= j < s.len() ==> is_whitespace(s[j]),
    ensures
        trimmed_end(s) == trimmed_end(s.take(k)),
    decreases s.len() - k,
{
    if k == s.len() {
        assert(s.take(k) =~= s);
    } else {
        lemma_trimmed_end_take(s.drop_last(), k);
        assert(s.drop_last().take(k) =~= s.take(k));
    }
}

/// The characters of `chars` without the whitespace at both ends.
pub fn trim_chars(chars: &Vec<char>) -> (r: Vec<char>)
    ensures
        r@ == trimmed(chars@),
{
    let mut start: usize = 0;
    while start < chars.len() && char_is_whitespace(chars[start])
        invariant
            start <= chars.len(),
            forall|j: int| 0 <= j < start ==> is_whitespace(chars@[j]),
        decreases chars.len() - start,
    {
        start += 1;
    }
    let mut end: usize = chars.len();
    while end > start && char_is_whitespace(chars[end - 1])
        invariant
            start <= end <= chars.len(),
            forall|j: int| end <= j < chars.len() ==> is_whitespace(chars@[j]),
        decreases end,
    {
        end -= 1;
    }
    let mut out: Vec<char> = Vec::new();
    let mut i: usize = start;
    while i < end
        invariant
            start <= i <= end <= chars.len(),
            out@ == chars@.subrange(start as int, i as int),
        decreases end - i,
    {
        out.push(chars[i]);
        i += 1;
    }
    proof {
        let s = chars@;
        let rest = s.skip(start as int);
        lemma_trimmed_start_skip(s, start as int);
        assert(trimmed_start(s) == rest) by {
            if start < s.len() {
                assert(rest[0] == s[start as int]);
            }
        }
        lemma_trimmed_end_take(rest, end - start);
        let kept = rest.take(end - start);
        assert(kept =~= s.subrange(start as int, end as int));
        assert(trimmed_end(kept) == kept) by {
            if end > start {
                assert(kept.last() == s[end - 1]);
            }
        }
    }
    out
}

/// `s` without the whitespace at both ends, as `str::trim` gives it.
pub fn trim(s: &str) -> (r: String)
    ensures
        r@ == trimmed(s@),
{
    let chars = to_chars(s);
    let kept = trim_chars(&chars);
    from_chars(&kept)
}

/// `s` without any of its whitespace characters.
pub fn remove_whitespace(s: &str) -> (r: String)
    ensures
        r@ == without_whitespace(s@),
{
    let chars = to_chars(s);
    let mut out: Vec<char> = Vec::new();
    let mut i: usize = 0;
    while i < chars.len()
        invariant
            i <= chars.len(),
            out@ == without_whitespace(chars@.take(i as int)),
        decreases chars.len() - i,
    {
        let c = chars[i];
        let ghost before = chars@.take(i as int);
        if !char_is_whitespace(c) {
            out.push(c);
        }
        i += 1;
        proof {
            assert(chars@.take(i as int) =~= before.push(c));
            assert(before.push(c).drop_last() =~= before);
            reveal(Seq::filter);
        }
    }
    proof {
        assert(chars@.take(chars.len() as int) =~= chars@);
    }
    from_chars(&out)
}

/// The decimal text of an unsigned integer.
pub fn u64_to_string(n: u64) -> (r: String)
    ensures
        r@ == decimal_digits(n as nat),
{
    let mut out: Vec<char> = Vec::new();
    push_decimal_digits(&mut out, n as u128);
    from_chars(&out)
}

/// The decimal text of a signed integer.
pub fn i64_to_string(n: i64) -> (r: String)
    ensures
        r@ == decimal_text(n as int),
{
    let mut out: Vec<char> = Vec::new();
    push_decimal_text(&mut out, n);
    from_chars(&out)
}

} // verus!
