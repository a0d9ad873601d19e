//! Character-level helpers shared by the parser, the register names and the
//! system calls. The few standard-library string functions that the library
//! relies on are declared here with the contracts it takes on trust.

use vstd::prelude::*;

verus! {

/// Whether `c` has the Unicode `White_Space` property, as
/// `char::is_whitespace` reports it.
pub uninterp spec fn unicode_whitespace(c: char) -> bool;

/// The Unicode lowercase form of a text, as `str::to_lowercase` computes it.
pub uninterp spec fn lowercased(s: Seq<char>) -> Seq<char>;

/// Calls `char::is_whitespace`. Trusted: the answer is the `White_Space`
/// property of `c`, which [`unicode_whitespace`] names.
#[verifier::external_body]
pub(crate) fn is_whitespace(c: char) -> (b: bool)
    ensures
        b == unicode_whitespace(c),
{
    c.is_whitespace()
}

/// Calls `str::to_lowercase`. Trusted: the result is the lowercase form of
/// `s`, which [`lowercased`] names.
#[verifier::external_body]
pub(crate) fn to_lowercase(s: &str) -> (r: String)
    ensures
        r@ == lowercased(s@),
{
    s.to_lowercase()
}

/// How many characters at the front of `s` are whitespace.
pub open spec fn leading_whitespace(s: Seq<char>) -> nat
    decreases s.len(),
{
    if s.len() > 0 && unicode_whitespace(s[0]) {
        1 + leading_whitespace(s.drop_first())
    } else {
        0
    }
}

/// How many characters at the back of `s` are whitespace.
pub open spec fn trailing_whitespace(s: Seq<char>) -> nat
    decreases s.len(),
{
    if s.len() > 0 && unicode_whitespace(s.last()) {
        1 + trailing_whitespace(s.drop_last())
    } else {
        0
    }
}

/// `s` without its leading and trailing whitespace.
pub open spec fn trimmed(s: Seq<char>) -> Seq<char> {
    let rest = s.skip(leading_whitespace(s) as int);
    rest.take(rest.len() - trailing_whitespace(rest))
}

/// Calls `str::trim`. Trusted: the result is `s` with the longest run of
/// whitespace characters removed from each end.
#[verifier::external_body]
pub(crate) fn trim(s: &str) -> (r: &str)
    ensures
        r@ == trimmed(s@),
{
    s.trim()
}

/// Calls `String::from_iter` on the characters of a slice. Trusted: the
/// string holds exactly those characters, in order.
#[verifier::external_body]
pub(crate) fn string_of(chars: &[char]) -> (s: String)
    ensures
        s@ == chars@,
{
    String::from_iter(chars.iter())
}

/// The digit, in lower case, that stands for `d` in a radix up to 16.
pub open spec fn digit_char(d: int) -> char {
    if d < 10 {
        (48 + d) as char
    } else {
        (97 + (d - 10)) as char
    }
}

/// Dividing by a radix makes a positive number smaller.
pub proof fn lemma_quotient_smaller(n: nat, radix: nat)
    by (nonlinear_arith)
    requires
        2 <= radix <= n,
    ensures
        n / radix < n,
{
}

/// The numeral of `n` in `radix`, most significant digit first, without
/// leading zeros.
pub open spec fn numeral(n: nat, radix: nat) -> Seq<char>
    decreases n,
{
    if n < radix || radix < 2 {
        seq![digit_char(n as int)]
    } else {
        proof {
            lemma_quotient_smaller(n, radix);
        }
        numeral(n / radix, radix).push(digit_char((n % radix) as int))
    }
}

/// The decimal numeral of the two's-complement number that `word` holds.
pub open spec fn signed_decimal(word: u32) -> Seq<char> {
    if word < 0x8000_0000 {
        numeral(word as nat, 10)
    } else {
        seq!['-'] + numeral((0x1_0000_0000 - word) as nat, 10)
    }
}

/// Appends the numeral of `n` in `radix` to `out`.
fn push_numeral(n: u32, radix: u32, out: &mut Vec<char>)
    requires
        2 <= radix <= 16,
    ensures
        final(out)@ == old(out)@ + numeral(n as nat, radix as nat),
    decreases n,
{
    let last: u32 = if n >= radix {
        proof {
            lemma_quotient_smaller(n as nat, radix as nat);
        }
        push_numeral(n / radix, radix, out);
        n % radix
    } else {
        n
    };
    let d = last as u8;
    let c = if d < 10 {
        (48u8 + d) as char
    } else {
        (97u8 + (d - 10)) as char
    };
    out.push(c);
    proof {
        assert(c == digit_char(last as int));
        let whole = numeral(n as nat, radix as nat);
        if n >= radix {
            let front = numeral((n / radix) as nat, radix as nat);
            assert((n as nat) / (radix as nat) == (n / radix) as nat);
            assert((n as nat) % (radix as nat) == (n % radix) as nat);
            assert(whole == front.push(c));
            assert(out@ == (old(out)@ + front).push(c));
            assert((old(out)@ + front).push(c) =~= old(out)@ + front.push(c));
        } else {
            assert(whole =~= seq![c]);
            assert(out@ == old(out)@.push(c));
            assert(old(out)@.push(c) =~= old(out)@ + seq![c]);
        }
    }
}

/// The numeral of `n` in `radix`, with lower-case digits.
pub fn render(n: u32, radix: u32) -> (s: String)
    requires
        2 <= radix <= 16,
    ensures
        s@ == numeral(n as nat, radix as nat),
{
    let mut out: Vec<char> = Vec::new();
    push_numeral(n, radix, &mut out);
    string_of(out.as_slice())
}

/// The decimal numeral of `word` read as a two's-complement number.
pub fn render_signed(word: u32) -> (s: String)
    ensures
        s@ == signed_decimal(word),
{
    let mut out: Vec<char> = Vec::new();
    if word < 0x8000_0000 {
        push_numeral(word, 10, &mut out);
    } else {
        out.push('-');
        push_numeral(0u32.wrapping_sub(word), 10, &mut out);
    }
    string_of(out.as_slice())
}

/// The hexadecimal digit, in upper case, that stands for `d`.
pub open spec fn upper_digit(d: int) -> char {
    if d < 10 {
        (48 + d) as char
    } else {
        (65 + (d - 10)) as char
    }
}

/// The eight hexadecimal digits of a word, in upper case.
pub open spec fn hex_word(n: u32) -> Seq<char> {
    Seq::new(8, |i: int| upper_digit(((n >> ((28 - 4 * i) as u32)) & 0xf) as int))
}

/// The eight hexadecimal digits of `n`, in upper case.
pub fn render_hex_word(n: u32) -> (s: String)
    ensures
        s@ == hex_word(n),
{
    let mut out: Vec<char> = Vec::new();
    let mut i: u32 = 0;
    while i < 8
        invariant
            i <= 8,
            out@.len() == i,
            forall|k: int| 0 <= k < i ==> out@[k] == hex_word(n)[k],
        decreases 8 - i,
    {
        let shift = 28 - 4 * i;
        let nibble = (n >> shift) & 0xf;
        assert(nibble < 16) by (bit_vector)
            requires
                nibble == (n >> shift) & 0xf,
        ;
        let d = nibble as u8;
        let c = if d < 10 {
            (48u8 + d) as char
        } else {
            (65u8 + (d - 10)) as char
        };
        out.push(c);
        i += 1;
    }
    assert(out@ =~= hex_word(n));
    string_of(out.as_slice())
}

/// The value of `c` as a digit in `radix`: `0`-`9`, then the letters in
/// either case; nothing where `c` is no digit below `radix`.
pub open spec fn digit_value(c: char, radix: u32) -> Option<int> {
    let d = if '0' <= c <= '9' {
        c as int - '0' as int
    } else if 'a' <= c <= 'z' {
        c as int - 'a' as int + 10
    } else if 'A' <= c <= 'Z' {
        c as int - 'A' as int + 10
    } else {
        radix as int
    };
    if d < radix {
        Some(d)
    } else {
        None
    }
}

/// The number that a non-empty run of digits in `radix` denotes.
pub open spec fn digits_value(s: Seq<char>, radix: u32) -> Option<int>
    decreases s.len(),
{
    if s.len() == 0 {
        None
    } else {
        match digit_value(s.last(), radix) {
            None => None,
            Some(d) => if s.len() == 1 {
                Some(d)
            } else {
                match digits_value(s.drop_last(), radix) {
                    Some(v) => Some(v * radix + d),
                    None => None,
                }
            },
        }
    }
}

/// The number that `s` denotes as a numeral of a signed type: an optional
/// `+` or `-`, then digits.
pub open spec fn signed_numeral(s: Seq<char>, radix: u32) -> Option<int> {
    if s.len() > 0 && s[0] == '-' {
        match digits_value(s.drop_first(), radix) {
            Some(v) => Some(-v),
            None => None,
        }
    } else if s.len() > 0 && s[0] == '+' {
        digits_value(s.drop_first(), radix)
    } else {
        digits_value(s, radix)
    }
}

/// The number that `s` denotes as a numeral of an unsigned type: an
/// optional `+`, then digits.
pub open spec fn unsigned_numeral(s: Seq<char>, radix: u32) -> Option<int> {
    if s.len() > 0 && s[0] == '+' {
        digits_value(s.drop_first(), radix)
    } else {
        digits_value(s, radix)
    }
}

/// `value`, where there is one and it lies between `low` and `high`.
pub open spec fn within(value: Option<int>, low: int, high: int) -> Option<int> {
    match value {
        Some(v) => if low <= v <= high {
            Some(v)
        } else {
            None
        },
        None => None,
    }
}

/// Calls `str::parse::<i32>`. Trusted: the text is accepted where it is an
/// optional sign followed by decimal digits and the number fits in `i32`,
/// and then that number is returned.
#[verifier::external_body]
pub(crate) fn parse_i32(s: &str) -> (r: Option<i32>)
    ensures
        match within(signed_numeral(s@, 10), i32::MIN as int, i32::MAX as int) {
            Some(v) => r == Some(v as i32),
            None => r is None,
        },
{
    s.parse::<i32>().ok()
}

/// Calls `char::from_u32`. Trusted: the result is the character with code
/// `n` where `n` is a Unicode scalar value, and nothing otherwise.
#[verifier::external_body]
pub(crate) fn char_from_u32(n: u32) -> (r: Option<char>)
    ensures
        r == (if vstd::utf8::is_scalar(n) {
            Some(n as char)
        } else {
            None
        }),
{
    char::from_u32(n)
}

/// Calls `String::from_utf8`. Trusted: the bytes are accepted where they
/// are well-formed UTF-8, and the string then holds the characters that
/// they encode.
#[verifier::external_body]
pub(crate) fn string_from_utf8(bytes: Vec<u8>) -> (r: Option<String>)
    ensures
        r is Some <==> vstd::utf8::valid_utf8(bytes@),
        r matches Some(s) ==> s@ == vstd::utf8::decode_utf8(bytes@),
{
    String::from_utf8(bytes).ok()
}

/// Whether two texts hold the same characters.
pub fn same_text(a: &str, b: &str) -> (r: bool)
    ensures
        r == (a@ == b@),
{
    a.to_owned() == b.to_owned()
}

/// The characters of `s`, in order.
pub fn chars_of(s: &str) -> (v: Vec<char>)
    ensures
        v@ == s@,
{
    let mut v: Vec<char> = Vec::new();
    for c in it: s.chars()
        invariant
            v@ == it.seq().take(it.index() as int),
            it.seq() == s@,
    {
        v.push(c);
    }
    v
}

} // verus!
