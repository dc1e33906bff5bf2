//! Rendering numbers and code units as text.
use vstd::prelude::*;
use vstd::utf8;

verus! {

/// `String::push` appends one character.
pub assume_specification[ std::string::String::push ](s: &mut std::string::String, c: char)
    ensures
        final(s)@ == old(s)@.push(c),
;

/// True when `value` is a Unicode scalar value.
pub open spec fn is_scalar(value: u32) -> bool {
    value < 0xD800 || 0xE000 <= value <= 0x10FFFF
}

/// `core::char::from_u32` converts exactly the Unicode scalar values.
pub assume_specification[ std::char::from_u32 ](i: u32) -> (c: Option<char>)
    ensures
        c == (if is_scalar(i) {
            Some(i as char)
        } else {
            None::<char>
        }),
;

/// True when the longest prefix of `bytes` that is valid UTF-8 has `n` bytes.
pub open spec fn is_valid_up_to(bytes: Seq<u8>, n: int) -> bool {
    &&& 0 <= n <= bytes.len()
    &&& utf8::valid_utf8(bytes.take(n))
    &&& forall|m: int| n < m <= bytes.len() ==> !#[trigger] utf8::valid_utf8(bytes.take(m))
}

/// The length of the longest prefix of `bytes` that is valid UTF-8.
pub open spec fn valid_up_to(bytes: Seq<u8>) -> int {
    choose|n: int| is_valid_up_to(bytes, n)
}

/// `core::str::from_utf8` accepts exactly the valid UTF-8 byte strings and
/// gives back their text. For any other the error's `valid_up_to` is the length
/// of the longest valid prefix.
#[verifier::external_body]
fn checked_str<'a>(bytes: &'a [u8]) -> (r: core::result::Result<&'a str, usize>)
    ensures
        r is Ok <==> utf8::valid_utf8(bytes@),
        r matches Ok(s) ==> utf8::encode_utf8(s@) == bytes@,
        r matches Err(n) ==> is_valid_up_to(bytes@, n as int),
{
    core::str::from_utf8(bytes).map_err(|e| e.valid_up_to())
}

/// The text of `bytes`, or the length of their longest valid prefix.
pub fn utf8_str<'a>(bytes: &'a [u8]) -> (r: core::result::Result<&'a str, usize>)
    ensures
        r is Ok <==> utf8::valid_utf8(bytes@),
        r matches Ok(s) ==> s@ == utf8::decode_utf8(bytes@),
        r matches Err(n) ==> n == valid_up_to(bytes@),
{
    let r = checked_str(bytes);
    proof {
        match r {
            Ok(s) => {
                utf8::encode_utf8_decode_utf8(s@);
            },
            Err(n) => {
                let m = valid_up_to(bytes@);
                assert(is_valid_up_to(bytes@, m));
            },
        }
    }
    r
}

/// What `String::from_utf8_lossy` makes of bytes that are not valid UTF-8.
pub uninterp spec fn replaced_utf8(bytes: Seq<u8>) -> Seq<char>;

/// `bytes` as text, with invalid sequences replaced by U+FFFD.
pub open spec fn lossy_text(bytes: Seq<u8>) -> Seq<char> {
    if utf8::valid_utf8(bytes) {
        utf8::decode_utf8(bytes)
    } else {
        replaced_utf8(bytes)
    }
}

/// `String::from_utf8_lossy` gives valid UTF-8 back as it is. What it makes of
/// any other byte string depends on the bytes alone; how far each replaced
/// sequence reaches is left unsaid.
#[verifier::external_body]
pub(crate) fn utf8_lossy(bytes: &[u8]) -> (s: String)
    ensures
        utf8::valid_utf8(bytes@) ==> s@ == utf8::decode_utf8(bytes@),
        !utf8::valid_utf8(bytes@) ==> s@ == replaced_utf8(bytes@),
{
    String::from_utf8_lossy(bytes).into_owned()
}

/// The digit that stands for `d`, for any base up to sixteen.
pub open spec fn digit(d: nat) -> char {
    if d < 10 {
        (48 + d) as char
    } else {
        (87 + d) as char
    }
}

/// `n` written in `base`, without leading zeros.
pub open spec fn digits(n: nat, base: nat) -> Seq<char>
    decreases n,
{
    if base < 2 || n < base {
        seq![digit(n)]
    } else {
        proof {
            assert(n / base < n) by (nonlinear_arith)
                requires
                    2 <= base <= n,
            ;
        }
        digits(n / base, base).push(digit(n % base))
    }
}

/// `n` in decimal.
pub open spec fn decimal(n: nat) -> Seq<char> {
    digits(n, 10)
}

/// `n` in decimal, with a minus sign when negative.
pub open spec fn signed_decimal(n: int) -> Seq<char> {
    if n < 0 {
        seq!['-'] + decimal((-n) as nat)
    } else {
        decimal(n as nat)
    }
}

/// `n` in lowercase hexadecimal behind `0x`.
pub open spec fn hex(n: nat) -> Seq<char> {
    seq!['0', 'x'] + digits(n, 16)
}

/// The lowest `width` hexadecimal digits of `n`, most significant first.
pub open spec fn hex_fixed(n: nat, width: nat) -> Seq<char>
    decreases width,
{
    if width == 0 {
        Seq::empty()
    } else {
        hex_fixed(n / 16, (width - 1) as nat).push(digit(n % 16))
    }
}

/// The digit that stands for `d`.
pub fn digit_char(d: u8) -> (c: char)
    requires
        d < 16,
    ensures
        c == digit(d as nat),
{
    if d < 10 {
        (48 + d) as char
    } else {
        (87 + d) as char
    }
}

/// Appends `n` written in `base`.
pub fn push_digits(out: &mut String, n: u64, base: u64)
    requires
        2 <= base <= 16,
    ensures
        final(out)@ == old(out)@ + digits(n as nat, base as nat),
    decreases n,
{
    if n >= base {
        assert(n / base < n) by (nonlinear_arith)
            requires
                2 <= base <= n,
        ;
        push_digits(out, n / base, base);
        out.push(digit_char((n % base) as u8));
    } else {
        out.push(digit_char(n as u8));
    }
}

/// Appends `n` in decimal.
pub fn push_decimal(out: &mut String, n: u64)
    ensures
        final(out)@ == old(out)@ + decimal(n as nat),
{
    push_digits(out, n, 10);
}

/// Appends `n` in decimal, with a minus sign when negative.
pub fn push_signed_decimal(out: &mut String, n: i64)
    ensures
        final(out)@ == old(out)@ + signed_decimal(n as int),
{
    if n < 0 {
        out.push('-');
        let magnitude: u64 = (-(n + 1)) as u64 + 1;
        push_digits(out, magnitude, 10);
        assert(out@ =~= old(out)@ + signed_decimal(n as int));
    } else {
        push_digits(out, n as u64, 10);
    }
}

/// Appends `n` in lowercase hexadecimal behind `0x`.
pub fn push_hex(out: &mut String, n: u64)
    ensures
        final(out)@ == old(out)@ + hex(n as nat),
{
    out.push('0');
    out.push('x');
    push_digits(out, n, 16);
    assert(out@ =~= old(out)@ + hex(n as nat));
}

/// Appends the lowest `width` hexadecimal digits of `n`.
pub fn push_hex_fixed(out: &mut String, n: u32, width: u32)
    ensures
        final(out)@ == old(out)@ + hex_fixed(n as nat, width as nat),
    decreases width,
{
    if width > 0 {
        push_hex_fixed(out, n / 16, width - 1);
        out.push(digit_char((n % 16) as u8));
    }
}

/// The text of the UTF-16 code units `units`; a surrogate without its partner
/// becomes U+FFFD.
pub open spec fn utf16_text(units: Seq<u16>) -> Seq<char>
    decreases units.len(),
{
    if units.len() == 0 {
        Seq::empty()
    } else if !(0xD800 <= units[0] <= 0xDFFF) {
        seq![units[0] as char] + utf16_text(units.skip(1))
    } else if units[0] <= 0xDBFF && units.len() > 1 && 0xDC00 <= units[1] <= 0xDFFF {
        seq![surrogate_pair(units[0], units[1]) as char] + utf16_text(units.skip(2))
    } else {
        seq!['\u{FFFD}'] + utf16_text(units.skip(1))
    }
}

/// The scalar value that a high and a low surrogate stand for together.
pub open spec fn surrogate_pair(high: u16, low: u16) -> int {
    0x10000 + (high - 0xD800) * 0x400 + (low - 0xDC00)
}

/// Decodes UTF-16 code units, replacing unpaired surrogates.
pub fn decode_utf16_lossy(units: &[u16]) -> (text: String)
    ensures
        text@ == utf16_text(units@),
{
    let mut out = String::new();
    let mut i: usize = 0;
    assert(units@.skip(0) =~= units@);
    assert(out@ + utf16_text(units@) =~= utf16_text(units@));
    while i < units.len()
        invariant
            i <= units@.len(),
            out@ + utf16_text(units@.skip(i as int)) == utf16_text(units@),
        decreases units@.len() - i,
    {
        let unit: u16 = units[i];
        let mut scalar: u32 = unit as u32;
        let mut width: usize = 1;
        let ghost rest = units@.skip(i as int);
        assert(rest.len() > 0 && rest[0] == unit);
        assert(rest.skip(1) =~= units@.skip(i + 1));
        if 0xD800 <= unit && unit <= 0xDFFF {
            scalar = 0xFFFD;
            if unit <= 0xDBFF && i + 1 < units.len() {
                let low: u16 = units[i + 1];
                if 0xDC00 <= low && low <= 0xDFFF {
                    scalar = 0x10000 + (unit as u32 - 0xD800) * 0x400 + (low as u32 - 0xDC00);
                    width = 2;
                    assert(rest[1] == low);
                    assert(rest.skip(2) =~= units@.skip(i + 2));
                }
            }
        }
        let c: char = match core::char::from_u32(scalar) {
            Some(c) => c,
            None => '\u{FFFD}',
        };
        let ghost before = out@;
        out.push(c);
        assert(utf16_text(rest) =~= seq![c] + utf16_text(units@.skip(i + width)));
        assert(out@ + utf16_text(units@.skip(i + width)) =~= before + utf16_text(rest));
        i = i + width;
    }
    assert(units@.skip(i as int) =~= Seq::empty());
    assert(out@ =~= out@ + utf16_text(units@.skip(i as int)));
    out
}

/// `parts` one after the other, with `separator` between any two.
pub open spec fn joined(parts: Seq<Seq<char>>, separator: Seq<char>) -> Seq<char>
    decreases parts.len(),
{
    if parts.len() == 0 {
        Seq::empty()
    } else if parts.len() == 1 {
        parts[0]
    } else {
        joined(parts.drop_last(), separator) + separator + parts.last()
    }
}

/// The texts of `parts`.
pub open spec fn texts(parts: Seq<String>) -> Seq<Seq<char>> {
    Seq::new(parts.len(), |i: int| parts[i]@)
}

/// Joins `parts` with `separator`.
pub fn join(parts: &Vec<String>, separator: &str) -> (s: String)
    ensures
        s@ == joined(texts(parts@), separator@),
{
    let ghost all = texts(parts@);
    let mut out = String::new();
    let mut i: usize = 0;
    assert(all.take(0).len() == 0);
    while i < parts.len()
        invariant
            i <= parts.len(),
            all == texts(parts@),
            out@ == joined(all.take(i as int), separator@),
        decreases parts.len() - i,
    {
        if i > 0 {
            out.append(separator);
        }
        out.append(parts[i].as_str());
        assert(all.take(i + 1).drop_last() =~= all.take(i as int));
        if i == 0 {
            assert(out@ =~= all[0]);
        }
        i = i + 1;
    }
    assert(all.take(i as int) =~= all);
    out
}

/// The value of a lowercase hexadecimal digit.
pub open spec fn digit_value(c: char) -> int {
    if '0' <= c && c <= '9' {
        c as int - '0' as int
    } else {
        10 + (c as int - 'a' as int)
    }
}

/// The number that a row of digits in `base` stands for.
pub open spec fn number_in(digits: Seq<char>, base: int) -> int
    decreases digits.len(),
{
    if digits.len() == 0 {
        0
    } else {
        number_in(digits.drop_last(), base) * base + digit_value(digits.last())
    }
}

/// The digits of a number stand for it, and do not start with a zero unless it
/// is zero.
pub proof fn lemma_digits_stand_for(n: nat, base: nat)
    requires
        2 <= base <= 16,
    ensures
        number_in(digits(n, base), base as int) == n,
        digits(n, base).len() > 0,
        digits(n, base)[0] == '0' ==> n == 0,
    decreases n,
{
    reveal_with_fuel(number_in, 2);
    if n < base {
        assert(digits(n, base).drop_last() =~= seq![]);
        assert(0 * base as int == 0);
    } else {
        assert(n / base < n && n / base >= 1) by (nonlinear_arith)
            requires
                2 <= base <= n,
        ;
        lemma_digits_stand_for(n / base, base);
        let front = digits(n / base, base);
        assert(digits(n, base).drop_last() =~= front);
        assert(n % base < base) by (nonlinear_arith)
            requires
                2 <= base,
        ;
        vstd::arithmetic::div_mod::lemma_fundamental_div_mod(n as int, base as int);
        assert((n / base) * base == base * (n / base)) by (nonlinear_arith);
    }
}

} // verus!
