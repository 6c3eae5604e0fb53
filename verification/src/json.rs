//! The text of wire values: decimal integers, booleans and quoted strings, as
//! bytes. Every frame and every log row of the controller is built from these.

use vstd::prelude::*;
use vstd::string::StringSliceAdditionalSpecFns;

verus! {

/// The ASCII digit for `d`, for `d` below ten.
pub open spec fn digit(d: nat) -> u8 {
    (48 + d) as u8
}

/// The decimal text of `n`: no sign, no leading zero, `0` for zero.
pub open spec fn decimal(n: nat) -> Seq<u8>
    decreases n,
{
    if n < 10 {
        seq![digit(n)]
    } else {
        decimal(n / 10).push(digit(n % 10))
    }
}

/// The text of a boolean: `true` or `false`.
pub open spec fn boolean(b: bool) -> Seq<u8> {
    if b {
        "true".spec_bytes()
    } else {
        "false".spec_bytes()
    }
}

/// The lower-case hexadecimal digit for `n`, for `n` below sixteen.
pub open spec fn hex_digit(n: nat) -> u8 {
    if n < 10 {
        (48 + n) as u8
    } else {
        (87 + n) as u8
    }
}

/// How one byte of a string appears between the quotes of a JSON string.
///
/// The quote and the backslash get a backslash in front; backspace, tab, line
/// feed, form feed and carriage return get their short escapes; any other
/// byte below 0x20 becomes `\u00` and two hexadecimal digits; every other
/// byte, those of multi-byte characters included, stands for itself.
pub open spec fn escaped_byte(b: u8) -> Seq<u8> {
    if b == 0x22 {
        seq![0x5cu8, 0x22u8]
    } else if b == 0x5c {
        seq![0x5cu8, 0x5cu8]
    } else if b == 0x08 {
        seq![0x5cu8, 0x62u8]
    } else if b == 0x09 {
        seq![0x5cu8, 0x74u8]
    } else if b == 0x0a {
        seq![0x5cu8, 0x6eu8]
    } else if b == 0x0c {
        seq![0x5cu8, 0x66u8]
    } else if b == 0x0d {
        seq![0x5cu8, 0x72u8]
    } else if b < 0x20 {
        seq![0x5cu8, 0x75u8, 0x30u8, 0x30u8, hex_digit(b as nat / 16), hex_digit(b as nat % 16)]
    } else {
        seq![b]
    }
}

/// The bytes of a string with every byte escaped, in order.
pub open spec fn escaped(s: Seq<u8>) -> Seq<u8>
    decreases s.len(),
{
    if s.len() == 0 {
        Seq::empty()
    } else {
        escaped(s.drop_last()) + escaped_byte(s.last())
    }
}

/// A JSON string: the escaped bytes between two quotes.
pub open spec fn quoted(s: Seq<u8>) -> Seq<u8> {
    seq![0x22u8] + escaped(s) + seq![0x22u8]
}

/// Appends the bytes of `text` as they are.
pub fn push_text(out: &mut Vec<u8>, text: &str)
    ensures
        final(out)@ == old(out)@ + text.spec_bytes(),
{
    out.extend_from_slice(text.as_bytes());
}

/// Appends `bytes` as they are.
pub fn push_bytes(out: &mut Vec<u8>, bytes: &[u8])
    ensures
        final(out)@ == old(out)@ + bytes@,
{
    out.extend_from_slice(bytes);
}

/// Appends the decimal text of `n`.
pub fn push_decimal(out: &mut Vec<u8>, n: u128)
    ensures
        final(out)@ == old(out)@ + decimal(n as nat),
    decreases n,
{
    if n >= 10 {
        push_decimal(out, n / 10);
    }
    let low: u8 = (n % 10) as u8;
    out.push(48u8 + low);
    proof {
        if n >= 10 {
            assert(final(out)@ == old(out)@ + decimal(n as nat / 10).push(digit(n as nat % 10)));
        } else {
            assert(final(out)@ == old(out)@ + seq![digit(n as nat)]);
        }
    }
}

/// Appends `true` or `false`.
pub fn push_boolean(out: &mut Vec<u8>, b: bool)
    ensures
        final(out)@ == old(out)@ + boolean(b),
{
    if b {
        push_text(out, "true");
    } else {
        push_text(out, "false");
    }
}

/// Appends the escape of one byte.
fn push_escaped_byte(out: &mut Vec<u8>, b: u8)
    ensures
        final(out)@ == old(out)@ + escaped_byte(b),
{
    if b == 0x22 {
        out.push(0x5c);
        out.push(0x22);
    } else if b == 0x5c {
        out.push(0x5c);
        out.push(0x5c);
    } else if b == 0x08 {
        out.push(0x5c);
        out.push(0x62);
    } else if b == 0x09 {
        out.push(0x5c);
        out.push(0x74);
    } else if b == 0x0a {
        out.push(0x5c);
        out.push(0x6e);
    } else if b == 0x0c {
        out.push(0x5c);
        out.push(0x66);
    } else if b == 0x0d {
        out.push(0x5c);
        out.push(0x72);
    } else if b < 0x20 {
        let high: u8 = b / 16;
        let low: u8 = b % 16;
        out.push(0x5c);
        out.push(0x75);
        out.push(0x30);
        out.push(0x30);
        out.push(48u8 + high);
        out.push(if low < 10 { 48u8 + low } else { 87u8 + low });
    } else {
        out.push(b);
    }
    assert(final(out)@ =~= old(out)@ + escaped_byte(b));
}

/// Appends `text` as a JSON string.
pub fn push_quoted(out: &mut Vec<u8>, text: &str)
    ensures
        final(out)@ == old(out)@ + quoted(text.spec_bytes()),
{
    let bytes = text.as_bytes();
    out.push(0x22);
    let mut i: usize = 0;
    while i < bytes.len()
        invariant
            i <= bytes.len(),
            bytes@ == text.spec_bytes(),
            out@ == old(out)@ + seq![0x22u8] + escaped(bytes@.take(i as int)),
        decreases bytes.len() - i,
    {
        push_escaped_byte(out, bytes[i]);
        proof {
            let next = bytes@.take(i as int + 1);
            assert(next.drop_last() =~= bytes@.take(i as int));
            assert(next.last() == bytes@[i as int]);
        }
        i += 1;
    }
    out.push(0x22);
    proof {
        assert(bytes@.take(i as int) =~= bytes@);
        assert(final(out)@ =~= old(out)@ + quoted(text.spec_bytes()));
    }
}

/// The items of a list with a comma between neighbours.
pub open spec fn joined(items: Seq<Seq<u8>>) -> Seq<u8>
    decreases items.len(),
{
    if items.len() == 0 {
        Seq::empty()
    } else if items.len() == 1 {
        items[0]
    } else {
        joined(items.drop_last()) + seq![0x2cu8] + items.last()
    }
}

/// A JSON array of items that are already encoded.
pub open spec fn array(items: Seq<Seq<u8>>) -> Seq<u8> {
    seq![0x5bu8] + joined(items) + seq![0x5du8]
}

/// Appending one item to a list appends a comma, unless the list was empty,
/// and then the item.
pub proof fn joined_push(items: Seq<Seq<u8>>, item: Seq<u8>)
    ensures
        joined(items.push(item)) == if items.len() == 0 {
            item
        } else {
            joined(items) + seq![0x2cu8] + item
        },
{
    assert(items.push(item).drop_last() =~= items);
}

/// Whether `b` is an ASCII digit.
pub open spec fn is_digit(b: u8) -> bool {
    0x30 <= b <= 0x39
}

/// Where the run of digits that starts at `from` ends: the first index at or
/// after `from` that holds no digit.
pub open spec fn digits_end(s: Seq<u8>, from: int) -> int
    decreases s.len() - from,
{
    if 0 <= from < s.len() && is_digit(s[from]) {
        digits_end(s, from + 1)
    } else {
        from
    }
}

/// Whether `s` is a JSON number: an optional minus, an integer part without a
/// needless leading zero, an optional fraction and an optional exponent, each
/// with at least one digit, and nothing else.
pub open spec fn is_number(s: Seq<u8>) -> bool {
    let start: int = if s.len() > 0 && s[0] == 0x2d { 1 } else { 0 };
    let whole = digits_end(s, start);
    let fraction = if whole < s.len() && s[whole] == 0x2e {
        digits_end(s, whole + 1)
    } else {
        whole
    };
    let mantissa = if fraction < s.len() && (s[fraction] == 0x65 || s[fraction] == 0x45) {
        if fraction + 1 < s.len() && (s[fraction + 1] == 0x2b || s[fraction + 1] == 0x2d) {
            fraction + 2
        } else {
            fraction + 1
        }
    } else {
        fraction
    };
    let end = if mantissa > fraction { digits_end(s, mantissa) } else { fraction };
    &&& whole > start
    &&& s[start] != 0x30 || whole == start + 1
    &&& fraction == whole || fraction > whole + 1
    &&& mantissa == fraction || end > mantissa
    &&& end == s.len()
}

/// The end of the run of digits of `bytes` that starts at `from`.
fn scan_digits(bytes: &[u8], from: usize) -> (end: usize)
    requires
        from <= bytes.len(),
    ensures
        end == digits_end(bytes@, from as int),
        from <= end <= bytes.len(),
{
    let mut i: usize = from;
    while i < bytes.len() && 0x30 <= bytes[i] && bytes[i] <= 0x39
        invariant
            from <= i <= bytes.len(),
            digits_end(bytes@, from as int) == digits_end(bytes@, i as int),
        decreases bytes.len() - i,
    {
        i += 1;
    }
    i
}

/// Whether `text` is a JSON number.
pub fn number_text(text: &str) -> (ok: bool)
    ensures
        ok == is_number(text.spec_bytes()),
{
    let bytes = text.as_bytes();
    let n = bytes.len();
    let start: usize = if n > 0 && bytes[0] == 0x2d { 1 } else { 0 };
    let whole = scan_digits(bytes, start);
    if whole == start {
        return false;
    }
    if bytes[start] == 0x30 && whole != start + 1 {
        return false;
    }
    let mut fraction = whole;
    if whole < n && bytes[whole] == 0x2e {
        fraction = scan_digits(bytes, whole + 1);
        if fraction == whole + 1 {
            return false;
        }
    }
    let mut end = fraction;
    if fraction < n && (bytes[fraction] == 0x65 || bytes[fraction] == 0x45) {
        let mantissa: usize = if fraction + 1 < n && (bytes[fraction + 1] == 0x2b || bytes[fraction
            + 1] == 0x2d) {
            fraction + 2
        } else {
            fraction + 1
        };
        end = scan_digits(bytes, mantissa);
        if end == mantissa {
            return false;
        }
    }
    end == n
}

} // verus!
