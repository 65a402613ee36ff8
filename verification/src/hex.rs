use vstd::prelude::*;
use vstd::string::{StrSliceExecFns, StringExecFns};

verus! {

/// The lowercase hexadecimal digit for `n` (`0 <= n < 16`).
pub open spec fn hex_digit(n: int) -> char {
    if n < 10 {
        (48 + n) as char
    } else {
        (87 + n) as char
    }
}

/// The two lowercase hexadecimal digits of a byte, high nibble first.
pub open spec fn hex_pair(b: u8) -> Seq<char> {
    seq![hex_digit(b as int / 16), hex_digit(b as int % 16)]
}

/// Every byte of `data` as two lowercase hexadecimal digits, in order.
pub open spec fn hex_of(data: Seq<u8>) -> Seq<char>
    decreases data.len(),
{
    if data.len() == 0 {
        Seq::empty()
    } else {
        hex_of(data.drop_last()) + hex_pair(data.last())
    }
}

/// Formats `data` as lowercase hexadecimal, two digits per byte with a
/// leading zero where needed.
pub fn bytes_to_hex(data: &[u8]) -> (hex: String)
    ensures
        hex@ == hex_of(data@),
{
    let digits: &str = "0123456789abcdef";
    proof {
        reveal_strlit("0123456789abcdef");
    }
    assert(digits.is_ascii());
    let mut hex = String::new();
    let mut i: usize = 0;
    while i < data.len()
        invariant
            i <= data@.len(),
            digits@ == "0123456789abcdef"@,
            digits@.len() == 16,
            digits.is_ascii(),
            forall|n: int| 0 <= n < 16 ==> #[trigger] digits@[n] == hex_digit(n),
            hex@ == hex_of(data@.subrange(0, i as int)),
        decreases data@.len() - i,
    {
        let b = data[i];
        let hi = (b / 16) as usize;
        let lo = (b % 16) as usize;
        hex.append(digits.substring_ascii(hi, hi + 1));
        hex.append(digits.substring_ascii(lo, lo + 1));
        proof {
            let prefix = data@.subrange(0, i + 1);
            assert(prefix.drop_last() =~= data@.subrange(0, i as int));
            assert(prefix.last() == b);
            assert(digits@.subrange(hi as int, hi + 1) =~= seq![hex_digit(hi as int)]);
            assert(digits@.subrange(lo as int, lo + 1) =~= seq![hex_digit(lo as int)]);
            assert(hex@ =~= hex_of(prefix));
        }
        i = i + 1;
    }
    assert(data@.subrange(0, data@.len() as int) =~= data@);
    hex
}

/// The hex text is twice as long as the data, and byte `i` is written at
/// offsets `2 * i` and `2 * i + 1` as the digits of `"0123456789abcdef"`
/// for its high and its low nibble.
pub proof fn lemma_hex_layout(data: Seq<u8>, i: int)
    requires
        0 <= i < data.len(),
    ensures
        hex_of(data).len() == 2 * data.len(),
        hex_of(data)[2 * i] == seq![
            '0', '1', '2', '3', '4', '5', '6', '7', '8', '9', 'a', 'b', 'c', 'd', 'e', 'f',
        ][data[i] as int / 16],
        hex_of(data)[2 * i + 1] == seq![
            '0', '1', '2', '3', '4', '5', '6', '7', '8', '9', 'a', 'b', 'c', 'd', 'e', 'f',
        ][data[i] as int % 16],
{
    lemma_hex_digits(data, i);
    lemma_hex_digit_literal(data[i] as int / 16);
    lemma_hex_digit_literal(data[i] as int % 16);
}

/// Byte `i` of the data gives the digits at offsets `2 * i` and
/// `2 * i + 1` of its hex text.
proof fn lemma_hex_digits(data: Seq<u8>, i: int)
    requires
        0 <= i < data.len(),
    ensures
        hex_of(data).len() == 2 * data.len(),
        hex_of(data)[2 * i] == hex_digit(data[i] as int / 16),
        hex_of(data)[2 * i + 1] == hex_digit(data[i] as int % 16),
    decreases data.len(),
{
    lemma_hex_len(data.drop_last());
    if i < data.len() - 1 {
        lemma_hex_digits(data.drop_last(), i);
    }
}

/// `hex_digit` is the lowercase digit of `"0123456789abcdef"`.
proof fn lemma_hex_digit_literal(n: int)
    requires
        0 <= n < 16,
    ensures
        hex_digit(n) == seq![
            '0', '1', '2', '3', '4', '5', '6', '7', '8', '9', 'a', 'b', 'c', 'd', 'e', 'f',
        ][n],
{
}

/// The hex text of `data` is `2 * data.len()` characters long.
proof fn lemma_hex_len(data: Seq<u8>)
    ensures
        hex_of(data).len() == 2 * data.len(),
    decreases data.len(),
{
    if data.len() > 0 {
        lemma_hex_len(data.drop_last());
    }
}

/// Distinct nibbles have distinct digits.
proof fn lemma_hex_digit_injective(a: int, b: int)
    requires
        0 <= a < 16,
        0 <= b < 16,
        hex_digit(a) == hex_digit(b),
    ensures
        a == b,
{
}

/// The hex text determines the data: two byte strings with the same hex
/// text are equal.
pub proof fn lemma_hex_injective(a: Seq<u8>, b: Seq<u8>)
    requires
        hex_of(a) == hex_of(b),
    ensures
        a == b,
{
    lemma_hex_len(a);
    lemma_hex_len(b);
    assert forall|i: int| 0 <= i < a.len() implies a[i] == b[i] by {
        lemma_hex_digits(a, i);
        lemma_hex_digits(b, i);
        lemma_hex_digit_injective(a[i] as int / 16, b[i] as int / 16);
        lemma_hex_digit_injective(a[i] as int % 16, b[i] as int % 16);
    }
    assert(a =~= b);
}

} // verus!
