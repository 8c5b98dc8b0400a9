//! Digits, decimal numerals and lowercase hexadecimal text.

use vstd::prelude::*;

verus! {

/// The sixteen lowercase hexadecimal digits, in order of value.
pub open spec fn digit_table() -> Seq<char> {
    seq!['0', '1', '2', '3', '4', '5', '6', '7', '8', '9', 'a', 'b', 'c', 'd', 'e', 'f']
}

/// The digit that stands for `value`, for values below sixteen.
pub open spec fn digit_char(value: int) -> char {
    digit_table()[value]
}

/// The decimal numeral of a natural number, without leading zeros.
pub open spec fn decimal_digits(n: nat) -> Seq<char>
    decreases n,
{
    if n < 10 {
        seq![digit_char(n as int)]
    } else {
        decimal_digits(n / 10).push(digit_char((n % 10) as int))
    }
}

/// The decimal numeral of an integer: a minus sign before the digits of a
/// negative number, nothing before the others.
pub open spec fn decimal_text(n: int) -> Seq<char> {
    if n < 0 {
        seq!['-'] + decimal_digits((-n) as nat)
    } else {
        decimal_digits(n as nat)
    }
}

/// The one-character text of a digit below sixteen.
pub fn digit_str(value: u8) -> (out: &'static str)
    requires
        value < 16,
    ensures
        out@ == seq![digit_char(value as int)],
{
    proof {
        reveal_strlit("0");
        reveal_strlit("1");
        reveal_strlit("2");
        reveal_strlit("3");
        reveal_strlit("4");
        reveal_strlit("5");
        reveal_strlit("6");
        reveal_strlit("7");
        reveal_strlit("8");
        reveal_strlit("9");
        reveal_strlit("a");
        reveal_strlit("b");
        reveal_strlit("c");
        reveal_strlit("d");
        reveal_strlit("e");
        reveal_strlit("f");
    }
    let out = match value {
        0 => "0",
        1 => "1",
        2 => "2",
        3 => "3",
        4 => "4",
        5 => "5",
        6 => "6",
        7 => "7",
        8 => "8",
        9 => "9",
        10 => "a",
        11 => "b",
        12 => "c",
        13 => "d",
        14 => "e",
        _ => "f",
    };
    assert(out@ =~= seq![digit_char(value as int)]);
    out
}

/// Appends the decimal numeral of `n` to `out`.
pub fn push_decimal_digits(out: &mut String, n: u32)
    ensures
        final(out)@ == old(out)@ + decimal_digits(n as nat),
    decreases n,
{
    if n >= 10 {
        push_decimal_digits(out, n / 10);
    }
    let last: u8 = (n % 10) as u8;
    out.append(digit_str(last));
    assert(final(out)@ =~= old(out)@ + decimal_digits(n as nat));
}

/// Appends the decimal numeral of a signed integer to `out`.
pub fn push_decimal(out: &mut String, n: i32)
    ensures
        final(out)@ == old(out)@ + decimal_text(n as int),
{
    if n < 0 {
        out.append("-");
        proof {
            reveal_strlit("-");
        }
        let magnitude: u32 = (-(n as i64)) as u32;
        push_decimal_digits(out, magnitude);
        assert(final(out)@ =~= old(out)@ + decimal_text(n as int));
    } else {
        push_decimal_digits(out, n as u32);
    }
}

/// The lowercase hexadecimal text of a byte string, two digits per byte.
pub open spec fn hex_text(bytes: Seq<u8>) -> Seq<char>
    decreases bytes.len(),
{
    if bytes.len() == 0 {
        Seq::empty()
    } else {
        hex_text(bytes.drop_last()).push(digit_char(bytes.last() as int / 16)).push(
            digit_char(bytes.last() as int % 16),
        )
    }
}

/// The value of a lowercase hexadecimal digit; `None` for any other character.
pub open spec fn digit_value(c: char) -> Option<int> {
    if '0' <= c <= '9' {
        Some(c as int - '0' as int)
    } else if 'a' <= c <= 'f' {
        Some(c as int - 'a' as int + 10)
    } else {
        None
    }
}

/// The byte string that a hexadecimal text stands for. A text of odd length,
/// or one that holds anything but lowercase hexadecimal digits, stands for
/// none.
pub open spec fn hex_bytes(text: Seq<char>) -> Option<Seq<u8>>
    decreases text.len(),
{
    if text.len() == 0 {
        Some(Seq::empty())
    } else if text.len() % 2 == 1 {
        None
    } else {
        let high = digit_value(text[text.len() - 2]);
        let low = digit_value(text[text.len() - 1]);
        match (hex_bytes(text.take(text.len() - 2)), high, low) {
            (Some(front), Some(h), Some(l)) => Some(front.push((h * 16 + l) as u8)),
            _ => None,
        }
    }
}

/// Every digit has its own value back.
pub proof fn lemma_digit_round_trip(value: int)
    requires
        0 <= value < 16,
    ensures
        digit_value(digit_char(value)) == Some(value),
{
}

/// A character with a digit value is the digit of that value.
pub proof fn lemma_digit_unique(c: char)
    requires
        digit_value(c) is Some,
    ensures
        0 <= digit_value(c)->0 < 16,
        digit_char(digit_value(c)->0) == c,
        (c as int) < 128,
{
}

/// Reading the hexadecimal text of a byte string gives the byte string back.
pub proof fn lemma_hex_round_trip(bytes: Seq<u8>)
    ensures
        hex_text(bytes).len() == 2 * bytes.len(),
        hex_bytes(hex_text(bytes)) == Some(bytes),
    decreases bytes.len(),
{
    if bytes.len() > 0 {
        let front = bytes.drop_last();
        let last = bytes.last() as int;
        lemma_hex_round_trip(front);
        lemma_digit_round_trip(last / 16);
        lemma_digit_round_trip(last % 16);
        let text = hex_text(bytes);
        assert(text.take(text.len() - 2) =~= hex_text(front));
        assert(front.push((last / 16 * 16 + last % 16) as u8) =~= bytes);
    }
}

/// A text that stands for a byte string is the hexadecimal text of that byte
/// string: no two texts stand for the same bytes.
pub proof fn lemma_hex_canonical(text: Seq<char>)
    requires
        hex_bytes(text) is Some,
    ensures
        hex_text(hex_bytes(text)->0) == text,
        text.len() == 2 * hex_bytes(text)->0.len(),
        vstd::utf8::is_ascii_chars(text),
    decreases text.len(),
{
    if text.len() > 0 {
        let front = text.take(text.len() - 2);
        lemma_hex_canonical(front);
        let high = text[text.len() - 2];
        let low = text[text.len() - 1];
        lemma_digit_unique(high);
        lemma_digit_unique(low);
        let h = digit_value(high)->0;
        let l = digit_value(low)->0;
        let bytes = hex_bytes(text)->0;
        assert(bytes.drop_last() =~= hex_bytes(front)->0);
        assert(bytes.last() as int == h * 16 + l);
        assert(hex_text(bytes) =~= text);
        assert forall|k: int| 0 <= k < text.len() implies '\0' <= #[trigger] text[k] <= '\u{7f}' by {
            if k < text.len() - 2 {
                assert(front[k] == text[k]);
            }
        }
    } else {
        assert(hex_text(hex_bytes(text)->0) =~= text);
    }
}

/// Appends the hexadecimal text of `bytes` to `out`.
pub fn push_hex(out: &mut String, bytes: &Vec<u8>)
    ensures
        final(out)@ == old(out)@ + hex_text(bytes@),
{
    let mut i: usize = 0;
    while i < bytes.len()
        invariant
            i <= bytes.len(),
            out@ == old(out)@ + hex_text(bytes@.take(i as int)),
        decreases bytes.len() - i,
    {
        let b: u8 = bytes[i];
        out.append(digit_str(b / 16));
        out.append(digit_str(b % 16));
        proof {
            assert(bytes@.take(i + 1).drop_last() =~= bytes@.take(i as int));
            assert(out@ =~= old(out)@ + hex_text(bytes@.take(i + 1)));
        }
        i += 1;
    }
    assert(bytes@.take(i as int) =~= bytes@);
}

/// The value of the lowercase hexadecimal digit with character code `code`.
pub fn digit_of(code: u8) -> (out: Option<u8>)
    ensures
        out is Some == digit_value(code as char) is Some,
        out is Some ==> out->0 as int == digit_value(code as char)->0,
{
    if 48 <= code && code <= 57 {
        Some(code - 48)
    } else if 97 <= code && code <= 102 {
        Some(code - 87)
    } else {
        None
    }
}

/// Reads a hexadecimal text: the bytes it stands for, or `None` where it
/// stands for none.
pub fn read_hex(text: &str) -> (out: Option<Vec<u8>>)
    ensures
        out is Some == hex_bytes(text@) is Some,
        out is Some ==> out->0@ == hex_bytes(text@)->0,
{
    if !text.is_ascii() {
        proof {
            if hex_bytes(text@) is Some {
                lemma_hex_canonical(text@);
            }
        }
        return None;
    }
    let n: usize = text.unicode_len();
    if n % 2 == 1 {
        return None;
    }
    let mut bytes: Vec<u8> = Vec::new();
    let mut i: usize = 0;
    while i < n
        invariant
            text.is_ascii(),
            n == text@.len(),
            n % 2 == 0,
            i % 2 == 0,
            i <= n,
            hex_bytes(text@.take(i as int)) == Some(bytes@),
        decreases n - i,
    {
        let high = digit_of(text.get_ascii(i));
        let low = digit_of(text.get_ascii(i + 1));
        proof {
            let next = text@.take(i + 2);
            assert(next.take(next.len() - 2) =~= text@.take(i as int));
            assert(next[next.len() - 2] == text@[i as int]);
            assert(next[next.len() - 1] == text@[i + 1]);
            assert(text@[i as int] as u8 as char == text@[i as int]);
            assert(text@[i + 1] as u8 as char == text@[i + 1]);
        }
        match (high, low) {
            (Some(h), Some(l)) => {
                bytes.push(h * 16 + l);
            },
            _ => {
                proof {
                    if hex_bytes(text@) is Some {
                        lemma_hex_prefix(text@, i + 2);
                    }
                }
                return None;
            },
        }
        i += 2;
    }
    assert(text@.take(i as int) =~= text@);
    Some(bytes)
}

/// Every even-length front part of a text that stands for a byte string
/// stands for one too.
pub proof fn lemma_hex_prefix(text: Seq<char>, len: int)
    requires
        0 <= len <= text.len(),
        len % 2 == 0,
        hex_bytes(text) is Some,
    ensures
        hex_bytes(text.take(len)) is Some,
    decreases text.len(),
{
    if len == text.len() {
        assert(text.take(len) =~= text);
    } else {
        let front = text.take(text.len() - 2);
        lemma_hex_prefix(front, len);
        assert(front.take(len) =~= text.take(len));
    }
}

} // verus!
