//! Unsigned numbers as decimal text, both ways.
use crate::text::push_char;
use vstd::prelude::*;
use vstd::string::*;

verus! {

/// The character for the digit `d`, where `d < 10`.
pub open spec fn digit_char(d: int) -> char {
    ((0x30 + d) as u8) as char
}

/// The decimal text of `n`, without sign or leading zeros.
pub open spec fn decimal_text(n: nat) -> Seq<char>
    decreases n,
{
    if n < 10 {
        seq![digit_char(n as int)]
    } else {
        decimal_text(n / 10).push(digit_char((n % 10) as int))
    }
}

/// `true` for the characters `0` to `9`.
pub open spec fn is_digit(c: char) -> bool {
    '0' <= c <= '9'
}

/// The number that a digit stands for.
pub open spec fn digit_value(c: char) -> int {
    c as int - 0x30
}

/// `true` when `text` is one or more decimal digits and nothing else.
pub open spec fn all_digits(text: Seq<char>) -> bool {
    &&& text.len() > 0
    &&& forall|i: int| 0 <= i < text.len() ==> is_digit(#[trigger] text[i])
}

/// The number that a text of digits stands for.
pub open spec fn decimal_value(text: Seq<char>) -> int
    decreases text.len(),
{
    if text.len() == 0 {
        0
    } else {
        decimal_value(text.drop_last()) * 10 + digit_value(text.last())
    }
}

/// What [`parse_u64`] gives: the value of a text of digits that fits in 64
/// bits, and nothing for any other text.
pub open spec fn parsed_u64(text: Seq<char>) -> Option<u64> {
    if all_digits(text) && decimal_value(text) <= u64::MAX {
        Some(decimal_value(text) as u64)
    } else {
        None
    }
}

/// Appends the decimal text of `n` to `out`.
pub fn append_decimal(out: &mut String, n: u64)
    ensures
        final(out)@ == old(out)@ + decimal_text(n as nat),
    decreases n,
{
    if n >= 10 {
        append_decimal(out, n / 10);
    }
    let d: u8 = (n % 10) as u8;
    push_char(out, (0x30 + d) as char);
    proof {
        if n < 10 {
            assert(old(out)@.push(digit_char(n as int)) == old(out)@ + decimal_text(n as nat));
        } else {
            assert((old(out)@ + decimal_text((n / 10) as nat)).push(digit_char((n % 10) as int))
                == old(out)@ + decimal_text(n as nat));
        }
    }
}

/// The decimal text of `n`.
pub fn render_u64(n: u64) -> (r: String)
    ensures
        r@ == decimal_text(n as nat),
{
    let mut out = String::new();
    append_decimal(&mut out, n);
    out
}

/// The value of a prefix of a text of digits is at most the value of the text.
proof fn lemma_prefix_value(text: Seq<char>, k: int)
    requires
        forall|i: int| 0 <= i < text.len() ==> is_digit(#[trigger] text[i]),
        0 <= k <= text.len(),
    ensures
        0 <= decimal_value(text.take(k)) <= decimal_value(text),
    decreases text.len() - k,
{
    if k == text.len() {
        assert(text.take(k) == text);
        lemma_value_nonnegative(text);
    } else {
        lemma_prefix_value(text, k + 1);
        assert(text.take(k + 1).drop_last() == text.take(k));
        assert(is_digit(text[k]));
        lemma_value_nonnegative(text.take(k));
    }
}

proof fn lemma_value_nonnegative(text: Seq<char>)
    requires
        forall|i: int| 0 <= i < text.len() ==> is_digit(#[trigger] text[i]),
    ensures
        0 <= decimal_value(text),
    decreases text.len(),
{
    if text.len() > 0 {
        lemma_value_nonnegative(text.drop_last());
        assert(is_digit(text.last()));
    }
}

/// Reads a text of decimal digits as a number. Gives nothing for the empty
/// text, for a text with any other character in it (a sign, a point, an
/// exponent, a space), and for a number above `u64::MAX`.
pub fn parse_u64(text: &str) -> (r: Option<u64>)
    ensures
        r == parsed_u64(text@),
{
    if !text.is_ascii() {
        proof {
            if all_digits(text@) {
                assert forall|i: int| 0 <= i < text@.len() implies '\0' <= #[trigger] text@[i]
                    <= '\u{7f}' by {
                    assert(is_digit(text@[i]));
                }
            }
        }
        return None;
    }
    let bytes = text.as_bytes();
    let n: usize = bytes.len();
    proof {
        vstd::utf8::is_ascii_chars_encode_utf8(text@);
    }
    if n == 0 {
        return None;
    }
    let mut value: u64 = 0;
    let mut i: usize = 0;
    while i < n
        invariant
            i <= n,
            n == text@.len(),
            n == bytes@.len(),
            forall|k: int| 0 <= k < n ==> '\0' <= #[trigger] text@[k] <= '\u{7f}',
            forall|k: int| 0 <= k < n ==> text@[k] as u8 == #[trigger] bytes@[k],
            forall|k: int| 0 <= k < i ==> is_digit(#[trigger] text@[k]),
            value == decimal_value(text@.take(i as int)),
        decreases n - i,
    {
        let b: u8 = bytes[i];
        let ghost c = text@[i as int];
        proof {
            assert(c as u8 == bytes@[i as int]);
            assert('\0' <= c <= '\u{7f}');
            assert(c as int == b as int);
        }
        if b < 0x30 || b > 0x39 {
            proof {
                assert(!is_digit(text@[i as int]));
            }
            return None;
        }
        let d: u64 = (b - 0x30) as u64;
        proof {
            assert(text@.take(i + 1).drop_last() == text@.take(i as int));
            assert(text@.take(i + 1).last() == c);
            assert(digit_value(c) == d);
            assert(is_digit(c));
        }
        if value > (u64::MAX - d) / 10 {
            proof {
                assert(decimal_value(text@.take(i + 1)) > u64::MAX);
                if all_digits(text@) {
                    lemma_prefix_value(text@, i + 1);
                }
            }
            return None;
        }
        value = value * 10 + d;
        i += 1;
    }
    proof {
        assert(text@.take(n as int) == text@);
    }
    Some(value)
}

/// A number rendered and read back is the same number.
pub proof fn lemma_decimal_round_trip(n: u64)
    ensures
        parsed_u64(decimal_text(n as nat)) == Some(n),
{
    lemma_decimal_text(n as nat);
}

/// The decimal text of a number is made of digits and has the number as its
/// value.
pub proof fn lemma_decimal_text(n: nat)
    ensures
        all_digits(decimal_text(n)),
        decimal_value(decimal_text(n)) == n,
    decreases n,
{
    let text = decimal_text(n);
    if n < 10 {
        assert(text.drop_last() == Seq::<char>::empty());
        assert(decimal_value(text.drop_last()) == 0);
        assert(is_digit(text[0]));
    } else {
        lemma_decimal_text(n / 10);
        let head = decimal_text(n / 10);
        assert(text.drop_last() == head);
        assert(text.last() == digit_char((n % 10) as int));
        assert forall|i: int| 0 <= i < text.len() implies is_digit(#[trigger] text[i]) by {
            if i < head.len() {
                assert(text[i] == head[i]);
            }
        }
    }
}

} // verus!
