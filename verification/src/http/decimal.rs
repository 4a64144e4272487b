//! Decimal numbers as ASCII text
use vstd::prelude::*;
use vstd::string::*;

verus! {

/// The decimal digits of a number, as ASCII characters, without leading zeros.
pub open spec fn decimal(n: nat) -> Seq<u8>
    decreases n,
{
    if n < 10 {
        seq![(48 + n) as u8]
    } else {
        decimal(n / 10).push((48 + n % 10) as u8)
    }
}

/// Whether every byte is an ASCII digit.
pub open spec fn all_digits(text: Seq<u8>) -> bool {
    forall|i: int| 0 <= i < text.len() ==> 48 <= #[trigger] text[i] <= 57
}

/// The number that ASCII digits are.
pub open spec fn decimal_value(text: Seq<u8>) -> nat
    decreases text.len(),
{
    if text.len() == 0 {
        0
    } else {
        decimal_value(text.drop_last()) * 10 + (text.last() - 48) as nat
    }
}

/// The digits of a number that may stand behind a plus sign.
pub open spec fn unsigned(text: Seq<u8>) -> Seq<u8> {
    if text.len() > 0 && text[0] == 43 {
        text.drop_first()
    } else {
        text
    }
}

/// The number that a text is: digits, perhaps behind a plus sign, whose value a `usize` holds.
pub open spec fn parsed_usize(text: Seq<u8>) -> Option<usize> {
    let digits = unsigned(text);
    if digits.len() > 0 && all_digits(digits) && decimal_value(digits) <= usize::MAX {
        Some(decimal_value(digits) as usize)
    } else {
        None
    }
}

/// The value of more digits is no less.
proof fn lemma_value_of_prefix(text: Seq<u8>, n: int)
    requires
        all_digits(text),
        0 <= n <= text.len(),
    ensures
        decimal_value(text.take(n)) <= decimal_value(text),
    decreases text.len(),
{
    if n < text.len() {
        assert(text.drop_last().take(n) =~= text.take(n));
        lemma_value_of_prefix(text.drop_last(), n);
    } else {
        assert(text.take(n) =~= text);
    }
}

/// The number that a text is, as [`str::parse`] reads it.
pub fn parse_usize(text: &[u8]) -> (r: Option<usize>)
    ensures
        r == parsed_usize(text@),
{
    let start: usize = if text.len() > 0 && text[0] == 43 {
        1
    } else {
        0
    };
    let ghost digits = unsigned(text@);
    assert(digits =~= text@.skip(start as int));
    if start == text.len() {
        return None;
    }
    let mut value: usize = 0;
    let mut i: usize = start;
    while i < text.len()
        invariant
            start <= i <= text@.len(),
            digits == text@.skip(start as int),
            digits == unsigned(text@),
            digits.len() > 0,
            value == decimal_value(digits.take(i - start)),
            all_digits(digits.take(i - start)),
        decreases text@.len() - i,
    {
        let b: u8 = text[i];
        assert(digits[i - start] == b);
        if b < 48 || b > 57 {
            return None;
        }
        let digit: usize = (b - 48) as usize;
        let ghost next = digits.take(i - start + 1);
        proof {
            assert(next.drop_last() =~= digits.take(i - start));
            assert(next.last() == b);
            if all_digits(digits) {
                lemma_value_of_prefix(digits, i - start + 1);
            }
        }
        if value > (usize::MAX - digit) / 10 {
            assert(value * 10 + digit > usize::MAX);
            return None;
        }
        value = value * 10 + digit;
        i = i + 1;
    }
    assert(digits.take(i - start) =~= digits);
    Some(value)
}

/// The decimal digits of a number.
pub fn format_usize(n: usize) -> (r: Vec<u8>)
    ensures
        r@ == decimal(n as nat),
    decreases n,
{
    if n < 10 {
        let mut text = Vec::new();
        text.push(48 + n as u8);
        text
    } else {
        let mut text = format_usize(n / 10);
        text.push(48 + (n % 10) as u8);
        text
    }
}

/// A formatted number is parsed to the same number.
pub proof fn formatted_number_is_parsed_back(n: usize)
    ensures
        parsed_usize(decimal(n as nat)) == Some(n),
{
    lemma_decimal(n as nat);
}

/// The digits of a number are digits, there is at least one, and their value is the number.
proof fn lemma_decimal(n: nat)
    ensures
        decimal(n).len() > 0,
        all_digits(decimal(n)),
        decimal_value(decimal(n)) == n,
    decreases n,
{
    if n < 10 {
        assert(decimal(n).drop_last() =~= Seq::<u8>::empty());
        assert(decimal_value(Seq::<u8>::empty()) == 0);
    } else {
        lemma_decimal(n / 10);
        assert(decimal(n).drop_last() =~= decimal(n / 10));
    }
}

/// The decimal digits of a number as characters.
pub open spec fn digits(n: nat) -> Seq<char> {
    decimal(n).map_values(|b: u8| b as char)
}

/// The decimal digits of a number as text.
pub fn format_digits(n: usize) -> (r: String)
    ensures
        r@ == digits(n as nat),
{
    let bytes = format_usize(n);
    let mut text = String::new();
    let mut i: usize = 0;
    while i < bytes.len()
        invariant
            i <= bytes@.len(),
            bytes@ == decimal(n as nat),
            text@ == digits(n as nat).take(i as int),
        decreases bytes@.len() - i,
    {
        proof {
            lemma_decimal(n as nat);
        }
        text.append(digit_text(bytes[i]));
        assert(digits(n as nat).take(i + 1) =~= digits(n as nat).take(i as int).push(bytes@[i as int] as char));
        i = i + 1;
    }
    assert(digits(n as nat).take(i as int) =~= digits(n as nat));
    text
}

/// The decimal digits of bytes, with a comma and a space between two.
pub open spec fn listed_digits(bytes: Seq<u8>) -> Seq<char>
    decreases bytes.len(),
{
    if bytes.len() == 0 {
        Seq::empty()
    } else if bytes.len() == 1 {
        digits(bytes[0] as nat)
    } else {
        listed_digits(bytes.drop_last()) + ", "@ + digits(bytes.last() as nat)
    }
}

/// The list of bytes that their debug output is.
pub open spec fn byte_list(bytes: Seq<u8>) -> Seq<char> {
    "["@ + listed_digits(bytes) + "]"@
}

/// The list of bytes as text.
pub fn format_bytes(bytes: &[u8]) -> (r: String)
    ensures
        r@ == byte_list(bytes@),
{
    let mut text = "[".to_owned();
    let mut i: usize = 0;
    assert(text@ =~= "["@ + listed_digits(bytes@.take(0)));
    while i < bytes.len()
        invariant
            i <= bytes@.len(),
            text@ == "["@ + listed_digits(bytes@.take(i as int)),
        decreases bytes@.len() - i,
    {
        assert(bytes@.take(i + 1).drop_last() =~= bytes@.take(i as int));
        if i > 0 {
            text.append(", ");
        }
        text.append(format_digits(bytes[i] as usize).as_str());
        assert(text@ =~= "["@ + listed_digits(bytes@.take(i + 1)));
        i = i + 1;
    }
    assert(bytes@.take(i as int) =~= bytes@);
    text.append("]");
    text
}

/// The text that an ASCII digit is.
fn digit_text(b: u8) -> (r: &'static str)
    requires
        48 <= b <= 57,
    ensures
        r@ == seq![b as char],
{
    proof {
        reveal_strlit("0");
        reveal_strlit("1");
        reveal_strlit("2");
        reveal_strlit("3");
        reveal_strlit("4");
        reveal_strlit("5");
        reveal_strlit("6");
        reveal_strlit("7");
        reveal_strlit("8");
        reveal_strlit("9");
    }
    match b {
        48 => "0",
        49 => "1",
        50 => "2",
        51 => "3",
        52 => "4",
        53 => "5",
        54 => "6",
        55 => "7",
        56 => "8",
        _ => "9",
    }
}

/// The last digit of a number is its remainder by ten, and the digits before it are those of the tenth part. A number below
/// ten has one digit.
pub proof fn last_digit_is_remainder(n: nat)
    ensures
        decimal(n).len() >= 1,
        decimal(n).last() == '0' as u8 + n % 10,
        n < 10 <==> decimal(n).len() == 1,
        n >= 10 ==> decimal(n).drop_last() == decimal(n / 10),
        digits(n).len() == decimal(n).len(),
        forall|i: int| 0 <= i < digits(n).len() ==> '0' <= #[trigger] digits(n)[i] <= '9',
        forall|i: int| 0 <= i < digits(n).len() ==> #[trigger] digits(n)[i] as u8 == decimal(n)[i],
    decreases n,
{
    lemma_decimal(n);
    if n >= 10 {
        assert(decimal(n).drop_last() =~= decimal(n / 10));
        last_digit_is_remainder(n / 10);
    }
    assert forall|i: int| 0 <= i < digits(n).len() implies '0' <= #[trigger] digits(n)[i] <= '9' && digits(n)[i] as u8
        == decimal(n)[i] by {
        assert(48 <= decimal(n)[i] <= 57);
    }
}

/// Another digit behind a number makes it ten times the number and the digit. A plus sign before a number changes nothing.
/// What has another character than digits behind the sign, or no digit, is no number, nor is what no `usize` holds.
pub proof fn digit_multiplies_by_ten(text: Seq<u8>, digit: u8)
    requires
        text.len() > 0,
        text[0] != '+' as u8,
    ensures
        parsed_usize(Seq::empty()) is None,
        parsed_usize(seq!['+' as u8] + text) == parsed_usize(text),
        parsed_usize(seq![digit]) == if '0' as u8 <= digit <= '9' as u8 {
            Some((digit - '0' as u8) as usize)
        } else {
            None
        },
        match parsed_usize(text) {
            Some(n) => parsed_usize(text.push(digit)) == if '0' as u8 <= digit <= '9' as u8 && n * 10 + (digit
                - '0' as u8) <= usize::MAX {
                Some((n * 10 + (digit - '0' as u8)) as usize)
            } else {
                None
            },
            None => parsed_usize(text.push(digit)) is None,
        },
{
    let signed = seq!['+' as u8] + text;
    assert(signed.drop_first() =~= text);
    assert(unsigned(text) == text);
    assert(unsigned(text.push(digit)) == text.push(digit));
    assert(text.push(digit).drop_last() =~= text);
    assert(text.push(digit).last() == digit);
    let one = seq![digit];
    assert(one.drop_last() =~= Seq::<u8>::empty());
    assert(decimal_value(Seq::<u8>::empty()) == 0);
    assert(decimal_value(one) == (digit - 48) as nat);
    if digit == 43 {
        assert(one.drop_first() =~= Seq::<u8>::empty());
    }
    if all_digits(text.push(digit)) {
        assert forall|i: int| 0 <= i < text.len() implies 48 <= #[trigger] text[i] <= 57 by {
            assert(text.push(digit)[i] == text[i]);
        }
    } else if all_digits(text) {
        assert(!(48 <= digit <= 57));
    }
    if 48 <= digit <= 57 && all_digits(text) {
        assert(all_digits(text.push(digit)));
    }
    if !(48 <= digit <= 57) {
        assert(text.push(digit)[text.len() as int] == digit);
        assert(!all_digits(text.push(digit)));
        assert(one[0] == digit);
        assert(!all_digits(one));
    }
}

/// A byte that is added to a list of bytes stands at its end, as a number, behind a comma and a space unless it is the
/// first.
pub proof fn listed_byte_is_last(bytes: Seq<u8>, byte: u8)
    ensures
        byte_list(Seq::empty()) == "["@ + "]"@,
        byte_list(seq![byte]) == "["@ + digits(byte as nat) + "]"@,
        bytes.len() > 0 ==> byte_list(bytes.push(byte)) == byte_list(bytes).drop_last() + ", "@ + digits(
            byte as nat,
        ) + "]"@,
{
    reveal_strlit("[");
    reveal_strlit("]");
    assert(byte_list(Seq::empty()) =~= "["@ + "]"@);
    assert(bytes.push(byte).drop_last() =~= bytes);
    if bytes.len() > 0 {
        assert(byte_list(bytes).drop_last() =~= "["@ + listed_digits(bytes));
        assert(byte_list(bytes.push(byte)) =~= byte_list(bytes).drop_last() + ", "@ + digits(byte as nat) + "]"@);
    }
}

} // verus!
