//! Numbers and bytes as text.

use vstd::prelude::*;
use vstd::utf8::{decode_utf8, valid_utf8};

verus! {

/// The character that stands for a number below ten.
pub open spec fn digit_char(d: int) -> char {
    ('0' as int + d) as char
}

/// `c` is one of the characters `0` to `9`.
pub open spec fn is_digit(c: char) -> bool {
    '0' as int <= c as int <= '9' as int
}

/// The decimal notation of a natural number, without leading zeros.
pub open spec fn decimal_nat(n: nat) -> Seq<char>
    decreases n,
{
    if n < 10 {
        seq![digit_char(n as int)]
    } else {
        decimal_nat(n / 10).push(digit_char((n % 10) as int))
    }
}

/// The decimal notation of an integer: a minus sign if it is negative, then the digits.
pub open spec fn decimal(n: int) -> Seq<char> {
    if n < 0 {
        seq!['-'] + decimal_nat((-n) as nat)
    } else {
        decimal_nat(n as nat)
    }
}

/// The number that a text of decimal digits denotes; none if the text is empty or holds
/// another character.
pub open spec fn digits_value(s: Seq<char>) -> Option<nat>
    decreases s.len(),
{
    if s.len() == 0 || !is_digit(s.last()) {
        None
    } else {
        let d = (s.last() as int - '0' as int) as nat;
        if s.len() == 1 {
            Some(d)
        } else {
            match digits_value(s.drop_last()) {
                Some(n) => Some(10 * n + d),
                None => None,
            }
        }
    }
}

/// The integer that a text denotes: an optional sign followed by decimal digits only.
pub open spec fn signed_value(s: Seq<char>) -> Option<int> {
    if s.len() > 0 && (s[0] == '-' || s[0] == '+') {
        match digits_value(s.drop_first()) {
            Some(n) => Some(if s[0] == '-' { -n } else { n as int }),
            None => None,
        }
    } else {
        match digits_value(s) {
            Some(n) => Some(n as int),
            None => None,
        }
    }
}

/// The integer that a text denotes, if it denotes one that an `i64` holds.
pub open spec fn int64_of_text(s: Seq<char>) -> Option<int> {
    match signed_value(s) {
        Some(v) if i64::MIN <= v <= i64::MAX => Some(v),
        _ => None,
    }
}

/// What `str::parse::<i64>` says of a text that it rejects.
pub uninterp spec fn int64_error_text(s: Seq<char>) -> Seq<char>;

/// What `core::str::from_utf8` says of bytes that it rejects.
pub uninterp spec fn utf8_error_text(bytes: Seq<u8>) -> Seq<char>;

/// The text that `String::from_utf8_lossy` makes of bytes.
pub uninterp spec fn utf8_lossy_text(bytes: Seq<u8>) -> Seq<char>;

/// `str::parse::<i64>`, which accepts an optional sign followed by decimal digits only,
/// within the range of an `i64`. The error is handed on as its message, which is a function
/// of the text and is otherwise left open.
#[verifier::external_body]
pub(crate) fn parse_int64(text: &str) -> (parsed: Result<i64, String>)
    ensures
        match parsed {
            Ok(value) => int64_of_text(text@) == Some(value as int),
            Err(detail) => int64_of_text(text@) is None && detail@ == int64_error_text(text@),
        },
{
    match text.parse::<i64>() {
        Ok(value) => Ok(value),
        Err(e) => Err(e.to_string()),
    }
}

/// `core::str::from_utf8`, which decodes bytes that are valid UTF-8 and rejects all others.
/// The error is handed on as its message, which is a function of the bytes and is otherwise
/// left open.
#[verifier::external_body]
pub(crate) fn text_of_utf8(bytes: &[u8]) -> (decoded: Result<String, String>)
    ensures
        match decoded {
            Ok(text) => valid_utf8(bytes@) && text@ == decode_utf8(bytes@),
            Err(detail) => !valid_utf8(bytes@) && detail@ == utf8_error_text(bytes@),
        },
{
    match core::str::from_utf8(bytes) {
        Ok(text) => Ok(text.to_string()),
        Err(e) => Err(e.to_string()),
    }
}

/// `String::from_utf8_lossy`, which decodes bytes that are valid UTF-8 and puts the
/// replacement character U+FFFD in the place of each invalid sequence of other bytes. How
/// the bytes are cut into invalid sequences is left open.
#[verifier::external_body]
pub(crate) fn text_of_utf8_lossy(bytes: &[u8]) -> (text: String)
    ensures
        text@ == utf8_lossy_text(bytes@),
        valid_utf8(bytes@) ==> text@ == decode_utf8(bytes@),
        !valid_utf8(bytes@) ==> text@.contains('\u{FFFD}'),
{
    String::from_utf8_lossy(bytes).into_owned()
}

/// The text that stands for a number below ten.
fn digit_text(d: u64) -> (text: &'static str)
    requires
        d < 10,
    ensures
        text@ == seq![digit_char(d as int)],
{
    proof {
        reveal_strlit("0");
        reveal_strlit("1");
        reveal_strlit("2");
        reveal_strlit("3");
        reveal_strlit("4");
        reveal_strlit("5");
        reveal_strlit("6");
        reveal_strlit("7");
        reveal_strlit("8");
        reveal_strlit("9");
    }
    match d {
        0 => "0",
        1 => "1",
        2 => "2",
        3 => "3",
        4 => "4",
        5 => "5",
        6 => "6",
        7 => "7",
        8 => "8",
        _ => "9",
    }
}

/// Writes a natural number at the end of a text.
pub fn append_u64(out: &mut String, n: u64)
    ensures
        final(out)@ == old(out)@ + decimal_nat(n as nat),
    decreases n,
{
    if n >= 10 {
        append_u64(out, n / 10);
    }
    out.append(digit_text(n % 10));
}

/// Writes an integer at the end of a text.
pub fn append_i32(out: &mut String, n: i32)
    ensures
        final(out)@ == old(out)@ + decimal(n as int),
{
    if n < 0 {
        proof {
            reveal_strlit("-");
        }
        out.append("-");
        append_u64(out, (-(n as i64)) as u64);
    } else {
        append_u64(out, n as u64);
    }
}

/// The decimal notation of a natural number holds digits only, and they denote the number.
proof fn lemma_decimal_nat(n: nat)
    ensures
        decimal_nat(n).len() > 0,
        is_digit(decimal_nat(n)[0]),
        digits_value(decimal_nat(n)) == Some(n),
    decreases n,
{
    if n >= 10 {
        lemma_decimal_nat(n / 10);
        assert(decimal_nat(n).drop_last() =~= decimal_nat(n / 10));
    }
}

/// Reading gives back what was written: the decimal notation of an `i64` denotes it.
pub proof fn law_decimal_round_trip(value: i64)
    ensures
        int64_of_text(decimal(value as int)) == Some(value as int),
{
    if value < 0 {
        lemma_decimal_nat((-value) as nat);
        assert(decimal(value as int).drop_first() =~= decimal_nat((-value) as nat));
    } else {
        lemma_decimal_nat(value as nat);
    }
}

/// What a text denotes, digit by digit: a digit denotes itself, also after a sign, which may
/// negate it; a digit at the end of a text adds itself to ten times what the text denotes, on
/// the same side of zero; and no other text denotes anything.
pub proof fn law_value_by_digits(s: Seq<char>, c: char)
    requires
        '0' <= c <= '9',
    ensures
        signed_value(seq![c]) == Some(c as int - 48),
        signed_value(seq!['+', c]) == Some(c as int - 48),
        signed_value(seq!['-', c]) == Some(48 - c as int),
        signed_value(s) matches Some(v) ==> signed_value(s.push(c)) == Some(
            if s[0] == '-' {
                10 * v - (c as int - 48)
            } else {
                10 * v + (c as int - 48)
            },
        ),
        signed_value(s) is Some ==> {
            &&& s.len() > 0
            &&& '0' <= s.last() <= '9'
            &&& s.len() > 1 ==> signed_value(s.drop_last()) is Some || s.drop_last() == seq!['+']
                || s.drop_last() == seq!['-']
        },
{
    reveal_with_fuel(digits_value, 3);
    assert(seq!['+', c].drop_first() =~= seq![c]);
    assert(seq!['-', c].drop_first() =~= seq![c]);
    if s.len() > 0 {
        assert(s.push(c).drop_last() =~= s);
        assert(s.push(c).drop_first() =~= s.drop_first().push(c));
        assert(s.drop_first().push(c).drop_last() =~= s.drop_first());
        if s.len() > 1 {
            assert(s.drop_last().drop_first() =~= s.drop_first().drop_last());
            if s.len() == 2 {
                assert(s.drop_last() =~= seq![s[0]]);
            }
        }
    }
}

/// The texts that denote an `i64` are the texts that denote an integer in its range.
pub proof fn law_int64_is_value_in_range(s: Seq<char>)
    ensures
        int64_of_text(s) matches Some(v) ==> signed_value(s) == Some(v) && -0x8000_0000_0000_0000
            <= v <= 0x7FFF_FFFF_FFFF_FFFF,
        signed_value(s) matches Some(v) ==> -0x8000_0000_0000_0000 <= v <= 0x7FFF_FFFF_FFFF_FFFF
            ==> int64_of_text(s) == Some(v),
{
}

/// The decimal notation of a number denotes the number, and it is the shortest such text: it
/// begins with a minus sign only if the number is negative, never with a plus sign, and with
/// the digit zero only if the number is zero.
pub proof fn law_decimal_is_shortest_notation(n: int)
    ensures
        signed_value(decimal(n)) == Some(n),
        decimal(n).len() > 0,
        n == 0 ==> decimal(n) == seq!['0'],
        n > 0 ==> '1' <= decimal(n)[0] <= '9',
        n < 0 ==> decimal(n).len() > 1 && decimal(n)[0] == '-' && '1' <= decimal(n)[1] <= '9',
{
    if n < 0 {
        lemma_decimal_nat((-n) as nat);
        lemma_decimal_nat_leading((-n) as nat);
        assert(decimal(n).drop_first() =~= decimal_nat((-n) as nat));
    } else {
        lemma_decimal_nat(n as nat);
        if n > 0 {
            lemma_decimal_nat_leading(n as nat);
        }
    }
}

proof fn lemma_decimal_nat_leading(n: nat)
    requires
        n > 0,
    ensures
        decimal_nat(n).len() > 0,
        '1' <= decimal_nat(n)[0] <= '9',
    decreases n,
{
    if n >= 10 {
        lemma_decimal_nat_leading(n / 10);
    }
}

/// Writing a number puts its decimal notation behind what was there.
pub proof fn law_append_writes_decimal(a: &mut String, b: &mut String, n: u64, m: i32)
    requires
        call_ensures(append_u64, (a, n), ()),
        call_ensures(append_i32, (b, m), ()),
    ensures
        final(a)@ == old(a)@ + decimal(n as int),
        final(b)@ == old(b)@ + decimal(m as int),
{
}

} // verus!
