//! Thread identifiers.
//!
//! A thread is identified by a 128-bit number, written as five groups of
//! lower-case hexadecimal digits.  Stored identifiers are ordered by their
//! text, which orders them as the numbers are.
use vstd::prelude::*;

use crate::text::characters;

verus! {

/// Identifies a thread.
#[derive(Clone, Copy, Debug, PartialEq, Eq, Structural, Hash)]
pub struct ThreadId {
    pub value: u128,
}

/// The hexadecimal digit of a number below 16.
pub open spec fn hex_char(digit: nat) -> char {
    if digit == 0 {
        '0'
    } else if digit == 1 {
        '1'
    } else if digit == 2 {
        '2'
    } else if digit == 3 {
        '3'
    } else if digit == 4 {
        '4'
    } else if digit == 5 {
        '5'
    } else if digit == 6 {
        '6'
    } else if digit == 7 {
        '7'
    } else if digit == 8 {
        '8'
    } else if digit == 9 {
        '9'
    } else if digit == 10 {
        'a'
    } else if digit == 11 {
        'b'
    } else if digit == 12 {
        'c'
    } else if digit == 13 {
        'd'
    } else if digit == 14 {
        'e'
    } else {
        'f'
    }
}

/// The number that a hexadecimal digit of either case stands for.
pub open spec fn hex_value(c: char) -> Option<nat> {
    if '0' <= c <= '9' {
        Some((c as nat - '0' as nat) as nat)
    } else if 'a' <= c <= 'f' {
        Some((c as nat - 'a' as nat + 10) as nat)
    } else if 'A' <= c <= 'F' {
        Some((c as nat - 'A' as nat + 10) as nat)
    } else {
        None
    }
}

/// The lowest `count` hexadecimal digits of a number, highest first.
pub open spec fn hex_digits(value: nat, count: nat) -> Seq<char>
    decreases count,
{
    if count == 0 {
        Seq::empty()
    } else {
        hex_digits(value / 16, (count - 1) as nat).push(hex_char(value % 16))
    }
}

/// The number that hexadecimal digits stand for, if all of them are digits.
pub open spec fn hex_number(digits: Seq<char>) -> Option<nat>
    decreases digits.len(),
{
    if digits.len() == 0 {
        Some(0)
    } else {
        match (hex_number(digits.drop_last()), hex_value(digits.last())) {
            (Some(high), Some(low)) => Some(high * 16 + low),
            _ => None,
        }
    }
}

/// The digits, with hyphens after the groups of eight, four, four and four.
pub open spec fn grouped(digits: Seq<char>) -> Seq<char> {
    digits.take(8).push('-') + digits.subrange(8, 12).push('-') + digits.subrange(12, 16).push('-')
        + digits.subrange(16, 20).push('-') + digits.skip(20)
}

/// The text of a thread identifier.
pub open spec fn thread_id_text(value: u128) -> Seq<char> {
    grouped(hex_digits(value as nat, 32))
}

/// The thread identifier that a text spells.
pub open spec fn parsed_thread_id(text: Seq<char>) -> Option<u128> {
    if text.len() == 36 && text[8] == '-' && text[13] == '-' && text[18] == '-' && text[23] == '-' {
        match hex_number(ungrouped(text)) {
            Some(value) => Some(value as u128),
            None => None,
        }
    } else {
        None
    }
}

/// The digits of a text of five groups.
pub open spec fn ungrouped(text: Seq<char>) -> Seq<char> {
    text.take(8) + text.subrange(9, 13) + text.subrange(14, 18) + text.subrange(19, 23)
        + text.skip(24)
}

/// Whether, at the first place where two texts of one length differ, the
/// character of the first is the lesser.
pub open spec fn text_before(a: Seq<char>, b: Seq<char>) -> bool {
    exists|k: int| #[trigger] differ_first_at(a, b, k)
}

/// Whether two texts agree up to `k`, where the first has the lesser character.
pub open spec fn differ_first_at(a: Seq<char>, b: Seq<char>, k: int) -> bool {
    0 <= k < a.len() && k < b.len() && a.take(k) == b.take(k) && a[k] < b[k]
}

/// Sixteen to the power `count`.
pub open spec fn sixteens(count: nat) -> nat
    decreases count,
{
    if count == 0 {
        1
    } else {
        16 * sixteens((count - 1) as nat)
    }
}

proof fn sixteens_is_positive(count: nat)
    ensures
        sixteens(count) > 0,
    decreases count,
{
    if count > 0 {
        sixteens_is_positive((count - 1) as nat);
    }
}

proof fn thirty_two_digits_suffice()
    ensures
        sixteens(32) == u128::MAX + 1,
{
    reveal_with_fuel(sixteens, 33);
}

proof fn hex_digits_length(value: nat, count: nat)
    ensures
        hex_digits(value, count).len() == count,
    decreases count,
{
    if count > 0 {
        hex_digits_length(value / 16, (count - 1) as nat);
    }
}

proof fn hex_digits_parse_back(value: nat, count: nat)
    requires
        value < sixteens(count),
    ensures
        hex_number(hex_digits(value, count)) == Some(value),
    decreases count,
{
    if count > 0 {
        hex_digits_parse_back(value / 16, (count - 1) as nat);
        let digits = hex_digits(value, count);
        assert(digits.drop_last() =~= hex_digits(value / 16, (count - 1) as nat));
        assert(hex_value(hex_char(value % 16)) == Some(value % 16));
    }
}

proof fn hex_number_is_bounded(digits: Seq<char>)
    ensures
        hex_number(digits) is Some ==> hex_number(digits)->0 < sixteens(digits.len()),
    decreases digits.len(),
{
    if digits.len() > 0 {
        hex_number_is_bounded(digits.drop_last());
    }
}

/// What a thread identifier is written as is read back as the same identifier.
pub proof fn thread_id_text_parses_back(value: u128)
    ensures
        parsed_thread_id(thread_id_text(value)) == Some(value),
{
    let digits = hex_digits(value as nat, 32);
    hex_digits_length(value as nat, 32);
    thirty_two_digits_suffice();
    hex_digits_parse_back(value as nat, 32);
    let text = grouped(digits);
    assert(ungrouped(text) =~= digits);
}

proof fn hex_digits_keep_order(a: nat, b: nat, count: nat)
    requires
        a < b < sixteens(count),
    ensures
        text_before(hex_digits(a, count), hex_digits(b, count)),
    decreases count,
{
    if count > 0 {
        let fewer = (count - 1) as nat;
        let x = hex_digits(a, count);
        let y = hex_digits(b, count);
        hex_digits_length(a, count);
        hex_digits_length(b, count);
        hex_digits_length(a / 16, fewer);
        hex_digits_length(b / 16, fewer);
        assert(x.drop_last() =~= hex_digits(a / 16, fewer));
        assert(y.drop_last() =~= hex_digits(b / 16, fewer));
        if a / 16 < b / 16 {
            hex_digits_keep_order(a / 16, b / 16, fewer);
            let k = choose|k: int| differ_first_at(x.drop_last(), y.drop_last(), k);
            assert(x.take(k) =~= x.drop_last().take(k));
            assert(y.take(k) =~= y.drop_last().take(k));
            assert(differ_first_at(x, y, k));
        } else {
            assert(a / 16 == b / 16);
            assert(x.take(count - 1) =~= x.drop_last());
            assert(y.take(count - 1) =~= y.drop_last());
            assert(differ_first_at(x, y, count - 1));
        }
    }
}

/// Where the digit at `k` stands in the text.
spec fn place(k: int) -> int {
    if k < 8 {
        k
    } else if k < 12 {
        k + 1
    } else if k < 16 {
        k + 2
    } else if k < 20 {
        k + 3
    } else {
        k + 4
    }
}

/// The texts of two thread identifiers are ordered as their numbers are.
pub proof fn thread_id_texts_keep_order(a: u128, b: u128)
    requires
        a < b,
    ensures
        text_before(thread_id_text(a), thread_id_text(b)),
{
    let x = hex_digits(a as nat, 32);
    let y = hex_digits(b as nat, 32);
    hex_digits_length(a as nat, 32);
    hex_digits_length(b as nat, 32);
    thirty_two_digits_suffice();
    hex_digits_keep_order(a as nat, b as nat, 32);
    let k = choose|k: int| differ_first_at(x, y, k);
    assert forall|j: int| 0 <= j < k implies x[j] == y[j] by {
        assert(x.take(k)[j] == y.take(k)[j]);
    }
    let at = place(k);
    let s = grouped(x);
    let t = grouped(y);
    assert(s.take(at) =~= t.take(at));
    assert(differ_first_at(s, t, at));
}

/// The numeral of one hexadecimal digit.
fn hex_digit_text(digit: u8) -> (text: &'static str)
    requires
        digit < 16,
    ensures
        text@ == seq![hex_char(digit as nat)],
{
    proof {
        reveal_strlit("0");
        reveal_strlit("1");
        reveal_strlit("2");
        reveal_strlit("3");
        reveal_strlit("4");
        reveal_strlit("5");
        reveal_strlit("6");
        reveal_strlit("7");
        reveal_strlit("8");
        reveal_strlit("9");
        reveal_strlit("a");
        reveal_strlit("b");
        reveal_strlit("c");
        reveal_strlit("d");
        reveal_strlit("e");
        reveal_strlit("f");
    }
    match digit {
        0 => "0",
        1 => "1",
        2 => "2",
        3 => "3",
        4 => "4",
        5 => "5",
        6 => "6",
        7 => "7",
        8 => "8",
        9 => "9",
        10 => "a",
        11 => "b",
        12 => "c",
        13 => "d",
        14 => "e",
        _ => "f",
    }
}

/// The lowest `count` hexadecimal digits of `value`, highest first.
fn hex_text(value: u128, count: u8) -> (text: String)
    ensures
        text@ == hex_digits(value as nat, count as nat),
    decreases count,
{
    if count == 0 {
        String::new()
    } else {
        let mut text: String = hex_text(value / 16, count - 1);
        text.append(hex_digit_text((value % 16) as u8));
        proof {
            assert(text@ =~= hex_digits(value as nat, count as nat));
        }
        text
    }
}

fn hex_char_value(c: char) -> (value: Option<u8>)
    ensures
        (match value {
            Some(value) => hex_value(c) == Some(value as nat),
            None => hex_value(c) is None,
        }),
        value is Some ==> value->0 < 16,
{
    if '0' <= c && c <= '9' {
        Some((c as u32 - '0' as u32) as u8)
    } else if 'a' <= c && c <= 'f' {
        Some((c as u32 - 'a' as u32 + 10) as u8)
    } else if 'A' <= c && c <= 'F' {
        Some((c as u32 - 'A' as u32 + 10) as u8)
    } else {
        None
    }
}

impl ThreadId {
    /// The text of this identifier.
    pub fn to_text(&self) -> (text: String)
        ensures
            text@ == thread_id_text(self.value),
    {
        let digits: String = hex_text(self.value, 32);
        proof {
            hex_digits_length(self.value as nat, 32);
            reveal_strlit("-");
            assert("-"@ =~= seq!['-']);
        }
        let all: &str = digits.as_str();
        let mut text: String = all.substring_char(0, 8).to_string();
        text.append("-");
        text.append(all.substring_char(8, 12));
        text.append("-");
        text.append(all.substring_char(12, 16));
        text.append("-");
        text.append(all.substring_char(16, 20));
        text.append("-");
        text.append(all.substring_char(20, 32));
        proof {
            assert(text@ =~= grouped(digits@));
        }
        text
    }

    /// The identifier that a text of five hexadecimal groups spells.
    pub fn from_text(text: &str) -> (id: Option<ThreadId>)
        ensures
            (match id {
                Some(id) => parsed_thread_id(text@) == Some(id.value),
                None => parsed_thread_id(text@) is None,
            }),
    {
        let chars: Vec<char> = characters(text);
        if chars.len() != 36 || chars[8] != '-' || chars[13] != '-' || chars[18] != '-' || chars[23]
            != '-' {
            return None;
        }
        let ghost digits = ungrouped(text@);
        let mut value: u128 = 0;
        let mut i: usize = 0;
        proof {
            assert(digits.take(0) =~= Seq::<char>::empty());
        }
        while i < 32
            invariant
                i <= 32,
                chars.len() == 36,
                chars@ == text@,
                digits == ungrouped(text@),
                digits.len() == 32,
                hex_number(digits.take(i as int)) == Some(value as nat),
            decreases 32 - i,
        {
            let at: usize = if i < 8 {
                i
            } else if i < 12 {
                i + 1
            } else if i < 16 {
                i + 2
            } else if i < 20 {
                i + 3
            } else {
                i + 4
            };
            proof {
                assert(chars@[at as int] == digits[i as int]);
                assert(digits.take(i + 1).drop_last() =~= digits.take(i as int));
                assert(digits.take(i + 1).last() == digits[i as int]);
            }
            match hex_char_value(chars[at]) {
                None => {
                    proof {
                        bad_digit_persists(digits, i + 1);
                    }
                    return None;
                },
                Some(low) => {
                    proof {
                        hex_number_is_bounded(digits.take(i + 1));
                        sixteens_grow((i + 1) as nat, 32);
                        thirty_two_digits_suffice();
                    }
                    value = value * 16 + low as u128;
                },
            }
            i += 1;
        }
        proof {
            assert(digits.take(32) =~= digits);
        }
        Some(ThreadId { value })
    }
}

proof fn sixteens_grow(a: nat, b: nat)
    requires
        a <= b,
    ensures
        sixteens(a) <= sixteens(b),
    decreases b,
{
    if a < b {
        sixteens_grow(a, (b - 1) as nat);
        sixteens_is_positive((b - 1) as nat);
    }
}

proof fn bad_digit_persists(digits: Seq<char>, count: int)
    requires
        0 <= count <= digits.len(),
        hex_number(digits.take(count)) is None,
    ensures
        hex_number(digits) is None,
    decreases digits.len(),
{
    if count < digits.len() {
        assert(digits.drop_last().take(count) =~= digits.take(count));
        bad_digit_persists(digits.drop_last(), count);
    } else {
        assert(digits.take(count) =~= digits);
    }
}

/// A hexadecimal digit stands for its number, in either case; no other
/// character stands for any.
pub proof fn hexadecimal_digits_stand_for_their_numbers(c: char, digit: nat)
    ensures
        digit < 16 ==> hex_value(hex_char(digit)) == Some(digit),
        hex_value(c) is Some <==> 48 <= c as u32 <= 57 || 97 <= c as u32 <= 102 || 65 <= c as u32
            <= 70,
        48 <= c as u32 <= 57 ==> hex_value(c)->0 == c as u32 - 48,
        97 <= c as u32 <= 102 ==> hex_value(c)->0 == c as u32 - 87,
        65 <= c as u32 <= 70 ==> hex_value(c)->0 == c as u32 - 55,
{
}

/// A further hexadecimal digit counts for itself, and sixteen times as much for
/// the digits before it; one character that is no digit spoils the number.
pub proof fn hexadecimal_digits_count_by_their_place(digits: Seq<char>, c: char)
    ensures
        hex_number(Seq::empty()) == Some(0nat),
        hex_number(digits.push(c)) is Some <==> hex_number(digits) is Some && hex_value(c) is Some,
        hex_number(digits.push(c)) is Some ==> hex_number(digits.push(c))->0 == 16 * hex_number(
            digits,
        )->0 + hex_value(c)->0,
{
    assert(digits.push(c).drop_last() =~= digits);
}

/// The text of a thread identifier has five groups of hexadecimal digits, of
/// eight, four, four, four and twelve, with hyphens between them.
pub proof fn thread_id_text_has_five_groups(value: u128)
    ensures
        ({
            let text = thread_id_text(value);
            &&& text.len() == 36
            &&& text[8] == '-' && text[13] == '-' && text[18] == '-' && text[23] == '-'
            &&& forall|k: int|
                0 <= k < 36 && k != 8 && k != 13 && k != 18 && k != 23 ==> '0' <= (
                #[trigger] text[k]) <= '9' || 'a' <= text[k] <= 'f'
        }),
{
    hex_digits_length(value as nat, 32);
    hex_digits_are_digits(value as nat, 32);
    let digits = hex_digits(value as nat, 32);
    let text = thread_id_text(value);
    assert forall|k: int| 0 <= k < 36 && k != 8 && k != 13 && k != 18 && k != 23 implies '0' <= (
    #[trigger] text[k]) <= '9' || 'a' <= text[k] <= 'f' by {
        let at: int = if k < 8 {
            k
        } else if k < 13 {
            k - 1
        } else if k < 18 {
            k - 2
        } else if k < 23 {
            k - 3
        } else {
            k - 4
        };
        assert(text[k] == digits[at]);
    }
}

proof fn hex_digits_are_digits(value: nat, count: nat)
    ensures
        forall|k: int|
            0 <= k < hex_digits(value, count).len() ==> '0' <= (#[trigger] hex_digits(
                value,
                count,
            )[k]) <= '9' || 'a' <= hex_digits(value, count)[k] <= 'f',
    decreases count,
{
    if count > 0 {
        let high = hex_digits(value / 16, (count - 1) as nat);
        let all = hex_digits(value, count);
        hex_digits_are_digits(value / 16, (count - 1) as nat);
        assert forall|k: int| 0 <= k < all.len() implies '0' <= (#[trigger] all[k]) <= '9' || 'a'
            <= all[k] <= 'f' by {
            if k < high.len() {
                assert(all[k] == high[k]);
            }
        }
    }
}

/// A text spells a thread identifier exactly if it has hyphens after eight,
/// four, four and four characters, and the other thirty-two are hexadecimal
/// digits; the identifier is then their number.
pub proof fn thread_ids_are_read_in_five_groups(text: Seq<char>)
    ensures
        parsed_thread_id(text) is Some <==> {
            &&& text.len() == 36
            &&& text[8] == '-' && text[13] == '-' && text[18] == '-' && text[23] == '-'
            &&& hex_number(
                text.subrange(0, 8) + text.subrange(9, 13) + text.subrange(14, 18)
                    + text.subrange(19, 23) + text.subrange(24, 36),
            ) is Some
        },
        parsed_thread_id(text) is Some ==> Some(parsed_thread_id(text)->0 as nat) == hex_number(
            text.subrange(0, 8) + text.subrange(9, 13) + text.subrange(14, 18) + text.subrange(
                19,
                23,
            ) + text.subrange(24, 36),
        ),
{
    if text.len() == 36 {
        let digits = text.subrange(0, 8) + text.subrange(9, 13) + text.subrange(14, 18)
            + text.subrange(19, 23) + text.subrange(24, 36);
        assert(ungrouped(text) =~= digits);
        hex_number_is_bounded(digits);
        thirty_two_digits_suffice();
    }
}

} // verus!
