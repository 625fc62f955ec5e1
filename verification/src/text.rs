//! Text building blocks: whitespace trimming, prefix tests and decimal numerals.
//!
//! Texts are modelled as sequences of characters.  Every function here is
//! specified by a short recursive or quantified statement over that model, so
//! the modules above can state what they render and recognise exactly.
use vstd::prelude::*;

verus! {

/// The characters with the Unicode `White_Space` property.
pub open spec fn is_white(c: char) -> bool {
    ||| '\u{9}' <= c <= '\u{d}'
    ||| c == '\u{20}'
    ||| c == '\u{85}'
    ||| c == '\u{a0}'
    ||| c == '\u{1680}'
    ||| '\u{2000}' <= c <= '\u{200a}'
    ||| c == '\u{2028}'
    ||| c == '\u{2029}'
    ||| c == '\u{202f}'
    ||| c == '\u{205f}'
    ||| c == '\u{3000}'
}

/// How many characters at the front of `s` are whitespace.
pub open spec fn leading_white(s: Seq<char>) -> nat
    decreases s.len(),
{
    if s.len() > 0 && is_white(s[0]) {
        1 + leading_white(s.drop_first())
    } else {
        0
    }
}

/// How many characters at the back of `s` are whitespace.
pub open spec fn trailing_white(s: Seq<char>) -> nat
    decreases s.len(),
{
    if s.len() > 0 && is_white(s.last()) {
        1 + trailing_white(s.drop_last())
    } else {
        0
    }
}

/// `s` without its leading whitespace.
pub open spec fn trim_start(s: Seq<char>) -> Seq<char> {
    s.skip(leading_white(s) as int)
}

/// `s` without its trailing whitespace.
pub open spec fn trim_end(s: Seq<char>) -> Seq<char> {
    s.take(s.len() - trailing_white(s))
}

/// `s` without whitespace at either end.
pub open spec fn trimmed(s: Seq<char>) -> Seq<char> {
    trim_end(trim_start(s))
}

/// The character of a decimal digit.
pub open spec fn digit_char(digit: nat) -> char {
    if digit == 0 {
        '0'
    } else if digit == 1 {
        '1'
    } else if digit == 2 {
        '2'
    } else if digit == 3 {
        '3'
    } else if digit == 4 {
        '4'
    } else if digit == 5 {
        '5'
    } else if digit == 6 {
        '6'
    } else if digit == 7 {
        '7'
    } else if digit == 8 {
        '8'
    } else {
        '9'
    }
}

/// The decimal numeral of a natural number, without leading zeros.
pub open spec fn decimal(n: nat) -> Seq<char>
    decreases n,
{
    if n < 10 {
        seq![digit_char(n)]
    } else {
        decimal(n / 10).push(digit_char(n % 10))
    }
}

/// Whether every character of `s` is a decimal digit.
pub open spec fn all_digits(s: Seq<char>) -> bool {
    forall|i: int| 0 <= i < s.len() ==> '0' <= #[trigger] s[i] <= '9'
}

/// The number that a sequence of decimal digits denotes.
pub open spec fn digits_value(s: Seq<char>) -> nat
    decreases s.len(),
{
    if s.len() == 0 {
        0
    } else {
        10 * digits_value(s.drop_last()) + (s.last() as nat - '0' as nat) as nat
    }
}

/// The digits of an unsigned numeral: what follows an optional plus sign.
pub open spec fn numeral_digits(s: Seq<char>) -> Seq<char> {
    if s.len() > 0 && s[0] == '+' {
        s.drop_first()
    } else {
        s
    }
}

/// What a text denotes as an unsigned 64-bit number, if it denotes one: an
/// optional plus sign and at least one digit, with a value in range.
pub open spec fn parsed_u64(s: Seq<char>) -> Option<u64> {
    let digits = numeral_digits(s);
    if digits.len() > 0 && all_digits(digits) && digits_value(digits) <= u64::MAX {
        Some(digits_value(digits) as u64)
    } else {
        None
    }
}

/// The first `leading_white` characters are whitespace and the next one is not.
pub proof fn leading_white_is_exact(s: Seq<char>, n: nat)
    requires
        n <= s.len(),
        forall|i: int| 0 <= i < n ==> is_white(#[trigger] s[i]),
        n < s.len() ==> !is_white(s[n as int]),
    ensures
        leading_white(s) == n,
    decreases s.len(),
{
    if n > 0 {
        assert(is_white(s[0]));
        assert forall|i: int| 0 <= i < n - 1 implies is_white(#[trigger] s.drop_first()[i]) by {
            assert(s.drop_first()[i] == s[i + 1]);
        }
        leading_white_is_exact(s.drop_first(), (n - 1) as nat);
    }
}

/// The last `trailing_white` characters are whitespace and the one before is not.
pub proof fn trailing_white_is_exact(s: Seq<char>, n: nat)
    requires
        n <= s.len(),
        forall|i: int| s.len() - n <= i < s.len() ==> is_white(#[trigger] s[i]),
        n < s.len() ==> !is_white(s[s.len() - n - 1]),
    ensures
        trailing_white(s) == n,
    decreases s.len(),
{
    if n > 0 {
        assert(is_white(s[s.len() - 1]));
        trailing_white_is_exact(s.drop_last(), (n - 1) as nat);
    }
}

/// Whether `c` has the Unicode `White_Space` property.
pub fn is_whitespace(c: char) -> (white: bool)
    ensures
        white == is_white(c),
{
    ('\u{9}' <= c && c <= '\u{d}') || c == '\u{20}' || c == '\u{85}' || c == '\u{a0}' || c
        == '\u{1680}' || ('\u{2000}' <= c && c <= '\u{200a}') || c == '\u{2028}' || c == '\u{2029}'
        || c == '\u{202f}' || c == '\u{205f}' || c == '\u{3000}'
}

/// The characters of `s`, one by one.
pub fn characters(s: &str) -> (chars: Vec<char>)
    ensures
        chars@ == s@,
{
    let mut chars: Vec<char> = Vec::new();
    for c in it: s.chars()
        invariant
            it.seq() == s@,
            chars@ == s@.take(it.index() as int),
    {
        chars.push(c);
    }
    chars
}

/// `s` without its leading whitespace.
pub fn without_leading_white<'a>(s: &'a str) -> (rest: &'a str)
    ensures
        rest@ == trim_start(s@),
{
    let chars: Vec<char> = characters(s);
    let mut from: usize = 0;
    while from < chars.len() && is_whitespace(chars[from])
        invariant
            from <= chars.len(),
            chars@ == s@,
            forall|i: int| 0 <= i < from ==> is_white(#[trigger] s@[i]),
        decreases chars.len() - from,
    {
        from += 1;
    }
    proof {
        leading_white_is_exact(s@, from as nat);
    }
    s.substring_char(from, chars.len())
}

/// `s` without its trailing whitespace.
pub fn without_trailing_white<'a>(s: &'a str) -> (rest: &'a str)
    ensures
        rest@ == trim_end(s@),
{
    let chars: Vec<char> = characters(s);
    let mut to: usize = chars.len();
    while to > 0 && is_whitespace(chars[to - 1])
        invariant
            to <= chars.len(),
            chars@ == s@,
            forall|i: int| to <= i < s@.len() ==> is_white(#[trigger] s@[i]),
        decreases to,
    {
        to -= 1;
    }
    proof {
        trailing_white_is_exact(s@, (s@.len() - to) as nat);
    }
    s.substring_char(0, to)
}

/// `s` without whitespace at either end.
pub fn trim<'a>(s: &'a str) -> (rest: &'a str)
    ensures
        rest@ == trimmed(s@),
{
    without_trailing_white(without_leading_white(s))
}

/// Whether two texts hold the same characters.
pub fn same_text(a: &str, b: &str) -> (same: bool)
    ensures
        same == (a@ == b@),
{
    a.to_string() == b.to_string()
}

/// Whether `s` begins with `prefix`.
pub fn starts_with(s: &str, prefix: &str) -> (yes: bool)
    ensures
        yes == prefix@.is_prefix_of(s@),
{
    let text: Vec<char> = characters(s);
    let head: Vec<char> = characters(prefix);
    if head.len() > text.len() {
        return false;
    }
    let mut i: usize = 0;
    while i < head.len()
        invariant
            i <= head.len() <= text.len(),
            text@ == s@,
            head@ == prefix@,
            forall|j: int| 0 <= j < i ==> s@[j] == prefix@[j],
        decreases head.len() - i,
    {
        if text[i] != head[i] {
            proof {
                assert(s@.subrange(0, prefix@.len() as int)[i as int] == s@[i as int]);
            }
            return false;
        }
        i += 1;
    }
    proof {
        assert(prefix@ =~= s@.subrange(0, prefix@.len() as int));
    }
    true
}

/// Whether `s` finishes with `suffix`.
pub fn ends_with(s: &str, suffix: &str) -> (yes: bool)
    ensures
        yes == suffix@.is_suffix_of(s@),
{
    let text: Vec<char> = characters(s);
    let tail: Vec<char> = characters(suffix);
    if tail.len() > text.len() {
        return false;
    }
    let offset: usize = text.len() - tail.len();
    let mut i: usize = 0;
    while i < tail.len()
        invariant
            i <= tail.len() <= text.len(),
            offset == text.len() - tail.len(),
            text@ == s@,
            tail@ == suffix@,
            forall|j: int| 0 <= j < i ==> s@[offset + j] == suffix@[j],
        decreases tail.len() - i,
    {
        if text[offset + i] != tail[i] {
            proof {
                assert(s@.subrange(offset as int, s@.len() as int)[i as int] == s@[offset + i]);
            }
            return false;
        }
        i += 1;
    }
    proof {
        assert(suffix@ =~= s@.subrange(offset as int, s@.len() as int));
    }
    true
}

/// The numeral of one decimal digit.
fn digit_text(digit: u64) -> (text: &'static str)
    requires
        digit < 10,
    ensures
        text@ == seq![digit_char(digit as nat)],
{
    proof {
        reveal_strlit("0");
        reveal_strlit("1");
        reveal_strlit("2");
        reveal_strlit("3");
        reveal_strlit("4");
        reveal_strlit("5");
        reveal_strlit("6");
        reveal_strlit("7");
        reveal_strlit("8");
        reveal_strlit("9");
    }
    if digit == 0 {
        "0"
    } else if digit == 1 {
        "1"
    } else if digit == 2 {
        "2"
    } else if digit == 3 {
        "3"
    } else if digit == 4 {
        "4"
    } else if digit == 5 {
        "5"
    } else if digit == 6 {
        "6"
    } else if digit == 7 {
        "7"
    } else if digit == 8 {
        "8"
    } else {
        "9"
    }
}

/// The decimal numeral of `n`.
pub fn decimal_text(n: u64) -> (text: String)
    ensures
        text@ == decimal(n as nat),
    decreases n,
{
    if n < 10 {
        digit_text(n).to_string()
    } else {
        let mut text: String = decimal_text(n / 10);
        text.append(digit_text(n % 10));
        proof {
            assert(text@ =~= decimal(n as nat));
        }
        text
    }
}

/// Reads an unsigned 64-bit number from its decimal numeral.
pub fn parse_u64(s: &str) -> (number: Option<u64>)
    ensures
        number == parsed_u64(s@),
{
    let chars: Vec<char> = characters(s);
    let start: usize = if chars.len() > 0 && chars[0] == '+' {
        1
    } else {
        0
    };
    let ghost digits = numeral_digits(s@);
    proof {
        assert(digits =~= s@.skip(start as int));
    }
    if start >= chars.len() {
        return None;
    }
    let mut value: u64 = 0;
    let mut overflowed: bool = false;
    let mut i: usize = start;
    while i < chars.len()
        invariant
            start <= i <= chars.len(),
            start <= 1,
            chars@ == s@,
            digits == s@.skip(start as int),
            digits == numeral_digits(s@),
            all_digits(digits.take(i - start)),
            overflowed ==> digits_value(digits.take(i - start)) > u64::MAX,
            !overflowed ==> value == digits_value(digits.take(i - start)),
        decreases chars.len() - i,
    {
        let c: char = chars[i];
        if c < '0' || c > '9' {
            proof {
                assert(digits[i - start] == c);
            }
            return None;
        }
        let digit: u64 = (c as u64) - ('0' as u64);
        proof {
            let longer = digits.take(i + 1 - start);
            assert(longer.drop_last() =~= digits.take(i - start));
            assert(longer.last() == c);
            assert forall|j: int| 0 <= j < longer.len() implies '0' <= #[trigger] longer[j] <= '9' by {
                if j < i - start {
                    assert(longer[j] == digits.take(i - start)[j]);
                }
            }
        }
        if !overflowed {
            if value > u64::MAX / 10 || value * 10 > u64::MAX - digit {
                overflowed = true;
            } else {
                value = value * 10 + digit;
            }
        }
        i += 1;
    }
    proof {
        assert(digits.take(chars.len() - start) =~= digits);
    }
    if overflowed {
        None
    } else {
        Some(value)
    }
}

/// The pieces of `s` between its newlines.
pub open spec fn lines(s: Seq<char>) -> Seq<Seq<char>>
    decreases s.len(),
{
    if s.len() == 0 {
        seq![Seq::<char>::empty()]
    } else {
        let before = lines(s.drop_last());
        if s.last() == '\n' {
            before.push(Seq::<char>::empty())
        } else {
            before.drop_last().push(before.last().push(s.last()))
        }
    }
}

/// The characters of each text.
pub open spec fn texts(v: Seq<String>) -> Seq<Seq<char>> {
    v.map_values(|text: String| text@)
}

/// The characters of an optional text.
pub open spec fn optional_chars(text: Option<&str>) -> Option<Seq<char>> {
    match text {
        Some(text) => Some(text@),
        None => None,
    }
}

/// Splits a text at its newlines.
pub fn split_lines(s: &str) -> (pieces: Vec<String>)
    ensures
        texts(pieces@) == lines(s@),
{
    let chars: Vec<char> = characters(s);
    let mut done: Vec<String> = Vec::new();
    let mut start: usize = 0;
    let mut i: usize = 0;
    proof {
        assert(s@.subrange(0, 0) =~= Seq::<char>::empty());
        assert(s@.take(0) =~= Seq::<char>::empty());
        assert(texts(done@).push(s@.subrange(0, 0)) =~= lines(s@.take(0)));
    }
    while i < chars.len()
        invariant
            start <= i <= chars.len(),
            chars@ == s@,
            texts(done@).push(s@.subrange(start as int, i as int)) == lines(s@.take(i as int)),
        decreases chars.len() - i,
    {
        let ghost before = lines(s@.take(i as int));
        let ghost piece = s@.subrange(start as int, i as int);
        proof {
            let longer = s@.take(i + 1);
            assert(longer.drop_last() =~= s@.take(i as int));
            assert(longer.last() == chars@[i as int]);
            assert(before.drop_last() =~= texts(done@));
            assert(before.last() == piece);
            assert(s@.subrange(start as int, i + 1) =~= piece.push(s@[i as int]));
        }
        if chars[i] == '\n' {
            let ghost finished = done@;
            done.push(s.substring_char(start, i).to_string());
            start = i + 1;
            proof {
                assert(texts(done@) =~= texts(finished).push(piece));
                assert(s@.subrange(i + 1, i + 1) =~= Seq::<char>::empty());
            }
        }
        i += 1;
    }
    let ghost finished = done@;
    done.push(s.substring_char(start, chars.len()).to_string());
    proof {
        assert(s@.take(s@.len() as int) =~= s@);
        assert(texts(done@) =~= texts(finished).push(s@.subrange(start as int, s@.len() as int)));
    }
    done
}

/// What follows `prefix` in the first of `lines` that begins with it.
pub open spec fn first_after(lines: Seq<Seq<char>>, prefix: Seq<char>) -> Option<Seq<char>>
    decreases lines.len(),
{
    if lines.len() == 0 {
        None
    } else if prefix.is_prefix_of(lines[0]) {
        Some(lines[0].skip(prefix.len() as int))
    } else {
        first_after(lines.skip(1), prefix)
    }
}

/// What follows `prefix` in the first line of `s` that begins with it.
pub fn after_prefix(s: &str, prefix: &str) -> (rest: Option<String>)
    ensures
        (match rest {
            Some(rest) => first_after(lines(s@), prefix@) == Some(rest@),
            None => first_after(lines(s@), prefix@) is None,
        }),
{
    let pieces: Vec<String> = split_lines(s);
    let ghost all = texts(pieces@);
    let mut i: usize = 0;
    proof {
        assert(all.skip(0) =~= all);
    }
    while i < pieces.len()
        invariant
            i <= pieces.len(),
            all == texts(pieces@),
            all == lines(s@),
            first_after(all, prefix@) == first_after(all.skip(i as int), prefix@),
        decreases pieces.len() - i,
    {
        let line: &str = pieces[i].as_str();
        proof {
            assert(all.skip(i as int)[0] == line@);
            assert(all.skip(i as int).skip(1) =~= all.skip(i + 1));
        }
        if starts_with(line, prefix) {
            let from: usize = characters(prefix).len();
            let to: usize = characters(line).len();
            proof {
                assert(line@.skip(from as int) =~= line@.subrange(from as int, to as int));
            }
            return Some(line.substring_char(from, to).to_string());
        }
        i += 1;
    }
    None
}

/// The code points with the Unicode `White_Space` property.
pub open spec fn white_code_points() -> Seq<u32> {
    seq![
        9,
        10,
        11,
        12,
        13,
        32,
        133,
        160,
        5760,
        8192,
        8193,
        8194,
        8195,
        8196,
        8197,
        8198,
        8199,
        8200,
        8201,
        8202,
        8232,
        8233,
        8239,
        8287,
        12288,
    ]
}

/// A character is whitespace exactly if its code point is among those.
pub proof fn whitespace_is_by_code_point(c: char)
    ensures
        is_white(c) <==> white_code_points().contains(c as u32),
{
    let points = white_code_points();
    let n = c as u32;
    if is_white(c) {
        let at: int = if 9 <= n <= 13 {
            n - 9
        } else if n == 32 {
            5
        } else if n == 133 {
            6
        } else if n == 160 {
            7
        } else if n == 5760 {
            8
        } else if 8192 <= n <= 8202 {
            9 + (n - 8192)
        } else if n == 8232 {
            20
        } else if n == 8233 {
            21
        } else if n == 8239 {
            22
        } else if n == 8287 {
            23
        } else {
            24
        };
        assert(points[at] == n);
    }
    if points.contains(n) {
        let at = choose|at: int| 0 <= at < points.len() && points[at] == n;
        assert(points[at] == n);
    }
}

/// Whether `s` without its ends, up to `from` and from `to` on, is left when
/// whitespace is trimmed: both ends are whitespace, and what is left begins and
/// ends with other than that.
pub open spec fn is_cut_at(s: Seq<char>, from: int, to: int) -> bool {
    &&& 0 <= from <= to <= s.len()
    &&& forall|i: int| 0 <= i < from ==> is_white(#[trigger] s[i])
    &&& forall|i: int| to <= i < s.len() ==> is_white(#[trigger] s[i])
    &&& from < to ==> !is_white(s[from]) && !is_white(s[to - 1])
}

/// Leading whitespace is cut off up to the first other character.
pub proof fn leading_whitespace_is_cut(s: Seq<char>)
    ensures
        leading_white(s) <= s.len(),
        trim_start(s).is_suffix_of(s),
        forall|i: int| 0 <= i < s.len() - trim_start(s).len() ==> is_white(#[trigger] s[i]),
        trim_start(s).len() > 0 ==> !is_white(trim_start(s)[0]),
    decreases s.len(),
{
    if s.len() > 0 && is_white(s[0]) {
        let rest = s.drop_first();
        leading_whitespace_is_cut(rest);
        assert(trim_start(s) =~= trim_start(rest));
        assert forall|i: int| 0 <= i < s.len() - trim_start(s).len() implies is_white(
            #[trigger] s[i],
        ) by {
            if i > 0 {
                assert(s[i] == rest[i - 1]);
            }
        }
    }
    let cut = trim_start(s);
    assert(s.subrange(s.len() - cut.len(), s.len() as int) =~= cut);
}

/// Trailing whitespace is cut off back to the last other character.
pub proof fn trailing_whitespace_is_cut(s: Seq<char>)
    ensures
        trailing_white(s) <= s.len(),
        trim_end(s).is_prefix_of(s),
        forall|i: int| trim_end(s).len() <= i < s.len() ==> is_white(#[trigger] s[i]),
        trim_end(s).len() > 0 ==> !is_white(trim_end(s).last()),
    decreases s.len(),
{
    if s.len() > 0 && is_white(s.last()) {
        let rest = s.drop_last();
        trailing_whitespace_is_cut(rest);
        assert(trim_end(s) =~= trim_end(rest));
        assert forall|i: int| trim_end(s).len() <= i < s.len() implies is_white(
            #[trigger] s[i],
        ) by {
            if i < rest.len() {
                assert(s[i] == rest[i]);
            }
        }
    }
    let cut = trim_end(s);
    assert(s.subrange(0, cut.len() as int) =~= cut);
}

/// A trimmed text is the text without the whitespace at both ends, and nothing
/// else of it is left out.
pub proof fn whitespace_is_cut_at_both_ends(s: Seq<char>)
    ensures
        exists|from: int, to: int| #[trigger]
            is_cut_at(s, from, to) && trimmed(s) == s.subrange(from, to),
        trimmed(s).len() == 0 <==> forall|i: int| 0 <= i < s.len() ==> is_white(#[trigger] s[i]),
{
    leading_whitespace_is_cut(s);
    let rest = trim_start(s);
    trailing_whitespace_is_cut(rest);
    let from = s.len() - rest.len();
    let to = from + trimmed(s).len();
    assert forall|i: int| to <= i < s.len() implies is_white(#[trigger] s[i]) by {
        assert(s[i] == rest[i - from]);
    }
    if from < to {
        assert(s[from] == rest[0]);
        assert(s[to - 1] == trimmed(s).last());
    }
    assert(is_cut_at(s, from, to));
    assert(trimmed(s) =~= s.subrange(from, to));
}

proof fn digit_is_read_back(digit: nat)
    requires
        digit < 10,
    ensures
        '0' <= digit_char(digit) <= '9',
        digit_char(digit) as nat - '0' as nat == digit,
        digit_char(digit) == '0' <==> digit == 0,
{
}

/// A numeral is read back as its number; it is made of digits, the first of
/// which is zero only for zero itself.
pub proof fn numeral_is_read_back(n: nat)
    ensures
        decimal(n).len() > 0,
        all_digits(decimal(n)),
        digits_value(decimal(n)) == n,
        decimal(n)[0] == '0' ==> n == 0 && decimal(n).len() == 1,
    decreases n,
{
    let numeral = decimal(n);
    if n < 10 {
        digit_is_read_back(n);
        assert(numeral.drop_last() =~= Seq::<char>::empty());
        assert(digits_value(numeral.drop_last()) == 0);
    } else {
        numeral_is_read_back(n / 10);
        digit_is_read_back(n % 10);
        let high = decimal(n / 10);
        assert(numeral.drop_last() =~= high);
        assert(numeral[0] == high[0]);
        assert forall|i: int| 0 <= i < numeral.len() implies '0' <= #[trigger] numeral[i]
            <= '9' by {
            if i < high.len() {
                assert(numeral[i] == high[i]);
            }
        }
    }
}

/// A further digit counts for itself, and ten times as much for the digits
/// before it.
pub proof fn digits_count_by_their_place(digits: Seq<char>, digit: char)
    ensures
        digits_value(Seq::empty()) == 0,
        '0' <= digit <= '9' ==> digits_value(digits.push(digit)) == 10 * digits_value(digits) + (
        digit as int - 48),
{
    assert(digits.push(digit).drop_last() =~= digits);
}

/// A text is read as an unsigned number exactly if it is made of one digit or
/// more, after a plus sign or none, whose value is in range; then it is that
/// value.  Every number is read back from its numeral.
pub proof fn unsigned_numerals_are_read(digits: Seq<char>, n: u64)
    ensures
        parsed_u64(decimal(n as nat)) == Some(n),
        digits.len() > 0 && digits[0] != '+' ==> parsed_u64(seq!['+'] + digits) == parsed_u64(
            digits,
        ),
        digits.len() > 0 && all_digits(digits) && digits_value(digits) <= u64::MAX
            ==> parsed_u64(digits) is Some && parsed_u64(digits)->0 == digits_value(digits),
        digits.len() > 0 && digits[0] != '+' && !(all_digits(digits) && digits_value(digits)
            <= u64::MAX) ==> parsed_u64(digits) is None,
        parsed_u64(Seq::empty()) is None,
        parsed_u64(seq!['+']) is None,
        parsed_u64(seq!['+', '+'] + digits) is None,
{
    numeral_is_read_back(n as nat);
    let numeral = decimal(n as nat);
    assert('0' <= numeral[0] <= '9');
    assert((seq!['+'] + digits).drop_first() =~= digits);
    assert(seq!['+'].drop_first() =~= Seq::<char>::empty());
    if digits.len() > 0 && all_digits(digits) {
        assert('0' <= digits[0] <= '9');
    }
    let twice = seq!['+', '+'] + digits;
    assert(twice.drop_first()[0] == '+');
}

/// Lines in order, with a newline between each two.
pub open spec fn with_newlines(lines: Seq<Seq<char>>) -> Seq<char>
    decreases lines.len(),
{
    if lines.len() == 0 {
        Seq::empty()
    } else if lines.len() == 1 {
        lines[0]
    } else {
        with_newlines(lines.drop_last()) + seq!['\n'] + lines.last()
    }
}

/// The lines of a text, with the newlines put back between them, are the text;
/// and no line holds a newline.
pub proof fn lines_are_the_text(s: Seq<char>)
    ensures
        lines(s).len() > 0,
        with_newlines(lines(s)) == s,
        forall|i: int, j: int|
            0 <= i < lines(s).len() && 0 <= j < lines(s)[i].len() ==> #[trigger] lines(s)[i][j]
                != '\n',
    decreases s.len(),
{
    let all = lines(s);
    if s.len() == 0 {
        assert(with_newlines(all) =~= s);
    } else {
        lines_are_the_text(s.drop_last());
        let before = lines(s.drop_last());
        if s.last() == '\n' {
            assert(all.drop_last() =~= before);
            assert(with_newlines(all) =~= with_newlines(before) + seq!['\n'] + all.last());
            assert(with_newlines(all) =~= s);
        } else {
            assert(all.drop_last() =~= before.drop_last());
            assert(all.last() =~= before.last().push(s.last()));
            if before.len() == 1 {
                assert(all[0] == all.last() && before[0] == before.last());
            }
            assert(with_newlines(all) =~= with_newlines(before).push(s.last()));
            assert(with_newlines(all) =~= s);
        }
        assert forall|i: int, j: int|
            0 <= i < all.len() && 0 <= j < all[i].len() implies #[trigger] all[i][j] != '\n' by {
            if s.last() == '\n' {
                if i < before.len() {
                    assert(all[i] == before[i]);
                    assert(before[i][j] != '\n');
                }
            } else if i < before.len() - 1 {
                assert(all[i] == before[i]);
                assert(before[i][j] != '\n');
            } else if j < before.last().len() {
                assert(all[i][j] == before[before.len() - 1][j]);
            }
        }
    }
}

/// What follows a prefix is looked for in the first line that begins with it.
pub proof fn first_line_with_the_prefix_is_taken(lines: Seq<Seq<char>>, prefix: Seq<char>)
    ensures
        match first_after(lines, prefix) {
            Some(rest) => exists|k: int|
                0 <= k < lines.len() && #[trigger] lines[k] == prefix + rest && forall|j: int|
                    0 <= j < k ==> !prefix.is_prefix_of(#[trigger] lines[j]),
            None => forall|k: int|
                0 <= k < lines.len() ==> !prefix.is_prefix_of(#[trigger] lines[k]),
        },
    decreases lines.len(),
{
    if lines.len() > 0 {
        if prefix.is_prefix_of(lines[0]) {
            assert(lines[0] =~= prefix + lines[0].skip(prefix.len() as int));
        } else {
            let rest = lines.skip(1);
            first_line_with_the_prefix_is_taken(rest, prefix);
            match first_after(lines, prefix) {
                Some(found) => {
                    let k = choose|k: int|
                        0 <= k < rest.len() && #[trigger] rest[k] == prefix + found && forall|
                            j: int,
                        |
                            0 <= j < k ==> !prefix.is_prefix_of(#[trigger] rest[j]);
                    assert(lines[k + 1] == prefix + found);
                    assert forall|j: int| 0 <= j < k + 1 implies !prefix.is_prefix_of(
                        #[trigger] lines[j],
                    ) by {
                        if j > 0 {
                            assert(rest[j - 1] == lines[j]);
                        }
                    }
                },
                None => {
                    assert forall|k: int| 0 <= k < lines.len() implies !prefix.is_prefix_of(
                        #[trigger] lines[k],
                    ) by {
                        if k > 0 {
                            assert(rest[k - 1] == lines[k]);
                        }
                    }
                },
            }
        }
    }
}

} // verus!
