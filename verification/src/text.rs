//! Texts: numbers written in decimal, blanks at the ends of a text, and the few
//! calls into the standard library and into `regex` that read a text.

use vstd::prelude::*;

verus! {

/// The character that stands for a digit below ten.
pub open spec fn digit_char(digit: nat) -> char {
    if digit == 0 {
        '0'
    } else if digit == 1 {
        '1'
    } else if digit == 2 {
        '2'
    } else if digit == 3 {
        '3'
    } else if digit == 4 {
        '4'
    } else if digit == 5 {
        '5'
    } else if digit == 6 {
        '6'
    } else if digit == 7 {
        '7'
    } else if digit == 8 {
        '8'
    } else {
        '9'
    }
}

/// A number written in decimal, without sign and without leading zeros.
pub open spec fn decimal(number: nat) -> Seq<char>
    decreases number,
{
    if number < 10 {
        seq![digit_char(number)]
    } else {
        decimal(number / 10).push(digit_char(number % 10))
    }
}

/// Whether a character has the Unicode property White_Space.
pub open spec fn is_white_space(c: char) -> bool {
    let code = c as u32;
    ||| 0x09 <= code <= 0x0D
    ||| code == 0x20
    ||| code == 0x85
    ||| code == 0xA0
    ||| code == 0x1680
    ||| 0x2000 <= code <= 0x200A
    ||| code == 0x2028
    ||| code == 0x2029
    ||| code == 0x202F
    ||| code == 0x205F
    ||| code == 0x3000
}

/// A text without the white space at its two ends.
pub open spec fn trimmed(text: Seq<char>) -> Seq<char>
    decreases text.len(),
{
    if text.len() > 0 && is_white_space(text.first()) {
        trimmed(text.drop_first())
    } else if text.len() > 0 && is_white_space(text.last()) {
        trimmed(text.drop_last())
    } else {
        text
    }
}

/// The number that a run of the digits `0` to `9` stands for; nothing for the
/// empty text and for a text that holds anything else.
pub open spec fn digits_value(text: Seq<char>) -> Option<nat>
    decreases text.len(),
{
    if text.len() == 0 {
        None
    } else {
        let last = text.last();
        if !('0' <= last <= '9') {
            None
        } else if text.len() == 1 {
            Some((last as u32 - '0' as u32) as nat)
        } else {
            match digits_value(text.drop_last()) {
                Some(front) => Some(front * 10 + (last as u32 - '0' as u32) as nat),
                None => None,
            }
        }
    }
}

/// The number below 256 that a text stands for: digits, with or without a `+`
/// before them.
pub open spec fn small_number(text: Seq<char>) -> Option<u8> {
    let digits = if text.len() > 0 && text.first() == '+' {
        text.drop_first()
    } else {
        text
    };
    match digits_value(digits) {
        Some(value) => if value <= u8::MAX {
            Some(value as u8)
        } else {
            None
        },
        None => None,
    }
}

/// Whether `text` begins with `front`.
pub open spec fn begins_with(text: Seq<char>, front: Seq<char>) -> bool {
    front.len() <= text.len() && text.subrange(0, front.len() as int) == front
}

/// Whether `part` stands somewhere in `text`.
pub open spec fn holds_text(text: Seq<char>, part: Seq<char>) -> bool {
    exists|at: int|
        0 <= at && at + part.len() <= text.len() && #[trigger] text.subrange(
            at,
            at + part.len(),
        ) == part
}

/// Whether `pattern` is a regular expression that `regex` accepts.
pub uninterp spec fn regex_accepts(pattern: Seq<char>) -> bool;

/// What the group numbered `group` holds in the leftmost match of `pattern` in
/// `text`; nothing where there is no match, where the pattern has no group of
/// that number, and where the group took no part in the match.
pub uninterp spec fn regex_group(pattern: Seq<char>, text: Seq<char>, group: nat) -> Option<
    Seq<char>,
>;

/// The views of an optional text.
pub open spec fn view_of(text: Option<String>) -> Option<Seq<char>> {
    match text {
        Some(held) => Some(held@),
        None => None,
    }
}

/// `regex::Error`: why `regex` refused a pattern. Nothing is known of what it
/// holds.
#[verifier::external_type_specification]
#[verifier::external_body]
pub struct ExRegexError(regex::Error);

/// `core::num::ParseIntError`: why the standard library could not read a
/// number. Nothing is known of what it holds.
#[verifier::external_type_specification]
#[verifier::external_body]
pub struct ExParseIntError(core::num::ParseIntError);

/// `str::trim` of the standard library: the text without the white space, in
/// the sense of Unicode, at its two ends.
#[verifier::external_body]
pub(crate) fn trim(text: &str) -> (inner: &str)
    ensures
        inner@ == trimmed(text@),
{
    text.trim()
}

/// `str::contains` of the standard library, asked for a text: whether the one
/// text stands somewhere in the other.
#[verifier::external_body]
pub(crate) fn contains(text: &str, part: &str) -> (found: bool)
    ensures
        found == holds_text(text@, part@),
{
    text.contains(part)
}

/// `str::parse::<u8>` of the standard library: digits, with or without a `+`
/// before them, that stand for a number below 256; anything else is an error.
#[verifier::external_body]
pub(crate) fn parse_small_number(text: &str) -> (parsed: Result<u8, core::num::ParseIntError>)
    ensures
        parsed is Ok <==> small_number(text@) is Some,
        parsed matches Ok(number) ==> Some(number) == small_number(text@),
{
    text.parse::<u8>()
}

/// `Regex::new`, `Regex::captures`, `Captures::get` and `Match::as_str` of
/// `regex`: compiles `pattern`, looks for its leftmost match in `text` and hands
/// out what the group numbered `group` holds there. The error is that of
/// `Regex::new`; it depends on the pattern alone.
#[verifier::external_body]
pub(crate) fn capture_group(pattern: &str, text: &str, group: usize) -> (found: Result<
    Option<String>,
    regex::Error,
>)
    ensures
        found is Ok <==> regex_accepts(pattern@),
        found matches Ok(held) ==> view_of(held) == regex_group(pattern@, text@, group as nat),
{
    let compiled = regex::Regex::new(pattern)?;
    Ok(compiled.captures(text).and_then(|captures| captures.get(group)).map(|m| m.as_str().to_string()))
}

/// The text of a digit below ten.
fn digit_text(digit: u64) -> (text: &'static str)
    requires
        digit < 10,
    ensures
        text@ == seq![digit_char(digit as nat)],
{
    proof {
        reveal_strlit("0");
        reveal_strlit("1");
        reveal_strlit("2");
        reveal_strlit("3");
        reveal_strlit("4");
        reveal_strlit("5");
        reveal_strlit("6");
        reveal_strlit("7");
        reveal_strlit("8");
        reveal_strlit("9");
    }
    let text = if digit == 0 {
        "0"
    } else if digit == 1 {
        "1"
    } else if digit == 2 {
        "2"
    } else if digit == 3 {
        "3"
    } else if digit == 4 {
        "4"
    } else if digit == 5 {
        "5"
    } else if digit == 6 {
        "6"
    } else if digit == 7 {
        "7"
    } else if digit == 8 {
        "8"
    } else {
        "9"
    };
    assert(text@ =~= seq![digit_char(digit as nat)]);
    text
}

/// Writes a number in decimal.
pub fn decimal_string(number: u64) -> (text: String)
    ensures
        text@ == decimal(number as nat),
    decreases number,
{
    if number < 10 {
        String::from_str(digit_text(number))
    } else {
        let mut text = decimal_string(number / 10);
        text.append(digit_text(number % 10));
        assert(text@ =~= decimal(number as nat));
        text
    }
}

/// Whether two texts hold the same characters.
pub fn same_text(left: &str, right: &str) -> (same: bool)
    ensures
        same == (left@ == right@),
{
    let owned_left = String::from_str(left);
    let owned_right = String::from_str(right);
    owned_left == owned_right
}

/// One text after another.
pub fn joined(front: &str, back: &str) -> (whole: String)
    ensures
        whole@ == front@ + back@,
        begins_with(whole@, front@),
{
    let mut whole = String::from_str(front);
    whole.append(back);
    assert(whole@.subrange(0, front@.len() as int) =~= front@);
    whole
}

} // verus!
