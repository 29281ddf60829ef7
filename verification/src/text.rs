//! Decimal text, and the space around text.
use vstd::prelude::*;
use vstd::string::*;

verus! {

/// The character of one decimal digit.
pub open spec fn digit_char(digit: nat) -> char
    recommends
        digit < 10,
{
    if digit == 0 {
        '0'
    } else if digit == 1 {
        '1'
    } else if digit == 2 {
        '2'
    } else if digit == 3 {
        '3'
    } else if digit == 4 {
        '4'
    } else if digit == 5 {
        '5'
    } else if digit == 6 {
        '6'
    } else if digit == 7 {
        '7'
    } else if digit == 8 {
        '8'
    } else {
        '9'
    }
}

/// The shortest decimal text of a number.
pub open spec fn decimal_text(number: nat) -> Seq<char>
    decreases number,
{
    if number < 10 {
        seq![digit_char(number)]
    } else {
        decimal_text(number / 10).push(digit_char(number % 10))
    }
}

/// The decimal text of a signed number, with a leading minus where it is negative.
pub open spec fn signed_text(number: int) -> Seq<char> {
    if number < 0 {
        seq!['-'] + decimal_text((-number) as nat)
    } else {
        decimal_text(number as nat)
    }
}

fn digit_str(digit: u64) -> (text: &'static str)
    requires
        digit < 10,
    ensures
        text@ == seq![digit_char(digit as nat)],
{
    let text = match digit {
        0 => "0",
        1 => "1",
        2 => "2",
        3 => "3",
        4 => "4",
        5 => "5",
        6 => "6",
        7 => "7",
        8 => "8",
        _ => "9",
    };
    proof {
        reveal_strlit("0");
        reveal_strlit("1");
        reveal_strlit("2");
        reveal_strlit("3");
        reveal_strlit("4");
        reveal_strlit("5");
        reveal_strlit("6");
        reveal_strlit("7");
        reveal_strlit("8");
        reveal_strlit("9");
    }
    assert(text@ =~= seq![digit_char(digit as nat)]);
    text
}

/// Writes a number in decimal.
pub fn decimal(number: u64) -> (text: String)
    ensures
        text@ == decimal_text(number as nat),
    decreases number,
{
    if number < 10 {
        digit_str(number).to_owned()
    } else {
        let head = decimal(number / 10);
        let text = head.concat(digit_str(number % 10));
        assert(text@ =~= decimal_text(number as nat / 10).push(digit_char(number as nat % 10)));
        text
    }
}

/// Writes a signed number in decimal.
pub fn signed_decimal(number: i32) -> (text: String)
    ensures
        text@ == signed_text(number as int),
{
    if number < 0 {
        let magnitude: u64 = (-(number as i64)) as u64;
        proof {
            reveal_strlit("-");
        }
        let text = "-".to_owned().concat(decimal(magnitude).as_str());
        assert(text@ =~= seq!['-'] + decimal_text(magnitude as nat));
        text
    } else {
        decimal(number as u64)
    }
}

/// Different numbers have different decimal texts.
pub proof fn decimal_text_is_injective(a: nat, b: nat)
    requires
        decimal_text(a) == decimal_text(b),
    ensures
        a == b,
    decreases a,
{
    decimal_text_is_not_empty(a);
    decimal_text_is_not_empty(b);
    if a < 10 && b < 10 {
        assert(decimal_text(a)[0] == digit_char(a));
        assert(decimal_text(b)[0] == digit_char(b));
    } else if a >= 10 && b >= 10 {
        let x = decimal_text(a / 10).push(digit_char(a % 10));
        let y = decimal_text(b / 10).push(digit_char(b % 10));
        assert(x.last() == digit_char(a % 10));
        assert(y.last() == digit_char(b % 10));
        assert(a % 10 == b % 10);
        assert(x.drop_last() =~= decimal_text(a / 10));
        assert(y.drop_last() =~= decimal_text(b / 10));
        decimal_text_is_injective(a / 10, b / 10);
    } else if a >= 10 {
        decimal_text_is_not_empty(a / 10);
        assert(decimal_text(a).len() == decimal_text(a / 10).len() + 1);
        assert(decimal_text(b).len() == 1);
    } else {
        decimal_text_is_not_empty(b / 10);
        assert(decimal_text(b).len() == decimal_text(b / 10).len() + 1);
        assert(decimal_text(a).len() == 1);
    }
}

proof fn decimal_text_is_not_empty(number: nat)
    ensures
        decimal_text(number).len() > 0,
    decreases number,
{
    if number >= 10 {
        decimal_text_is_not_empty(number / 10);
    }
}

/// Whether a character is white space.
pub open spec fn is_white(c: char) -> bool {
    let code = c as u32;
    ||| 0x9 <= code <= 0xd
    ||| code == 0x20
    ||| code == 0x85
    ||| code == 0xa0
    ||| code == 0x1680
    ||| 0x2000 <= code <= 0x200a
    ||| code == 0x2028
    ||| code == 0x2029
    ||| code == 0x202f
    ||| code == 0x205f
    ||| code == 0x3000
}

/// Whether a character is white space.
pub fn white(c: char) -> (white: bool)
    ensures
        white == is_white(c),
{
    let code: u32 = c as u32;
    (0x9 <= code && code <= 0xd) || code == 0x20 || code == 0x85 || code == 0xa0 || code == 0x1680
        || (0x2000 <= code && code <= 0x200a) || code == 0x2028 || code == 0x2029 || code == 0x202f
        || code == 0x205f || code == 0x3000
}

/// A text without the white space at its start.
pub open spec fn trimmed_start(text: Seq<char>) -> Seq<char>
    decreases text.len(),
{
    if text.len() > 0 && is_white(text[0]) {
        trimmed_start(text.skip(1))
    } else {
        text
    }
}

/// A text without the white space at its end.
pub open spec fn trimmed_end(text: Seq<char>) -> Seq<char>
    decreases text.len(),
{
    if text.len() > 0 && is_white(text.last()) {
        trimmed_end(text.drop_last())
    } else {
        text
    }
}

/// A text without the white space around it.
pub open spec fn trimmed(text: Seq<char>) -> Seq<char> {
    trimmed_end(trimmed_start(text))
}

/// Takes the white space around a text away.
pub fn trim(text: &str) -> (result: String)
    ensures
        result@ == trimmed(text@),
{
    let len: usize = text.unicode_len();
    let mut start: usize = 0;
    assert(text@.subrange(0, len as int) =~= text@);
    while start < len && white(text.get_char(start))
        invariant
            len == text@.len(),
            start <= len,
            trimmed_start(text@) == trimmed_start(text@.subrange(start as int, len as int)),
        decreases len - start,
    {
        assert(text@.subrange(start as int, len as int).skip(1) =~= text@.subrange(
            start + 1,
            len as int,
        ));
        start += 1;
    }
    let mut end: usize = len;
    while start < end && white(text.get_char(end - 1))
        invariant
            len == text@.len(),
            start <= end <= len,
            trimmed(text@) == trimmed_end(text@.subrange(start as int, end as int)),
        decreases end - start,
    {
        assert(text@.subrange(start as int, end as int).drop_last() =~= text@.subrange(
            start as int,
            end - 1,
        ));
        end -= 1;
    }
    text.substring_char(start, end).to_owned()
}

/// A text without white space stays as it is.
pub proof fn a_solid_text_is_trimmed(text: Seq<char>)
    requires
        forall|i: int| 0 <= i < text.len() ==> !is_white(#[trigger] text[i]),
    ensures
        trimmed(text) == text,
{
}

/// A hexadecimal digit.
pub open spec fn hex_char(digit: u8) -> char {
    if digit < 10 {
        (48 + digit) as char
    } else {
        (87 + digit) as char
    }
}

/// Bytes in hexadecimal.
pub open spec fn hex_text(bytes: Seq<u8>) -> Seq<char>
    decreases bytes.len(),
{
    if bytes.len() == 0 {
        seq![]
    } else {
        hex_text(bytes.drop_last()) + seq![
            hex_char((bytes.last() / 16) as u8),
            hex_char((bytes.last() % 16) as u8),
        ]
    }
}

/// Whether a word begins at a place in a text: what is there is no space, and follows one or
/// nothing.
pub open spec fn begins_word(text: Seq<char>, i: int) -> bool {
    text[i] != ' ' && (i == 0 || text[i - 1] == ' ')
}

/// The number of words in a text that are separated by spaces.
pub open spec fn word_count(text: Seq<char>) -> nat
    decreases text.len(),
{
    if text.len() == 0 {
        0
    } else if begins_word(text, text.len() - 1) {
        word_count(text.drop_last()) + 1
    } else {
        word_count(text.drop_last())
    }
}

/// Whether a text holds lowercase hexadecimal digits alone.
pub open spec fn is_lower_hex(text: Seq<char>) -> bool {
    forall|i: int|
        0 <= i < text.len() ==> '0' <= #[trigger] text[i] <= '9' || 'a' <= text[i] <= 'f'
}

/// Bytes in hexadecimal are two lowercase digits each.
pub proof fn hex_text_is_lower_hex(bytes: Seq<u8>)
    ensures
        hex_text(bytes).len() == 2 * bytes.len(),
        is_lower_hex(hex_text(bytes)),
    decreases bytes.len(),
{
    if bytes.len() > 0 {
        hex_text_is_lower_hex(bytes.drop_last());
    }
}

/// Each byte is two digits in hexadecimal, the one for its sixteens first.
pub proof fn hex_text_has_two_digits_a_byte(bytes: Seq<u8>, i: int)
    requires
        0 <= i < bytes.len(),
    ensures
        hex_text(bytes).len() == 2 * bytes.len(),
        hex_text(bytes)[2 * i] == "0123456789abcdef"@[bytes[i] as int / 16],
        hex_text(bytes)[2 * i + 1] == "0123456789abcdef"@[bytes[i] as int % 16],
    decreases bytes.len(),
{
    reveal_strlit("0123456789abcdef");
    let head = bytes.drop_last();
    hex_text_is_lower_hex(bytes);
    hex_text_is_lower_hex(head);
    if i < head.len() {
        hex_text_has_two_digits_a_byte(head, i);
    }
}

/// The number that decimal digits spell.
pub open spec fn spelled_number(text: Seq<char>) -> nat
    decreases text.len(),
{
    if text.len() == 0 {
        0
    } else {
        (10 * spelled_number(text.drop_last()) + (text.last() as int - '0' as int)) as nat
    }
}

/// The decimal text of a number is made of digits, spells the number, and begins with a zero only
/// where the number is zero.
pub proof fn decimal_texts_spell_their_numbers(number: nat)
    ensures
        spelled_number(decimal_text(number)) == number,
        decimal_text(number).len() > 0,
        forall|i: int|
            0 <= i < decimal_text(number).len() ==> '0' <= #[trigger] decimal_text(number)[i]
                <= '9',
        decimal_text(number)[0] == '0' ==> number == 0 && decimal_text(number).len() == 1,
    decreases number,
{
    reveal_with_fuel(spelled_number, 2);
    if number < 10 {
        assert(decimal_text(number).drop_last() =~= seq![]);
    } else {
        decimal_texts_spell_their_numbers(number / 10);
        assert(decimal_text(number).drop_last() =~= decimal_text(number / 10));
        assert(decimal_text(number)[0] == decimal_text(number / 10)[0]);
    }
}

/// A signed number has a minus in front of its magnitude exactly where it is negative.
pub proof fn signs_are_written(number: int)
    ensures
        number < 0 ==> signed_text(number)[0] == '-' && spelled_number(signed_text(number).skip(1))
            == -number,
        number >= 0 ==> spelled_number(signed_text(number)) == number,
{
    if number < 0 {
        assert(signed_text(number).skip(1) =~= decimal_text((-number) as nat));
        decimal_texts_spell_their_numbers((-number) as nat);
    } else {
        decimal_texts_spell_their_numbers(number as nat);
    }
}

proof fn the_start_is_trimmed(text: Seq<char>) -> (before: Seq<char>)
    ensures
        text == before + trimmed_start(text),
        forall|i: int| 0 <= i < before.len() ==> is_white(#[trigger] before[i]),
        trimmed_start(text).len() > 0 ==> !is_white(trimmed_start(text)[0]),
    decreases text.len(),
{
    if text.len() > 0 && is_white(text[0]) {
        let rest = the_start_is_trimmed(text.skip(1));
        let before = seq![text[0]] + rest;
        assert(text =~= seq![text[0]] + text.skip(1));
        assert(before + trimmed_start(text) =~= text);
        before
    } else {
        assert(text =~= Seq::<char>::empty() + trimmed_start(text));
        Seq::empty()
    }
}

proof fn the_end_is_trimmed(text: Seq<char>) -> (after: Seq<char>)
    ensures
        text == trimmed_end(text) + after,
        forall|i: int| 0 <= i < after.len() ==> is_white(#[trigger] after[i]),
        trimmed_end(text).len() > 0 ==> !is_white(trimmed_end(text).last()) && trimmed_end(text)[0]
            == text[0],
    decreases text.len(),
{
    if text.len() > 0 && is_white(text.last()) {
        let rest = the_end_is_trimmed(text.drop_last());
        let after = rest.push(text.last());
        assert(text =~= text.drop_last().push(text.last()));
        assert(trimmed_end(text) + after =~= text);
        after
    } else {
        assert(text =~= trimmed_end(text) + Seq::<char>::empty());
        Seq::empty()
    }
}

/// What is taken away around a text is white space alone, and all of it: the text is that space,
/// what is left, and more space, and what is left neither begins nor ends with any.
pub proof fn only_white_space_is_trimmed(text: Seq<char>)
    ensures
        exists|before: Seq<char>, after: Seq<char>|
            {
                &&& text == #[trigger] (before + trimmed(text) + after)
                &&& forall|i: int| 0 <= i < before.len() ==> is_white(#[trigger] before[i])
                &&& forall|i: int| 0 <= i < after.len() ==> is_white(#[trigger] after[i])
            },
        trimmed(text).len() > 0 ==> !is_white(trimmed(text)[0]) && !is_white(trimmed(text).last()),
{
    let before = the_start_is_trimmed(text);
    let after = the_end_is_trimmed(trimmed_start(text));
    assert(text =~= before + trimmed(text) + after);
}

} // verus!
