//! Helpers on text and numbers: searching a list of names, decimal text, and
//! numbers cut to the machine word.

use vstd::prelude::*;

verus! {

/// `number` if it fits the machine word, else the greatest number that does.
pub open spec fn clip(number: nat) -> usize {
    if number <= usize::MAX {
        number as usize
    } else {
        usize::MAX
    }
}

/// `number` as a machine word, cut to the greatest machine word if it is more.
pub fn clip_word(number: u64) -> (word: usize)
    ensures
        word == clip(number as nat),
{
    if number > usize::MAX as u64 {
        usize::MAX
    } else {
        number as usize
    }
}

/// Cutting a sum equals adding the cut terms and cutting again.
pub proof fn lemma_clip_sum(first: nat, second: nat)
    ensures
        clip(first + second) == clip(clip(first) as nat + clip(second) as nat),
{
}

/// Cutting a product equals multiplying the cut factor and cutting again.
pub proof fn lemma_clip_product(first: nat, second: usize)
    ensures
        clip(first * second as nat) == clip(clip(first) as nat * second as nat),
{
    if first > usize::MAX && second > 0 {
        assert(first * second as nat >= first) by (nonlinear_arith)
            requires
                second > 0,
        ;
        assert(usize::MAX as nat * second as nat >= usize::MAX as nat) by (nonlinear_arith)
            requires
                second > 0,
        ;
    } else if first > usize::MAX {
        assert(first * second as nat == 0) by (nonlinear_arith)
            requires
                second == 0,
        ;
        assert(clip(first) as nat * second as nat == 0) by (nonlinear_arith)
            requires
                second == 0,
        ;
    }
}

/// The sum of two numbers, or the greatest number that fits if it is more.
pub fn sat_add(first: usize, second: usize) -> (sum: usize)
    ensures
        sum == clip(first as nat + second as nat),
{
    first.saturating_add(second)
}

/// The product of two numbers, or the greatest number that fits if it is
/// more.
pub fn sat_mul(first: usize, second: usize) -> (product: usize)
    ensures
        product == clip(first as nat * second as nat),
{
    match first.checked_mul(second) {
        Some(product) => product,
        None => usize::MAX,
    }
}

/// `char::from_u32` of the standard library: the character with the given
/// code. `from_u32` has no character to give for the codes of the surrogates
/// and beyond the last code point, which the precondition leaves out.
#[verifier::external_body]
pub(crate) fn letter(code: u32) -> (character: char)
    requires
        code <= 0xD7FF || 0xE000 <= code <= 0x10FFFF,
    ensures
        character == code as char,
{
    char::from_u32(code).unwrap_or_default()
}

/// `char::to_string` of the standard library: the text that holds the
/// character and nothing else.
#[verifier::external_body]
pub(crate) fn char_text(character: char) -> (text: String)
    ensures
        text@ == seq![character],
{
    character.to_string()
}

/// The texts one after the other, with `separator` between each two.
pub open spec fn joined(all: Seq<Seq<char>>, separator: Seq<char>) -> Seq<char>
    decreases all.len(),
{
    if all.len() == 0 {
        Seq::empty()
    } else if all.len() == 1 {
        all[0]
    } else {
        joined(all.drop_last(), separator) + separator + all.last()
    }
}

/// The text followed by as many spaces as it lacks to be `width` long.
pub open spec fn padded(text: Seq<char>, width: nat) -> Seq<char>
    decreases width - text.len(),
{
    if text.len() >= width {
        text
    } else {
        padded(text.push(' '), width)
    }
}

/// As many copies of `character` as `count` says.
pub open spec fn repeated(character: char, count: nat) -> Seq<char> {
    Seq::new(count, |i: int| character)
}

/// Fill `text` up with spaces to `width`.
pub fn pad(text: String, width: usize) -> (filled: String)
    ensures
        filled@ == padded(text@, width as nat),
{
    let mut filled = text;
    let mut length = filled.as_str().unicode_len();
    while length < width
        invariant
            length == filled@.len(),
            padded(filled@, width as nat) == padded(text@, width as nat),
        decreases width - length,
    {
        let ghost before = filled@;
        filled = filled.concat(" ");
        proof {
            reveal_strlit(" ");
            assert(" "@ =~= seq![' ']);
            assert(filled@ =~= before.push(' '));
        }
        length += 1;
    }
    filled
}

/// What some strings hold, in order.
pub open spec fn texts(names: Seq<String>) -> Seq<Seq<char>> {
    names.map_values(|name: String| name@)
}

/// The position of the first text equal to `text`, or the number of texts if
/// there is none.
pub open spec fn text_position(all: Seq<Seq<char>>, text: Seq<char>) -> int
    decreases all.len(),
{
    if all.len() == 0 {
        0
    } else if all[0] == text {
        0
    } else {
        1 + text_position(all.drop_first(), text)
    }
}

/// `text_position` is within bounds, names an equal text where it is below
/// the length, and passes over no equal text; it is below the length exactly
/// where the text occurs.
pub proof fn lemma_text_position(all: Seq<Seq<char>>, text: Seq<char>)
    ensures
        0 <= text_position(all, text) <= all.len(),
        text_position(all, text) < all.len() ==> all[text_position(all, text)] == text,
        forall|i: int| 0 <= i < text_position(all, text) ==> (#[trigger] all[i]) != text,
        text_position(all, text) < all.len() <==> all.contains(text),
    decreases all.len(),
{
    if all.len() != 0 && all[0] != text {
        let rest = all.drop_first();
        lemma_text_position(rest, text);
        assert forall|i: int| 0 <= i < text_position(all, text) implies (#[trigger] all[i])
            != text by {
            if i > 0 {
                assert(all[i] == rest[i - 1]);
            }
        }
        if all.contains(text) {
            let i = choose|i: int| 0 <= i < all.len() && all[i] == text;
            assert(rest[i - 1] == text);
        }
        if rest.contains(text) {
            let i = choose|i: int| 0 <= i < rest.len() && rest[i] == text;
            assert(all[i + 1] == text);
        }
    } else if all.len() != 0 {
        assert(all[0] == text);
    }
}

/// A position that holds the text, with none before it that does, is
/// `text_position`.
pub proof fn lemma_text_position_is(all: Seq<Seq<char>>, text: Seq<char>, position: int)
    requires
        0 <= position <= all.len(),
        position < all.len() ==> all[position] == text,
        forall|i: int| 0 <= i < position ==> (#[trigger] all[i]) != text,
    ensures
        text_position(all, text) == position,
{
    lemma_text_position(all, text);
    let first = text_position(all, text);
    if first < position {
        assert(all[first] != text);
    }
}

/// The position of the first of `names` that equals `name`.
pub fn find_text(names: &Vec<String>, name: &String) -> (position: usize)
    ensures
        position == text_position(texts(names@), name@),
        position <= names@.len(),
{
    let mut position: usize = 0;
    while position < names.len()
        invariant
            position <= names@.len(),
            forall|i: int| 0 <= i < position ==> (#[trigger] texts(names@)[i]) != name@,
        decreases names@.len() - position,
    {
        if names[position] == *name {
            proof {
                lemma_text_position_is(texts(names@), name@, position as int);
            }
            return position;
        }
        position += 1;
    }
    proof {
        lemma_text_position_is(texts(names@), name@, position as int);
    }
    position
}

/// The text that the `Debug` formatting of the standard library writes for a
/// text: the text between double quotes, with its special characters escaped.
pub uninterp spec fn debug_text(text: Seq<char>) -> Seq<char>;

/// `format!("{:?}", text)` of the standard library: the `Debug` formatting of
/// a string slice.
#[verifier::external_body]
pub(crate) fn quoted(text: &str) -> (written: String)
    ensures
        written@ == debug_text(text@),
{
    format!("{:?}", text)
}

/// The character of a decimal digit; `'0'` for anything else.
pub open spec fn digit_char(digit: nat) -> char {
    if digit == 1 {
        '1'
    } else if digit == 2 {
        '2'
    } else if digit == 3 {
        '3'
    } else if digit == 4 {
        '4'
    } else if digit == 5 {
        '5'
    } else if digit == 6 {
        '6'
    } else if digit == 7 {
        '7'
    } else if digit == 8 {
        '8'
    } else if digit == 9 {
        '9'
    } else {
        '0'
    }
}

/// The decimal digits of `number`, most significant first, without leading
/// zeros: `"0"` for zero.
pub open spec fn decimal_text(number: nat) -> Seq<char>
    decreases number,
{
    if number < 10 {
        seq![digit_char(number)]
    } else {
        decimal_text(number / 10).push(digit_char(number % 10))
    }
}

/// The text of one decimal digit.
fn digit_text(digit: usize) -> (text: &'static str)
    requires
        digit < 10,
    ensures
        text@ == seq![digit_char(digit as nat)],
{
    proof {
        reveal_strlit("0");
        reveal_strlit("1");
        reveal_strlit("2");
        reveal_strlit("3");
        reveal_strlit("4");
        reveal_strlit("5");
        reveal_strlit("6");
        reveal_strlit("7");
        reveal_strlit("8");
        reveal_strlit("9");
    }
    let text = if digit == 0 {
        "0"
    } else if digit == 1 {
        "1"
    } else if digit == 2 {
        "2"
    } else if digit == 3 {
        "3"
    } else if digit == 4 {
        "4"
    } else if digit == 5 {
        "5"
    } else if digit == 6 {
        "6"
    } else if digit == 7 {
        "7"
    } else if digit == 8 {
        "8"
    } else {
        "9"
    };
    assert(text@ =~= seq![digit_char(digit as nat)]);
    text
}

/// `decimal_text(number)` is the digits of `number / 10^k` followed by the
/// last `k` digits; one step of that.
proof fn lemma_decimal_step(number: nat)
    requires
        number >= 10,
    ensures
        decimal_text(number) == decimal_text(number / 10) + seq![digit_char(number % 10)],
{
    assert(decimal_text(number / 10).push(digit_char(number % 10)) =~= decimal_text(number / 10)
        + seq![digit_char(number % 10)]);
}

/// Write `number` in decimal.
pub fn decimal(number: usize) -> (text: String)
    ensures
        text@ == decimal_text(number as nat),
{
    let mut rest: usize = number;
    let mut text: String = String::new();
    while rest >= 10
        invariant
            decimal_text(number as nat) == decimal_text(rest as nat) + text@,
        decreases rest,
    {
        let digit = digit_text(rest % 10);
        proof {
            lemma_decimal_step(rest as nat);
            assert((decimal_text(rest as nat / 10) + seq![digit_char(rest as nat % 10)]) + text@
                =~= decimal_text(rest as nat / 10) + (seq![digit_char(rest as nat % 10)] + text@));
        }
        text = digit.to_string().concat(text.as_str());
        rest = rest / 10;
    }
    let digit = digit_text(rest);
    let text = digit.to_string().concat(text.as_str());
    text
}

} // verus!
