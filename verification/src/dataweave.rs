//! What the bridge makes of the value that a selector yields.
use vstd::prelude::*;

use crate::json::{contents, Json, JsonView};
use crate::select::{decimal, is_digit};
use crate::text::{
    chars_of, is_white_space, law_trimming_takes_away_white_space_only, lemma_around_trimmed,
    lemma_trimmed_between, lemma_trimmed_ends, lemma_trimmed_is_whole, text_of, trimmed,
};

verus! {

/// Whether a text has characters, and none of them is white space.
pub open spec fn is_unspaced(text: Seq<char>) -> bool {
    text.len() > 0 && forall|i: int| 0 <= i < text.len() ==> !is_white_space(#[trigger] text[i])
}

/// A number written out: a text with characters, none of which is white space.
#[derive(Debug, PartialEq, Eq)]
pub struct NumberText {
    text: String,
}

impl Clone for NumberText {
    fn clone(&self) -> (copy: NumberText)
        ensures
            copy@ == self@,
    {
        proof {
            use_type_invariant(self);
        }
        NumberText { text: self.text.clone() }
    }
}

impl View for NumberText {
    type V = Seq<char>;

    closed spec fn view(&self) -> Seq<char> {
        self.text@
    }
}

impl NumberText {
    #[verifier::type_invariant]
    spec fn well_formed(self) -> bool {
        is_unspaced(self.text@)
    }

    /// Takes a number that is written out; nothing where the text is empty or holds white space.
    pub fn new(text: String) -> (number: Option<NumberText>)
        ensures
            match number {
                Some(number) => is_unspaced(text@) && number@ == text@,
                None => !is_unspaced(text@),
            },
    {
        let chars = chars_of(text.as_str());
        let mut i: usize = 0;
        while i < chars.len()
            invariant
                i <= chars@.len(),
                chars@ == text@,
                forall|k: int| 0 <= k < i ==> !is_white_space(#[trigger] text@[k]),
            decreases chars@.len() - i,
        {
            if is_space(chars[i]) {
                assert(is_white_space(text@[i as int]));
                return None;
            }
            i = i + 1;
        }
        if chars.len() == 0 {
            None
        } else {
            Some(NumberText { text })
        }
    }

    /// The number as text.
    pub fn into_text(self) -> (text: String)
        ensures
            text@ == self@,
            is_unspaced(text@),
    {
        proof {
            use_type_invariant(&self);
        }
        self.text
    }
}

/// A number that a selector yields.
#[derive(Debug, Clone, PartialEq, Eq)]
pub enum ScriptNumber {
    /// A whole number.
    Integral(i64),
    /// Any other number, written out.
    Written(NumberText),
}

/// A value that a selector yields, as far as it can name something: of an array or an object
/// nothing but its kind matters.
#[derive(Debug, Clone, PartialEq, Eq)]
pub enum ScriptValue {
    Null,
    Bool(bool),
    Number(ScriptNumber),
    String(String),
    Array,
    Object,
}

/// Whether a character is white space.
fn is_space(c: char) -> (yes: bool)
    ensures
        yes == is_white_space(c),
{
    ('\u{9}' <= c && c <= '\u{d}') || c == '\u{20}' || c == '\u{85}' || c == '\u{a0}' || c
        == '\u{1680}' || ('\u{2000}' <= c && c <= '\u{200a}') || c == '\u{2028}' || c == '\u{2029}'
        || c == '\u{202f}' || c == '\u{205f}' || c == '\u{3000}'
}

/// The digit of a number below ten.
pub open spec fn decimal_digit(value: int) -> char {
    ('0' as int + value) as char
}

/// A natural number in decimal.
pub open spec fn natural_text(value: nat) -> Seq<char>
    decreases value,
{
    if value < 10 {
        seq![decimal_digit(value as int)]
    } else {
        natural_text(value / 10).push(decimal_digit(value as int % 10))
    }
}

/// A whole number in decimal.
pub open spec fn integer_text(value: int) -> Seq<char> {
    if value < 0 {
        seq!['-'] + natural_text((-value) as nat)
    } else {
        natural_text(value as nat)
    }
}

/// Writes out a natural number.
fn write_natural(value: u64) -> (text: String)
    ensures
        text@ == natural_text(value as nat),
    decreases value,
{
    let mut text = if value < 10 {
        String::new()
    } else {
        write_natural(value / 10)
    };
    let digit = (0x30 + (value % 10) as u8) as char;
    text.push(digit);
    assert(text@ =~= natural_text(value as nat));
    text
}

/// Writes out a whole number.
fn write_integer(value: i64) -> (text: String)
    ensures
        text@ == integer_text(value as int),
{
    if value < 0 {
        let size: u64 = (-(value + 1)) as u64 + 1;
        let mut text = "-".to_owned();
        text.append(write_natural(size).as_str());
        proof {
            reveal_strlit("-");
            assert("-"@ =~= seq!['-']);
        }
        text
    } else {
        write_natural(value as u64)
    }
}

/// The text that a value stands for: a prompt, the name of a conversation, an identifier. Text
/// loses the white space around it, and is nothing without a character left; a number and a truth
/// value are written out; nothing else stands for a text.
pub open spec fn scalar_text(value: ScriptValue) -> Option<Seq<char>> {
    match value {
        ScriptValue::String(text) => if trimmed(text@).len() == 0 {
            None
        } else {
            Some(trimmed(text@))
        },
        ScriptValue::Number(ScriptNumber::Integral(number)) => Some(integer_text(number as int)),
        ScriptValue::Number(ScriptNumber::Written(text)) => Some(text@),
        ScriptValue::Bool(true) => Some("true"@),
        ScriptValue::Bool(false) => Some("false"@),
        _ => None,
    }
}

/// Whether a value stands for no text: nothing, a list, an object, and a blank text do not.
pub open spec fn is_nameless(value: ScriptValue) -> bool {
    match value {
        ScriptValue::Null | ScriptValue::Array | ScriptValue::Object => true,
        ScriptValue::String(text) => trimmed(text@).len() == 0,
        _ => false,
    }
}

/// Whether a value is one that there can be: a number that is written out holds no white space.
pub open spec fn is_valid(value: ScriptValue) -> bool {
    match value {
        ScriptValue::Number(ScriptNumber::Written(text)) => is_unspaced(text@),
        _ => true,
    }
}

/// The text that a value stands for. It is never blank, and has no white space at its ends.
pub fn value_to_string(value: ScriptValue) -> (text: Option<String>)
    ensures
        text_of(text) == scalar_text(value),
        text is None <==> is_nameless(value),
        text is Some ==> text->0@.len() > 0 && trimmed(text->0@) == text->0@,
        value matches ScriptValue::String(given) ==> text is Some ==> stands_within(
            text->0@,
            given@,
        ),
        value matches ScriptValue::Number(ScriptNumber::Written(given)) ==> text is Some && text->0@
            == given@,
        value matches ScriptValue::Bool(given) ==> text is Some && text->0@ == (if given {
            "true"@
        } else {
            "false"@
        }),
        value matches ScriptValue::Number(ScriptNumber::Integral(given)) ==> text is Some
            && is_decimal_of(text->0@, given as int),
{
    let text = text_for(value);
    proof {
        law_name_is_never_blank(value);
        law_name_is_the_value_itself(value);
    }
    text
}

/// The text that a value stands for, of a value that there can be.
fn text_for(value: ScriptValue) -> (text: Option<String>)
    ensures
        text_of(text) == scalar_text(value),
        is_valid(value),
{
    match value {
        ScriptValue::String(text) => {
            let inner = text.as_str().trim();
            if inner.as_bytes().len() == 0 {
                proof {
                    vstd::utf8::encode_utf8_decode_utf8(inner@);
                }
                None
            } else {
                Some(inner.to_owned())
            }
        },
        ScriptValue::Number(ScriptNumber::Integral(number)) => Some(write_integer(number)),
        ScriptValue::Number(ScriptNumber::Written(text)) => Some(text.into_text()),
        ScriptValue::Bool(true) => Some("true".to_owned()),
        ScriptValue::Bool(false) => Some("false".to_owned()),
        _ => None,
    }
}

/// `pdk`'s value of a selector.
#[verifier::external_type_specification]
#[verifier::external_body]
pub struct ExScriptValue(pdk::script::Value);

/// The JSON that a selector's value is converted to.
pub uninterp spec fn script_json(value: pdk::script::Value) -> JsonView;

/// The conversion of `pdk::script::Value` into `serde_json::Value`. How the single values are
/// mapped is left unsaid: `pdk`'s numbers are floating-point.
#[verifier::external_body]
fn script_into_json(value: pdk::script::Value) -> (json: serde_json::Value)
    ensures
        contents(json) == script_json(value),
{
    value.into()
}

/// A selector's value as JSON.
pub fn value_to_json(value: pdk::script::Value) -> (json: Json)
    ensures
        json@ == script_json(value),
{
    Json::from_value(script_into_json(value))
}

/// White space around a text does not matter: it names the same conversation, or the same task,
/// with it and without it.
pub proof fn law_white_space_around_a_name_does_not_matter(
    padded: ScriptValue,
    bare: ScriptValue,
    before: Seq<char>,
    after: Seq<char>,
)
    requires
        padded is String,
        bare is String,
        padded->String_0@ == before + bare->String_0@ + after,
        forall|i: int| 0 <= i < before.len() ==> is_white_space(#[trigger] before[i]),
        forall|i: int| 0 <= i < after.len() ==> is_white_space(#[trigger] after[i]),
    ensures
        scalar_text(padded) == scalar_text(bare),
{
    lemma_trimmed_between(before, bare->String_0@, after);
}

/// A whole number is written without white space.
proof fn lemma_natural_is_unspaced(value: nat)
    ensures
        is_unspaced(natural_text(value)),
    decreases value,
{
    if value >= 10 {
        lemma_natural_is_unspaced(value / 10);
        let text = natural_text(value);
        assert forall|i: int| 0 <= i < text.len() implies !is_white_space(#[trigger] text[i]) by {
            if i < text.len() - 1 {
                assert(text[i] == natural_text(value / 10)[i]);
            }
        }
    }
}

/// Names are clean, whatever kind of value they come from: a value stands for nothing exactly where
/// it is nothing, a list, an object or a blank text, and what it stands for otherwise is not empty,
/// and has no white space at its ends.
pub proof fn law_name_is_never_blank(value: ScriptValue)
    requires
        is_valid(value),
    ensures
        scalar_text(value) is None <==> is_nameless(value),
        scalar_text(value) is Some ==> {
            let name = scalar_text(value)->0;
            name.len() > 0 && trimmed(name) == name
        },
{
    reveal_strlit("true");
    reveal_strlit("false");
    match value {
        ScriptValue::String(text) => {
            lemma_trimmed_ends(text@);
        },
        ScriptValue::Number(ScriptNumber::Integral(number)) => {
            let size = if number < 0 {
                (-number) as nat
            } else {
                number as nat
            };
            lemma_natural_is_unspaced(size);
            let name = integer_text(number as int);
            assert(name.last() == natural_text(size).last());
        },
        _ => {},
    }
    if let Some(name) = scalar_text(value) {
        assert(!is_white_space(name[0]) && !is_white_space(name.last()));
        lemma_trimmed_is_whole(name);
    }
}

/// A name stands for itself: the text of a value, taken as a value, gives the same text.
pub proof fn law_name_stands_for_itself(value: ScriptValue, again: ScriptValue)
    requires
        is_valid(value),
        scalar_text(value) is Some,
        again is String,
        again->String_0@ == scalar_text(value)->0,
    ensures
        scalar_text(again) == scalar_text(value),
{
    law_name_is_never_blank(value);
}

/// Whether `given` is `text` with nothing but white space around it.
pub open spec fn stands_within(text: Seq<char>, given: Seq<char>) -> bool {
    exists|before: Seq<char>, after: Seq<char>|
        {
            &&& #[trigger] (before + text + after) == given
            &&& forall|i: int| 0 <= i < before.len() ==> is_white_space(#[trigger] before[i])
            &&& forall|i: int| 0 <= i < after.len() ==> is_white_space(#[trigger] after[i])
        }
}

/// Whether `digits` are the digits of `number`, without a zero in front.
pub open spec fn are_digits_of(digits: Seq<char>, number: int) -> bool {
    &&& digits.len() > 0
    &&& forall|i: int| 0 <= i < digits.len() ==> is_digit(#[trigger] digits[i])
    &&& decimal(digits) == number
    &&& digits[0] == '0' ==> digits.len() == 1
}

/// Whether `text` is the decimal form of `number`: a minus sign before a negative number, then the
/// digits.
pub open spec fn is_decimal_of(text: Seq<char>, number: int) -> bool {
    if number < 0 {
        text.len() > 0 && text[0] == '-' && are_digits_of(text.skip(1), -number)
    } else {
        are_digits_of(text, number)
    }
}

/// The digits of a natural number give the number back.
proof fn lemma_natural_reads_back(value: nat)
    ensures
        are_digits_of(natural_text(value), value as int),
        natural_text(value)[0] == '0' <==> value == 0,
    decreases value,
{
    let text = natural_text(value);
    if value < 10 {
        assert(text.drop_last() =~= Seq::empty());
        assert(decimal(Seq::empty()) == 0);
        assert(text.last() == decimal_digit(value as int));
        assert(decimal(text) == value);
    } else {
        lemma_natural_reads_back(value / 10);
        assert(text.drop_last() =~= natural_text(value / 10));
        assert(text[0] == natural_text(value / 10)[0]);
        assert forall|i: int| 0 <= i < text.len() implies is_digit(#[trigger] text[i]) by {
            if i < text.len() - 1 {
                assert(text[i] == natural_text(value / 10)[i]);
                assert(is_digit(natural_text(value / 10)[i]));
            } else {
                assert(text[i] == decimal_digit(value as int % 10));
            }
        }
    }
}

/// What a value stands for is the value itself: of a text the part between the white space at its
/// ends, letter for letter; of a number that is written out its own text; of a whole number its
/// decimal form; of a truth value its word.
pub proof fn law_name_is_the_value_itself(value: ScriptValue)
    ensures
        value matches ScriptValue::String(given) ==> scalar_text(value) is Some ==> stands_within(
            scalar_text(value)->0,
            given@,
        ),
        value matches ScriptValue::Number(ScriptNumber::Written(given)) ==> scalar_text(value)
            == Some(given@),
        value matches ScriptValue::Number(ScriptNumber::Integral(given)) ==> scalar_text(value)
            is Some && is_decimal_of(scalar_text(value)->0, given as int),
        value matches ScriptValue::Bool(given) ==> scalar_text(value) == Some(
            if given {
                "true"@
            } else {
                "false"@
            },
        ),
{
    match value {
        ScriptValue::String(given) => {
            let (before, after) = lemma_around_trimmed(given@);
            assert(before + trimmed(given@) + after == given@);
        },
        ScriptValue::Number(ScriptNumber::Integral(number)) => {
            let size = if number < 0 {
                (-number) as nat
            } else {
                number as nat
            };
            lemma_natural_reads_back(size);
            if number < 0 {
                assert(integer_text(number as int).skip(1) =~= natural_text(size));
                assert(decimal(natural_text(size)) == -number);
            }
            assert(is_decimal_of(integer_text(number as int), number as int));
        },
        _ => {},
    }
}

/// Which values stand for nothing: nothing itself, lists and objects, and a text exactly where all
/// of it is white space. Numbers and truth values always stand for something.
pub proof fn law_what_names_nothing(value: ScriptValue)
    ensures
        value is Null || value is Array || value is Object ==> is_nameless(value),
        value is Number || value is Bool ==> !is_nameless(value),
        value matches ScriptValue::String(given) ==> (is_nameless(value) <==> forall|i: int|
            0 <= i < given@.len() ==> is_white_space(#[trigger] given@[i])),
{
    if let ScriptValue::String(given) = value {
        law_trimming_takes_away_white_space_only(given@);
    }
}

/// A text is unspaced where it has a character, and each of its characters is no white space.
pub proof fn law_unspaced_texts_are_made_of_unspaced_characters(text: Seq<char>, c: char)
    ensures
        !is_unspaced(Seq::empty()),
        is_unspaced(seq![c]) <==> !is_white_space(c),
        text.len() > 0 ==> (is_unspaced(text.push(c)) <==> is_unspaced(text) && !is_white_space(c)),
{
    assert(seq![c][0] == c);
    if text.len() > 0 && is_unspaced(text.push(c)) {
        assert(text.push(c)[text.len() as int] == c);
        assert forall|i: int| 0 <= i < text.len() implies !is_white_space(#[trigger] text[i]) by {
            assert(text.push(c)[i] == text[i]);
        }
    }
}

} // verus!
