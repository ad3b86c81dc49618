//! Fields that a level's author sets on an entity.

use vstd::prelude::*;
use vstd::string::StringExecFns;

verus! {

/// The value of a field, as far as this game reads it. A number with a
/// fraction is in thousandths. A value that is not set is `None`, and a
/// value of a kind that the game does not read is `Other`.
#[derive(Clone, Debug, PartialEq, Eq)]
pub enum FieldValue {
    Int(Option<i32>),
    Float(Option<i64>),
    String(Option<String>),
    Other,
}

/// A field of an entity: its name and its value.
#[derive(Clone, Debug, PartialEq, Eq)]
pub struct FieldInstance {
    pub identifier: String,
    pub value: FieldValue,
}

impl FieldValue {
    /// The whole number in the field, if it holds one that is set.
    pub open spec fn whole(self) -> Option<i32> {
        match self {
            FieldValue::Int(value) => value,
            _ => None,
        }
    }

    /// The number with a fraction in the field, if it holds one that is set.
    pub open spec fn fraction(self) -> Option<i64> {
        match self {
            FieldValue::Float(value) => value,
            _ => None,
        }
    }

    /// The text in the field, if it holds one that is set.
    pub open spec fn text(self) -> Option<Seq<char>> {
        match self {
            FieldValue::String(Some(value)) => Some(value@),
            _ => None,
        }
    }
}

/// Whether `identifier` spells `name`.
pub fn is_named(identifier: &String, name: &str) -> (same: bool)
    ensures
        same == (identifier@ == name@),
{
    *identifier == name.to_owned()
}

/// The count that a whole number of a field stands for: the number itself,
/// and for a number below zero the count that wraps around to it.
pub fn to_count(value: i32) -> (count: usize)
    ensures
        count == value as usize,
{
    #[verifier::truncate]
    (value as usize)
}

/// The figure that stands for a number below ten.
pub open spec fn figure(digit: int) -> char {
    if digit == 0 {
        '0'
    } else if digit == 1 {
        '1'
    } else if digit == 2 {
        '2'
    } else if digit == 3 {
        '3'
    } else if digit == 4 {
        '4'
    } else if digit == 5 {
        '5'
    } else if digit == 6 {
        '6'
    } else if digit == 7 {
        '7'
    } else if digit == 8 {
        '8'
    } else {
        '9'
    }
}

/// A number written out in figures, to the base of ten.
pub open spec fn in_figures(number: nat) -> Seq<char>
    decreases number,
{
    if number < 10 {
        seq![figure(number as int)]
    } else {
        in_figures(number / 10).push(figure((number % 10) as int))
    }
}

fn figure_of(digit: usize) -> (text: &'static str)
    requires
        digit < 10,
    ensures
        text@ == seq![figure(digit as int)],
{
    proof {
        reveal_strlit("0");
        reveal_strlit("1");
        reveal_strlit("2");
        reveal_strlit("3");
        reveal_strlit("4");
        reveal_strlit("5");
        reveal_strlit("6");
        reveal_strlit("7");
        reveal_strlit("8");
        reveal_strlit("9");
    }
    let text = if digit == 0 {
        "0"
    } else if digit == 1 {
        "1"
    } else if digit == 2 {
        "2"
    } else if digit == 3 {
        "3"
    } else if digit == 4 {
        "4"
    } else if digit == 5 {
        "5"
    } else if digit == 6 {
        "6"
    } else if digit == 7 {
        "7"
    } else if digit == 8 {
        "8"
    } else {
        "9"
    };
    assert(text@ =~= seq![figure(digit as int)]);
    text
}

/// Writes `number` in figures at the end of `text`.
pub fn write_number(text: &mut String, number: usize)
    ensures
        final(text)@ == old(text)@ + in_figures(number as nat),
    decreases number,
{
    if number >= 10 {
        write_number(text, number / 10);
    }
    text.append(figure_of(number % 10));
    proof {
        if number >= 10 {
            assert(old(text)@ + in_figures((number / 10) as nat) + seq![
                figure((number % 10) as int),
            ] =~= old(text)@ + in_figures(number as nat));
        }
    }
}

} // verus!
