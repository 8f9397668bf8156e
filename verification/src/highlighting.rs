use vstd::prelude::*;

verus! {

/// The colour category of one character of a row.
#[derive(Clone, Copy, Debug, PartialEq, Eq, Structural)]
pub enum Type {
    Plain,
    Number,
}

/// ASCII decimal digits, `'0'` to `'9'`.
pub open spec fn is_digit(c: char) -> bool {
    '0' <= c && c <= '9'
}

/// The category a character is drawn in: digits are numbers, all else is plain.
pub open spec fn category(c: char) -> Type {
    if is_digit(c) {
        Type::Number
    } else {
        Type::Plain
    }
}

/// The categories of a whole text, one per character.
pub open spec fn categories(text: Seq<char>) -> Seq<Type> {
    Seq::new(text.len(), |i: int| category(text[i]))
}

/// Classifies one character.
pub fn classify(c: char) -> (kind: Type)
    ensures
        kind == category(c),
{
    if '0' <= c && c <= '9' {
        Type::Number
    } else {
        Type::Plain
    }
}

} // verus!
