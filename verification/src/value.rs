//! The cell type of a row, and its wildcard equality.

use vstd::prelude::*;

verus! {

/// One cell of a row: an absent wildcard, a text payload, or a signed
/// 64-bit integer.
#[derive(Eq, PartialOrd, Ord, Hash, Debug)]
pub enum DataType {
    Wild,
    Text(String),
    Number(i64),
}

/// Wildcard equality on cells: `Wild` compares equal to everything (it is a
/// wildcard, not a null); two non-`Wild` cells are equal iff they are the
/// same variant with the same payload. Reflexive and symmetric, but not
/// transitive.
pub open spec fn wild_eq(a: DataType, b: DataType) -> bool {
    ||| a is Wild
    ||| b is Wild
    ||| match (a, b) {
        (DataType::Text(x), DataType::Text(y)) => x@ == y@,
        (DataType::Number(x), DataType::Number(y)) => x == y,
        _ => false,
    }
}

impl Clone for DataType {
    fn clone(&self) -> (res: Self)
        ensures
            res == *self,
    {
        match self {
            DataType::Wild => DataType::Wild,
            DataType::Text(s) => DataType::Text(s.clone()),
            DataType::Number(n) => DataType::Number(*n),
        }
    }
}

impl PartialEq for DataType {
    fn eq(&self, other: &DataType) -> bool {
        match self {
            DataType::Wild => true,
            DataType::Text(a) => match other {
                DataType::Wild => true,
                DataType::Text(b) => *a == *b,
                DataType::Number(_) => false,
            },
            DataType::Number(a) => match other {
                DataType::Wild => true,
                DataType::Number(b) => *a == *b,
                DataType::Text(_) => false,
            },
        }
    }
}

impl vstd::std_specs::cmp::PartialEqSpecImpl for DataType {
    open spec fn obeys_eq_spec() -> bool {
        true
    }

    open spec fn eq_spec(&self, other: &DataType) -> bool {
        wild_eq(*self, *other)
    }
}

impl DataType {
    /// Whether this cell is the `Wild` wildcard.
    pub fn is_none(&self) -> (r: bool)
        ensures
            r == (*self is Wild),
    {
        match self {
            DataType::Wild => true,
            _ => false,
        }
    }

    /// Unchecked extraction of the integer payload. The variant must already
    /// be known to be `Number`; anything else is a contract violation in the
    /// caller, not a recoverable error.
    pub fn as_integer(self) -> (r: i64)
        requires
            self is Number,
        ensures
            r == self->Number_0,
    {
        match self {
            DataType::Number(n) => n,
            _ => vstd::pervasive::unreached(),
        }
    }

    /// Unchecked extraction of the text payload. The variant must already be
    /// known to be `Text`; anything else is a contract violation in the
    /// caller, not a recoverable error.
    pub fn as_text(self) -> (r: String)
        requires
            self is Text,
        ensures
            r == self->Text_0,
    {
        match self {
            DataType::Text(s) => s,
            _ => vstd::pervasive::unreached(),
        }
    }

    /// Builds a `Text` cell from a borrowed string.
    pub fn from_text(s: &str) -> (r: DataType)
        ensures
            r is Text,
            r->Text_0@ == s@,
    {
        DataType::Text(s.to_owned())
    }
}

impl From<i64> for DataType {
    fn from(s: i64) -> DataType {
        DataType::Number(s)
    }
}

impl vstd::std_specs::convert::FromSpecImpl<i64> for DataType {
    open spec fn obeys_from_spec() -> bool {
        true
    }

    open spec fn from_spec(s: i64) -> DataType {
        DataType::Number(s)
    }
}

impl From<i32> for DataType {
    fn from(s: i32) -> DataType {
        DataType::Number(s as i64)
    }
}

impl vstd::std_specs::convert::FromSpecImpl<i32> for DataType {
    open spec fn obeys_from_spec() -> bool {
        true
    }

    open spec fn from_spec(s: i32) -> DataType {
        DataType::Number(s as i64)
    }
}

impl From<String> for DataType {
    fn from(s: String) -> DataType {
        DataType::Text(s)
    }
}

impl vstd::std_specs::convert::FromSpecImpl<String> for DataType {
    open spec fn obeys_from_spec() -> bool {
        true
    }

    open spec fn from_spec(s: String) -> DataType {
        DataType::Text(s)
    }
}

/// The `Wild` cell compares equal to every cell, on either side, including
/// another `Wild`.
pub proof fn lemma_wildcard_eq(x: DataType)
    ensures
        wild_eq(DataType::Wild, x),
        wild_eq(x, DataType::Wild),
        wild_eq(DataType::Wild, DataType::Wild),
{
}

/// Wildcard equality is not transitive: some `a` and `b` each compare equal
/// to `Wild` and yet not to each other (a text and a number, say).
pub proof fn lemma_wild_eq_not_transitive()
    ensures
        exists|a: DataType, b: DataType|
            wild_eq(DataType::Wild, a) && wild_eq(DataType::Wild, b) && !wild_eq(a, b),
{
    let a = DataType::Text(vstd::pervasive::arbitrary());
    let b = DataType::Number(1);
    assert(wild_eq(DataType::Wild, a) && wild_eq(DataType::Wild, b) && !wild_eq(a, b));
}

} // verus!
