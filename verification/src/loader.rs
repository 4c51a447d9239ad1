//! The shorthand loader: turns a parsed generic document — an ordered
//! list of elements, each a list of integer or nested-list fields — into
//! a stimulus program.
//!
//! Each element is one of two untagged shapes, told apart by structure
//! alone: three integers `[a, b, c]`, or three integers followed by a
//! nested list of at least two integers `[a, b, c, [u, w]]`. The
//! four-field shape is attempted first. Any malformed element aborts the
//! whole load.

use vstd::prelude::*;
use crate::model::{Input, Assert, InputWithAsserts, InputListWithAsserts};

verus! {

/// One field of a document element: an integer scalar, or a nested list
/// of integers.
#[derive(Debug)]
pub enum Field {
    Int(i64),
    List(Vec<i64>),
}

/// Why a document failed to load.
#[derive(Debug, Clone, Copy, PartialEq, Eq, Structural)]
pub enum LoadErrorKind {
    /// The element has neither three fields nor four, or its fourth
    /// field is not a nested list.
    WrongShape,
    /// One of the element's first three fields is not an integer scalar.
    NonIntegerField,
    /// The element's nested assertion list has fewer than two entries.
    ShortAssertList,
    /// An integer in the element lies outside the 8-bit range.
    ValueOutOfRange,
}

/// A load failure: the position of the offending element, and the cause.
#[derive(Debug, Clone, Copy, PartialEq, Eq, Structural)]
pub struct LoadError {
    pub index: usize,
    pub kind: LoadErrorKind,
}

/// The fixed human-readable description of each load failure cause.
pub open spec fn kind_text(k: LoadErrorKind) -> Seq<char> {
    match k {
        LoadErrorKind::WrongShape => "element is not three integers optionally followed by a nested list"@,
        LoadErrorKind::NonIntegerField => "element has a non-integer value among its first three fields"@,
        LoadErrorKind::ShortAssertList => "nested assertion list has fewer than two entries"@,
        LoadErrorKind::ValueOutOfRange => "integer value lies outside the range 0 to 255"@,
    }
}

impl LoadErrorKind {
    /// The human-readable cause of the failure.
    pub fn describe(&self) -> (r: String)
        ensures
            r@ == kind_text(*self),
    {
        match self {
            LoadErrorKind::WrongShape => String::from_str(
                "element is not three integers optionally followed by a nested list",
            ),
            LoadErrorKind::NonIntegerField => String::from_str(
                "element has a non-integer value among its first three fields",
            ),
            LoadErrorKind::ShortAssertList => String::from_str(
                "nested assertion list has fewer than two entries",
            ),
            LoadErrorKind::ValueOutOfRange => String::from_str(
                "integer value lies outside the range 0 to 255",
            ),
        }
    }
}

/// Whether a field is an integer scalar.
pub open spec fn is_int(f: Field) -> bool {
    match f {
        Field::Int(_) => true,
        Field::List(_) => false,
    }
}

/// The value of an integer scalar field.
pub open spec fn int_of(f: Field) -> i64 {
    match f {
        Field::Int(v) => v,
        Field::List(_) => 0,
    }
}

/// Whether a field is a nested list.
pub open spec fn is_list(f: Field) -> bool {
    match f {
        Field::Int(_) => false,
        Field::List(_) => true,
    }
}

/// The entries of a nested-list field.
pub open spec fn list_of(f: Field) -> Seq<i64> {
    match f {
        Field::Int(_) => Seq::empty(),
        Field::List(items) => items@,
    }
}

/// Whether an integer fits the 8-bit magnitude range.
pub open spec fn in_range(v: i64) -> bool {
    0 <= v <= 255
}

/// Whether every integer of an element, scalars and nested entries
/// alike, fits the 8-bit range.
pub open spec fn elem_in_range(e: Seq<Field>) -> bool {
    in_range(int_of(e[0])) && in_range(int_of(e[1])) && in_range(int_of(e[2])) && (e.len() == 4
        ==> forall|i: int| 0 <= i < list_of(e[3]).len() ==> in_range(#[trigger] list_of(e[3])[i]))
}

/// Classifies one element: `None` when it is well formed, otherwise the
/// cause of its rejection. The checks are made in a fixed order: field
/// count, scalar fields, nested-list field, nested-list length, range.
pub open spec fn elem_error(e: Seq<Field>) -> Option<LoadErrorKind> {
    if e.len() != 3 && e.len() != 4 {
        Some(LoadErrorKind::WrongShape)
    } else if !(is_int(e[0]) && is_int(e[1]) && is_int(e[2])) {
        Some(LoadErrorKind::NonIntegerField)
    } else if e.len() == 4 && !is_list(e[3]) {
        Some(LoadErrorKind::WrongShape)
    } else if e.len() == 4 && list_of(e[3]).len() < 2 {
        Some(LoadErrorKind::ShortAssertList)
    } else if !elem_in_range(e) {
        Some(LoadErrorKind::ValueOutOfRange)
    } else {
        None
    }
}

/// The stimulus entry a well-formed element stands for: a nonzero
/// integer means an asserted signal, the second integer is kept as an
/// 8-bit magnitude, and a fourth field yields the output check built
/// from its first two entries.
pub open spec fn entry_of(e: Seq<Field>) -> InputWithAsserts {
    let input = Input {
        reset: int_of(e[0]) != 0,
        number: int_of(e[1]) as u8,
        first: int_of(e[2]) != 0,
    };
    if e.len() == 4 {
        InputWithAsserts {
            input,
            asserts: Some(
                Assert { unlock: list_of(e[3])[0] != 0, warning: list_of(e[3])[1] != 0 },
            ),
        }
    } else {
        InputWithAsserts { input, asserts: None }
    }
}

/// Reads one scalar field's value, when all three leading fields are
/// scalars in range.
fn scalar_at(fields: &Vec<Field>, i: usize) -> (r: u8)
    requires
        i < fields@.len(),
        is_int(fields@[i as int]),
        in_range(int_of(fields@[i as int])),
    ensures
        r == int_of(fields@[i as int]) as u8,
{
    match &fields[i] {
        Field::Int(v) => *v as u8,
        Field::List(_) => 0,
    }
}

/// Loads one document element, trying the four-field asserted shape
/// first and falling back to the three-scalar shape, as the structures
/// overlap on their first three fields.
pub fn load_entry(fields: &Vec<Field>) -> (r: Result<InputWithAsserts, LoadErrorKind>)
    ensures
        match r {
            Ok(entry) => elem_error(fields@) is None && entry == entry_of(fields@),
            Err(kind) => elem_error(fields@) == Some(kind),
        },
{
    let n = fields.len();
    if n != 3 && n != 4 {
        return Err(LoadErrorKind::WrongShape);
    }
    let mut j: usize = 0;
    while j < 3
        invariant
            j <= 3,
            fields@.len() == n,
            n == 3 || n == 4,
            forall|k: int| 0 <= k < j ==> is_int(fields@[k]),
        decreases 3 - j,
    {
        match &fields[j] {
            Field::Int(_) => {},
            Field::List(_) => {
                return Err(LoadErrorKind::NonIntegerField);
            },
        }
        j = j + 1;
    }
    let asserts: Option<Assert> = if n == 4 {
        let items = match &fields[3] {
            Field::List(items) => items,
            Field::Int(_) => {
                return Err(LoadErrorKind::WrongShape);
            },
        };
        if items.len() < 2 {
            return Err(LoadErrorKind::ShortAssertList);
        }
        let mut j: usize = 0;
        while j < items.len()
            invariant
                fields@.len() == 4,
                forall|k: int| 0 <= k < 3 ==> is_int(#[trigger] fields@[k]),
                is_list(fields@[3]),
                items@ == list_of(fields@[3]),
                items@.len() >= 2,
                j <= items@.len(),
                forall|k: int| 0 <= k < j ==> in_range(#[trigger] items@[k]),
            decreases items@.len() - j,
        {
            let v = items[j];
            if v < 0 || v > 255 {
                proof {
                    assert(!in_range(list_of(fields@[3])[j as int]));
                    assert(!elem_in_range(fields@));
                }
                return Err(LoadErrorKind::ValueOutOfRange);
            }
            j = j + 1;
        }
        Some(Assert { unlock: items[0] != 0, warning: items[1] != 0 })
    } else {
        None
    };
    let mut j: usize = 0;
    while j < 3
        invariant
            j <= 3,
            fields@.len() == n,
            n == 3 || n == 4,
            forall|k: int| 0 <= k < 3 ==> is_int(#[trigger] fields@[k]),
            n == 4 ==> is_list(fields@[3]) && list_of(fields@[3]).len() >= 2,
            forall|k: int| 0 <= k < j ==> in_range(int_of(#[trigger] fields@[k])),
        decreases 3 - j,
    {
        let v = match &fields[j] {
            Field::Int(v) => *v,
            Field::List(_) => 0,
        };
        if v < 0 || v > 255 {
            proof {
                assert(!in_range(int_of(fields@[j as int])));
                assert(!elem_in_range(fields@));
            }
            return Err(LoadErrorKind::ValueOutOfRange);
        }
        j = j + 1;
    }
    let input = Input {
        reset: scalar_at(fields, 0) != 0,
        number: scalar_at(fields, 1),
        first: scalar_at(fields, 2) != 0,
    };
    Ok(InputWithAsserts { input, asserts })
}

impl InputListWithAsserts {
    /// Loads a whole document: every element in order, stopping at the
    /// first malformed one and reporting its position and the cause.
    pub fn from_fields(arr: &Vec<Vec<Field>>) -> (r: Result<Self, LoadError>)
        ensures
            match r {
                Ok(prog) => prog.inputs@.len() == arr@.len() && (forall|i: int|
                    0 <= i < arr@.len() ==> elem_error(#[trigger] arr@[i]@) is None) && (forall|
                    i: int,
                |
                    0 <= i < arr@.len() ==> prog.inputs@[i] == entry_of(#[trigger] arr@[i]@)),
                Err(err) => err.index < arr@.len() && elem_error(arr@[err.index as int]@)
                    == Some(err.kind) && (forall|j: int|
                    0 <= j < err.index ==> elem_error(#[trigger] arr@[j]@) is None),
            },
    {
        let mut inputs: Vec<InputWithAsserts> = Vec::new();
        let n = arr.len();
        let mut i: usize = 0;
        while i < n
            invariant
                i <= n,
                n == arr@.len(),
                inputs@.len() == i,
                forall|k: int| 0 <= k < i ==> elem_error(#[trigger] arr@[k]@) is None,
                forall|k: int| 0 <= k < i ==> inputs@[k] == entry_of(#[trigger] arr@[k]@),
            decreases n - i,
        {
            match load_entry(&arr[i]) {
                Ok(entry) => {
                    inputs.push(entry);
                },
                Err(kind) => {
                    return Err(LoadError { index: i, kind });
                },
            }
            i = i + 1;
        }
        Ok(InputListWithAsserts { inputs })
    }
}

} // verus!
