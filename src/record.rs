//! The rules for reading a range back from a serialized record.
//!
//! A range is written as a record of its fields, `start` and, for the
//! two-sided ranges, `end`, in that order. A decoder reads the field names
//! one at a time; before it reads a field's value it asks [`RecordFields::accept`]
//! whether the field may come now, it then [`RecordFields::store`]s the value,
//! and at the end of the record it asks for the range, which fails on the
//! first field that never came.
use vstd::prelude::*;
use vstd::string::StringSliceAdditionalSpecFns;

use crate::RangeFromExclusive;
use crate::RangeFromExclusiveToExclusive;
use crate::RangeFromExclusiveToInclusive;

verus! {

/// A field of a range's record.
#[derive(Clone, Copy, Debug, PartialEq, Eq)]
pub enum Field {
    /// The lower bound, `start`.
    Start,
    /// The upper bound, `end`.
    End,
}

/// The field that `name` names in the record of a range with an upper bound
/// (`two_sided`) or without one.
pub open spec fn field_named(name: Seq<char>, two_sided: bool) -> Option<Field> {
    if name == "start"@ {
        Some(Field::Start)
    } else if two_sided && name == "end"@ {
        Some(Field::End)
    } else {
        None
    }
}

/// Whether two strings hold the same text, compared byte by byte.
fn same_text(a: &str, b: &str) -> (r: bool)
    ensures
        r == (a@ == b@),
{
    proof {
        vstd::utf8::encode_utf8_decode_utf8(a@);
        vstd::utf8::encode_utf8_decode_utf8(b@);
    }
    let x = a.as_bytes();
    let y = b.as_bytes();
    if x.len() != y.len() {
        return false;
    }
    let mut i: usize = 0;
    while i < x.len()
        invariant
            x@ == a.spec_bytes(),
            y@ == b.spec_bytes(),
            x@.len() == y@.len(),
            0 <= i <= x@.len(),
            forall|j: int| 0 <= j < i ==> x@[j] == y@[j],
        decreases x@.len() - i,
    {
        if x[i] != y[i] {
            return false;
        }
        i = i + 1;
    }
    assert(x@ =~= y@);
    true
}

impl Field {
    /// The field that `name` names, in the record of a range with an upper
    /// bound (`two_sided`: `start` or `end`) or without one (`start` only);
    /// `None` for an unknown field.
    pub fn from_name(name: &str, two_sided: bool) -> (r: Option<Field>)
        ensures
            r == field_named(name@, two_sided),
    {
        if same_text(name, "start") {
            Some(Field::Start)
        } else if two_sided && same_text(name, "end") {
            Some(Field::End)
        } else {
            None
        }
    }

    /// The field's name in the record.
    pub fn name(self) -> (r: &'static str)
        ensures
            self == Field::Start ==> r@ == "start"@,
            self == Field::End ==> r@ == "end"@,
    {
        match self {
            Field::Start => "start",
            Field::End => "end",
        }
    }
}

/// Why the fields of a record do not make a range.
#[derive(Clone, Copy, Debug, PartialEq, Eq)]
pub enum RecordError {
    /// The field came a second time.
    Duplicate(Field),
    /// The record ended without the field.
    Missing(Field),
}

/// The values of the fields that a record has given so far.
pub struct RecordFields<T> {
    /// The value of `start`, once read.
    pub start: Option<T>,
    /// The value of `end`, once read.
    pub end: Option<T>,
}

impl<T> RecordFields<T> {
    /// The value read for `field`, if any.
    pub open spec fn slot(self, field: Field) -> Option<T> {
        match field {
            Field::Start => self.start,
            Field::End => self.end,
        }
    }

    /// The fields after keeping `value` as the value of `field`.
    pub open spec fn with(self, field: Field, value: T) -> Self {
        match field {
            Field::Start => RecordFields { start: Some(value), end: self.end },
            Field::End => RecordFields { start: self.start, end: Some(value) },
        }
    }

    /// What [`RecordFields::accept`] answers for `field`.
    pub open spec fn spec_accept(self, field: Field) -> Result<(), RecordError> {
        if self.slot(field) is Some {
            Err(RecordError::Duplicate(field))
        } else {
            Ok(())
        }
    }

    /// No field read yet.
    pub fn new() -> (r: Self)
        ensures
            r.start is None,
            r.end is None,
    {
        RecordFields { start: None, end: None }
    }

    /// Whether `field` may be read now: it may not, and is a duplicate, if its
    /// value was read before.
    pub fn accept(&self, field: Field) -> (r: Result<(), RecordError>)
        ensures
            r == self.spec_accept(field),
    {
        let seen = match field {
            Field::Start => self.start.is_some(),
            Field::End => self.end.is_some(),
        };
        if seen {
            Err(RecordError::Duplicate(field))
        } else {
            Ok(())
        }
    }

    /// Keeps `value` as the value of `field`; the other field is untouched.
    pub fn store(&mut self, field: Field, value: T)
        ensures
            *final(self) == old(self).with(field, value),
    {
        match field {
            Field::Start => self.start = Some(value),
            Field::End => self.end = Some(value),
        }
    }

    /// The range that a finished record of a [`RangeFromExclusive`] gives:
    /// its `start`, or the error that `start` is missing.
    pub fn into_range_from_exclusive(self) -> (r: Result<RangeFromExclusive<T>, RecordError>)
        ensures
            r == (match self.start {
                Some(start) => Ok(RangeFromExclusive { start }),
                None => Err(RecordError::Missing(Field::Start)),
            }),
    {
        match self.start {
            Some(start) => Ok(RangeFromExclusive { start }),
            None => Err(RecordError::Missing(Field::Start)),
        }
    }

    /// The range that a finished record of a [`RangeFromExclusiveToInclusive`]
    /// gives, or the error for the first of `start` and `end` that is missing.
    pub fn into_range_from_exclusive_to_inclusive(self) -> (r: Result<
        RangeFromExclusiveToInclusive<T>,
        RecordError,
    >)
        ensures
            r == (match (self.start, self.end) {
                (Some(start), Some(end)) => Ok(RangeFromExclusiveToInclusive { start, end }),
                (None, _) => Err(RecordError::Missing(Field::Start)),
                (Some(_), None) => Err(RecordError::Missing(Field::End)),
            }),
    {
        match self.start {
            Some(start) => match self.end {
                Some(end) => Ok(RangeFromExclusiveToInclusive { start, end }),
                None => Err(RecordError::Missing(Field::End)),
            },
            None => Err(RecordError::Missing(Field::Start)),
        }
    }

    /// The range that a finished record of a [`RangeFromExclusiveToExclusive`]
    /// gives, or the error for the first of `start` and `end` that is missing.
    pub fn into_range_from_exclusive_to_exclusive(self) -> (r: Result<
        RangeFromExclusiveToExclusive<T>,
        RecordError,
    >)
        ensures
            r == (match (self.start, self.end) {
                (Some(start), Some(end)) => Ok(RangeFromExclusiveToExclusive { start, end }),
                (None, _) => Err(RecordError::Missing(Field::Start)),
                (Some(_), None) => Err(RecordError::Missing(Field::End)),
            }),
    {
        match self.start {
            Some(start) => match self.end {
                Some(end) => Ok(RangeFromExclusiveToExclusive { start, end }),
                None => Err(RecordError::Missing(Field::End)),
            },
            None => Err(RecordError::Missing(Field::Start)),
        }
    }
}

/// A field that a record gives a second time is refused, and the error names
/// it: once a value of `field` is kept, `accept` answers that `field` is a
/// duplicate, whatever the record held before.
pub proof fn lemma_second_occurrence_is_duplicate<T>(
    fields: RecordFields<T>,
    field: Field,
    value: T,
)
    ensures
        fields.with(field, value).spec_accept(field) == Err::<(), RecordError>(
            RecordError::Duplicate(field),
        ),
{
}

} // verus!
