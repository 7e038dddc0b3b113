//! Picking the two records of a wind field out of a decoded collection.
use vstd::prelude::*;

use crate::error::ConvertError;

verus! {

/// A record's field identifier: its parameter category and number.
#[derive(Clone, Copy, Debug, PartialEq, Eq, Structural)]
pub struct FieldId {
    pub category: u8,
    pub number: u8,
}

impl FieldId {
    /// The eastward wind component (category 2, number 2).
    pub fn eastward_wind() -> (f: FieldId)
        ensures
            f == (FieldId { category: 2, number: 2 }),
    {
        FieldId { category: 2, number: 2 }
    }

    /// The northward wind component (category 2, number 3).
    pub fn northward_wind() -> (f: FieldId)
        ensures
            f == (FieldId { category: 2, number: 3 }),
    {
        FieldId { category: 2, number: 3 }
    }
}

/// Position of the last record of `ids` whose identifier is `f`.
pub open spec fn last_match(ids: Seq<Option<FieldId>>, f: FieldId) -> Option<int>
    decreases ids.len(),
{
    if ids.len() == 0 {
        None
    } else if ids.last() == Some(f) {
        Some(ids.len() - 1)
    } else {
        last_match(ids.drop_last(), f)
    }
}

/// Position of the record chosen for `second`: a record that matches `first`
/// is claimed by `first`, so with equal identifiers none is left for `second`.
pub open spec fn second_match(ids: Seq<Option<FieldId>>, first: FieldId, second: FieldId) -> Option<
    int,
> {
    if first == second {
        None
    } else {
        last_match(ids, second)
    }
}

/// Picks, among records with identifiers `ids` (`None` where a record has
/// none), the last one carrying `first` and the last one carrying `second`,
/// and returns their positions.
pub fn select_fields(ids: &Vec<Option<FieldId>>, first: FieldId, second: FieldId) -> (r: Result<
    (usize, usize),
    ConvertError,
>)
    ensures
        match r {
            Ok((a, b)) => last_match(ids@, first) == Some(a as int) && second_match(
                ids@,
                first,
                second,
            ) == Some(b as int),
            Err(e) => e == (if last_match(ids@, first) is None {
                ConvertError::MissingField { field: first }
            } else {
                ConvertError::MissingField { field: second }
            }),
        },
        r is Ok <==> (last_match(ids@, first) is Some && second_match(ids@, first, second) is Some),
{
    let mut found_first: Option<usize> = None;
    let mut found_second: Option<usize> = None;
    let mut i: usize = 0;
    while i < ids.len()
        invariant
            i <= ids.len(),
            match found_first {
                Some(a) => last_match(ids@.subrange(0, i as int), first) == Some(a as int),
                None => last_match(ids@.subrange(0, i as int), first) is None,
            },
            match found_second {
                Some(b) => second_match(ids@.subrange(0, i as int), first, second) == Some(
                    b as int,
                ),
                None => second_match(ids@.subrange(0, i as int), first, second) is None,
            },
        decreases ids.len() - i,
    {
        let prefix = Ghost(ids@.subrange(0, i as int));
        assert(ids@.subrange(0, i as int + 1).drop_last() =~= prefix@);
        match ids[i] {
            Some(id) => {
                if id == first {
                    found_first = Some(i);
                } else if id == second {
                    found_second = Some(i);
                }
            },
            None => {},
        }
        i = i + 1;
    }
    assert(ids@.subrange(0, ids@.len() as int) =~= ids@);
    match (found_first, found_second) {
        (Some(a), Some(b)) => Ok((a, b)),
        (None, _) => Err(ConvertError::MissingField { field: first }),
        (_, None) => Err(ConvertError::MissingField { field: second }),
    }
}

} // verus!
