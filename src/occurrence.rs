//! Occurrence indicators against the length of an array.
use vstd::prelude::*;
use crate::ast::Occur;
use crate::error::{Bound, OccurrenceError, Subject};

verus! {

/// What an occurrence indicator says of an array of `len` values.
pub open spec fn occurrence_outcome<'a>(o: Occur, group: Subject<'a>, len: usize) -> Result<
    (),
    OccurrenceError<'a>,
> {
    match o {
        Occur::ZeroOrMore | Occur::Optional => Ok(()),
        Occur::OneOrMore => if len == 0 {
            Err(OccurrenceError { bound: Bound::OneOrMore, group, found: len })
        } else {
            Ok(())
        },
        Occur::Exact(l, u) => if l.is_some() && u.is_some() && (len < l.unwrap() || len
            > u.unwrap()) {
            if l.unwrap() == u.unwrap() {
                Err(OccurrenceError { bound: Bound::Exactly(l.unwrap()), group, found: len })
            } else {
                Err(
                    OccurrenceError {
                        bound: Bound::Between(l.unwrap(), u.unwrap()),
                        group,
                        found: len,
                    },
                )
            }
        } else if l.is_some() && len < l.unwrap() {
            Err(OccurrenceError { bound: Bound::AtLeast(l.unwrap()), group, found: len })
        } else if u.is_some() && len > u.unwrap() {
            Err(OccurrenceError { bound: Bound::AtMost(u.unwrap()), group, found: len })
        } else {
            Ok(())
        },
    }
}

/// Whether `len` lies within the bounds of `o`.
pub open spec fn within(o: Occur, len: int) -> bool {
    match o {
        Occur::ZeroOrMore | Occur::Optional => true,
        Occur::OneOrMore => len >= 1,
        Occur::Exact(l, u) => (l.is_none() || l.unwrap() <= len) && (u.is_none() || len
            <= u.unwrap()),
    }
}

/// Checks the number of values of an array against an occurrence indicator.
pub fn validate_array_occurrence<'a>(o: &Occur, group: Subject<'a>, len: usize) -> (r: Result<
    (),
    OccurrenceError<'a>,
>)
    ensures
        r == occurrence_outcome(*o, group, len),
        r.is_ok() == within(*o, len as int),
{
    match o {
        Occur::ZeroOrMore | Occur::Optional => Ok(()),
        Occur::OneOrMore => {
            if len == 0 {
                Err(OccurrenceError { bound: Bound::OneOrMore, group, found: len })
            } else {
                Ok(())
            }
        },
        Occur::Exact(l, u) => {
            if let Some(li) = l {
                if let Some(ui) = u {
                    if len < *li || len > *ui {
                        if *li == *ui {
                            return Err(
                                OccurrenceError { bound: Bound::Exactly(*li), group, found: len },
                            );
                        }
                        return Err(
                            OccurrenceError {
                                bound: Bound::Between(*li, *ui),
                                group,
                                found: len,
                            },
                        );
                    }
                }
                if len < *li {
                    return Err(OccurrenceError { bound: Bound::AtLeast(*li), group, found: len });
                }
            }
            if let Some(ui) = u {
                if len > *ui {
                    return Err(OccurrenceError { bound: Bound::AtMost(*ui), group, found: len });
                }
            }
            Ok(())
        },
    }
}

} // verus!
