//! What a failed validation reports.
use vstd::prelude::*;
use crate::ast::{Group, GroupChoice, GroupEntry, MemberKey, Type, Type2};
use crate::value::Value;

verus! {

/// The schema fragment that a value failed to match.
pub enum Expected<'a> {
    /// A leaf type expression.
    Type2(&'a Type2),
    /// A type or rule name.
    Ident(&'a String),
    /// A group choice.
    Choice(&'a GroupChoice),
    /// A group entry.
    Entry(&'a GroupEntry),
    /// A keyed entry: its key and its type.
    Keyed(&'a MemberKey, &'a Type),
}

/// A value that does not match the schema.
pub struct JSONError<'a> {
    pub expected_memberkey: Option<&'a MemberKey>,
    pub expected_value: Expected<'a>,
    pub actual_memberkey: Option<&'a String>,
    pub actual_value: &'a Value,
}

/// A schema that cannot be used for validation.
pub enum SchemaError<'a> {
    /// No rule is defined under this name.
    UnknownRule(&'a String),
    /// A construct that cannot validate JSON, and the value it was used on.
    Unsupported(&'a Type2, &'a Value),
    /// A member key that is neither a text literal, a bareword nor the text type.
    InvalidMemberKey(&'a MemberKey),
    /// A keyed entry without a key.
    MissingMemberKey(&'a GroupEntry),
    /// The schema and value nest deeper than the depth budget.
    DepthExceeded,
}

/// The bound that an array's length broke.
pub enum Bound {
    OneOrMore,
    Exactly(usize),
    Between(usize, usize),
    AtLeast(usize),
    AtMost(usize),
}

/// The group an occurrence indicator applies to.
pub enum Subject<'a> {
    Name(&'a String),
    Group(&'a Group),
}

/// An array with too few or too many values for an occurrence indicator.
pub struct OccurrenceError<'a> {
    pub bound: Bound,
    pub group: Subject<'a>,
    pub found: usize,
}

/// A failed validation.
pub enum Error<'a> {
    Mismatch(JSONError<'a>),
    Schema(SchemaError<'a>),
    Occurrence(OccurrenceError<'a>),
    /// The failures of every alternative tried at a choice point, in the order tried.
    Multi(Vec<Error<'a>>),
}

/// The mathematical model of an [`Error`].
pub enum Failure<'a> {
    Mismatch(JSONError<'a>),
    Schema(SchemaError<'a>),
    Occurrence(OccurrenceError<'a>),
    Multi(Seq<Failure<'a>>),
}

impl<'a> Error<'a> {
    pub open spec fn view(&self) -> Failure<'a>
        decreases self,
    {
        match self {
            Error::Mismatch(e) => Failure::Mismatch(*e),
            Error::Schema(e) => Failure::Schema(*e),
            Error::Occurrence(e) => Failure::Occurrence(*e),
            Error::Multi(v) => Failure::Multi(
                Seq::new(
                    v.len() as nat,
                    |i: int|
                        if 0 <= i < v.len() {
                            v[i].view()
                        } else {
                            Failure::Multi(Seq::empty())
                        },
                ),
            ),
        }
    }
}

/// The model of a validation outcome.
pub open spec fn outcome<'a>(r: Result<(), Error<'a>>) -> Result<(), Failure<'a>> {
    match r {
        Ok(()) => Ok(()),
        Err(e) => Err(e@),
    }
}

/// A value mismatch.
pub open spec fn mismatch<'a>(
    emk: Option<&'a MemberKey>,
    exp: Expected<'a>,
    amk: Option<&'a String>,
    v: &'a Value,
) -> Failure<'a> {
    Failure::Mismatch(
        JSONError { expected_memberkey: emk, expected_value: exp, actual_memberkey: amk, actual_value: v },
    )
}

pub fn mismatch_error<'a>(
    emk: Option<&'a MemberKey>,
    exp: Expected<'a>,
    amk: Option<&'a String>,
    v: &'a Value,
) -> (r: Error<'a>)
    ensures
        r@ == mismatch(emk, exp, amk, v),
{
    Error::Mismatch(
        JSONError { expected_memberkey: emk, expected_value: exp, actual_memberkey: amk, actual_value: v },
    )
}

/// Builds the aggregate of `errs`, whose models are `acc`.
pub(crate) fn aggregate<'a>(errs: Vec<Error<'a>>, acc: Ghost<Seq<Failure<'a>>>) -> (r: Error<'a>)
    requires
        errs@.len() == acc@.len(),
        forall|k: int| 0 <= k < acc@.len() ==> errs@[k]@ == acc@[k],
    ensures
        r@ == Failure::Multi(acc@),
{
    let r = Error::Multi(errs);
    assert(r@->Multi_0 =~= acc@);
    r
}

} // verus!
