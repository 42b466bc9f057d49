//! Properties of validation that hold for every schema and value.
use vstd::prelude::*;
use crate::ast::{CDDL, Group, GroupEntry, MemberKey, Occur, Type, Type2};
use crate::error::{mismatch, outcome, Bound, Error, Expected, Failure, OccurrenceError, Subject};
use crate::numeric::literal_matches;
use crate::occurrence::occurrence_outcome;
use crate::semantics::{
    choice_outcome, entry_outcome, group_choices_outcome, is_prelude_type, group_outcome, root_outcome, type1_outcome,
    type2_outcome, type_choices_outcome, type_outcome,
};
use crate::value::{spec_lookup, Value};

verus! {

/// Whether an outcome is a schema error, which ends validation.
pub open spec fn is_schema_failure<'a>(r: Result<(), Failure<'a>>) -> bool {
    r is Err && r->Err_0 is Schema
}

/// Whether `t2` is a literal scalar (a text or numeric literal, or one of the names `true`,
/// `false`, `null`, `nil`) and `v` a value of the same kind.
pub open spec fn is_scalar_literal_for(t2: Type2, v: Value) -> bool {
    match t2 {
        Type2::TextValue(_) => v is String,
        Type2::IntValue(_) | Type2::UintValue(_) | Type2::FloatValue(_) => v is Number,
        Type2::Typename(n) => ((n@ == "true"@ || n@ == "false"@) && v is Bool) || ((n@ == "null"@
            || n@ == "nil"@) && v is Null),
        _ => false,
    }
}

/// Whether the value `v` equals the literal `t2`.
pub open spec fn literal_value_matches(t2: Type2, v: Value) -> bool {
    match t2 {
        Type2::TextValue(t) => match v {
            Value::String(x) => x@ == t@,
            _ => false,
        },
        Type2::Typename(n) => match v {
            Value::Bool(b) => (n@ == "true"@ && b) || (n@ == "false"@ && !b),
            Value::Null => n@ == "null"@ || n@ == "nil"@,
            _ => false,
        },
        _ => match v {
            Value::Number(n) => literal_matches(t2, n),
            _ => false,
        },
    }
}

proof fn lemma_literal_choices<'a>(
    s: &'a CDDL,
    t: &'a Type,
    i: int,
    errs: Seq<Failure<'a>>,
    emk: Option<&'a MemberKey>,
    amk: Option<&'a String>,
    occur: Option<&'a Occur>,
    v: &'a Value,
    d: nat,
)
    requires
        d > 0,
        0 <= i <= t.choices@.len(),
        forall|k: int|
            0 <= k < t.choices@.len() ==> is_scalar_literal_for(#[trigger] t.choices@[k].type2, *v),
    ensures
        type_choices_outcome(s, t, i, errs, emk, amk, occur, v, d) is Ok <==> exists|k: int|
            i <= k < t.choices@.len() && literal_value_matches(#[trigger] t.choices@[k].type2, *v),
        type_choices_outcome(s, t, i, errs, emk, amk, occur, v, d) is Err ==> {
            let f = type_choices_outcome(s, t, i, errs, emk, amk, occur, v, d)->Err_0;
            &&& f is Multi
            &&& f->Multi_0.len() == errs.len() + t.choices@.len() - i
            &&& forall|k: int|
                errs.len() <= k < f->Multi_0.len() ==> #[trigger] f->Multi_0[k] is Mismatch
            &&& forall|k: int| 0 <= k < errs.len() ==> f->Multi_0[k] == errs[k]
        },
    decreases t.choices@.len() - i,
{
    if i < t.choices@.len() {
        let t1 = &t.choices@[i];
        assert(is_scalar_literal_for(t1.type2, *v));
        reveal_strlit("true");
        reveal_strlit("false");
        reveal_strlit("bool");
        reveal_strlit("null");
        reveal_strlit("nil");
        assert("true"@[0] != "bool"@[0] && "false"@[0] != "bool"@[0] && "true"@[0]
            != "false"@[0]);
        assert("true"@ != "bool"@ && "false"@ != "bool"@ && "true"@ != "false"@);
        let r1 = type1_outcome(s, t1, emk, amk, occur, v, d);
        assert(r1 == type2_outcome(s, &t1.type2, emk, amk, occur, v, d));
        assert(r1 is Ok <==> literal_value_matches(t1.type2, *v));
        assert(r1 is Err ==> r1->Err_0 is Mismatch);
        if r1 is Err {
            lemma_literal_choices(s, t, i + 1, errs.push(r1->Err_0), emk, amk, occur, v, d);
            let f = type_choices_outcome(s, t, i, errs, emk, amk, occur, v, d);
            if f is Err {
                assert forall|k: int| 0 <= k < errs.len() implies f->Err_0->Multi_0[k] == errs[k] by {
                    assert(errs.push(r1->Err_0)[k] == errs[k]);
                }
                assert(f->Err_0->Multi_0[errs.len() as int] == errs.push(r1->Err_0)[errs.len() as int]);
                assert forall|k: int|
                    errs.len() <= k < f->Err_0->Multi_0.len() implies #[trigger] f->Err_0->Multi_0[k] is Mismatch by {
                    if k > errs.len() {
                        assert(errs.len() + 1 <= k);
                    }
                }
            }
            if !literal_value_matches(t1.type2, *v) {
                assert((exists|k: int|
                    i + 1 <= k < t.choices@.len() && literal_value_matches(
                        #[trigger] t.choices@[k].type2,
                        *v,
                    )) ==> (exists|k: int|
                    i <= k < t.choices@.len() && literal_value_matches(
                        #[trigger] t.choices@[k].type2,
                        *v,
                    )));
                assert((exists|k: int|
                    i <= k < t.choices@.len() && literal_value_matches(
                        #[trigger] t.choices@[k].type2,
                        *v,
                    )) ==> (exists|k: int|
                    i + 1 <= k < t.choices@.len() && literal_value_matches(
                        #[trigger] t.choices@[k].type2,
                        *v,
                    )));
            }
        }
    }
}

/// A type whose alternatives are literals of the value's kind accepts the value exactly
/// when the value equals one of them; otherwise it fails with one value mismatch per
/// alternative.
pub proof fn lemma_literal_scalars<'a>(
    s: &'a CDDL,
    t: &'a Type,
    emk: Option<&'a MemberKey>,
    amk: Option<&'a String>,
    occur: Option<&'a Occur>,
    v: &'a Value,
    d: nat,
)
    requires
        d > 0,
        forall|k: int|
            0 <= k < t.choices@.len() ==> is_scalar_literal_for(#[trigger] t.choices@[k].type2, *v),
    ensures
        type_outcome(s, t, emk, amk, occur, v, d) is Ok <==> exists|k: int|
            0 <= k < t.choices@.len() && literal_value_matches(#[trigger] t.choices@[k].type2, *v),
        type_outcome(s, t, emk, amk, occur, v, d) is Err ==> {
            let f = type_outcome(s, t, emk, amk, occur, v, d)->Err_0;
            &&& f is Multi
            &&& f->Multi_0.len() == t.choices@.len()
            &&& forall|k: int| 0 <= k < f->Multi_0.len() ==> #[trigger] f->Multi_0[k] is Mismatch
        },
{
    lemma_literal_choices(s, t, 0, Seq::empty(), emk, amk, occur, v, d);
}

/// An object that lacks the key of a required bareword entry of a built-in type fails that
/// entry with a value mismatch that names the key.
pub proof fn lemma_missing_required_key<'a>(
    s: &'a CDDL,
    ge: &'a GroupEntry,
    occur: Option<&'a Occur>,
    v: &'a Value,
    d: nat,
)
    requires
        d > 0,
        ge is ValueMemberKey,
        ge->ValueMemberKey_occur.is_none(),
        ge->ValueMemberKey_member_key matches Some(MemberKey::Bareword(_)),
        is_prelude_type(ge->ValueMemberKey_entry_type),
        v is Object,
        spec_lookup(v->Object_0@, ge->ValueMemberKey_member_key->Some_0->Bareword_0@).is_none(),
    ensures
        entry_outcome(s, ge, occur, v, d) == Err::<(), Failure<'a>>(
            match ge {
                GroupEntry::ValueMemberKey { member_key: Some(mk), entry_type, .. } => mismatch(
                    Some(mk),
                    Expected::Keyed(mk, entry_type),
                    None,
                    v,
                ),
                _ => arbitrary(),
            },
        ),
{
}

/// Validation is a function of the schema, the value and the depth budget: two runs that
/// meet the contract of [`CDDL::validate_with_depth`] have the same outcome, error content
/// included.
pub proof fn lemma_deterministic<'a>(
    s: &'a CDDL,
    v: &'a Value,
    d: nat,
    r1: Result<(), Error<'a>>,
    r2: Result<(), Error<'a>>,
)
    requires
        outcome(r1) == root_outcome(s, v, d),
        outcome(r2) == root_outcome(s, v, d),
    ensures
        outcome(r1) == outcome(r2),
        r1.is_ok() == r2.is_ok(),
        r1 is Err ==> r1->Err_0@ == r2->Err_0@,
{
}

proof fn lemma_type_choice_succeeds<'a>(
    s: &'a CDDL,
    t: &'a Type,
    i: int,
    k: int,
    errs: Seq<Failure<'a>>,
    emk: Option<&'a MemberKey>,
    amk: Option<&'a String>,
    occur: Option<&'a Occur>,
    v: &'a Value,
    d: nat,
)
    requires
        0 <= i <= k < t.choices@.len(),
        type1_outcome(s, &t.choices@[k], emk, amk, occur, v, d) is Ok,
        forall|j: int|
            0 <= j < k ==> !is_schema_failure(
                #[trigger] type1_outcome(s, &t.choices@[j], emk, amk, occur, v, d),
            ),
    ensures
        type_choices_outcome(s, t, i, errs, emk, amk, occur, v, d) == Ok::<(), Failure<'a>>(()),
    decreases k - i,
{
    if i < k && type1_outcome(s, &t.choices@[i], emk, amk, occur, v, d) is Err {
        assert(!is_schema_failure(type1_outcome(s, &t.choices@[i], emk, amk, occur, v, d)));
        lemma_type_choice_succeeds(
            s,
            t,
            i + 1,
            k,
            errs.push(type1_outcome(s, &t.choices@[i], emk, amk, occur, v, d)->Err_0),
            emk,
            amk,
            occur,
            v,
            d,
        );
    }
}

/// A value that matches any alternative of a type is valid against the type, whatever value
/// mismatches the earlier alternatives gave; the success carries none of their failures.
/// (A schema error in an earlier alternative ends validation before the match is reached.)
pub proof fn lemma_type_choice_order<'a>(
    s: &'a CDDL,
    t: &'a Type,
    k: int,
    emk: Option<&'a MemberKey>,
    amk: Option<&'a String>,
    occur: Option<&'a Occur>,
    v: &'a Value,
    d: nat,
)
    requires
        0 <= k < t.choices@.len(),
        type1_outcome(s, &t.choices@[k], emk, amk, occur, v, d) is Ok,
        forall|j: int|
            0 <= j < k ==> !is_schema_failure(
                #[trigger] type1_outcome(s, &t.choices@[j], emk, amk, occur, v, d),
            ),
    ensures
        type_outcome(s, t, emk, amk, occur, v, d) == Ok::<(), Failure<'a>>(()),
{
    lemma_type_choice_succeeds(s, t, 0, k, Seq::empty(), emk, amk, occur, v, d);
}

proof fn lemma_group_choice_succeeds<'a>(
    s: &'a CDDL,
    g: &'a Group,
    i: int,
    k: int,
    errs: Seq<Failure<'a>>,
    occur: Option<&'a Occur>,
    v: &'a Value,
    d: nat,
)
    requires
        0 <= i <= k < g.choices@.len(),
        choice_outcome(s, &g.choices@[k], occur, v, d) is Ok,
        forall|j: int|
            0 <= j < k ==> !is_schema_failure(#[trigger] choice_outcome(s, &g.choices@[j], occur, v, d)),
    ensures
        group_choices_outcome(s, g, i, errs, occur, v, d) == Ok::<(), Failure<'a>>(()),
    decreases k - i,
{
    if i < k && choice_outcome(s, &g.choices@[i], occur, v, d) is Err {
        assert(!is_schema_failure(choice_outcome(s, &g.choices@[i], occur, v, d)));
        lemma_group_choice_succeeds(
            s,
            g,
            i + 1,
            k,
            errs.push(choice_outcome(s, &g.choices@[i], occur, v, d)->Err_0),
            occur,
            v,
            d,
        );
    }
}

/// A value that matches any choice of a group is valid against the group, whatever value
/// mismatches the earlier choices gave; the success carries none of their failures.
/// (A schema error in an earlier choice ends validation before the match is reached.)
pub proof fn lemma_group_choice_order<'a>(
    s: &'a CDDL,
    g: &'a Group,
    k: int,
    occur: Option<&'a Occur>,
    v: &'a Value,
    d: nat,
)
    requires
        0 <= k < g.choices@.len(),
        choice_outcome(s, &g.choices@[k], occur, v, d) is Ok,
        forall|j: int|
            0 <= j < k ==> !is_schema_failure(#[trigger] choice_outcome(s, &g.choices@[j], occur, v, d)),
    ensures
        group_outcome(s, g, occur, v, d) == Ok::<(), Failure<'a>>(()),
{
    lemma_group_choice_succeeds(s, g, 0, k, Seq::empty(), occur, v, d);
}

/// An inclusive range `l*u` accepts exactly the lengths from `l` to `u`; a length below
/// and one above are reported with the bound and the length found, so the two reports
/// differ. Where `l == u` the bound is reported as an exact count.
pub proof fn lemma_exact_range<'a>(l: usize, u: usize, g: Subject<'a>, len: usize)
    requires
        l <= u,
    ensures
        occurrence_outcome(Occur::Exact(Some(l), Some(u)), g, len) is Ok <==> l <= len <= u,
        (len < l || len > u) ==> occurrence_outcome(Occur::Exact(Some(l), Some(u)), g, len) == Err::<
            (),
            OccurrenceError<'a>,
        >(
            OccurrenceError {
                bound: if l == u {
                    Bound::Exactly(l)
                } else {
                    Bound::Between(l, u)
                },
                group: g,
                found: len,
            },
        ),
        forall|under: usize, over: usize|
            under < l && over > u ==> occurrence_outcome(Occur::Exact(Some(l), Some(u)), g, under)
                != occurrence_outcome(Occur::Exact(Some(l), Some(u)), g, over),
{
}

} // verus!
