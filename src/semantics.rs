//! The meaning of validation, as mutually recursive spec functions.
//!
//! Each function takes a depth budget `d`; the steps that can revisit a schema node
//! (a rule reference, a member's type, a nested group) spend one unit of it.
//!
//! A value mismatch is recoverable: at a choice point the next alternative is tried and the
//! failures are aggregated. A schema error is not: it ends the whole validation as it is.
use vstd::prelude::*;
use crate::ast::{rule_name, CDDL, GroupChoice, GroupEntry, Group, MemberKey, Occur, Rule, Type, Type1, Type2};
use crate::error::{mismatch, Expected, Failure, OccurrenceError, SchemaError, Subject};
use crate::numeric::{bool_outcome, null_outcome, numeric_type_outcome, numeric_value_outcome};
use crate::occurrence::occurrence_outcome;
use crate::text::is_prelude;
use crate::value::{spec_lookup, Value};

verus! {

/// The index of the first rule named `name`, at or after `i`; -1 where there is none.
pub open spec fn rule_index(rules: Seq<Rule>, name: Seq<char>, i: int) -> int
    decreases rules.len() - i,
{
    if i < 0 || i >= rules.len() {
        -1
    } else if rule_name(rules[i]) == name {
        i
    } else {
        rule_index(rules, name, i + 1)
    }
}

/// A found rule index lies within the rules.
pub proof fn lemma_rule_index_range(rules: Seq<Rule>, name: Seq<char>, i: int)
    requires
        0 <= i,
    ensures
        rule_index(rules, name, i) == -1 || (i <= rule_index(rules, name, i) < rules.len()),
    decreases rules.len() - i,
{
    if i < rules.len() && rule_name(rules[i]) != name {
        lemma_rule_index_range(rules, name, i + 1);
    }
}

/// The index of the first type rule, at or after `i`; -1 where there is none.
pub open spec fn root_index(rules: Seq<Rule>, i: int) -> int
    decreases rules.len() - i,
{
    if i < 0 || i >= rules.len() {
        -1
    } else if rules[i] is Type {
        i
    } else {
        root_index(rules, i + 1)
    }
}

/// Whether some type rule is named `name`.
pub open spec fn has_type_rule(rules: Seq<Rule>, name: Seq<char>) -> bool {
    exists|k: int| 0 <= k < rules.len() && rules[k] is Type && rule_name(#[trigger] rules[k]) == name
}

/// Whether a type is exactly one built-in type name.
pub open spec fn is_prelude_type(t: Type) -> bool {
    t.choices@.len() == 1 && t.choices@[0].type2 is Typename && is_prelude(
        t.choices@[0].type2->Typename_0@,
    )
}

/// Whether a group entry references a type rule by name.
pub open spec fn names_type_rule(s: CDDL, ge: GroupEntry) -> bool {
    match ge {
        GroupEntry::TypeGroupname { name, .. } => has_type_rule(s.rules@, name@),
        _ => false,
    }
}

/// The occurrence check that an entry of an array's group choice imposes on the array's length.
pub open spec fn entry_occurrence_outcome<'a>(ge: &'a GroupEntry, len: usize) -> Result<
    (),
    OccurrenceError<'a>,
> {
    match ge {
        GroupEntry::TypeGroupname { occur: Some(o), name } => occurrence_outcome(
            *o,
            Subject::Name(name),
            len,
        ),
        GroupEntry::InlineGroup(Some(o), g) => occurrence_outcome(*o, Subject::Group(g), len),
        _ => Ok(()),
    }
}

/// Validation of the root: the first type rule, or success where there is none.
pub open spec fn root_outcome<'a>(s: &'a CDDL, v: &'a Value, d: nat) -> Result<(), Failure<'a>> {
    let i = root_index(s.rules@, 0);
    if i < 0 {
        Ok(())
    } else {
        type_outcome(s, &s.rules@[i]->Type_value, None, None, None, v, d)
    }
}

/// Validation against the first rule named `ident`.
pub open spec fn rule_outcome<'a>(
    s: &'a CDDL,
    ident: &'a String,
    emk: Option<&'a MemberKey>,
    amk: Option<&'a String>,
    occur: Option<&'a Occur>,
    v: &'a Value,
    d: nat,
) -> Result<(), Failure<'a>>
    decreases d, 20int, 0int,
{
    let i = rule_index(s.rules@, ident@, 0);
    if i < 0 {
        Err(Failure::Schema(SchemaError::UnknownRule(ident)))
    } else {
        match s.rules@[i] {
            Rule::Type { value, .. } => type_outcome(s, &value, emk, amk, occur, v, d),
            Rule::Group { entry, .. } => entry_outcome(s, &entry, occur, v, d),
        }
    }
}

/// Validation against a type: its alternatives in order.
pub open spec fn type_outcome<'a>(
    s: &'a CDDL,
    t: &'a Type,
    emk: Option<&'a MemberKey>,
    amk: Option<&'a String>,
    occur: Option<&'a Occur>,
    v: &'a Value,
    d: nat,
) -> Result<(), Failure<'a>>
    decreases d, 18int, 0int,
{
    type_choices_outcome(s, t, 0, Seq::empty(), emk, amk, occur, v, d)
}

/// The alternatives of `t` from the `i`-th on, after the failures `errs` of the earlier ones.
pub open spec fn type_choices_outcome<'a>(
    s: &'a CDDL,
    t: &'a Type,
    i: int,
    errs: Seq<Failure<'a>>,
    emk: Option<&'a MemberKey>,
    amk: Option<&'a String>,
    occur: Option<&'a Occur>,
    v: &'a Value,
    d: nat,
) -> Result<(), Failure<'a>>
    decreases d, 17int, t.choices@.len() - i,
{
    if i < 0 || i >= t.choices@.len() {
        Err(Failure::Multi(errs))
    } else {
        match type1_outcome(s, &t.choices@[i], emk, amk, occur, v, d) {
            Ok(()) => Ok(()),
            Err(e) => if e is Schema {
                Err(e)
            } else {
                type_choices_outcome(s, t, i + 1, errs.push(e), emk, amk, occur, v, d)
            },
        }
    }
}

/// Validation against one alternative of a type.
pub open spec fn type1_outcome<'a>(
    s: &'a CDDL,
    t1: &'a Type1,
    emk: Option<&'a MemberKey>,
    amk: Option<&'a String>,
    occur: Option<&'a Occur>,
    v: &'a Value,
    d: nat,
) -> Result<(), Failure<'a>>
    decreases d, 16int, 0int,
{
    type2_outcome(s, &t1.type2, emk, amk, occur, v, d)
}

/// Validation against a leaf type expression.
pub open spec fn type2_outcome<'a>(
    s: &'a CDDL,
    t2: &'a Type2,
    emk: Option<&'a MemberKey>,
    amk: Option<&'a String>,
    occur: Option<&'a Occur>,
    v: &'a Value,
    d: nat,
) -> Result<(), Failure<'a>>
    decreases d, 15int, 0int,
{
    if d == 0 {
        Err(Failure::Schema(SchemaError::DepthExceeded))
    } else {
        match t2 {
            Type2::TextValue(t) => match v {
                Value::String(x) => if x@ == t@ {
                    Ok(())
                } else {
                    Err(mismatch(emk, Expected::Type2(t2), amk, v))
                },
                _ => Err(mismatch(emk, Expected::Type2(t2), amk, v)),
            },
            Type2::IntValue(_) | Type2::UintValue(_) | Type2::FloatValue(_) => match v {
                Value::Number(_) => numeric_value_outcome(t2, v),
                _ => Err(mismatch(emk, Expected::Type2(t2), amk, v)),
            },
            Type2::Typename(tn) => match v {
                Value::Null => null_outcome(tn, v),
                Value::Bool(_) => bool_outcome(tn, v),
                Value::String(_) => if tn@ == "tstr"@ || tn@ == "text"@ {
                    Ok(())
                } else if is_prelude(tn@) || tn@ == "int"@ {
                    Err(mismatch(emk, Expected::Ident(tn), amk, v))
                } else {
                    rule_outcome(s, tn, emk, amk, occur, v, (d - 1) as nat)
                },
                Value::Number(_) => numeric_type_outcome(emk, amk, tn, v),
                Value::Array(_) | Value::Object(_) => rule_outcome(
                    s,
                    tn,
                    emk,
                    amk,
                    occur,
                    v,
                    (d - 1) as nat,
                ),
            },
            Type2::InlineArray(g) => match v {
                Value::Array(_) => group_outcome(s, g, occur, v, d),
                _ => Err(mismatch(emk, Expected::Type2(t2), amk, v)),
            },
            Type2::InlineMap(g) => match v {
                Value::Object(_) => group_outcome(s, g, occur, v, d),
                _ => Err(mismatch(emk, Expected::Type2(t2), amk, v)),
            },
            Type2::Other(_) => Err(Failure::Schema(SchemaError::Unsupported(t2, v))),
        }
    }
}

/// Validation against a group: its choices in order.
pub open spec fn group_outcome<'a>(
    s: &'a CDDL,
    g: &'a Group,
    occur: Option<&'a Occur>,
    v: &'a Value,
    d: nat,
) -> Result<(), Failure<'a>>
    decreases d, 14int, 0int,
{
    group_choices_outcome(s, g, 0, Seq::empty(), occur, v, d)
}

/// The choices of `g` from the `i`-th on, after the failures `errs` of the earlier ones.
pub open spec fn group_choices_outcome<'a>(
    s: &'a CDDL,
    g: &'a Group,
    i: int,
    errs: Seq<Failure<'a>>,
    occur: Option<&'a Occur>,
    v: &'a Value,
    d: nat,
) -> Result<(), Failure<'a>>
    decreases d, 13int, g.choices@.len() - i,
{
    if i < 0 || i >= g.choices@.len() {
        Err(Failure::Multi(errs))
    } else {
        match choice_outcome(s, &g.choices@[i], occur, v, d) {
            Ok(()) => Ok(()),
            Err(e) => if e is Schema {
                Err(e)
            } else {
                group_choices_outcome(s, g, i + 1, errs.push(e), occur, v, d)
            },
        }
    }
}

/// Validation against one group choice.
pub open spec fn choice_outcome<'a>(
    s: &'a CDDL,
    gc: &'a GroupChoice,
    occur: Option<&'a Occur>,
    v: &'a Value,
    d: nat,
) -> Result<(), Failure<'a>>
    decreases d, 12int, 0int,
{
    entries_outcome(s, gc, 0, Seq::empty(), occur, v, d)
}

/// The entries of `gc` from the `i`-th on, after the failures `errs` of the earlier ones.
///
/// Against an object every entry is checked on the whole object. Against an array an
/// entry that names a type rule is met when every element meets it (which ends the
/// check with success); any other entry, when some element meets it.
pub open spec fn entries_outcome<'a>(
    s: &'a CDDL,
    gc: &'a GroupChoice,
    i: int,
    errs: Seq<Failure<'a>>,
    occur: Option<&'a Occur>,
    v: &'a Value,
    d: nat,
) -> Result<(), Failure<'a>>
    decreases d, 11int, gc.entries@.len() - i,
{
    if i < 0 || i >= gc.entries@.len() {
        if errs.len() > 0 {
            Err(Failure::Multi(errs))
        } else {
            Ok(())
        }
    } else {
        let ge = &gc.entries@[i];
        match v {
            Value::Array(vals) => match entry_occurrence_outcome(ge, vals.len()) {
                Err(e) => Err(Failure::Occurrence(e)),
                Ok(()) => {
                    let typed = names_type_rule(*s, *ge);
                    let first_err = all_elems_outcome(s, ge, occur, vals, 0, d);
                    if typed && first_err.is_none() {
                        Ok(())
                    } else if typed && first_err.unwrap() is Schema {
                        Err(first_err.unwrap())
                    } else {
                        let errs2 = if typed {
                            errs.push(first_err.unwrap())
                        } else {
                            errs
                        };
                        match any_elem_outcome(s, ge, occur, vals, 0, d) {
                            Err(e) => Err(e),
                            Ok(found) => if found || vals.len() == 0 {
                                entries_outcome(s, gc, i + 1, errs2, occur, v, d)
                            } else {
                                Err(mismatch(None, Expected::Choice(gc), None, v))
                            },
                        }
                    }
                },
            },
            Value::Object(_) => match entry_outcome(s, ge, occur, v, d) {
                Ok(()) => entries_outcome(s, gc, i + 1, errs, occur, v, d),
                Err(e) => if e is Schema {
                    Err(e)
                } else {
                    entries_outcome(s, gc, i + 1, errs.push(e), occur, v, d)
                },
            },
            _ => Err(mismatch(None, Expected::Choice(gc), None, v)),
        }
    }
}

/// The failure of the first element, from the `j`-th on, that does not meet `ge`.
pub open spec fn all_elems_outcome<'a>(
    s: &'a CDDL,
    ge: &'a GroupEntry,
    occur: Option<&'a Occur>,
    vals: &'a Vec<Value>,
    j: int,
    d: nat,
) -> Option<Failure<'a>>
    decreases d, 10int, vals@.len() - j,
{
    if j < 0 || j >= vals@.len() {
        None
    } else {
        match entry_outcome(s, ge, occur, &vals@[j], d) {
            Ok(()) => all_elems_outcome(s, ge, occur, vals, j + 1, d),
            Err(e) => Some(e),
        }
    }
}

/// Whether some element, from the `j`-th on, meets `ge`; a schema error met on the way
/// ends the search.
pub open spec fn any_elem_outcome<'a>(
    s: &'a CDDL,
    ge: &'a GroupEntry,
    occur: Option<&'a Occur>,
    vals: &'a Vec<Value>,
    j: int,
    d: nat,
) -> Result<bool, Failure<'a>>
    decreases d, 10int, vals@.len() - j,
{
    if j < 0 || j >= vals@.len() {
        Ok(false)
    } else {
        match entry_outcome(s, ge, occur, &vals@[j], d) {
            Ok(()) => Ok(true),
            Err(e) => if e is Schema {
                Err(e)
            } else {
                any_elem_outcome(s, ge, occur, vals, j + 1, d)
            },
        }
    }
}

/// Validation against one group entry.
pub open spec fn entry_outcome<'a>(
    s: &'a CDDL,
    ge: &'a GroupEntry,
    occur: Option<&'a Occur>,
    v: &'a Value,
    d: nat,
) -> Result<(), Failure<'a>>
    decreases d, 9int, 0int,
{
    if d == 0 {
        Err(Failure::Schema(SchemaError::DepthExceeded))
    } else {
        let e = (d - 1) as nat;
        match ge {
            GroupEntry::ValueMemberKey { occur: vocc, member_key, entry_type } => match member_key {
                None => Err(Failure::Schema(SchemaError::MissingMemberKey(ge))),
                Some(mk) => match mk {
                    MemberKey::Type1(t1) => match &t1.type2 {
                        Type2::TextValue(t) => match v {
                            Value::Object(om) => match spec_lookup(om@, t@) {
                                Some(found) => type_outcome(
                                    s,
                                    entry_type,
                                    Some(mk),
                                    Some(t),
                                    occur,
                                    &found,
                                    e,
                                ),
                                None => if !is_prelude_type(*entry_type) {
                                    type_outcome(s, entry_type, Some(mk), None, occur, v, e)
                                } else {
                                    Err(mismatch(Some(mk), Expected::Entry(ge), None, v))
                                },
                            },
                            _ => type_outcome(s, entry_type, Some(mk), None, occur, v, e),
                        },
                        Type2::Typename(n) => if n@ == "tstr"@ || n@ == "text"@ {
                            Ok(())
                        } else {
                            Err(Failure::Schema(SchemaError::InvalidMemberKey(mk)))
                        },
                        _ => Err(Failure::Schema(SchemaError::InvalidMemberKey(mk))),
                    },
                    MemberKey::Bareword(ident) => match v {
                        Value::Object(om) => match spec_lookup(om@, ident@) {
                            Some(found) => type_outcome(
                                s,
                                entry_type,
                                Some(mk),
                                Some(ident),
                                opt_ref(vocc),
                                &found,
                                e,
                            ),
                            None => if !is_prelude_type(*entry_type) {
                                type_outcome(s, entry_type, Some(mk), None, opt_ref(vocc), v, e)
                            } else if tolerates_absence(*vocc) {
                                Ok(())
                            } else {
                                Err(mismatch(Some(mk), Expected::Keyed(mk, entry_type), None, v))
                            },
                        },
                        _ => type_outcome(s, entry_type, Some(mk), None, opt_ref(vocc), v, e),
                    },
                },
            },
            GroupEntry::TypeGroupname { occur: o, name } => rule_outcome(
                s,
                name,
                None,
                None,
                opt_ref(o),
                v,
                e,
            ),
            GroupEntry::InlineGroup(igo, g) => if igo.is_some() {
                group_outcome(s, g, opt_ref(igo), v, e)
            } else {
                group_outcome(s, g, occur, v, e)
            },
        }
    }
}

/// A reference to the indicator held in an option.
pub open spec fn opt_ref<'a>(o: &'a Option<Occur>) -> Option<&'a Occur> {
    match o {
        Some(x) => Some(x),
        None => None,
    }
}

/// Whether a keyed entry with this occurrence indicator may be absent from an object.
pub open spec fn tolerates_absence(o: Option<Occur>) -> bool {
    o == Some(Occur::Optional) || o == Some(Occur::OneOrMore)
}

} // verus!
