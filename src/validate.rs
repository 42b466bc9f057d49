//! The validation engine.
use vstd::prelude::*;
use crate::ast::{rule_name, CDDL, GroupChoice, GroupEntry, Group, MemberKey, Occur, Rule, Type, Type1, Type2};
use crate::error::{aggregate, mismatch_error, outcome, Error, Expected, Failure, OccurrenceError, SchemaError, Subject};
use crate::numeric::{expect_bool, expect_null, validate_numeric_data_type, validate_numeric_value};
use crate::occurrence::validate_array_occurrence;
use crate::semantics::{all_elems_outcome, any_elem_outcome, choice_outcome, entries_outcome, entry_occurrence_outcome, entry_outcome, group_choices_outcome, group_outcome, has_type_rule, is_prelude_type, lemma_rule_index_range, names_type_rule, opt_ref, root_index, root_outcome, rule_index, rule_outcome, type1_outcome, type2_outcome, type_choices_outcome, type_outcome};
use crate::text::{is_type_json_prelude, str_eq};
use crate::value::{lookup, Value};

verus! {

/// The depth budget of [`CDDL::validate`].
pub const DEPTH_LIMIT: u64 = 1024;

fn entry_occurrence<'a>(ge: &'a GroupEntry, len: usize) -> (r: Result<(), OccurrenceError<'a>>)
    ensures
        r == entry_occurrence_outcome(ge, len),
{
    match ge {
        GroupEntry::TypeGroupname { occur: Some(o), name } => validate_array_occurrence(
            o,
            Subject::Name(name),
            len,
        ),
        GroupEntry::InlineGroup(Some(o), g) => validate_array_occurrence(o, Subject::Group(g), len),
        _ => Ok(()),
    }
}

fn is_prelude_entry_type(t: &Type) -> (r: bool)
    ensures
        r == is_prelude_type(*t),
{
    if t.choices.len() != 1 {
        return false;
    }
    match &t.choices[0].type2 {
        Type2::Typename(n) => is_type_json_prelude(n.as_str()),
        _ => false,
    }
}

fn as_opt_ref<'a>(o: &'a Option<Occur>) -> (r: Option<&'a Occur>)
    ensures
        r == opt_ref(o),
{
    match o {
        Some(x) => Some(x),
        None => None,
    }
}

impl CDDL {
    /// The index of the first rule named `name`.
    pub fn find_rule(&self, name: &String) -> (r: Option<usize>)
        ensures
            match r {
                Some(i) => rule_index(self.rules@, name@, 0) == i as int,
                None => rule_index(self.rules@, name@, 0) < 0,
            },
            r.is_some() ==> r.unwrap() < self.rules@.len(),
    {
        proof {
            lemma_rule_index_range(self.rules@, name@, 0);
        }
        let mut i: usize = 0;
        while i < self.rules.len()
            invariant
                i <= self.rules@.len(),
                rule_index(self.rules@, name@, 0) == rule_index(self.rules@, name@, i as int),
            decreases self.rules.len() - i,
        {
            let found = match &self.rules[i] {
                Rule::Type { name: n, .. } => *n == *name,
                Rule::Group { name: n, .. } => *n == *name,
            };
            if found {
                return Some(i);
            }
            i += 1;
        }
        None
    }

    /// Whether some type rule is named `name`.
    pub fn is_type_rule(&self, name: &String) -> (r: bool)
        ensures
            r == has_type_rule(self.rules@, name@),
    {
        let mut i: usize = 0;
        while i < self.rules.len()
            invariant
                i <= self.rules@.len(),
                forall|k: int|
                    0 <= k < i ==> !(self.rules@[k] is Type && rule_name(self.rules@[k]) == name@),
            decreases self.rules.len() - i,
        {
            if let Rule::Type { name: n, .. } = &self.rules[i] {
                if *n == *name {
                    assert(self.rules@[i as int] is Type && rule_name(self.rules@[i as int])
                        == name@);
                    return true;
                }
            }
            i += 1;
        }
        false
    }

    fn names_type_rule_entry(&self, ge: &GroupEntry) -> (r: bool)
        ensures
            r == names_type_rule(*self, *ge),
    {
        match ge {
            GroupEntry::TypeGroupname { name, .. } => self.is_type_rule(name),
            _ => false,
        }
    }

    /// Validates `value` against the root rule, the first type rule, within [`DEPTH_LIMIT`].
    pub fn validate<'a>(&'a self, value: &'a Value) -> (r: Result<(), Error<'a>>)
        ensures
            outcome(r) == root_outcome(self, value, DEPTH_LIMIT as nat),
    {
        self.validate_with_depth(value, DEPTH_LIMIT)
    }

    /// Validates `value` against the root rule, the first type rule, within the depth budget `d`.
    /// Without a type rule every value is valid.
    pub fn validate_with_depth<'a>(&'a self, value: &'a Value, d: u64) -> (r: Result<
        (),
        Error<'a>,
    >)
        ensures
            outcome(r) == root_outcome(self, value, d as nat),
    {
        let mut i: usize = 0;
        while i < self.rules.len()
            invariant
                i <= self.rules@.len(),
                root_index(self.rules@, 0) == root_index(self.rules@, i as int),
            decreases self.rules.len() - i,
        {
            if let Rule::Type { value: t, .. } = &self.rules[i] {
                return self.validate_type_rule(t, None, None, None, value, d);
            }
            i += 1;
        }
        Ok(())
    }

    /// Validates `value` against the first rule named `ident`.
    pub fn validate_rule_for_ident<'a>(
        &'a self,
        ident: &'a String,
        emk: Option<&'a MemberKey>,
        amk: Option<&'a String>,
        occur: Option<&'a Occur>,
        value: &'a Value,
        d: u64,
    ) -> (r: Result<(), Error<'a>>)
        ensures
            outcome(r) == rule_outcome(self, ident, emk, amk, occur, value, d as nat),
        decreases d, 20int, 0int,
    {
        match self.find_rule(ident) {
            None => Err(Error::Schema(SchemaError::UnknownRule(ident))),
            Some(i) => match &self.rules[i] {
                Rule::Type { value: t, .. } => self.validate_type_rule(t, emk, amk, occur, value, d),
                Rule::Group { entry, .. } => self.validate_group_rule(entry, occur, value, d),
            },
        }
    }

    /// Validates `value` against the type of a type rule.
    pub fn validate_type_rule<'a>(
        &'a self,
        t: &'a Type,
        emk: Option<&'a MemberKey>,
        amk: Option<&'a String>,
        occur: Option<&'a Occur>,
        value: &'a Value,
        d: u64,
    ) -> (r: Result<(), Error<'a>>)
        ensures
            outcome(r) == type_outcome(self, t, emk, amk, occur, value, d as nat),
        decreases d, 19int, 0int,
    {
        self.validate_type(t, emk, amk, occur, value, d)
    }

    /// Validates `value` against the entry of a group rule.
    pub fn validate_group_rule<'a>(
        &'a self,
        entry: &'a GroupEntry,
        occur: Option<&'a Occur>,
        value: &'a Value,
        d: u64,
    ) -> (r: Result<(), Error<'a>>)
        ensures
            outcome(r) == entry_outcome(self, entry, occur, value, d as nat),
        decreases d, 19int, 0int,
    {
        self.validate_group_entry(entry, occur, value, d)
    }

    /// Validates `value` against the alternatives of `t`, in order: the first that matches wins;
    /// where none does, the failure aggregates theirs.
    pub fn validate_type<'a>(
        &'a self,
        t: &'a Type,
        emk: Option<&'a MemberKey>,
        amk: Option<&'a String>,
        occur: Option<&'a Occur>,
        value: &'a Value,
        d: u64,
    ) -> (r: Result<(), Error<'a>>)
        ensures
            outcome(r) == type_outcome(self, t, emk, amk, occur, value, d as nat),
        decreases d, 18int, 0int,
    {
        let mut errs: Vec<Error<'a>> = Vec::new();
        let ghost mut acc: Seq<Failure<'a>> = Seq::empty();
        let mut i: usize = 0;
        while i < t.choices.len()
            invariant
                i <= t.choices@.len(),
                errs@.len() == acc.len(),
                forall|k: int| 0 <= k < acc.len() ==> errs@[k]@ == acc[k],
                type_outcome(self, t, emk, amk, occur, value, d as nat) == type_choices_outcome(
                    self,
                    t,
                    i as int,
                    acc,
                    emk,
                    amk,
                    occur,
                    value,
                    d as nat,
                ),
            decreases t.choices.len() - i,
        {
            match self.validate_type1(&t.choices[i], emk, amk, occur, value, d) {
                Ok(()) => return Ok(()),
                Err(Error::Schema(e)) => return Err(Error::Schema(e)),
                Err(e) => {
                    proof {
                        acc = acc.push(e@);
                    }
                    errs.push(e);
                },
            }
            i += 1;
        }
        Err(aggregate(errs, Ghost(acc)))
    }

    /// Validates `value` against one alternative of a type.
    pub fn validate_type1<'a>(
        &'a self,
        t1: &'a Type1,
        emk: Option<&'a MemberKey>,
        amk: Option<&'a String>,
        occur: Option<&'a Occur>,
        value: &'a Value,
        d: u64,
    ) -> (r: Result<(), Error<'a>>)
        ensures
            outcome(r) == type1_outcome(self, t1, emk, amk, occur, value, d as nat),
        decreases d, 16int, 0int,
    {
        self.validate_type2(&t1.type2, emk, amk, occur, value, d)
    }

    /// Validates `value` against a leaf type expression, by the kind of the value.
    pub fn validate_type2<'a>(
        &'a self,
        t2: &'a Type2,
        emk: Option<&'a MemberKey>,
        amk: Option<&'a String>,
        occur: Option<&'a Occur>,
        value: &'a Value,
        d: u64,
    ) -> (r: Result<(), Error<'a>>)
        ensures
            outcome(r) == type2_outcome(self, t2, emk, amk, occur, value, d as nat),
        decreases d, 15int, 0int,
    {
        if d == 0 {
            return Err(Error::Schema(SchemaError::DepthExceeded));
        }
        match t2 {
            Type2::TextValue(t) => match value {
                Value::String(x) => {
                    if *x == *t {
                        Ok(())
                    } else {
                        Err(mismatch_error(emk, Expected::Type2(t2), amk, value))
                    }
                },
                _ => Err(mismatch_error(emk, Expected::Type2(t2), amk, value)),
            },
            Type2::IntValue(_) | Type2::UintValue(_) | Type2::FloatValue(_) => match value {
                Value::Number(_) => validate_numeric_value(t2, value),
                _ => Err(mismatch_error(emk, Expected::Type2(t2), amk, value)),
            },
            Type2::Typename(tn) => match value {
                Value::Null => expect_null(tn, value),
                Value::Bool(_) => expect_bool(tn, value),
                Value::String(_) => {
                    if str_eq(tn.as_str(), "tstr") || str_eq(tn.as_str(), "text") {
                        Ok(())
                    } else if is_type_json_prelude(tn.as_str()) || str_eq(tn.as_str(), "int") {
                        Err(mismatch_error(emk, Expected::Ident(tn), amk, value))
                    } else {
                        self.validate_rule_for_ident(tn, emk, amk, occur, value, d - 1)
                    }
                },
                Value::Number(_) => validate_numeric_data_type(emk, amk, tn, value),
                Value::Array(_) | Value::Object(_) => self.validate_rule_for_ident(
                    tn,
                    emk,
                    amk,
                    occur,
                    value,
                    d - 1,
                ),
            },
            Type2::InlineArray(g) => match value {
                Value::Array(_) => self.validate_group(g, occur, value, d),
                _ => Err(mismatch_error(emk, Expected::Type2(t2), amk, value)),
            },
            Type2::InlineMap(g) => match value {
                Value::Object(_) => self.validate_group(g, occur, value, d),
                _ => Err(mismatch_error(emk, Expected::Type2(t2), amk, value)),
            },
            Type2::Other(_) => Err(Error::Schema(SchemaError::Unsupported(t2, value))),
        }
    }

    /// Validates `value` against the choices of `g`, in order: the first that matches wins;
    /// where none does, the failure aggregates theirs.
    pub fn validate_group<'a>(
        &'a self,
        g: &'a Group,
        occur: Option<&'a Occur>,
        value: &'a Value,
        d: u64,
    ) -> (r: Result<(), Error<'a>>)
        ensures
            outcome(r) == group_outcome(self, g, occur, value, d as nat),
        decreases d, 14int, 0int,
    {
        let mut errs: Vec<Error<'a>> = Vec::new();
        let ghost mut acc: Seq<Failure<'a>> = Seq::empty();
        let mut i: usize = 0;
        while i < g.choices.len()
            invariant
                i <= g.choices@.len(),
                errs@.len() == acc.len(),
                forall|k: int| 0 <= k < acc.len() ==> errs@[k]@ == acc[k],
                group_outcome(self, g, occur, value, d as nat) == group_choices_outcome(
                    self,
                    g,
                    i as int,
                    acc,
                    occur,
                    value,
                    d as nat,
                ),
            decreases g.choices.len() - i,
        {
            match self.validate_group_choice(&g.choices[i], occur, value, d) {
                Ok(()) => return Ok(()),
                Err(Error::Schema(e)) => return Err(Error::Schema(e)),
                Err(e) => {
                    proof {
                        acc = acc.push(e@);
                    }
                    errs.push(e);
                },
            }
            i += 1;
        }
        Err(aggregate(errs, Ghost(acc)))
    }

    fn first_failing_elem<'a>(
        &'a self,
        ge: &'a GroupEntry,
        occur: Option<&'a Occur>,
        vals: &'a Vec<Value>,
        d: u64,
    ) -> (r: Option<Error<'a>>)
        ensures
            match r {
                Some(e) => all_elems_outcome(self, ge, occur, vals, 0, d as nat) == Some(e@),
                None => all_elems_outcome(self, ge, occur, vals, 0, d as nat).is_none(),
            },
        decreases d, 10int, 0int,
    {
        let mut j: usize = 0;
        while j < vals.len()
            invariant
                j <= vals@.len(),
                all_elems_outcome(self, ge, occur, vals, 0, d as nat) == all_elems_outcome(
                    self,
                    ge,
                    occur,
                    vals,
                    j as int,
                    d as nat,
                ),
            decreases vals.len() - j,
        {
            match self.validate_group_entry(ge, occur, &vals[j], d) {
                Ok(()) => {},
                Err(e) => return Some(e),
            }
            j += 1;
        }
        None
    }

    fn some_elem_matches<'a>(
        &'a self,
        ge: &'a GroupEntry,
        occur: Option<&'a Occur>,
        vals: &'a Vec<Value>,
        d: u64,
    ) -> (r: Result<bool, Error<'a>>)
        ensures
            match r {
                Ok(b) => any_elem_outcome(self, ge, occur, vals, 0, d as nat) == Ok::<
                    bool,
                    Failure<'a>,
                >(b),
                Err(e) => any_elem_outcome(self, ge, occur, vals, 0, d as nat) == Err::<
                    bool,
                    Failure<'a>,
                >(e@),
            },
        decreases d, 10int, 0int,
    {
        let mut j: usize = 0;
        while j < vals.len()
            invariant
                j <= vals@.len(),
                any_elem_outcome(self, ge, occur, vals, 0, d as nat) == any_elem_outcome(
                    self,
                    ge,
                    occur,
                    vals,
                    j as int,
                    d as nat,
                ),
            decreases vals.len() - j,
        {
            match self.validate_group_entry(ge, occur, &vals[j], d) {
                Ok(()) => return Ok(true),
                Err(Error::Schema(e)) => return Err(Error::Schema(e)),
                Err(_) => {},
            }
            j += 1;
        }
        Ok(false)
    }

    /// Validates `value` against one group choice: against an object every entry must hold;
    /// against an array each entry must be met by its elements.
    pub fn validate_group_choice<'a>(
        &'a self,
        gc: &'a GroupChoice,
        occur: Option<&'a Occur>,
        value: &'a Value,
        d: u64,
    ) -> (r: Result<(), Error<'a>>)
        ensures
            outcome(r) == choice_outcome(self, gc, occur, value, d as nat),
        decreases d, 12int, 0int,
    {
        let mut errs: Vec<Error<'a>> = Vec::new();
        let ghost mut acc: Seq<Failure<'a>> = Seq::empty();
        let mut i: usize = 0;
        while i < gc.entries.len()
            invariant
                i <= gc.entries@.len(),
                errs@.len() == acc.len(),
                forall|k: int| 0 <= k < acc.len() ==> errs@[k]@ == acc[k],
                choice_outcome(self, gc, occur, value, d as nat) == entries_outcome(
                    self,
                    gc,
                    i as int,
                    acc,
                    occur,
                    value,
                    d as nat,
                ),
            decreases gc.entries.len() - i,
        {
            let ge = &gc.entries[i];
            match value {
                Value::Array(vals) => {
                    match entry_occurrence(ge, vals.len()) {
                        Err(e) => return Err(Error::Occurrence(e)),
                        Ok(()) => {},
                    }
                    if self.names_type_rule_entry(ge) {
                        match self.first_failing_elem(ge, occur, vals, d) {
                            None => return Ok(()),
                            Some(Error::Schema(e)) => return Err(Error::Schema(e)),
                            Some(e) => {
                                proof {
                                    acc = acc.push(e@);
                                }
                                errs.push(e);
                            },
                        }
                    }
                    match self.some_elem_matches(ge, occur, vals, d) {
                        Err(e) => return Err(e),
                        Ok(found) => {
                            if !found && vals.len() > 0 {
                                return Err(mismatch_error(None, Expected::Choice(gc), None, value));
                            }
                        },
                    }
                },
                Value::Object(_) => match self.validate_group_entry(ge, occur, value, d) {
                    Ok(()) => {},
                    Err(Error::Schema(e)) => return Err(Error::Schema(e)),
                    Err(e) => {
                        proof {
                            acc = acc.push(e@);
                        }
                        errs.push(e);
                    },
                },
                _ => return Err(mismatch_error(None, Expected::Choice(gc), None, value)),
            }
            i += 1;
        }
        if errs.len() > 0 {
            Err(aggregate(errs, Ghost(acc)))
        } else {
            Ok(())
        }
    }

    /// Validates `value` against one group entry.
    pub fn validate_group_entry<'a>(
        &'a self,
        ge: &'a GroupEntry,
        occur: Option<&'a Occur>,
        value: &'a Value,
        d: u64,
    ) -> (r: Result<(), Error<'a>>)
        ensures
            outcome(r) == entry_outcome(self, ge, occur, value, d as nat),
        decreases d, 9int, 0int,
    {
        if d == 0 {
            return Err(Error::Schema(SchemaError::DepthExceeded));
        }
        let e = d - 1;
        match ge {
            GroupEntry::ValueMemberKey { occur: vocc, member_key, entry_type } => match member_key {
                None => Err(Error::Schema(SchemaError::MissingMemberKey(ge))),
                Some(mk) => match mk {
                    MemberKey::Type1(t1) => match &t1.type2 {
                        Type2::TextValue(t) => match value {
                            Value::Object(om) => match lookup(om, t) {
                                Some(found) => self.validate_type(
                                    entry_type,
                                    Some(mk),
                                    Some(t),
                                    occur,
                                    found,
                                    e,
                                ),
                                None => {
                                    if !is_prelude_entry_type(entry_type) {
                                        self.validate_type(entry_type, Some(mk), None, occur, value, e)
                                    } else {
                                        Err(mismatch_error(Some(mk), Expected::Entry(ge), None, value))
                                    }
                                },
                            },
                            _ => self.validate_type(entry_type, Some(mk), None, occur, value, e),
                        },
                        Type2::Typename(n) => {
                            if str_eq(n.as_str(), "tstr") || str_eq(n.as_str(), "text") {
                                Ok(())
                            } else {
                                Err(Error::Schema(SchemaError::InvalidMemberKey(mk)))
                            }
                        },
                        _ => Err(Error::Schema(SchemaError::InvalidMemberKey(mk))),
                    },
                    MemberKey::Bareword(ident) => match value {
                        Value::Object(om) => match lookup(om, ident) {
                            Some(found) => self.validate_type(
                                entry_type,
                                Some(mk),
                                Some(ident),
                                as_opt_ref(vocc),
                                found,
                                e,
                            ),
                            None => {
                                if !is_prelude_entry_type(entry_type) {
                                    self.validate_type(
                                        entry_type,
                                        Some(mk),
                                        None,
                                        as_opt_ref(vocc),
                                        value,
                                        e,
                                    )
                                } else {
                                    match vocc {
                                        Some(Occur::Optional) | Some(Occur::OneOrMore) => Ok(()),
                                        _ => Err(
                                            mismatch_error(
                                                Some(mk),
                                                Expected::Keyed(mk, entry_type),
                                                None,
                                                value,
                                            ),
                                        ),
                                    }
                                }
                            },
                        },
                        _ => self.validate_type(
                            entry_type,
                            Some(mk),
                            None,
                            as_opt_ref(vocc),
                            value,
                            e,
                        ),
                    },
                },
            },
            GroupEntry::TypeGroupname { occur: o, name } => self.validate_rule_for_ident(
                name,
                None,
                None,
                as_opt_ref(o),
                value,
                e,
            ),
            GroupEntry::InlineGroup(igo, g) => {
                if igo.is_some() {
                    self.validate_group(g, as_opt_ref(igo), value, e)
                } else {
                    self.validate_group(g, occur, value, e)
                }
            },
        }
    }
}

} // verus!
