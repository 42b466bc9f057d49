//! The parsed schema tree that the engine walks.
use vstd::prelude::*;

verus! {

/// An occurrence indicator on a group entry.
pub enum Occur {
    /// `?`
    Optional,
    /// `*`
    ZeroOrMore,
    /// `+`
    OneOrMore,
    /// `n*m`, with either bound left out when absent.
    Exact(Option<usize>, Option<usize>),
}

/// A leaf type expression.
pub enum Type2 {
    /// A quoted text literal.
    TextValue(String),
    /// A signed integer literal.
    IntValue(i64),
    /// An unsigned integer literal.
    UintValue(u64),
    /// A floating-point literal, held as its IEEE-754 binary64 bit pattern.
    FloatValue(u64),
    /// A reference to a rule or a built-in type, by name.
    Typename(String),
    /// An inline array, `[ group ]`.
    InlineArray(Group),
    /// An inline map, `{ group }`.
    InlineMap(Group),
    /// Any other construct of the grammar (ranges, operators, ...), kept as its source text.
    Other(String),
}

/// One alternative of a type choice.
pub struct Type1 {
    pub type2: Type2,
}

/// A type: alternatives tried in order.
pub struct Type {
    pub choices: Vec<Type1>,
}

/// The key of a keyed group entry.
pub enum MemberKey {
    /// An identifier used as the key name: `name: tstr`.
    Bareword(String),
    /// A key given by a type: a text literal (`"name" => tstr`) or a key type (`tstr => any`).
    Type1(Type1),
}

/// One entry of a group choice.
pub enum GroupEntry {
    /// A keyed value, with its own occurrence indicator.
    ValueMemberKey { occur: Option<Occur>, member_key: Option<MemberKey>, entry_type: Type },
    /// A reference to a rule by name, with its own occurrence indicator.
    TypeGroupname { occur: Option<Occur>, name: String },
    /// A parenthesised group, with an optional occurrence indicator.
    InlineGroup(Option<Occur>, Group),
}

/// An ordered sequence of group entries.
pub struct GroupChoice {
    pub entries: Vec<GroupEntry>,
}

/// A group: alternatives tried in order.
pub struct Group {
    pub choices: Vec<GroupChoice>,
}

/// A named top-level definition.
pub enum Rule {
    Type { name: String, value: Type },
    Group { name: String, entry: GroupEntry },
}

/// A rule set. The first type rule is the root.
pub struct CDDL {
    pub rules: Vec<Rule>,
}

/// The name a rule is defined under.
pub open spec fn rule_name(r: Rule) -> Seq<char> {
    match r {
        Rule::Type { name, .. } => name@,
        Rule::Group { name, .. } => name@,
    }
}

} // verus!
