//! Names and their comparison.
use vstd::prelude::*;
use vstd::string::*;

verus! {

/// Compares two strings character by character.
pub fn str_eq(a: &str, b: &str) -> (r: bool)
    ensures
        r == (a@ == b@),
{
    let n = a.unicode_len();
    let m = b.unicode_len();
    if n != m {
        return false;
    }
    let mut i: usize = 0;
    while i < n
        invariant
            n == a@.len(),
            m == b@.len(),
            n == m,
            i <= n,
            forall|k: int| 0 <= k < i ==> a@[k] == b@[k],
        decreases n - i,
    {
        if a.get_char(i) != b.get_char(i) {
            return false;
        }
        i += 1;
    }
    assert(a@ =~= b@);
    true
}

/// The names of the built-in types of the JSON prelude.
pub open spec fn is_prelude(t: Seq<char>) -> bool {
    t == "any"@ || t == "uint"@ || t == "nint"@ || t == "tstr"@ || t == "text"@ || t == "number"@
        || t == "float16"@ || t == "float32"@ || t == "float64"@ || t == "float16-32"@ || t
        == "float32-64"@ || t == "float"@ || t == "false"@ || t == "true"@ || t == "bool"@ || t
        == "nil"@ || t == "null"@
}

/// Whether `t` names a built-in type of the JSON prelude.
pub fn is_type_json_prelude(t: &str) -> (r: bool)
    ensures
        r == is_prelude(t@),
{
    str_eq(t, "any") || str_eq(t, "uint") || str_eq(t, "nint") || str_eq(t, "tstr") || str_eq(
        t,
        "text",
    ) || str_eq(t, "number") || str_eq(t, "float16") || str_eq(t, "float32") || str_eq(
        t,
        "float64",
    ) || str_eq(t, "float16-32") || str_eq(t, "float32-64") || str_eq(t, "float") || str_eq(
        t,
        "false",
    ) || str_eq(t, "true") || str_eq(t, "bool") || str_eq(t, "nil") || str_eq(t, "null")
}

} // verus!
