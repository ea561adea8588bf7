//! The operation classifier: read-only tool or mutating tool.
//!
//! A read-only tool surfaces as a function (query side) of the virtual
//! schema, every other tool as a procedure (mutation side).  The decision
//! takes the tool's explicit read-only annotation when it carries one and
//! otherwise falls back to a heuristic on the identifier: names beginning
//! with `get`, `list`, `find` or `search`, ignoring ASCII case, count as
//! read-only.

use vstd::prelude::*;
use vstd::string::StrSliceExecFns;

use crate::capability::{Tool, ToolV};

verus! {

/// `a` matches the lowercase letter `b` ignoring ASCII case: either the
/// same character, or its uppercase counterpart.
pub open spec fn char_eq_ci(a: char, b: char) -> bool {
    a as u32 == b as u32 || (65 <= a as u32 <= 90 && a as u32 + 32 == b as u32)
}

/// `name` begins with `prefix`, ignoring ASCII case; `prefix` is given in
/// lowercase.
pub open spec fn starts_with_ci(name: Seq<char>, prefix: Seq<char>) -> bool {
    prefix.len() <= name.len() && forall|i: int|
        0 <= i < prefix.len() ==> char_eq_ci(name[i], prefix[i])
}

/// The identifier heuristic: the name begins with one of the read-only
/// prefixes.
pub open spec fn spec_prefix_read_only(name: Seq<char>) -> bool {
    ||| starts_with_ci(name, "get"@)
    ||| starts_with_ci(name, "list"@)
    ||| starts_with_ci(name, "find"@)
    ||| starts_with_ci(name, "search"@)
}

/// Whether a tool is read-only: its explicit annotation decides when
/// present, the identifier heuristic decides otherwise.
pub open spec fn spec_is_read_only(t: ToolV) -> bool {
    match t.annotations {
        Some(a) => match a.read_only_hint {
            Some(hint) => hint,
            None => spec_prefix_read_only(t.name),
        },
        None => spec_prefix_read_only(t.name),
    }
}

/// `name` begins with `prefix`, ignoring ASCII case.
fn starts_with_prefix_ci(name: &str, prefix: &str) -> (r: bool)
    ensures
        r == starts_with_ci(name@, prefix@),
{
    let n = name.unicode_len();
    let p = prefix.unicode_len();
    if p > n {
        return false;
    }
    let mut i: usize = 0;
    while i < p
        invariant
            n == name@.len(),
            p == prefix@.len(),
            p <= n,
            i <= p,
            forall|j: int| 0 <= j < i ==> char_eq_ci(name@[j], prefix@[j]),
        decreases p - i,
    {
        let a = name.get_char(i) as u32;
        let b = prefix.get_char(i) as u32;
        if !(a == b || (65 <= a && a <= 90 && a + 32 == b)) {
            return false;
        }
        i = i + 1;
    }
    true
}

/// Classifies one tool as read-only or mutating.  This is a heuristic,
/// not a guarantee from the backend; it decides only whether the tool
/// surfaces as a function or as a procedure, the invocation path at
/// request time is the same either way.
pub fn is_read_only_tool(tool: &Tool) -> (r: bool)
    ensures
        r == spec_is_read_only(tool.deep_view()),
{
    match &tool.annotations {
        Some(a) => match a.read_only_hint {
            Some(hint) => hint,
            None => prefix_read_only(&tool.name),
        },
        None => prefix_read_only(&tool.name),
    }
}

fn prefix_read_only(name: &String) -> (r: bool)
    ensures
        r == spec_prefix_read_only(name@),
{
    starts_with_prefix_ci(name.as_str(), "get") || starts_with_prefix_ci(name.as_str(), "list")
        || starts_with_prefix_ci(name.as_str(), "find") || starts_with_prefix_ci(
        name.as_str(),
        "search",
    )
}

} // verus!
