//! Capability descriptors: what one backend exposes.
//!
//! During initialization each backend is asked for its readable resources
//! and its invocable tools.  This module holds the descriptors for both,
//! the decision rule for a listing outcome (a backend that does not
//! support a capability contributes the empty list, a genuine failure
//! aborts), and the indexing step that turns a listed sequence into a
//! catalog whose identifiers are unique.

use vstd::prelude::*;

use crate::input_schema::{ObjectSchema, ObjectSchemaV};

verus! {

/// One readable, parameterless data source exposed by a backend: an
/// identifier unique within the backend, an optional description, and the
/// opaque locator used to fetch its content.
#[derive(Debug)]
pub struct Resource {
    /// Identifier of the resource, unique within its backend.
    pub name: String,
    /// Optional human-readable description.
    pub description: Option<String>,
    /// Opaque locator handed back to the backend on a fetch.
    pub uri: String,
}

/// Mathematical value of a `Resource`.
#[verifier::ext_equal]
pub struct ResourceV {
    pub name: Seq<char>,
    pub description: Option<Seq<char>>,
    pub uri: Seq<char>,
}

impl DeepView for Resource {
    type V = ResourceV;

    open spec fn deep_view(&self) -> ResourceV {
        ResourceV {
            name: self.name@,
            description: self.description.deep_view(),
            uri: self.uri@,
        }
    }
}

/// The annotation metadata a tool may carry.
#[derive(Clone, Copy, Debug, PartialEq, Eq, Structural)]
pub struct ToolAnnotations {
    /// The backend's explicit claim that the tool is read-only, when it
    /// makes one.
    pub read_only_hint: Option<bool>,
}

/// One invocable operation exposed by a backend: an identifier unique
/// within the backend, an optional description, the declared argument
/// schema, and optional annotation metadata.
pub struct Tool {
    /// Identifier of the tool, unique within its backend.
    pub name: String,
    /// Optional human-readable description.
    pub description: Option<String>,
    /// The declared argument schema.
    pub input_schema: ObjectSchema,
    /// Optional annotation metadata.
    pub annotations: Option<ToolAnnotations>,
}

/// Mathematical value of a `Tool`.
#[verifier::ext_equal]
pub struct ToolV {
    pub name: Seq<char>,
    pub description: Option<Seq<char>>,
    pub input_schema: ObjectSchemaV,
    pub annotations: Option<ToolAnnotations>,
}

impl DeepView for Tool {
    type V = ToolV;

    open spec fn deep_view(&self) -> ToolV {
        ToolV {
            name: self.name@,
            description: self.description.deep_view(),
            input_schema: self.input_schema.deep_view(),
            annotations: self.annotations,
        }
    }
}

/// What a backend answered when asked to list one capability.
pub enum ListOutcome<T> {
    /// The backend listed its items.
    Listed(Vec<T>),
    /// The backend does not implement the capability at all.
    Unsupported,
    /// The backend failed in some other way; the message describes it.
    Failed(String),
}

/// Decides what a listing outcome contributes to the catalog.  An
/// unsupported capability is not an error: it contributes the empty list.
/// Every other failure aborts the whole initialization, so no partial
/// catalog is ever built from a backend that answered wrongly.
pub fn resolve_listing<T>(outcome: ListOutcome<T>) -> (r: Result<Vec<T>, String>)
    ensures
        match outcome {
            ListOutcome::Listed(items) => r matches Ok(v) && v@ == items@,
            ListOutcome::Unsupported => r matches Ok(v) && v@ === Seq::<T>::empty(),
            ListOutcome::Failed(message) => r matches Err(e) && e@ == message@,
        },
{
    match outcome {
        ListOutcome::Listed(items) => Ok(items),
        ListOutcome::Unsupported => Ok(Vec::new()),
        ListOutcome::Failed(message) => Err(message),
    }
}

/// A descriptor that carries an identifier unique within its backend.
pub trait Named: Sized {
    /// The identifier, as a mathematical value.
    spec fn spec_name(&self) -> Seq<char>;

    /// The identifier.
    fn name(&self) -> (r: &String)
        ensures
            r@ == self.spec_name(),
    ;
}

impl Named for Resource {
    open spec fn spec_name(&self) -> Seq<char> {
        self.name@
    }

    fn name(&self) -> (r: &String) {
        &self.name
    }
}

impl Named for Tool {
    open spec fn spec_name(&self) -> Seq<char> {
        self.name@
    }

    fn name(&self) -> (r: &String) {
        &self.name
    }
}

/// Some element of `s` carries the identifier `n`.
pub open spec fn has_name<T: Named>(s: Seq<T>, n: Seq<char>) -> bool {
    exists|i: int| 0 <= i < s.len() && s[i].spec_name() == n
}

/// All elements of `s` carry pairwise distinct identifiers.
pub open spec fn distinct_names<T: Named>(s: Seq<T>) -> bool {
    forall|i: int, j: int|
        0 <= i < j < s.len() ==> s[i].spec_name() != s[j].spec_name()
}

/// `v` stands among the first `i` elements of `orig`, and no later one of
/// those elements carries `v`'s identifier: `v` is the latest bearer of
/// its identifier in `orig.take(i)`.
pub open spec fn latest_with_name<T: Named>(orig: Seq<T>, i: int, v: T) -> bool {
    exists|i0: int|
        0 <= i0 < i && v == #[trigger] orig[i0] && (forall|j: int|
            i0 < j < i ==> (#[trigger] orig[j]).spec_name() != v.spec_name())
}

/// Position of an element of `out` carrying the identifier `name`, if any.
fn find_name_index<T: Named>(out: &Vec<T>, name: &String) -> (r: Option<usize>)
    ensures
        match r {
            Some(k) => k < out.len() && out@[k as int].spec_name() == name@,
            None => forall|k: int| 0 <= k < out@.len() ==> out@[k].spec_name() != name@,
        },
{
    let mut k: usize = 0;
    while k < out.len()
        invariant
            k <= out.len(),
            forall|j: int| 0 <= j < k ==> out@[j].spec_name() != name@,
        decreases out.len() - k,
    {
        if out[k].name().eq(name) {
            return Some(k);
        }
        k = k + 1;
    }
    None
}

/// Indexes a listed sequence of descriptors by identifier, as the catalog
/// keeps them: one entry per distinct identifier.  Where the listing
/// repeats an identifier, the entry keeps the place of the identifier's
/// first occurrence and the value of its last, as an insertion into a map
/// keyed by identifier would.  A listing whose identifiers are already
/// distinct — the shape every well-behaved backend reports — comes
/// through unchanged.
pub fn index_by_name<T: Named>(items: Vec<T>) -> (out: Vec<T>)
    ensures
        distinct_names(out@),
        forall|n: Seq<char>| has_name(out@, n) <==> has_name(items@, n),
        forall|k: int| 0 <= k < out@.len() ==> latest_with_name(items@, items@.len() as int, #[trigger] out@[k]),
        distinct_names(items@) ==> out@ == items@,
        out@.len() <= items@.len(),
{
    let ghost orig = items@;
    let mut items = items;
    let mut out: Vec<T> = Vec::new();
    let ghost i: int = 0;
    while items.len() > 0
        invariant
            0 <= i <= orig.len(),
            items@ =~= orig.skip(i),
            distinct_names(out@),
            forall|n: Seq<char>| has_name(out@, n) <==> has_name(orig.take(i), n),
            forall|k: int| 0 <= k < out@.len() ==> latest_with_name(orig, i, #[trigger] out@[k]),
            distinct_names(orig) ==> out@ =~= orig.take(i),
            out@.len() <= i,
        decreases items@.len(),
    {
        let item = items.remove(0);
        proof {
            assert(item == orig[i]);
        }
        let ghost prev_out = out@;
        match find_name_index(&out, item.name()) {
            Some(k) => {
                out.remove(k);
                out.insert(k, item);
                proof {
                    assert(out@ =~= prev_out.update(k as int, item));
                    lemma_index_step_replace(prev_out, out@, orig, i, k as int);
                }
            },
            None => {
                out.push(item);
                proof {
                    lemma_index_step_push(prev_out, out@, orig, i);
                }
            },
        }
        proof {
            i = i + 1;
            assert(items@ =~= orig.skip(i));
        }
    }
    proof {
        assert(orig.take(i) =~= orig);
        assert(items@.len() == 0);
    }
    out
}

/// Replacing the element that already carries the identifier of the item
/// at position `i` keeps every invariant of the indexing loop.
proof fn lemma_index_step_replace<T: Named>(
    prev: Seq<T>,
    cur: Seq<T>,
    orig: Seq<T>,
    i: int,
    k: int,
)
    requires
        0 <= i < orig.len(),
        0 <= k < prev.len(),
        cur == prev.update(k, orig[i]),
        prev[k].spec_name() == orig[i].spec_name(),
        distinct_names(prev),
        forall|n: Seq<char>| has_name(prev, n) <==> has_name(orig.take(i), n),
        forall|k0: int| 0 <= k0 < prev.len() ==> latest_with_name(orig, i, #[trigger] prev[k0]),
    ensures
        distinct_names(cur),
        forall|n: Seq<char>| has_name(cur, n) <==> has_name(orig.take(i + 1), n),
        forall|k0: int| 0 <= k0 < cur.len() ==> latest_with_name(orig, i + 1, #[trigger] cur[k0]),
        distinct_names(orig) ==> cur =~= orig.take(i + 1),
{
    assert(cur.len() == prev.len());
    assert(forall|k0: int| 0 <= k0 < cur.len() && k0 != k ==> cur[k0] == prev[k0]);
    assert(cur[k] == orig[i]);
    assert(cur[k].spec_name() == prev[k].spec_name());
    assert forall|i0: int, j0: int|
        0 <= i0 < j0 < cur.len() implies cur[i0].spec_name() != cur[j0].spec_name() by {
        assert(cur[i0].spec_name() == prev[i0].spec_name());
        assert(cur[j0].spec_name() == prev[j0].spec_name());
    }
    assert forall|n: Seq<char>| has_name(cur, n) <==> has_name(orig.take(i + 1), n) by {
        assert forall|k0: int| 0 <= k0 < cur.len() implies cur[k0].spec_name()
            == prev[k0].spec_name() by {}
        if has_name(cur, n) {
            let k0 = choose|k0: int| 0 <= k0 < cur.len() && (#[trigger] cur[k0]).spec_name() == n;
            assert(prev[k0].spec_name() == n);
            assert(has_name(prev, n));
            let j0 = choose|j0: int| 0 <= j0 < orig.take(i).len() && (#[trigger] orig.take(i)[j0]).spec_name() == n;
            assert(orig.take(i + 1)[j0].spec_name() == n);
            assert(has_name(orig.take(i + 1), n));
        }
        if has_name(orig.take(i + 1), n) {
            let j0 = choose|j0: int| 0 <= j0 < orig.take(i + 1).len() && (#[trigger] orig.take(i + 1)[j0]).spec_name() == n;
            if j0 < i {
                assert(orig.take(i)[j0].spec_name() == n);
                assert(has_name(orig.take(i), n));
                assert(has_name(prev, n));
                let k0 = choose|k0: int| 0 <= k0 < prev.len() && (#[trigger] prev[k0]).spec_name() == n;
                assert(cur[k0].spec_name() == n);
                assert(has_name(cur, n));
            } else {
                assert(orig.take(i + 1)[i] == orig[i]);
                assert(n == orig[i].spec_name());
                assert(cur[k].spec_name() == n);
                assert(has_name(cur, n));
            }
        }
    }
    assert forall|k0: int| 0 <= k0 < cur.len() implies latest_with_name(orig, i + 1, cur[k0]) by {
        if k0 == k {
            assert(cur[k0] == orig[i]);
            assert(forall|j: int| i < j < i + 1 ==> (#[trigger] orig[j]).spec_name() != cur[k0].spec_name());
        } else {
            assert(latest_with_name(orig, i, prev[k0]));
            let i0 = choose|i0: int|
                0 <= i0 < i && prev[k0] == #[trigger] orig[i0] && (forall|j: int|
                    i0 < j < i ==> (#[trigger] orig[j]).spec_name() != prev[k0].spec_name());
            assert(cur[k0] == prev[k0]);
            assert(prev[k0].spec_name() != prev[k].spec_name());
            assert(orig[i].spec_name() != cur[k0].spec_name());
            assert(forall|j: int|
                i0 < j < i + 1 ==> (#[trigger] orig[j]).spec_name() != cur[k0].spec_name());
        }
    }
    if distinct_names(orig) {
        assert(has_name(orig.take(i), orig[i].spec_name())) by {
            assert(has_name(prev, prev[k].spec_name()));
        }
        let j0 = choose|j0: int| 0 <= j0 < orig.take(i).len() && (#[trigger] orig.take(i)[j0]).spec_name() == orig[i].spec_name();
        assert(orig[j0].spec_name() == orig[i].spec_name());
        assert(false);
    }
}

/// Appending an item whose identifier is new to the catalog keeps every
/// invariant of the indexing loop.
proof fn lemma_index_step_push<T: Named>(prev: Seq<T>, cur: Seq<T>, orig: Seq<T>, i: int)
    requires
        0 <= i < orig.len(),
        cur == prev.push(orig[i]),
        forall|k: int| 0 <= k < prev.len() ==> prev[k].spec_name() != orig[i].spec_name(),
        distinct_names(prev),
        forall|n: Seq<char>| has_name(prev, n) <==> has_name(orig.take(i), n),
        forall|k0: int| 0 <= k0 < prev.len() ==> latest_with_name(orig, i, #[trigger] prev[k0]),
        distinct_names(orig) ==> prev =~= orig.take(i),
    ensures
        distinct_names(cur),
        forall|n: Seq<char>| has_name(cur, n) <==> has_name(orig.take(i + 1), n),
        forall|k0: int| 0 <= k0 < cur.len() ==> latest_with_name(orig, i + 1, #[trigger] cur[k0]),
        distinct_names(orig) ==> cur =~= orig.take(i + 1),
{
    assert(cur.len() == prev.len() + 1);
    assert(forall|k0: int| 0 <= k0 < prev.len() ==> cur[k0] == prev[k0]);
    assert(cur[prev.len() as int] == orig[i]);
    assert forall|n: Seq<char>| has_name(cur, n) <==> has_name(orig.take(i + 1), n) by {
        if has_name(cur, n) {
            let k0 = choose|k0: int| 0 <= k0 < cur.len() && (#[trigger] cur[k0]).spec_name() == n;
            if k0 < prev.len() {
                assert(has_name(prev, n));
                let j0 = choose|j0: int| 0 <= j0 < orig.take(i).len() && (#[trigger] orig.take(i)[j0]).spec_name() == n;
                assert(orig.take(i + 1)[j0].spec_name() == n);
            } else {
                assert(orig.take(i + 1)[i].spec_name() == n);
            }
            assert(has_name(orig.take(i + 1), n));
        }
        if has_name(orig.take(i + 1), n) {
            let j0 = choose|j0: int| 0 <= j0 < orig.take(i + 1).len() && (#[trigger] orig.take(i + 1)[j0]).spec_name() == n;
            if j0 < i {
                assert(orig.take(i)[j0].spec_name() == n);
                assert(has_name(orig.take(i), n));
                assert(has_name(prev, n));
                let k0 = choose|k0: int| 0 <= k0 < prev.len() && (#[trigger] prev[k0]).spec_name() == n;
                assert(cur[k0].spec_name() == n);
            } else {
                assert(cur[prev.len() as int].spec_name() == n);
            }
            assert(has_name(cur, n));
        }
    }
    assert forall|k0: int| 0 <= k0 < cur.len() implies latest_with_name(orig, i + 1, cur[k0]) by {
        if k0 < prev.len() {
            assert(latest_with_name(orig, i, prev[k0]));
            let i0 = choose|i0: int|
                0 <= i0 < i && prev[k0] == #[trigger] orig[i0] && (forall|j: int|
                    i0 < j < i ==> (#[trigger] orig[j]).spec_name() != prev[k0].spec_name());
            assert(cur[k0] == prev[k0]);
            assert(orig[i].spec_name() != cur[k0].spec_name());
            assert(forall|j: int|
                i0 < j < i + 1 ==> (#[trigger] orig[j]).spec_name() != cur[k0].spec_name());
        } else {
            assert(cur[k0] == orig[i]);
            assert(forall|j: int| i < j < i + 1 ==> (#[trigger] orig[j]).spec_name() != cur[k0].spec_name());
        }
    }
}

} // verus!
