//! The name resolver: qualified names of the form `backend__local`.
//!
//! Every resource and tool of every backend is exposed under a two-part
//! qualified name, the backend identifier and the local identifier joined
//! by the fixed two-character separator `__`.  `compose` builds such a
//! name; `split` recovers the two parts and rejects every string that does
//! not consist of exactly one separator with a non-empty part on each side.

use vstd::prelude::*;
use vstd::string::StrSliceExecFns;
use vstd::string::StringExecFns;

verus! {

/// Error for a qualified name that does not split into exactly two
/// non-empty parts.  A malformed name is a bad request, never a lookup miss.
#[derive(Clone, Copy, Debug, PartialEq, Eq, Structural)]
pub struct MalformedName;

/// The separator occurs at position `i` of `s`.
pub open spec fn sep_at(s: Seq<char>, i: int) -> bool {
    0 <= i && i + 1 < s.len() && s[i] == '_' && s[i + 1] == '_'
}

/// Some separator occurs somewhere in `s`.
pub open spec fn contains_sep(s: Seq<char>) -> bool {
    exists|i: int| sep_at(s, i)
}

/// No separator starts at any position in `lo <= j < hi`.
pub open spec fn sep_free_range(s: Seq<char>, lo: int, hi: int) -> bool {
    forall|j: int| lo <= j < hi ==> !sep_at(s, j)
}

/// `i` is the leftmost separator position in `s`.
pub open spec fn first_sep_at(s: Seq<char>, i: int) -> bool {
    sep_at(s, i) && sep_free_range(s, 0, i)
}

/// The leftmost separator of `s` sits at `i`, with a non-empty backend part
/// before it, a non-empty local part after it, and no further separator
/// from the start of the local part on.  This is exactly the shape on which
/// `split` succeeds.
pub open spec fn well_formed_split_at(s: Seq<char>, i: int) -> bool {
    first_sep_at(s, i) && 1 <= i && i + 2 < s.len() && sep_free_range(s, i + 2, s.len() as int)
}

/// `s` splits into two non-empty parts around exactly one separator.
pub open spec fn spec_split_ok(s: Seq<char>) -> bool {
    exists|i: int| well_formed_split_at(s, i)
}

/// The backend part of `s` when its separator sits at `i`.
pub open spec fn spec_backend_of(s: Seq<char>, i: int) -> Seq<char> {
    s.subrange(0, i)
}

/// The local part of `s` when its separator sits at `i`.
pub open spec fn spec_local_of(s: Seq<char>, i: int) -> Seq<char> {
    s.subrange(i + 2, s.len() as int)
}

/// What `split` returns, as a function of the character sequence.
pub open spec fn spec_split(s: Seq<char>) -> Option<(Seq<char>, Seq<char>)> {
    if spec_split_ok(s) {
        let i = choose|i: int| well_formed_split_at(s, i);
        Some((spec_backend_of(s, i), spec_local_of(s, i)))
    } else {
        None
    }
}

/// What `compose` returns: plain concatenation around the separator.
pub open spec fn spec_compose(b: Seq<char>, l: Seq<char>) -> Seq<char> {
    b + seq!['_', '_'] + l
}

/// Two leftmost separator positions coincide.
pub proof fn lemma_first_sep_unique(s: Seq<char>, i: int, j: int)
    requires
        first_sep_at(s, i),
        first_sep_at(s, j),
    ensures
        i == j,
{
    if i < j {
        assert(!sep_at(s, i));
    }
    if j < i {
        assert(!sep_at(s, j));
    }
}

/// Builds the qualified name `backend__local`.
pub fn compose(backend: &str, local: &str) -> (r: String)
    ensures
        r@ == spec_compose(backend@, local@),
{
    let mut out = backend.to_owned();
    out.append("__");
    out.append(local);
    proof {
        reveal_strlit("__");
        assert(out@ =~= spec_compose(backend@, local@));
    }
    out
}

/// Position of the leftmost separator of `s`, if any.
fn find_first_sep(s: &str) -> (r: Option<usize>)
    ensures
        match r {
            Some(i) => i < s@.len() && first_sep_at(s@, i as int),
            None => !contains_sep(s@),
        },
{
    let n = s.unicode_len();
    if n < 2 {
        return None;
    }
    let mut i: usize = 0;
    while i < n - 1
        invariant
            n == s@.len(),
            2 <= n,
            i <= n - 1,
            sep_free_range(s@, 0, i as int),
        decreases n - i,
    {
        if s.get_char(i) == '_' && s.get_char(i + 1) == '_' {
            return Some(i);
        }
        i = i + 1;
    }
    None
}

/// Splits a qualified name into its backend part and its local part.
///
/// Fails, with `MalformedName`, on every string that holds no separator,
/// more than one separator, or an empty part on either side of its
/// separator; it never panics.
pub fn split(name: &str) -> (r: Result<(String, String), MalformedName>)
    ensures
        match r {
            Ok(parts) => spec_split(name@) == Some((parts.0@, parts.1@)),
            Err(_) => spec_split(name@) is None,
        },
{
    let n = name.unicode_len();
    let i = match find_first_sep(name) {
        None => {
            proof {
                lemma_no_sep_no_split(name@);
            }
            return Err(MalformedName);
        },
        Some(i) => i,
    };
    if i == 0 || i + 2 >= n {
        proof {
            lemma_defective_first_sep_no_split(name@, i as int);
        }
        return Err(MalformedName);
    }
    let mut j: usize = i + 2;
    while j < n - 1
        invariant
            n == name@.len(),
            2 <= n,
            i + 2 <= j <= n,
            first_sep_at(name@, i as int),
            sep_free_range(name@, i as int + 2, j as int),
        decreases n - j,
    {
        if name.get_char(j) == '_' && name.get_char(j + 1) == '_' {
            proof {
                lemma_second_sep_no_split(name@, i as int, j as int);
            }
            return Err(MalformedName);
        }
        j = j + 1;
    }
    let backend = name.substring_char(0, i).to_owned();
    let local = name.substring_char(i + 2, n).to_owned();
    proof {
        assert(well_formed_split_at(name@, i as int));
        let k = choose|k: int| well_formed_split_at(name@, k);
        lemma_first_sep_unique(name@, i as int, k);
    }
    Ok((backend, local))
}

proof fn lemma_no_sep_no_split(s: Seq<char>)
    requires
        !contains_sep(s),
    ensures
        spec_split(s) is None,
{
    assert forall|k: int| !well_formed_split_at(s, k) by {
        if well_formed_split_at(s, k) {
            assert(sep_at(s, k));
        }
    }
}

proof fn lemma_defective_first_sep_no_split(s: Seq<char>, i: int)
    requires
        first_sep_at(s, i),
        i == 0 || i + 2 >= s.len(),
    ensures
        spec_split(s) is None,
{
    assert forall|k: int| !well_formed_split_at(s, k) by {
        if well_formed_split_at(s, k) {
            lemma_first_sep_unique(s, i, k);
        }
    }
}

proof fn lemma_second_sep_no_split(s: Seq<char>, i: int, j: int)
    requires
        first_sep_at(s, i),
        sep_at(s, j),
        i + 2 <= j,
    ensures
        spec_split(s) is None,
{
    assert forall|k: int| !well_formed_split_at(s, k) by {
        if well_formed_split_at(s, k) {
            lemma_first_sep_unique(s, i, k);
            assert(!sep_at(s, j));
        }
    }
}


/// The parts the configuration convention admits for a backend or local
/// identifier: non-empty, free of the separator, and (for the backend
/// side) not ending in the separator's character.
pub open spec fn wf_name_part(n: Seq<char>) -> bool {
    n.len() > 0 && !contains_sep(n) && n[n.len() - 1] != '_'
}

/// The naming scheme is collision-free: two composed qualified names
/// coincide only when backend part and local part both do, for parts of
/// the shape the configuration convention guarantees.
pub proof fn lemma_compose_injective(b1: Seq<char>, l1: Seq<char>, b2: Seq<char>, l2: Seq<char>)
    requires
        wf_name_part(b1),
        wf_name_part(b2),
        l1.len() > 0,
        l2.len() > 0,
        !contains_sep(l1),
        !contains_sep(l2),
        spec_compose(b1, l1) == spec_compose(b2, l2),
    ensures
        b1 == b2,
        l1 == l2,
{
    lemma_split_compose(b1, l1);
    lemma_split_compose(b2, l2);
}

/// Round trip of the name resolver: composing a qualified name from a
/// non-empty backend part and a non-empty local part, neither holding the
/// separator, and splitting it again gives the two parts back.  The one
/// further condition is that the backend part must not end in `_`: there
/// the composed name carries an earlier separator occurrence, and `split`,
/// which cuts at the leftmost separator, cuts before that underscore.
pub proof fn lemma_split_compose(b: Seq<char>, l: Seq<char>)
    requires
        b.len() > 0,
        l.len() > 0,
        !contains_sep(b),
        !contains_sep(l),
        b[b.len() - 1] != '_',
    ensures
        spec_split(spec_compose(b, l)) == Some((b, l)),
{
    let s = spec_compose(b, l);
    let m = b.len() as int;
    assert(s.len() == b.len() + 2 + l.len());
    assert(s[m] == '_');
    assert(s[m + 1] == '_');
    assert forall|j: int| 0 <= j < m implies !sep_at(s, j) by {
        if j + 1 < m {
            assert(s[j] == b[j]);
            assert(s[j + 1] == b[j + 1]);
            assert(!sep_at(b, j));
        } else if j + 1 == m {
            assert(s[j] == b[j]);
        }
    }
    assert forall|j: int| m + 2 <= j < s.len() implies !sep_at(s, j) by {
        if j + 1 < s.len() {
            assert(s[j] == l[j - m - 2]);
            assert(s[j + 1] == l[j - m - 1]);
            assert(!sep_at(l, j - m - 2));
        }
    }
    assert(well_formed_split_at(s, m));
    let k = choose|k: int| well_formed_split_at(s, k);
    lemma_first_sep_unique(s, m, k);
    assert(spec_backend_of(s, m) =~= b);
    assert(spec_local_of(s, m) =~= l);
}

/// Rejection cases of the name resolver: `split` fails on every string with
/// no separator, on every string with a further separator occurrence after
/// the local part begins, and on every string whose leftmost separator
/// leaves an empty part on either side.  (`split` is a verified function,
/// so it never panics.)
pub proof fn lemma_split_rejects(s: Seq<char>)
    ensures
        !contains_sep(s) ==> spec_split(s) is None,
        forall|i: int, j: int|
            first_sep_at(s, i) && sep_at(s, j) && i + 2 <= j ==> spec_split(s) is None,
        forall|i: int| first_sep_at(s, i) && i == 0 ==> spec_split(s) is None,
        forall|i: int| first_sep_at(s, i) && i + 2 >= s.len() ==> spec_split(s) is None,
{
    if !contains_sep(s) {
        lemma_no_sep_no_split(s);
    }
    assert forall|i: int, j: int|
        first_sep_at(s, i) && sep_at(s, j) && i + 2 <= j implies spec_split(s) is None by {
        lemma_second_sep_no_split(s, i, j);
    }
    assert forall|i: int| first_sep_at(s, i) && i == 0 implies spec_split(s) is None by {
        lemma_defective_first_sep_no_split(s, i);
    }
    assert forall|i: int| first_sep_at(s, i) && i + 2 >= s.len() implies spec_split(s) is None by {
        lemma_defective_first_sep_no_split(s, i);
    }
}

} // verus!
