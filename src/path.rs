//! Entry paths as sequences of components, and the removal of leading
//! components before an entry is placed under the output root.

use vstd::prelude::*;

verus! {

/// The components that `std::path::Path::components` yields for a path.
pub uninterp spec fn components_of(path: Seq<char>) -> Seq<Seq<char>>;

/// The path that `std::path::PathBuf` builds by pushing the given components
/// in order.
pub uninterp spec fn path_from(components: Seq<Seq<char>>) -> Seq<char>;

/// The text of each string in a sequence.
pub open spec fn texts(v: Seq<String>) -> Seq<Seq<char>> {
    v.map_values(|s: String| s@)
}

/// Relies on `std::path::Path::components`: splits a path into its
/// components (root, a leading `.`, `..` markers, and names), in order,
/// with redundant separators and inner `.` components dropped.
#[verifier::external_body]
pub(crate) fn path_components(path: &str) -> (r: Vec<String>)
    ensures
        texts(r@) == components_of(path@),
{
    std::path::Path::new(path).components().map(|c| c.as_os_str().to_string_lossy().into_owned()).collect()
}

/// Relies on `std::path::PathBuf`'s `FromIterator`: builds a relative path by
/// pushing each component in order, with the platform's separator.
#[verifier::external_body]
pub(crate) fn path_join(components: &Vec<String>) -> (r: String)
    ensures
        r@ == path_from(texts(components@)),
{
    let p: std::path::PathBuf = components.iter().collect();
    p.to_string_lossy().into_owned()
}

/// What is left of `cs` once its first `n` components are dropped, or
/// `None` when nothing is left.
pub open spec fn stripped<A>(cs: Seq<A>, n: nat) -> Option<Seq<A>> {
    if n < cs.len() {
        Some(cs.skip(n as int))
    } else {
        None
    }
}

/// Stripping no component keeps a non-empty path whole; stripping as many
/// components as there are, or more, leaves nothing and the entry is
/// skipped; otherwise the `i`-th component left is the `(i + n)`-th one of
/// the path, so `[a, b, c]` stripped by one is `[b, c]`.
pub proof fn lemma_strip_components<A>(cs: Seq<A>, n: nat)
    ensures
        cs.len() > 0 ==> stripped(cs, 0) == Some(cs),
        n >= cs.len() ==> stripped(cs, n) is None,
        n < cs.len() ==> (stripped(cs, n) matches Some(rest) && rest.len() == cs.len() - n
            && forall|i: int| 0 <= i < rest.len() ==> rest[i] == cs[i + n]),
{
    assert(cs.skip(0) =~= cs);
}

/// Drops the first `n` components. When nothing is left the entry is to be
/// skipped, which is reported as `None`; `n` beyond the number of
/// components is not an error.
pub fn strip_components(components: &Vec<String>, n: usize) -> (r: Option<Vec<String>>)
    ensures
        r is None <==> stripped(components@, n as nat) is None,
        r matches Some(v) ==> stripped(components@, n as nat) == Some(v@),
{
    if n >= components.len() {
        return None;
    }
    let mut out: Vec<String> = Vec::new();
    let mut i: usize = n;
    while i < components.len()
        invariant
            n <= i <= components@.len(),
            out@ == components@.subrange(n as int, i as int),
        decreases components@.len() - i,
    {
        out.push(components[i].clone());
        i = i + 1;
    }
    assert(out@ =~= components@.skip(n as int));
    Some(out)
}

/// Removes the first `components` components of `path` and rebuilds the
/// rest as a relative path. Returns `None` when no component is left, so
/// that the entry is skipped.
pub fn strip_components_from_path(path: &str, components: usize) -> (r: Option<String>)
    ensures
        r is None <==> stripped(components_of(path@), components as nat) is None,
        r matches Some(s) ==> s@ == path_from(components_of(path@).skip(components as int)),
{
    let parts = path_components(path);
    match strip_components(&parts, components) {
        None => None,
        Some(rest) => {
            assert(texts(rest@) =~= texts(parts@).skip(components as int));
            Some(path_join(&rest))
        },
    }
}

} // verus!
