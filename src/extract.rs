//! What to do with one archive member once its stored path is known.
//!
//! Tar members are unpacked by the tar reader itself, so for them the only
//! decision is the stripped path. Zip members are written out one by one,
//! and the plan below says which directories to create and which file to
//! write, relative to the output root.

use vstd::prelude::*;
use crate::path::{components_of, path_from, path_components, path_join, strip_components, texts};

verus! {

/// The work for one zip member, with paths relative to the output root.
#[derive(Clone, Debug)]
pub enum EntryPlan {
    /// Nothing is left of the path after stripping: the member is ignored.
    Skip,
    /// A directory member: create `dir` and its parents.
    MakeDir { dir: String },
    /// A file member: create `parent` and its parents, then write the
    /// member's content to `file`, replacing any file already there.
    WriteFile { parent: String, file: String },
}

/// Plans the extraction of a zip member whose sanitized name is `path`,
/// after dropping `strip` leading components.
pub fn plan_zip_entry(path: &str, strip: usize, is_dir: bool) -> (r: EntryPlan)
    ensures
        ({
            let cs = components_of(path@);
            &&& strip >= cs.len() ==> r is Skip
            &&& strip < cs.len() && is_dir ==> (r matches EntryPlan::MakeDir { dir }
                && dir@ == path_from(cs.skip(strip as int)))
            &&& strip < cs.len() && !is_dir ==> (r matches EntryPlan::WriteFile { parent, file }
                && file@ == path_from(cs.skip(strip as int))
                && parent@ == path_from(cs.subrange(strip as int, cs.len() - 1)))
        }),
{
    let parts = path_components(path);
    match strip_components(&parts, strip) {
        None => EntryPlan::Skip,
        Some(rest) => {
            let ghost cs = texts(parts@);
            assert(texts(rest@) =~= cs.skip(strip as int));
            let file = path_join(&rest);
            if is_dir {
                EntryPlan::MakeDir { dir: file }
            } else {
                let mut rest = rest;
                rest.pop();
                assert(texts(rest@) =~= cs.subrange(strip as int, cs.len() - 1));
                let parent = path_join(&rest);
                EntryPlan::WriteFile { parent, file }
            }
        },
    }
}

/// A component that names an entry: not empty, not `.` or `..`, and free of
/// separators.
pub open spec fn is_name_component(c: Seq<char>) -> bool {
    &&& c.len() > 0
    &&& c != seq!['.']
    &&& c != seq!['.', '.']
    &&& !c.contains('/')
    &&& !c.contains('\\')
}

/// Every component names an entry.
pub open spec fn all_names(cs: Seq<Seq<char>>) -> bool {
    forall|i: int| 0 <= i < cs.len() ==> is_name_component(#[trigger] cs[i])
}

/// One lexical step of path resolution from the directory `at`.
pub open spec fn resolve_step(at: Seq<Seq<char>>, c: Seq<char>) -> Seq<Seq<char>> {
    if c == seq!['.', '.'] {
        if at.len() > 0 {
            at.drop_last()
        } else {
            at
        }
    } else if c.len() == 0 || c == seq!['.'] {
        at
    } else {
        at.push(c)
    }
}

/// Where `rel` leads, lexically, when followed from the directory `base`.
pub open spec fn resolve(base: Seq<Seq<char>>, rel: Seq<Seq<char>>) -> Seq<Seq<char>>
    decreases rel.len(),
{
    if rel.len() == 0 {
        base
    } else {
        resolve_step(resolve(base, rel.drop_last()), rel.last())
    }
}

proof fn lemma_resolve_names(base: Seq<Seq<char>>, rel: Seq<Seq<char>>)
    requires
        all_names(rel),
    ensures
        resolve(base, rel) == base + rel,
    decreases rel.len(),
{
    if rel.len() == 0 {
        assert(base + rel =~= base);
    } else {
        let init = rel.drop_last();
        assert(all_names(init)) by {
            assert forall|i: int| 0 <= i < init.len() implies is_name_component(#[trigger] init[i]) by {
                assert(init[i] == rel[i]);
            }
        }
        lemma_resolve_names(base, init);
        let c = rel.last();
        assert(is_name_component(rel[rel.len() - 1]));
        assert(c.len() > 0);
        assert(c != seq!['.', '.'] && c != seq!['.']);
        assert((base + init).push(c) =~= base + rel);
    }
}

/// A member whose sanitized name consists of names only stays inside the
/// output root whatever number of components is stripped: what is left after
/// stripping, when anything is, resolves from the root to a place strictly
/// below it.
pub proof fn lemma_stripped_stays_inside(root: Seq<Seq<char>>, cs: Seq<Seq<char>>, n: nat)
    requires
        all_names(cs),
        n < cs.len(),
    ensures
        ({
            let target = resolve(root, cs.skip(n as int));
            &&& target.len() > root.len()
            &&& target.subrange(0, root.len() as int) == root
        }),
{
    let rel = cs.skip(n as int);
    assert(all_names(rel)) by {
        assert forall|i: int| 0 <= i < rel.len() implies is_name_component(#[trigger] rel[i]) by {
            assert(rel[i] == cs[i + n]);
        }
    }
    lemma_resolve_names(root, rel);
    assert((root + rel).subrange(0, root.len() as int) =~= root);
}

} // verus!
