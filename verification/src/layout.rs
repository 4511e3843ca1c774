//! Where the project lies inside its workspace.

use vstd::prelude::*;
use crate::error::{ErrorModel, SynthesisError};
use crate::text::{same_text, texts};

verus! {

/// `root` is the beginning of `dir`, component by component.
pub open spec fn begins_with(dir: Seq<Seq<char>>, root: Seq<Seq<char>>) -> bool {
    root.len() <= dir.len() && dir.take(root.len() as int) == root
}

/// The directory of the manifest relative to the workspace root, both
/// given as path components, or `None` where the manifest has no parent or
/// its directory does not lie below the root.
pub open spec fn relative_dir(root: Seq<Seq<char>>, manifest: Seq<Seq<char>>) -> Option<
    Seq<Seq<char>>,
> {
    if manifest.len() == 0 {
        None
    } else {
        let dir = manifest.drop_last();
        if begins_with(dir, root) {
            Some(dir.skip(root.len() as int))
        } else {
            None
        }
    }
}

/// Computes the directory of the manifest relative to the workspace root.
/// Both paths are given as their components, outermost first.
pub fn rel_dir(root: &Vec<String>, manifest: &Vec<String>) -> (out: Result<
    Vec<String>,
    SynthesisError,
>)
    ensures
        match relative_dir(texts(root@), texts(manifest@)) {
            Some(dir) => out is Ok && texts(out->Ok_0@) == dir,
            None => out is Err && out->Err_0@ == ErrorModel::AmbiguousRepoLocation,
        },
{
    if manifest.len() == 0 {
        return Err(SynthesisError::AmbiguousRepoLocation);
    }
    let depth = manifest.len() - 1;
    let ghost dir = texts(manifest@).drop_last();
    if root.len() > depth {
        return Err(SynthesisError::AmbiguousRepoLocation);
    }
    let mut i: usize = 0;
    while i < root.len()
        invariant
            i <= root.len() <= depth,
            depth == manifest.len() - 1,
            dir == texts(manifest@).drop_last(),
            forall|j: int| 0 <= j < i ==> dir[j] == texts(root@)[j],
        decreases root.len() - i,
    {
        if !same_text(root[i].as_str(), manifest[i].as_str()) {
            proof {
                assert(dir.take(root.len() as int)[i as int] != texts(root@)[i as int]);
            }
            return Err(SynthesisError::AmbiguousRepoLocation);
        }
        i += 1;
    }
    proof {
        assert(dir.take(root.len() as int) =~= texts(root@));
    }
    let mut rest: Vec<String> = Vec::new();
    let mut k: usize = root.len();
    while k < depth
        invariant
            root.len() <= k <= depth,
            depth == manifest.len() - 1,
            dir == texts(manifest@).drop_last(),
            rest.len() == k - root.len(),
            texts(rest@) == dir.subrange(root.len() as int, k as int),
        decreases depth - k,
    {
        let ghost earlier = texts(rest@);
        rest.push(manifest[k].clone());
        proof {
            let expected = dir.subrange(root.len() as int, k + 1);
            assert forall|j: int| 0 <= j < expected.len() implies texts(rest@)[j] == expected[j] by {
                if j < k - root.len() {
                    assert(texts(rest@)[j] == earlier[j]);
                }
            }
            assert(texts(rest@) =~= expected);
        }
        k += 1;
    }
    proof {
        assert(dir.subrange(root.len() as int, k as int) =~= dir.skip(root.len() as int));
    }
    Ok(rest)
}

} // verus!
