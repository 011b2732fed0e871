//! Persistent identity paths.
//!
//! A `Path` is a non-empty, innermost-first trail of fragments identifying one
//! node of the compiled contract tree.  Pushing a fragment extends the trail
//! in O(1) time and space: the new path holds the fragment and a shared,
//! immutable reference to its parent, so any number of concurrently compiled
//! child branches may extend one parent without copying it.
use crate::fragment::FragView;
use crate::fragment::PathFragment;
use std::sync::Arc;
use vstd::prelude::*;

verus! {

/// The views of a sequence of fragments.
pub open spec fn frag_seq_view(s: Seq<PathFragment>) -> Seq<FragView> {
    s.map_values(|f: PathFragment| f@)
}

/// A non-empty, innermost-first persistent trail of fragments.
#[derive(Debug)]
pub struct Path {
    frag: PathFragment,
    parent: Option<Arc<Path>>,
}

impl Path {
    /// The innermost-first fragment sequence this path denotes.
    pub closed spec fn fragments(self) -> Seq<FragView>
        decreases self,
    {
        match self.parent {
            None => seq![self.frag@],
            Some(p) => seq![self.frag@] + (*p).fragments(),
        }
    }
}

impl View for Path {
    type V = Seq<FragView>;

    open spec fn view(&self) -> Seq<FragView> {
        self.fragments()
    }
}

impl Clone for Path {
    fn clone(&self) -> (res: Self)
        ensures
            res == *self,
    {
        Path {
            frag: self.frag.clone(),
            parent: match &self.parent {
                None => None,
                Some(p) => Some(p.clone()),
            },
        }
    }
}

/// A path always contains at least one fragment.
pub proof fn lemma_path_nonempty(p: &Path)
    ensures
        p@.len() >= 1,
    decreases *p,
{
    match &p.parent {
        None => {},
        Some(q) => {
            lemma_path_nonempty(&**q);
        },
    }
}

/// Push/iterate coherence: `push` gives the extended path the view
/// `seq![f@] + p@`, and `iterate` returns exactly the path's view, so the
/// first element iterated from a freshly pushed path is the pushed fragment,
/// and the parent's fragments follow unchanged.
pub proof fn lemma_push_iterate(p: Path, f: PathFragment)
    ensures
        (seq![f@] + p@)[0] == f@,
        (seq![f@] + p@).skip(1) == p@,
{
    assert((seq![f@] + p@).skip(1) =~= p@);
}

impl Path {
    /// The path of a single fragment.
    pub fn new(frag: PathFragment) -> (r: Path)
        ensures
            r@ == seq![frag@],
    {
        Path { frag, parent: None }
    }

    /// Extend this path downward by one fragment.  The new path shares this
    /// path's storage; nothing is copied or mutated.
    pub fn push(&self, frag: PathFragment) -> (r: Path)
        ensures
            r@ == seq![frag@] + self@,
    {
        Path { frag, parent: Some(Arc::new(self.clone())) }
    }

    fn push_fragments(&self, out: &mut Vec<PathFragment>)
        ensures
            frag_seq_view(final(out)@) == frag_seq_view(old(out)@) + self@,
        decreases *self,
    {
        out.push(self.frag.clone());
        proof {
            assert(frag_seq_view(out@) =~= frag_seq_view(old(out)@) + seq![self.frag@]);
        }
        match &self.parent {
            None => {
                proof {
                    assert(frag_seq_view(out@) =~= frag_seq_view(old(out)@) + self@);
                }
            },
            Some(p) => {
                let ghost mid = out@;
                (&**p).push_fragments(out);
                proof {
                    assert(frag_seq_view(out@) =~= frag_seq_view(old(out)@) + self@);
                }
            },
        }
    }

    /// The fragments of this path, innermost first.  The path itself is
    /// neither consumed nor changed and may be walked again.
    pub fn iterate(&self) -> (r: Vec<PathFragment>)
        ensures
            frag_seq_view(r@) == self@,
            r@.len() == self@.len(),
    {
        let mut out: Vec<PathFragment> = Vec::new();
        self.push_fragments(&mut out);
        proof {
            assert(frag_seq_view(out@) =~= self@);
            assert(frag_seq_view(out@).len() == out@.len());
        }
        out
    }

    /// Build a path from a root-first fragment list.  The empty list is a
    /// validation error carrying a static reason, never an empty path.
    pub fn try_from_vec(frags: Vec<PathFragment>) -> (r: Result<Path, &'static str>)
        ensures
            r is Ok <==> frags@.len() > 0,
            r matches Ok(p) ==> p@ == frag_seq_view(frags@).reverse(),
            r matches Err(m) ==> m@ == "path must contain at least one fragment"@,
    {
        if frags.len() == 0 {
            return Err("path must contain at least one fragment");
        }
        let mut path = Path::new(frags[0].clone());
        let mut i: usize = 1;
        while i < frags.len()
            invariant
                1 <= i <= frags@.len(),
                path@ == frag_seq_view(frags@.take(i as int)).reverse(),
            decreases frags@.len() - i,
        {
            path = path.push(frags[i].clone());
            proof {
                assert(path@ =~= frag_seq_view(frags@.take(i + 1)).reverse());
            }
            i += 1;
        }
        proof {
            assert(frags@.take(frags@.len() as int) =~= frags@);
            assert(path@ =~= frag_seq_view(frags@).reverse());
        }
        Ok(path)
    }
}

} // verus!
