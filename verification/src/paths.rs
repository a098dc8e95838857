//! Paths modelled as their list of components.
//!
//! All path reasoning in this crate is lexical, as it is in the tool this
//! library drives: an ancestor is a component-wise prefix, and rehoming a path
//! under a new base keeps its components relative to the old base. The driver
//! converts real file-system paths to and from component lists.

use vstd::prelude::*;
use crate::strutil::str_eq;

verus! {

/// A file-system path as its list of components.
#[derive(Debug, Clone, PartialEq, Eq)]
pub struct SegPath {
    pub segments: Vec<String>,
}

impl View for SegPath {
    type V = Seq<Seq<char>>;

    open spec fn view(&self) -> Seq<Seq<char>> {
        Seq::new(self.segments@.len(), |i: int| self.segments@[i]@)
    }
}

/// The last component of a path, if it has one that names a file: a path
/// ending in a parent-directory component has no file name.
pub open spec fn spec_file_name(p: Seq<Seq<char>>) -> Option<Seq<char>> {
    if p.len() > 0 && p.last() != ".."@ {
        Option::Some(p.last())
    } else {
        Option::None
    }
}

impl SegPath {
    /// The empty path.
    pub fn empty() -> (r: SegPath)
        ensures
            r@ == Seq::<Seq<char>>::empty(),
    {
        let r = SegPath { segments: Vec::new() };
        proof {
            assert(r@ =~= Seq::<Seq<char>>::empty());
        }
        r
    }

    /// Number of components.
    pub fn depth(&self) -> (n: usize)
        ensures
            n == self@.len(),
    {
        self.segments.len()
    }

    /// A path with the same components.
    pub fn copied(&self) -> (r: SegPath)
        ensures
            r@ == self@,
    {
        let n = self.segments.len();
        let mut segments: Vec<String> = Vec::new();
        let mut i: usize = 0;
        while i < n
            invariant
                i <= n,
                n == self.segments@.len(),
                segments@.len() == i,
                forall|j: int| 0 <= j < i ==> segments@[j] == self.segments@[j],
            decreases n - i,
        {
            segments.push(self.segments[i].clone());
            i = i + 1;
        }
        let r = SegPath { segments };
        proof {
            assert(r@ =~= self@);
        }
        r
    }

    /// Whether this path is an ancestor of `other` (component-wise prefix;
    /// every path is an ancestor of itself).
    pub fn is_ancestor_of(&self, other: &SegPath) -> (r: bool)
        ensures
            r == self@.is_prefix_of(other@),
    {
        let n = self.segments.len();
        if n > other.segments.len() {
            return false;
        }
        let mut i: usize = 0;
        while i < n
            invariant
                i <= n,
                n == self.segments@.len(),
                n <= other.segments@.len(),
                forall|j: int| 0 <= j < i ==> self@[j] == other@[j],
            decreases n - i,
        {
            if !str_eq(self.segments[i].as_str(), other.segments[i].as_str()) {
                proof {
                    assert(self@[i as int] != other@[i as int]);
                }
                return false;
            }
            i = i + 1;
        }
        proof {
            assert(self@ =~= other@.subrange(0, self@.len() as int));
        }
        true
    }

    /// This path followed by all components of `rel`.
    pub fn join(&self, rel: &SegPath) -> (r: SegPath)
        ensures
            r@ == self@ + rel@,
    {
        let m = self.segments.len();
        let n = rel.segments.len();
        let mut segments = crate::strutil::clone_strings(&self.segments);
        let mut i: usize = 0;
        while i < n
            invariant
                i <= n,
                m == self.segments@.len(),
                n == rel.segments@.len(),
                segments@.len() == m + i,
                forall|j: int| 0 <= j < m ==> segments@[j] == self.segments@[j],
                forall|j: int| 0 <= j < i ==> segments@[m + j] == rel.segments@[j],
            decreases n - i,
        {
            segments.push(rel.segments[i].clone());
            i = i + 1;
        }
        let r = SegPath { segments };
        proof {
            assert(r@ =~~= self@ + rel@);
        }
        r
    }

    /// This path with one more component.
    pub fn join_one(&self, seg: &String) -> (r: SegPath)
        ensures
            r@ == self@.push(seg@),
    {
        let mut out = self.copied();
        out.segments.push(seg.clone());
        proof {
            assert(out@ =~= self@.push(seg@));
        }
        out
    }

    /// The path without its last component.
    pub fn parent(&self) -> (r: Option<SegPath>)
        ensures
            match r {
                Option::Some(p) => self@.len() > 0 && p@ == self@.drop_last(),
                Option::None => self@.len() == 0,
            },
    {
        let n = self.segments.len();
        if n == 0 {
            return Option::None;
        }
        let mut segments: Vec<String> = Vec::new();
        let mut i: usize = 0;
        while i < n - 1
            invariant
                i <= n - 1,
                n == self.segments@.len(),
                segments@.len() == i,
                forall|j: int| 0 <= j < i ==> segments@[j] == self.segments@[j],
            decreases n - 1 - i,
        {
            segments.push(self.segments[i].clone());
            i = i + 1;
        }
        let p = SegPath { segments };
        proof {
            assert(p@ =~= self@.drop_last());
        }
        Option::Some(p)
    }

    /// The file name this path points at, if any.
    pub fn file_name(&self) -> (r: Option<String>)
        ensures
            match r {
                Option::Some(s) => spec_file_name(self@) == Option::Some(s@),
                Option::None => spec_file_name(self@) is None,
            },
    {
        let n = self.segments.len();
        if n == 0 {
            return Option::None;
        }
        let last = &self.segments[n - 1];
        if str_eq(last.as_str(), "..") {
            return Option::None;
        }
        Option::Some(last.clone())
    }

    /// The components of this path after a `base` ancestor, if `base` is one.
    pub fn strip_prefix(&self, base: &SegPath) -> (r: Option<SegPath>)
        ensures
            match r {
                Option::Some(rel) => base@.is_prefix_of(self@) && rel@ == self@.skip(
                    base@.len() as int,
                ),
                Option::None => !base@.is_prefix_of(self@),
            },
    {
        if !base.is_ancestor_of(self) {
            return Option::None;
        }
        let b = base.segments.len();
        let n = self.segments.len();
        let mut segments: Vec<String> = Vec::new();
        let mut i: usize = b;
        while i < n
            invariant
                b <= i <= n,
                n == self.segments@.len(),
                segments@.len() == i - b,
                forall|j: int| b <= j < i ==> segments@[j - b] == self.segments@[j],
            decreases n - i,
        {
            segments.push(self.segments[i].clone());
            i = i + 1;
        }
        let rel = SegPath { segments };
        proof {
            assert(rel@ =~= self@.skip(base@.len() as int));
        }
        Option::Some(rel)
    }
}

} // verus!
