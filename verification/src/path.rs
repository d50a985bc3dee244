//! Item paths as they are written in a declaration.

use vstd::prelude::*;
use vstd::string::StringExecFns;

verus! {

/// A path such as `Send`, `my::Trait` or `::std::any::Any`.
#[derive(Debug, Clone, PartialEq, Eq)]
pub struct Path {
    pub leading_colon: bool,
    pub segments: Vec<String>,
}

/// The mathematical value of a [`Path`].
pub struct PathView {
    pub leading_colon: bool,
    pub segments: Seq<Seq<char>>,
}

impl PathView {
    /// The single identifier this path consists of, if it is one.
    pub open spec fn ident(self) -> Option<Seq<char>> {
        if !self.leading_colon && self.segments.len() == 1 {
            Some(self.segments[0])
        } else {
            None
        }
    }

    /// This path followed by one more segment.
    pub open spec fn join(self, segment: Seq<char>) -> PathView {
        PathView { leading_colon: self.leading_colon, segments: self.segments.push(segment) }
    }
}

/// The views of a sequence of strings.
pub open spec fn strings_view(s: Seq<String>) -> Seq<Seq<char>> {
    Seq::new(s.len(), |i: int| s[i]@)
}

impl View for Path {
    type V = PathView;

    open spec fn view(&self) -> PathView {
        PathView { leading_colon: self.leading_colon, segments: strings_view(self.segments@) }
    }
}

/// Whether two string slices hold the same text.
pub fn str_eq(a: &str, b: &str) -> (r: bool)
    ensures
        r == (a@ == b@),
{
    let x = String::from_str(a);
    let y = String::from_str(b);
    x == y
}

impl Path {
    /// The path made of the single identifier `name`.
    pub fn from_ident(name: &str) -> (p: Path)
        ensures
            p@ == (PathView { leading_colon: false, segments: seq![name@] }),
            p@.ident() == Some(name@),
    {
        let mut segments: Vec<String> = Vec::new();
        segments.push(String::from_str(name));
        let p = Path { leading_colon: false, segments };
        assert(p@.segments =~= seq![name@]);
        p
    }

    /// An empty path, absolute when `leading_colon` is set.
    pub fn root(leading_colon: bool) -> (p: Path)
        ensures
            p@ == (PathView { leading_colon, segments: Seq::<Seq<char>>::empty() }),
    {
        let p = Path { leading_colon, segments: Vec::new() };
        assert(p@.segments =~= Seq::<Seq<char>>::empty());
        p
    }

    /// Appends one segment.
    pub fn push(&mut self, segment: &str)
        ensures
            final(self)@ == old(self)@.join(segment@),
    {
        self.segments.push(String::from_str(segment));
        assert(self@.segments =~= old(self)@.segments.push(segment@));
    }

    /// The identifier, if the path is a single identifier without a leading `::`.
    pub fn get_ident(&self) -> (r: Option<&String>)
        ensures
            r is Some == self@.ident() is Some,
            r matches Some(s) ==> Some(s@) == self@.ident(),
    {
        if !self.leading_colon && self.segments.len() == 1 {
            Some(&self.segments[0])
        } else {
            None
        }
    }

    /// Whether the path is exactly the identifier `name`.
    pub fn is_ident(&self, name: &str) -> (r: bool)
        ensures
            r == (self@.ident() == Some(name@)),
    {
        match self.get_ident() {
            Some(s) => str_eq(s.as_str(), name),
            None => false,
        }
    }

    /// Whether two paths are written the same way.
    pub fn same(&self, other: &Path) -> (r: bool)
        ensures
            r == (self@ == other@),
    {
        if self.leading_colon != other.leading_colon || self.segments.len() != other.segments.len() {
            assert(self@.segments.len() == self.segments@.len());
            assert(other@.segments.len() == other.segments@.len());
            return false;
        }
        let n = self.segments.len();
        let mut i: usize = 0;
        while i < n
            invariant
                i <= n,
                n == self.segments.len(),
                n == other.segments.len(),
                forall|k: int| 0 <= k < i ==> self.segments@[k]@ == other.segments@[k]@,
            decreases n - i,
        {
            if self.segments[i] != other.segments[i] {
                assert(self@.segments[i as int] != other@.segments[i as int]);
                return false;
            }
            i += 1;
        }
        assert(self@.segments =~= other@.segments);
        true
    }

    /// A copy of this path.
    pub fn duplicate(&self) -> (p: Path)
        ensures
            p@ == self@,
    {
        let n = self.segments.len();
        let mut segments: Vec<String> = Vec::new();
        let mut i: usize = 0;
        while i < n
            invariant
                i <= n,
                n == self.segments.len(),
                segments.len() == i,
                forall|k: int| 0 <= k < i ==> segments@[k]@ == self.segments@[k]@,
            decreases n - i,
        {
            segments.push(self.segments[i].clone());
            i += 1;
        }
        let p = Path { leading_colon: self.leading_colon, segments };
        assert(p@.segments =~= self@.segments);
        p
    }
}

} // verus!
