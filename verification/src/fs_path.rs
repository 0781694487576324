//! Filesystem paths as sequences of components.
//!
//! A path is what `std::path::Path::components` yields for it: an optional
//! prefix (Windows drives and UNC shares), a root, `.` and `..`, and names.
//! Names are kept as the encoded bytes of the OS string, so two paths are the
//! same exactly when their components are.
use vstd::prelude::*;

verus! {

/// One component of a path.
pub enum PathPart {
    Prefix(Vec<u8>),
    Root,
    Current,
    Parent,
    Name(Vec<u8>),
}

/// The mathematical value of a path component.
pub enum PartView {
    Prefix(Seq<u8>),
    Root,
    Current,
    Parent,
    Name(Seq<u8>),
}

impl View for PathPart {
    type V = PartView;

    open spec fn view(&self) -> PartView {
        match self {
            PathPart::Prefix(b) => PartView::Prefix(b@),
            PathPart::Root => PartView::Root,
            PathPart::Current => PartView::Current,
            PathPart::Parent => PartView::Parent,
            PathPart::Name(b) => PartView::Name(b@),
        }
    }
}

/// A path, as the sequence of its components.
pub struct FsPath {
    pub parts: Vec<PathPart>,
}

/// The mathematical value of a path.
pub type PathView = Seq<PartView>;

impl View for FsPath {
    type V = PathView;

    open spec fn view(&self) -> PathView {
        self.parts@.map_values(|p: PathPart| p@)
    }
}

/// `base` is a prefix of `path`, component by component (`Path::starts_with`).
pub open spec fn spec_starts_with(path: PathView, base: PathView) -> bool {
    base.len() <= path.len() && path.subrange(0, base.len() as int) == base
}

/// The last component of `path` when it is a name (`Path::file_name`).
pub open spec fn spec_file_name(path: PathView) -> Option<Seq<u8>> {
    if path.len() > 0 && path.last() is Name {
        Some(path.last()->Name_0)
    } else {
        None
    }
}

/// The path without its last component, unless that component is a root or
/// prefix, or the path is empty (`Path::parent`).
pub open spec fn spec_parent(path: PathView) -> Option<PathView> {
    if path.len() > 0 && !(path.last() is Root) && !(path.last() is Prefix) {
        Some(path.drop_last())
    } else {
        None
    }
}

/// Copies a byte string.
pub fn copy_bytes(bytes: &Vec<u8>) -> (out: Vec<u8>)
    ensures
        out@ == bytes@,
{
    let mut out: Vec<u8> = Vec::new();
    let mut i: usize = 0;
    while i < bytes.len()
        invariant
            i <= bytes.len(),
            out@ == bytes@.subrange(0, i as int),
        decreases bytes.len() - i,
    {
        out.push(bytes[i]);
        i = i + 1;
        assert(out@ =~= bytes@.subrange(0, i as int));
    }
    assert(bytes@.subrange(0, bytes.len() as int) =~= bytes@);
    out
}

/// Compares two byte strings.
pub fn bytes_equal(a: &Vec<u8>, b: &Vec<u8>) -> (same: bool)
    ensures
        same == (a@ == b@),
{
    if a.len() != b.len() {
        return false;
    }
    let mut i: usize = 0;
    while i < a.len()
        invariant
            a.len() == b.len(),
            i <= a.len(),
            a@.subrange(0, i as int) == b@.subrange(0, i as int),
        decreases a.len() - i,
    {
        if a[i] != b[i] {
            assert(a@[i as int] != b@[i as int]);
            return false;
        }
        i = i + 1;
        assert(a@.subrange(0, i as int) =~= a@.subrange(0, (i - 1) as int).push(a@[i - 1]));
        assert(b@.subrange(0, i as int) =~= b@.subrange(0, (i - 1) as int).push(b@[i - 1]));
    }
    assert(a@ =~= a@.subrange(0, a.len() as int));
    assert(b@ =~= b@.subrange(0, b.len() as int));
    true
}

impl PathPart {
    /// Whether two components are the same.
    pub fn same_as(&self, other: &PathPart) -> (same: bool)
        ensures
            same == (self@ == other@),
    {
        match (self, other) {
            (PathPart::Prefix(a), PathPart::Prefix(b)) => bytes_equal(a, b),
            (PathPart::Root, PathPart::Root) => true,
            (PathPart::Current, PathPart::Current) => true,
            (PathPart::Parent, PathPart::Parent) => true,
            (PathPart::Name(a), PathPart::Name(b)) => bytes_equal(a, b),
            _ => false,
        }
    }

    /// Copies a component.
    pub fn duplicate(&self) -> (out: PathPart)
        ensures
            out@ == self@,
    {
        match self {
            PathPart::Prefix(b) => PathPart::Prefix(copy_bytes(b)),
            PathPart::Root => PathPart::Root,
            PathPart::Current => PathPart::Current,
            PathPart::Parent => PathPart::Parent,
            PathPart::Name(b) => PathPart::Name(copy_bytes(b)),
        }
    }
}

impl FsPath {
    /// Copies the first `n` components of this path.
    pub fn take(&self, n: usize) -> (out: FsPath)
        requires
            n <= self@.len(),
        ensures
            out@ == self@.subrange(0, n as int),
    {
        let mut parts: Vec<PathPart> = Vec::new();
        let mut i: usize = 0;
        while i < n
            invariant
                n <= self.parts@.len(),
                i <= n,
                parts@.len() == i,
                forall|j: int| 0 <= j < i ==> #[trigger] parts@[j]@ == self.parts@[j]@,
            decreases n - i,
        {
            parts.push(self.parts[i].duplicate());
            i = i + 1;
        }
        let out = FsPath { parts };
        assert(out@ =~= self@.subrange(0, n as int));
        out
    }

    /// Copies the components of this path from index `n` on.
    pub fn skip(&self, n: usize) -> (out: FsPath)
        requires
            n <= self@.len(),
        ensures
            out@ == self@.subrange(n as int, self@.len() as int),
    {
        let mut parts: Vec<PathPart> = Vec::new();
        let mut i: usize = n;
        while i < self.parts.len()
            invariant
                n <= i <= self.parts@.len(),
                parts@.len() == i - n,
                forall|j: int| 0 <= j < i - n ==> #[trigger] parts@[j]@ == self.parts@[j + n]@,
            decreases self.parts.len() - i,
        {
            parts.push(self.parts[i].duplicate());
            i = i + 1;
        }
        let out = FsPath { parts };
        assert(out@ =~= self@.subrange(n as int, self@.len() as int));
        out
    }

    /// Copies this path.
    pub fn duplicate(&self) -> (out: FsPath)
        ensures
            out@ == self@,
    {
        let out = self.take(self.parts.len());
        assert(self@.subrange(0, self@.len() as int) =~= self@);
        out
    }

    /// Whether two paths are the same, component by component.
    pub fn same_as(&self, other: &FsPath) -> (same: bool)
        ensures
            same == (self@ == other@),
    {
        if self.parts.len() != other.parts.len() {
            assert(self@.len() != other@.len());
            return false;
        }
        let same = self.starts_with(other);
        assert(self@.subrange(0, other@.len() as int) =~= self@);
        same
    }

    /// Whether `base` is a prefix of this path, component by component.
    pub fn starts_with(&self, base: &FsPath) -> (prefix: bool)
        ensures
            prefix == spec_starts_with(self@, base@),
    {
        if base.parts.len() > self.parts.len() {
            return false;
        }
        let mut i: usize = 0;
        while i < base.parts.len()
            invariant
                base.parts@.len() <= self.parts@.len(),
                i <= base.parts@.len(),
                forall|j: int| 0 <= j < i ==> self@[j] == base@[j],
            decreases base.parts.len() - i,
        {
            if !self.parts[i].same_as(&base.parts[i]) {
                assert(self@.subrange(0, base@.len() as int)[i as int] != base@[i as int]);
                return false;
            }
            i = i + 1;
        }
        assert(self@.subrange(0, base@.len() as int) =~= base@);
        true
    }

    /// The rest of this path after `base`, when `base` is a prefix of it
    /// (`Path::strip_prefix`).
    pub fn strip_prefix(&self, base: &FsPath) -> (rest: Option<FsPath>)
        ensures
            rest is Some <==> spec_starts_with(self@, base@),
            rest matches Some(r) ==> r@ == self@.subrange(base@.len() as int, self@.len() as int),
    {
        if self.starts_with(base) {
            Some(self.skip(base.parts.len()))
        } else {
            None
        }
    }

    /// The last component of this path when it is a name (`Path::file_name`).
    pub fn file_name(&self) -> (name: Option<Vec<u8>>)
        ensures
            name is Some <==> spec_file_name(self@) is Some,
            name matches Some(n) ==> n@ == spec_file_name(self@)->0,
    {
        let n = self.parts.len();
        if n == 0 {
            return None;
        }
        match &self.parts[n - 1] {
            PathPart::Name(b) => Some(copy_bytes(b)),
            _ => None,
        }
    }

    /// This path without its last component (`Path::parent`).
    pub fn parent(&self) -> (up: Option<FsPath>)
        ensures
            up is Some <==> spec_parent(self@) is Some,
            up matches Some(p) ==> p@ == spec_parent(self@)->0,
    {
        let n = self.parts.len();
        if n == 0 {
            return None;
        }
        match &self.parts[n - 1] {
            PathPart::Root => None,
            PathPart::Prefix(_) => None,
            _ => {
                let p = self.take(n - 1);
                assert(p@ =~= self@.drop_last());
                Some(p)
            },
        }
    }

    /// This path with one more name at its end (`Path::join` of a single name).
    pub fn join_name(&self, name: Vec<u8>) -> (out: FsPath)
        ensures
            out@ == self@.push(PartView::Name(name@)),
    {
        let mut out = self.duplicate();
        out.parts.push(PathPart::Name(name));
        assert(out@ =~= self@.push(PartView::Name(name@)));
        out
    }
}

} // verus!
