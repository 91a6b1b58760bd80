use vstd::prelude::*;
use crate::text::{copy_strings, strings_view};

verus! {

/// One component of a path as the host's path parser splits it.
pub enum PathComponent {
    RootDir,
    CurDir,
    ParentDir,
    Normal(String),
}

/// A lexically normalized path: an optional root followed by plain names.
pub struct FsPath {
    pub rooted: bool,
    pub parts: Vec<String>,
}

/// The mathematical value of a path.
pub struct PathView {
    pub rooted: bool,
    pub parts: Seq<Seq<char>>,
}

impl View for FsPath {
    type V = PathView;

    open spec fn view(&self) -> PathView {
        PathView { rooted: self.rooted, parts: strings_view(self.parts@) }
    }
}

/// The empty relative path.
pub open spec fn empty_path() -> PathView {
    PathView { rooted: false, parts: Seq::empty() }
}

/// The effect of one component on a path built so far: a root starts over from `/`, `.` is
/// dropped, `..` removes the last name if there is one, and a name is appended.
pub open spec fn push_component(p: PathView, c: PathComponent) -> PathView {
    match c {
        PathComponent::RootDir => PathView { rooted: true, parts: Seq::empty() },
        PathComponent::CurDir => p,
        PathComponent::ParentDir => if p.parts.len() > 0 {
            PathView { rooted: p.rooted, parts: p.parts.drop_last() }
        } else {
            p
        },
        PathComponent::Normal(s) => PathView { rooted: p.rooted, parts: p.parts.push(s@) },
    }
}

/// The lexical normalization of a component sequence, read from left to right.
pub open spec fn normalized(cs: Seq<PathComponent>) -> PathView
    decreases cs.len(),
{
    if cs.len() == 0 {
        empty_path()
    } else {
        push_component(normalized(cs.drop_last()), cs.last())
    }
}

/// The path one level up: `None` for a root or an empty path.
pub open spec fn parent_spec(p: PathView) -> Option<PathView> {
    if p.parts.len() == 0 {
        None
    } else {
        Some(PathView { rooted: p.rooted, parts: p.parts.drop_last() })
    }
}

impl FsPath {
    pub fn copy(&self) -> (r: FsPath)
        ensures
            r@ == self@,
    {
        FsPath { rooted: self.rooted, parts: copy_strings(&self.parts) }
    }

    /// The directory that holds this path, or `None` at a root.
    pub fn parent(&self) -> (r: Option<FsPath>)
        ensures
            r matches Some(q) ==> parent_spec(self@) == Some(q@),
            r is None <==> parent_spec(self@) is None,
    {
        if self.parts.len() == 0 {
            None
        } else {
            let mut parts = copy_strings(&self.parts);
            parts.pop();
            proof {
                assert(strings_view(parts@) =~= strings_view(self.parts@).drop_last());
            }
            Some(FsPath { rooted: self.rooted, parts })
        }
    }

    /// Whether the two paths name the same location.
    pub fn same_as(&self, other: &FsPath) -> (r: bool)
        ensures
            r == (self@ == other@),
    {
        if self.rooted != other.rooted || self.parts.len() != other.parts.len() {
            proof {
                if self@ == other@ {
                    assert(strings_view(self.parts@).len() == strings_view(other.parts@).len());
                }
            }
            return false;
        }
        let mut i: usize = 0;
        while i < self.parts.len()
            invariant
                i <= self.parts.len(),
                self.parts.len() == other.parts.len(),
                forall|j: int| 0 <= j < i ==> self.parts@[j]@ == other.parts@[j]@,
            decreases self.parts.len() - i,
        {
            if self.parts[i] != other.parts[i] {
                proof {
                    assert(strings_view(self.parts@)[i as int] != strings_view(other.parts@)[i as int]);
                }
                return false;
            }
            i += 1;
        }
        assert(strings_view(self.parts@) =~= strings_view(other.parts@));
        true
    }
}

/// Resolves `.` and `..` without touching the file system.
pub fn normalize_path(components: &Vec<PathComponent>) -> (r: FsPath)
    ensures
        r@ == normalized(components@),
{
    let mut ret = FsPath { rooted: false, parts: Vec::new() };
    assert(ret@.parts =~= empty_path().parts);
    let mut i: usize = 0;
    while i < components.len()
        invariant
            i <= components.len(),
            ret@ == normalized(components@.subrange(0, i as int)),
        decreases components.len() - i,
    {
        let ghost before = ret@;
        match &components[i] {
            PathComponent::RootDir => {
                ret = FsPath { rooted: true, parts: Vec::new() };
                assert(ret@.parts =~= push_component(before, components@[i as int]).parts);
            },
            PathComponent::CurDir => {},
            PathComponent::ParentDir => {
                if ret.parts.len() > 0 {
                    ret.parts.pop();
                    assert(ret@.parts =~= push_component(before, components@[i as int]).parts);
                }
            },
            PathComponent::Normal(name) => {
                ret.parts.push(name.clone());
                assert(ret@.parts =~= push_component(before, components@[i as int]).parts);
            },
        }
        assert(components@.subrange(0, i + 1).drop_last() =~= components@.subrange(0, i as int));
        i += 1;
    }
    assert(components@.subrange(0, components.len() as int) =~= components@);
    ret
}

} // verus!
