use vstd::prelude::*;
use crate::path::{FsPath, PathComponent, PathView, normalize_path, normalized};
use fuzzy_matcher::skim::SkimMatcherV2;

verus! {

/// A file or directory of a listing, identified by its normalized path.
pub struct FileTreeNode {
    path_buf: FsPath,
    simple_name: String,
    is_directory: bool,
}

/// The mathematical value of an entry.
pub struct EntryView {
    pub path: PathView,
    pub name: Seq<char>,
    pub is_dir: bool,
}

impl View for FileTreeNode {
    type V = EntryView;

    closed spec fn view(&self) -> EntryView {
        EntryView { path: self.path_buf@, name: self.simple_name@, is_dir: self.is_directory }
    }
}

/// The name shown for an entry: its last name, with a trailing `/` for a directory; a root
/// shows as `/`.
pub open spec fn display_name(p: PathView, is_dir: bool) -> Seq<char> {
    if p.parts.len() == 0 {
        seq!['/']
    } else if is_dir {
        p.parts.last().push('/')
    } else {
        p.parts.last()
    }
}

/// What the fuzzy matcher makes of a name and a query: `None` where the query is not a
/// subsequence of the name, else a score.
pub uninterp spec fn skim_match(name: Seq<char>, query: Seq<char>) -> Option<i64>;

/// The score of a name against a query, where no match scores zero.
pub open spec fn match_score(name: Seq<char>, query: Seq<char>) -> i64 {
    match skim_match(name, query) {
        Some(s) => s,
        None => 0,
    }
}

/// Relies on `SkimMatcherV2::fuzzy` with smart case (fuzzy-matcher): its result depends on
/// the two strings alone, and an empty pattern matches with score zero.
#[verifier::external_body]
fn skim_fuzzy(name: &str, query: &str) -> (r: Option<i64>)
    ensures
        r == skim_match(name@, query@),
        query@.len() == 0 ==> r == Some(0i64),
{
    SkimMatcherV2::default().smart_case().fuzzy(name, query, true).map(|m| m.0)
}

impl FileTreeNode {
    /// An entry for the path that `components` spell, once normalized; `is_dir` tells
    /// whether it is a directory.
    pub fn new(components: &Vec<PathComponent>, is_dir: bool) -> (r: FileTreeNode)
        ensures
            r@.path == normalized(components@),
            r@.is_dir == is_dir,
            r@.name == display_name(r@.path, is_dir),
    {
        let path = normalize_path(components);
        FileTreeNode::from_path(path, is_dir)
    }

    /// An entry for a path that is already normalized.
    pub fn from_path(path: FsPath, is_dir: bool) -> (r: FileTreeNode)
        ensures
            r@.path == path@,
            r@.is_dir == is_dir,
            r@.name == display_name(path@, is_dir),
    {
        let n = path.parts.len();
        let simple_name = if n == 0 {
            proof {
                reveal_strlit("/");
            }
            String::from_str("/")
        } else if is_dir {
            proof {
                reveal_strlit("/");
            }
            let last = path.parts[n - 1].clone();
            last.concat("/")
        } else {
            path.parts[n - 1].clone()
        };
        proof {
            if n > 0 {
                assert(path@.parts.last() == path.parts@[n - 1]@);
            }
            assert(simple_name@ =~= display_name(path@, is_dir));
        }
        FileTreeNode { path_buf: path, simple_name, is_directory: is_dir }
    }

    pub fn get_path_buf(&self) -> (r: &FsPath)
        ensures
            r@ == self@.path,
    {
        &self.path_buf
    }

    pub fn get_simple_name(&self) -> (r: &String)
        ensures
            r@ == self@.name,
    {
        &self.simple_name
    }

    pub fn is_dir(&self) -> (r: bool)
        ensures
            r == self@.is_dir,
    {
        self.is_directory
    }

    /// A second entry with the same value.
    pub fn copy(&self) -> (r: FileTreeNode)
        ensures
            r@ == self@,
    {
        FileTreeNode {
            path_buf: self.path_buf.copy(),
            simple_name: self.simple_name.clone(),
            is_directory: self.is_directory,
        }
    }

    /// Whether the entry is among `marks`, by path.
    pub fn is_marked(&self, marks: &Vec<FileTreeNode>) -> (r: bool)
        ensures
            r == exists|i: int| 0 <= i < marks@.len() && #[trigger] marks@[i]@.path == self@.path,
    {
        let mut i: usize = 0;
        while i < marks.len()
            invariant
                i <= marks@.len(),
                forall|j: int| 0 <= j < i ==> #[trigger] marks@[j]@.path != self@.path,
            decreases marks@.len() - i,
        {
            if marks[i].path_buf.same_as(&self.path_buf) {
                assert(marks@[i as int]@.path == self@.path);
                return true;
            }
            i += 1;
        }
        false
    }

    /// How well the entry's name matches `query`; zero where it does not match at all.
    pub fn compute_score(&self, query: &str) -> (r: i64)
        ensures
            r == match_score(self@.name, query@),
    {
        match skim_fuzzy(self.simple_name.as_str(), query) {
            None => 0,
            Some(score) => score,
        }
    }
}

impl PartialEq for FileTreeNode {
    fn eq(&self, other: &Self) -> (r: bool)
        ensures
            r == (self@.path == other@.path),
    {
        self.path_buf.same_as(&other.path_buf)
    }
}

impl vstd::std_specs::cmp::PartialEqSpecImpl for FileTreeNode {
    open spec fn obeys_eq_spec() -> bool {
        true
    }

    open spec fn eq_spec(&self, other: &FileTreeNode) -> bool {
        self@.path == other@.path
    }
}

pub open spec fn entries_view(v: Seq<FileTreeNode>) -> Seq<EntryView> {
    v.map_values(|e: FileTreeNode| e@)
}

/// The first position in `items` whose path is `p`.
pub open spec fn position_of(items: Seq<EntryView>, p: PathView) -> Option<int> {
    if exists|i: int| 0 <= i < items.len() && items[i].path == p {
        Some(
            choose|i: int|
                0 <= i < items.len() && items[i].path == p && forall|j: int|
                    0 <= j < i ==> items[j].path != p,
        )
    } else {
        None
    }
}

pub open spec fn selected_view(s: Option<FileTreeNode>) -> Option<EntryView> {
    match s {
        Some(e) => Some(e@),
        None => None,
    }
}

/// The position of the selected entry in the listing, found by its path.
pub open spec fn cursor_position(selected: Option<EntryView>, items: Seq<EntryView>) -> Option<int> {
    match selected {
        None => None,
        Some(e) => position_of(items, e.path),
    }
}

proof fn lemma_first_exists(items: Seq<EntryView>, p: PathView, k: int)
    requires
        0 <= k < items.len(),
        items[k].path == p,
    ensures
        exists|i: int|
            0 <= i < items.len() && items[i].path == p && forall|j: int| 0 <= j < i ==> items[j].path != p,
    decreases k,
{
    if exists|j: int| 0 <= j < k && items[j].path == p {
        let j = choose|j: int| 0 <= j < k && items[j].path == p;
        lemma_first_exists(items, p, j);
    } else {
        assert(forall|j: int| 0 <= j < k ==> items[j].path != p);
    }
}

/// A position that `position_of` gives holds the path, and none before it does.
pub proof fn lemma_position_of_found(items: Seq<EntryView>, p: PathView)
    ensures
        position_of(items, p) matches Some(i) ==> 0 <= i < items.len() && items[i].path == p && forall|
            j: int,
        | 0 <= j < i ==> items[j].path != p,
{
    if exists|i: int| 0 <= i < items.len() && items[i].path == p {
        let k = choose|i: int| 0 <= i < items.len() && items[i].path == p;
        lemma_first_exists(items, p, k);
    }
}

pub proof fn lemma_position_of(items: Seq<EntryView>, p: PathView, k: int)
    requires
        0 <= k < items.len(),
        items[k].path == p,
        forall|j: int| 0 <= j < k ==> items[j].path != p,
    ensures
        position_of(items, p) == Some(k),
{
    let i = choose|i: int|
        0 <= i < items.len() && items[i].path == p && forall|j: int| 0 <= j < i ==> items[j].path != p;
    assert(0 <= i < items.len() && items[i].path == p && forall|j: int| 0 <= j < i ==> items[j].path != p);
    assert(i == k);
}

/// Finds the selected entry in the listing by its path.
pub fn get_file_cursor_index(selected_file: &Option<FileTreeNode>, items: &Vec<FileTreeNode>) -> (r:
    Option<usize>)
    ensures
        r matches Some(i) ==> cursor_position(selected_view(*selected_file), entries_view(items@))
            == Some(i as int),
        r is None ==> cursor_position(selected_view(*selected_file), entries_view(items@)) is None,
{
    match selected_file {
        None => None,
        Some(sel) => {
            let ghost v = entries_view(items@);
            let mut i: usize = 0;
            while i < items.len()
                invariant
                    i <= items.len(),
                    v == entries_view(items@),
                    selected_view(*selected_file) == Some(sel@),
                    forall|j: int| 0 <= j < i ==> v[j].path != sel@.path,
                decreases items.len() - i,
            {
                if items[i].path_buf.same_as(&sel.path_buf) {
                    proof {
                        assert(v[i as int] == items@[i as int]@);
                        lemma_position_of(v, sel@.path, i as int);
                        assert(selected_view(*selected_file) == Some(sel@));
                    }
                    return Some(i);
                }
                assert(v[i as int] == items@[i as int]@);
                i += 1;
            }
            None
        },
    }
}

} // verus!
