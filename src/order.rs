use vstd::prelude::*;
use crate::path::{FsPath, PathView};

verus! {

/// Three-way comparison of two sequences, element by element, where a proper prefix comes
/// first. The result is `-1`, `0` or `1` when `f` gives only those values.
pub open spec fn lex_cmp<T>(a: Seq<T>, b: Seq<T>, f: spec_fn(T, T) -> int) -> int
    decreases a.len(),
{
    if a.len() == 0 {
        if b.len() == 0 {
            0
        } else {
            -1
        }
    } else if b.len() == 0 {
        1
    } else if f(a[0], b[0]) != 0 {
        f(a[0], b[0])
    } else {
        lex_cmp(a.drop_first(), b.drop_first(), f)
    }
}

/// `f` is a three-way comparison of a total order.
pub open spec fn is_total_cmp<T>(f: spec_fn(T, T) -> int) -> bool {
    &&& forall|x: T, y: T| -1 <= #[trigger] f(x, y) <= 1
    &&& forall|x: T, y: T| #[trigger] f(x, y) == -f(y, x)
    &&& forall|x: T, y: T| #[trigger] f(x, y) == 0 <==> x == y
    &&& forall|x: T, y: T, z: T| #[trigger] f(x, y) <= 0 && #[trigger] f(y, z) <= 0 ==> f(x, z) <= 0
}

pub proof fn lemma_lex_bounds<T>(a: Seq<T>, b: Seq<T>, f: spec_fn(T, T) -> int)
    requires
        is_total_cmp(f),
    ensures
        -1 <= lex_cmp(a, b, f) <= 1,
        lex_cmp(a, b, f) == -lex_cmp(b, a, f),
        lex_cmp(a, b, f) == 0 <==> a == b,
    decreases a.len(),
{
    if a.len() > 0 && b.len() > 0 {
        lemma_lex_bounds(a.drop_first(), b.drop_first(), f);
        if f(a[0], b[0]) == 0 && a.drop_first() == b.drop_first() {
            assert(a =~= seq![a[0]] + a.drop_first());
            assert(b =~= seq![b[0]] + b.drop_first());
        }
        if a == b {
            assert(a.drop_first() =~= b.drop_first());
        }
        if lex_cmp(a, b, f) == 0 {
            assert(a[0] == b[0]);
            assert(a =~= seq![a[0]] + a.drop_first());
            assert(b =~= seq![b[0]] + b.drop_first());
        }
    } else if a.len() == 0 && b.len() == 0 {
        assert(a =~= b);
    }
}

pub proof fn lemma_lex_trans<T>(a: Seq<T>, b: Seq<T>, c: Seq<T>, f: spec_fn(T, T) -> int)
    requires
        is_total_cmp(f),
        lex_cmp(a, b, f) <= 0,
        lex_cmp(b, c, f) <= 0,
    ensures
        lex_cmp(a, c, f) <= 0,
    decreases a.len(),
{
    if a.len() > 0 && b.len() > 0 && c.len() > 0 {
        if f(a[0], b[0]) == 0 && f(b[0], c[0]) == 0 {
            lemma_lex_trans(a.drop_first(), b.drop_first(), c.drop_first(), f);
        }
        assert(f(a[0], b[0]) <= 0 && f(b[0], c[0]) <= 0);
    }
}

/// Comparing two sequences that agree on their first `i` elements comes down to comparing
/// what follows.
pub proof fn lemma_lex_skip<T>(a: Seq<T>, b: Seq<T>, f: spec_fn(T, T) -> int, i: int)
    requires
        0 <= i <= a.len(),
        i <= b.len(),
        forall|j: int| 0 <= j < i ==> f(a[j], b[j]) == 0,
    ensures
        lex_cmp(a, b, f) == lex_cmp(a.subrange(i, a.len() as int), b.subrange(i, b.len() as int), f),
    decreases i,
{
    if i > 0 {
        assert(f(a[0], b[0]) == 0);
        lemma_lex_skip(a.drop_first(), b.drop_first(), f, i - 1);
        assert(a.drop_first().subrange(i - 1, a.len() - 1) =~= a.subrange(i, a.len() as int));
        assert(b.drop_first().subrange(i - 1, b.len() - 1) =~= b.subrange(i, b.len() as int));
    } else {
        assert(a.subrange(0, a.len() as int) =~= a);
        assert(b.subrange(0, b.len() as int) =~= b);
    }
}

/// Characters compare by their code points, which is also the order of their UTF-8 bytes.
pub open spec fn char_cmp(x: char, y: char) -> int {
    if (x as u32) < (y as u32) {
        -1
    } else if (x as u32) > (y as u32) {
        1
    } else {
        0
    }
}

pub open spec fn char_order() -> spec_fn(char, char) -> int {
    |p: char, q: char| char_cmp(p, q)
}

pub open spec fn name_cmp(x: Seq<char>, y: Seq<char>) -> int {
    lex_cmp(x, y, char_order())
}

/// A component of a normalized path: the root sorts before every name.
pub enum PathKeyItem {
    Root,
    Name(Seq<char>),
}

pub open spec fn key_item_cmp(x: PathKeyItem, y: PathKeyItem) -> int {
    match (x, y) {
        (PathKeyItem::Root, PathKeyItem::Root) => 0,
        (PathKeyItem::Root, PathKeyItem::Name(_)) => -1,
        (PathKeyItem::Name(_), PathKeyItem::Root) => 1,
        (PathKeyItem::Name(p), PathKeyItem::Name(q)) => name_cmp(p, q),
    }
}

pub open spec fn name_items(parts: Seq<Seq<char>>) -> Seq<PathKeyItem> {
    parts.map_values(|n: Seq<char>| PathKeyItem::Name(n))
}

/// The components of a path in order.
pub open spec fn path_key(p: PathView) -> Seq<PathKeyItem> {
    if p.rooted {
        seq![PathKeyItem::Root] + name_items(p.parts)
    } else {
        name_items(p.parts)
    }
}

/// Paths compare component by component.
pub open spec fn key_item_order() -> spec_fn(PathKeyItem, PathKeyItem) -> int {
    |x: PathKeyItem, y: PathKeyItem| key_item_cmp(x, y)
}

pub open spec fn path_cmp(a: PathView, b: PathView) -> int {
    lex_cmp(path_key(a), path_key(b), key_item_order())
}

proof fn lemma_char_cmp_zero(x: char, y: char)
    ensures
        char_cmp(x, y) == 0 <==> x == y,
{
}

pub proof fn lemma_char_cmp_total()
    ensures
        is_total_cmp(char_order()),
{
    let f = char_order();
    assert forall|x: char, y: char| -1 <= #[trigger] f(x, y) <= 1 && f(x, y) == -f(y, x) by {
        assert(f(x, y) == char_cmp(x, y));
        assert(f(y, x) == char_cmp(y, x));
    }
    assert forall|x: char, y: char| #[trigger] f(x, y) == 0 <==> x == y by {
        assert(f(x, y) == char_cmp(x, y));
        lemma_char_cmp_zero(x, y);
    }
    assert forall|x: char, y: char, z: char| #[trigger] f(x, y) <= 0 && #[trigger] f(y, z) <= 0
        implies f(x, z) <= 0 by {
        assert(f(x, y) == char_cmp(x, y));
        assert(f(y, z) == char_cmp(y, z));
        assert(f(x, z) == char_cmp(x, z));
    }
}

pub proof fn lemma_name_cmp_total()
    ensures
        is_total_cmp(|x: Seq<char>, y: Seq<char>| name_cmp(x, y)),
{
    let ghost f = char_order();
    lemma_char_cmp_total();
    assert forall|x: Seq<char>, y: Seq<char>|
        -1 <= name_cmp(x, y) <= 1 && name_cmp(x, y) == -name_cmp(y, x) && (name_cmp(x, y) == 0
            <==> x == y) by {
        lemma_lex_bounds(x, y, f);
    }
    assert forall|x: Seq<char>, y: Seq<char>, z: Seq<char>|
        name_cmp(x, y) <= 0 && name_cmp(y, z) <= 0 implies name_cmp(x, z) <= 0 by {
        lemma_lex_trans(x, y, z, f);
    }
}

pub proof fn lemma_name_cmp(a: Seq<char>, b: Seq<char>)
    ensures
        -1 <= name_cmp(a, b) <= 1,
        name_cmp(a, b) == -name_cmp(b, a),
        name_cmp(a, b) == 0 <==> a == b,
{
    lemma_char_cmp_total();
    lemma_lex_bounds(a, b, char_order());
}

pub proof fn lemma_name_cmp_trans(a: Seq<char>, b: Seq<char>, c: Seq<char>)
    requires
        name_cmp(a, b) <= 0,
        name_cmp(b, c) <= 0,
    ensures
        name_cmp(a, c) <= 0,
{
    lemma_char_cmp_total();
    lemma_lex_trans(a, b, c, char_order());
}

pub proof fn lemma_key_item_cmp_total()
    ensures
        is_total_cmp(key_item_order()),
{
    let f = key_item_order();
    let g = |x: Seq<char>, y: Seq<char>| name_cmp(x, y);
    lemma_name_cmp_total();
    assert forall|x: PathKeyItem, y: PathKeyItem| -1 <= #[trigger] f(x, y) <= 1 && f(x, y) == -f(
        y,
        x,
    ) && (f(x, y) == 0 <==> x == y) by {
        assert(f(x, y) == key_item_cmp(x, y));
        assert(f(y, x) == key_item_cmp(y, x));
        if let (PathKeyItem::Name(p), PathKeyItem::Name(q)) = (x, y) {
            assert(g(p, q) == name_cmp(p, q));
            assert(g(q, p) == name_cmp(q, p));
        }
    }
    assert forall|x: PathKeyItem, y: PathKeyItem, z: PathKeyItem| #[trigger] f(x, y) <= 0
        && #[trigger] f(y, z) <= 0 implies f(x, z) <= 0 by {
        assert(f(x, y) == key_item_cmp(x, y));
        assert(f(y, z) == key_item_cmp(y, z));
        assert(f(x, z) == key_item_cmp(x, z));
        if let (PathKeyItem::Name(p), PathKeyItem::Name(q), PathKeyItem::Name(r)) = (x, y, z) {
            assert(g(p, q) == name_cmp(p, q));
            assert(g(q, r) == name_cmp(q, r));
            assert(g(p, r) == name_cmp(p, r));
        }
    }
}

pub proof fn lemma_path_cmp_total()
    ensures
        forall|a: PathView, b: PathView|
            -1 <= #[trigger] path_cmp(a, b) <= 1 && path_cmp(a, b) == -path_cmp(b, a),
        forall|a: PathView, b: PathView, c: PathView|
            #[trigger] path_cmp(a, b) <= 0 && #[trigger] path_cmp(b, c) <= 0 ==> path_cmp(a, c) <= 0,
{
    let f = key_item_order();
    lemma_key_item_cmp_total();
    assert forall|a: PathView, b: PathView|
        -1 <= #[trigger] path_cmp(a, b) <= 1 && path_cmp(a, b) == -path_cmp(b, a) by {
        lemma_lex_bounds(path_key(a), path_key(b), f);
    }
    assert forall|a: PathView, b: PathView, c: PathView|
        #[trigger] path_cmp(a, b) <= 0 && #[trigger] path_cmp(b, c) <= 0 implies path_cmp(a, c)
        <= 0 by {
        lemma_lex_trans(path_key(a), path_key(b), path_key(c), f);
    }
}

/// Compares two names by code point.
pub fn compare_names(a: &str, b: &str) -> (r: i8)
    ensures
        r as int == name_cmp(a@, b@),
{
    let ghost f = char_order();
    let la = a.unicode_len();
    let lb = b.unicode_len();
    let mut i: usize = 0;
    while i < la && i < lb
        invariant
            la == a@.len(),
            lb == b@.len(),
            i <= la,
            i <= lb,
            f == char_order(),
            forall|j: int| 0 <= j < i ==> f(a@[j], b@[j]) == 0,
        decreases la - i,
    {
        let x = a.get_char(i);
        let y = b.get_char(i);
        if (x as u32) != (y as u32) {
            proof {
                lemma_lex_skip(a@, b@, f, i as int);
                let sa = a@.subrange(i as int, la as int);
                let sb = b@.subrange(i as int, lb as int);
                assert(sa[0] == x && sb[0] == y);
                assert(f(x, y) == char_cmp(x, y));
                assert(lex_cmp(sa, sb, f) == f(sa[0], sb[0]));
            }
            if (x as u32) < (y as u32) {
                return -1;
            } else {
                return 1;
            }
        }
        assert(f(x, y) == char_cmp(x, y));
        i += 1;
    }
    proof {
        lemma_lex_skip(a@, b@, f, i as int);
    }
    if i < la {
        1
    } else if i < lb {
        -1
    } else {
        0
    }
}

/// Compares two paths component by component.
pub fn compare_paths(a: &FsPath, b: &FsPath) -> (r: i8)
    ensures
        r as int == path_cmp(a@, b@),
{
    let ghost f = key_item_order();
    let ghost ka = path_key(a@);
    let ghost kb = path_key(b@);
    if a.rooted != b.rooted {
        if a.rooted {
            if b.parts.len() == 0 {
                return 1;
            } else {
                assert(kb[0] == PathKeyItem::Name(b.parts@[0]@));
                return -1;
            }
        } else {
            if a.parts.len() == 0 {
                return -1;
            } else {
                assert(ka[0] == PathKeyItem::Name(a.parts@[0]@));
                return 1;
            }
        }
    }
    let ghost off: int = if a.rooted { 1 } else { 0 };
    let ghost na = name_items(a@.parts);
    let ghost nb = name_items(b@.parts);
    proof {
        assert(ka.subrange(off, ka.len() as int) =~= na);
        assert(kb.subrange(off, kb.len() as int) =~= nb);
        lemma_lex_skip(ka, kb, f, off);
    }
    let mut i: usize = 0;
    while i < a.parts.len() && i < b.parts.len()
        invariant
            i <= a.parts.len(),
            i <= b.parts.len(),
            f == key_item_order(),
            ka == path_key(a@),
            kb == path_key(b@),
            na == name_items(a@.parts),
            nb == name_items(b@.parts),
            lex_cmp(ka, kb, f) == lex_cmp(na, nb, f),
            forall|j: int| 0 <= j < i ==> f(na[j], nb[j]) == 0,
        decreases a.parts.len() - i,
    {
        let c = compare_names(a.parts[i].as_str(), b.parts[i].as_str());
        if c != 0 {
            proof {
                lemma_lex_skip(na, nb, f, i as int);
                assert(na.subrange(i as int, na.len() as int)[0] == na[i as int]);
                assert(nb.subrange(i as int, nb.len() as int)[0] == nb[i as int]);
            }
            return c;
        }
        assert(na[i as int] == PathKeyItem::Name(a.parts@[i as int]@));
        assert(nb[i as int] == PathKeyItem::Name(b.parts@[i as int]@));
        assert(f(na[i as int], nb[i as int]) == key_item_cmp(na[i as int], nb[i as int]));
        i += 1;
    }
    proof {
        lemma_lex_skip(na, nb, f, i as int);
    }
    if i < a.parts.len() {
        1
    } else if i < b.parts.len() {
        -1
    } else {
        0
    }
}

} // verus!
