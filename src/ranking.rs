use vstd::prelude::*;
use crate::directory_tree::{EntryView, FileTreeNode, entries_view, match_score};
use crate::order::{compare_paths, lemma_path_cmp_total, path_cmp};
use core::cmp::Ordering;

verus! {

/// The default order: directories before files, then paths component by component.
pub open spec fn entry_cmp(a: EntryView, b: EntryView) -> int {
    if a.is_dir != b.is_dir {
        if a.is_dir {
            -1
        } else {
            1
        }
    } else {
        path_cmp(a.path, b.path)
    }
}

pub open spec fn ordering_of(c: int) -> Ordering {
    if c < 0 {
        Ordering::Less
    } else if c > 0 {
        Ordering::Greater
    } else {
        Ordering::Equal
    }
}

pub proof fn lemma_entry_cmp_order()
    ensures
        forall|a: EntryView, b: EntryView|
            -1 <= #[trigger] entry_cmp(a, b) <= 1 && entry_cmp(a, b) == -entry_cmp(b, a),
        forall|a: EntryView, b: EntryView, c: EntryView|
            #[trigger] entry_cmp(a, b) <= 0 && #[trigger] entry_cmp(b, c) <= 0 ==> entry_cmp(a, c)
                <= 0,
{
    lemma_path_cmp_total();
}

/// Orders two entries: directories first, then by path.
pub fn cmp_by_dir_and_path(a: &FileTreeNode, b: &FileTreeNode) -> (r: Ordering)
    ensures
        r == ordering_of(entry_cmp(a@, b@)),
{
    let is_a_dir = a.is_dir();
    let is_b_dir = b.is_dir();
    if is_a_dir != is_b_dir {
        if is_a_dir {
            Ordering::Less
        } else {
            Ordering::Greater
        }
    } else {
        let c = compare_paths(a.get_path_buf(), b.get_path_buf());
        if c < 0 {
            Ordering::Less
        } else if c > 0 {
            Ordering::Greater
        } else {
            Ordering::Equal
        }
    }
}

/// The score that ranks an entry for `query`; an empty query scores every entry alike.
pub open spec fn score_for(e: EntryView, query: Seq<char>) -> i64 {
    if query.len() == 0 {
        0
    } else {
        match_score(e.name, query)
    }
}

/// `a` may stand before `b` in the ranking for `query`: a higher score comes first, and equal
/// scores fall back on the default order.
pub open spec fn ranked_before(a: EntryView, b: EntryView, query: Seq<char>) -> bool {
    score_for(a, query) > score_for(b, query) || (score_for(a, query) == score_for(b, query)
        && entry_cmp(a, b) <= 0)
}

pub open spec fn kept_by_query(query: Seq<char>) -> spec_fn(EntryView) -> bool {
    |e: EntryView| query.len() == 0 || match_score(e.name, query) > 0
}

/// The entries that a query keeps: all of them for an empty query, else those that match
/// with a positive score.
pub open spec fn ranking_pool(items: Seq<EntryView>, query: Seq<char>) -> Seq<EntryView> {
    items.filter(kept_by_query(query))
}

pub open spec fn is_ranked(s: Seq<EntryView>, query: Seq<char>) -> bool {
    forall|i: int, j: int| 0 <= i < j < s.len() ==> ranked_before(s[i], s[j], query)
}

proof fn lemma_ranked_before_order(query: Seq<char>)
    ensures
        forall|a: EntryView, b: EntryView|
            !ranked_before(a, b, query) ==> #[trigger] ranked_before(b, a, query),
        forall|a: EntryView, b: EntryView, c: EntryView|
            #[trigger] ranked_before(a, b, query) && #[trigger] ranked_before(b, c, query)
                ==> ranked_before(a, c, query),
{
    lemma_entry_cmp_order();
}

proof fn lemma_insert_multiset<A>(s: Seq<A>, p: int, x: A)
    requires
        0 <= p <= s.len(),
    ensures
        s.insert(p, x).to_multiset() =~= s.to_multiset().insert(x),
{
    let t = s.insert(p, x);
    s.insert_ensures(p, x);
    assert(t.remove(p) =~= s);
    t.to_multiset_ensures();
    assert(t.contains(x));
}

/// Whether an entry with score `sa` may stand before one with score `sb`.
fn rank_le(sa: i64, a: &FileTreeNode, sb: i64, b: &FileTreeNode) -> (r: bool)
    ensures
        r == (sa > sb || (sa == sb && entry_cmp(a@, b@) <= 0)),
{
    if sa != sb {
        sa > sb
    } else {
        match cmp_by_dir_and_path(a, b) {
            Ordering::Greater => false,
            _ => true,
        }
    }
}

/// Orders a listing for display: with an empty query, every entry in the default order;
/// otherwise only the entries that match, best score first, ties in the default order.
pub fn rank_entries(items: &Vec<FileTreeNode>, query: &str) -> (r: Vec<FileTreeNode>)
    ensures
        entries_view(r@).to_multiset() == ranking_pool(entries_view(items@), query@).to_multiset(),
        is_ranked(entries_view(r@), query@),
{
    let ghost q = query@;
    let ghost keep = kept_by_query(q);
    let empty_query = query.unicode_len() == 0;
    let mut sorted: Vec<FileTreeNode> = Vec::new();
    let mut scores: Vec<i64> = Vec::new();
    let mut i: usize = 0;
    proof {
        lemma_ranked_before_order(q);
        assert(items@.subrange(0, 0).map_values(|e: FileTreeNode| e@) =~= Seq::<EntryView>::empty());
        assert(Seq::<EntryView>::empty().filter(keep) =~= Seq::<EntryView>::empty());
        assert(entries_view(sorted@) =~= Seq::<EntryView>::empty());
    }
    while i < items.len()
        invariant
            i <= items.len(),
            q == query@,
            keep == kept_by_query(q),
            empty_query == (q.len() == 0),
            scores@.len() == sorted@.len(),
            forall|k: int| 0 <= k < sorted@.len() ==> scores@[k] == score_for(#[trigger] sorted@[k]@, q),
            entries_view(sorted@).to_multiset() == entries_view(items@.subrange(0, i as int)).filter(
                keep,
            ).to_multiset(),
            is_ranked(entries_view(sorted@), q),
            forall|a: EntryView, b: EntryView| !ranked_before(a, b, q) ==> #[trigger] ranked_before(b, a, q),
            forall|a: EntryView, b: EntryView, c: EntryView|
                #[trigger] ranked_before(a, b, q) && #[trigger] ranked_before(b, c, q) ==> ranked_before(a, c, q),
        decreases items.len() - i,
    {
        let item = &items[i];
        let ghost before = entries_view(items@.subrange(0, i as int));
        proof {
            assert(entries_view(items@.subrange(0, i + 1)) =~= before.push(item@));
            before.lemma_filter_push(item@, keep);
        }
        let score: i64 = if empty_query {
            0
        } else {
            item.compute_score(query)
        };
        if empty_query || score > 0 {
            let ghost old_view = entries_view(sorted@);
            let mut p: usize = 0;
            while p < sorted.len() && rank_le(scores[p], &sorted[p], score, item)
                invariant
                    p <= sorted@.len(),
                    scores@.len() == sorted@.len(),
                    old_view == entries_view(sorted@),
                    score == score_for(item@, q),
                    forall|k: int| 0 <= k < sorted@.len() ==> scores@[k] == score_for(#[trigger] sorted@[k]@, q),
                    forall|k: int| 0 <= k < p ==> ranked_before(#[trigger] old_view[k], item@, q),
                decreases sorted@.len() - p,
            {
                assert(old_view[p as int] == sorted@[p as int]@);
                p += 1;
            }
            proof {
                assert(keep(item@));
                let ghost kept_before = before.filter(keep);
                kept_before.to_multiset_ensures();
                if p < sorted@.len() {
                    assert(old_view[p as int] == sorted@[p as int]@);
                    assert(!ranked_before(old_view[p as int], item@, q));
                }
            }
            sorted.insert(p, item.copy());
            scores.insert(p, score);
            proof {
                let nv = entries_view(sorted@);
                assert(nv =~= old_view.insert(p as int, item@));
                old_view.insert_ensures(p as int, item@);
                lemma_insert_multiset(old_view, p as int, item@);
                assert forall|a: int, b: int| 0 <= a < b < nv.len() implies ranked_before(
                    nv[a],
                    nv[b],
                    q,
                ) by {
                    if b < p {
                    } else if a < p && b == p {
                    } else if a < p && b > p {
                        assert(ranked_before(old_view[a], old_view[p as int], q));
                        assert(nv[b] == old_view[b - 1]);
                        assert(ranked_before(old_view[p as int], old_view[b - 1], q) || p == b - 1);
                    } else if a == p {
                        assert(nv[b] == old_view[b - 1]);
                        assert(ranked_before(item@, old_view[p as int], q));
                        assert(ranked_before(old_view[p as int], old_view[b - 1], q) || p == b - 1);
                    } else {
                        assert(nv[a] == old_view[a - 1]);
                        assert(nv[b] == old_view[b - 1]);
                    }
                }
                assert forall|k: int| 0 <= k < sorted@.len() implies scores@[k] == score_for(
                    #[trigger] sorted@[k]@,
                    q,
                ) by {
                    if k > p {
                        assert(nv[k] == old_view[k - 1]);
                    }
                }
            }
        }
        proof {
            if !(empty_query || score > 0) {
                assert(!keep(item@));
            }
        }
        i += 1;
    }
    proof {
        assert(items@.subrange(0, items@.len() as int) =~= items@);
    }
    sorted
}


proof fn lemma_keep_all(items: Seq<EntryView>)
    ensures
        items.filter(kept_by_query(Seq::empty())) == items,
    decreases items.len(),
{
    let keep = kept_by_query(Seq::empty());
    if items.len() == 0 {
        assert(items.filter(keep) =~= items);
    } else {
        lemma_keep_all(items.drop_last());
        items.drop_last().lemma_filter_push(items.last(), keep);
        assert(items.drop_last().push(items.last()) =~= items);
    }
}

/// An empty query keeps every entry and lists them in the default order: directories
/// first, then by path.
pub proof fn lemma_empty_query_default_order(items: Seq<EntryView>, r: Seq<EntryView>)
    requires
        r.to_multiset() == ranking_pool(items, Seq::empty()).to_multiset(),
        is_ranked(r, Seq::empty()),
    ensures
        r.to_multiset() == items.to_multiset(),
        forall|i: int, j: int| 0 <= i < j < r.len() ==> entry_cmp(r[i], r[j]) <= 0,
{
    lemma_keep_all(items);
    assert forall|i: int, j: int| 0 <= i < j < r.len() implies entry_cmp(r[i], r[j]) <= 0 by {
        assert(ranked_before(r[i], r[j], Seq::empty()));
    }
}

/// For a non-empty query the ranking lists only matches, and never a lower score before a
/// higher one.
pub proof fn lemma_ranked_by_score(items: Seq<EntryView>, query: Seq<char>, r: Seq<EntryView>)
    requires
        query.len() > 0,
        r.to_multiset() == ranking_pool(items, query).to_multiset(),
        is_ranked(r, query),
    ensures
        forall|i: int| 0 <= i < r.len() ==> match_score(#[trigger] r[i].name, query) > 0,
        forall|i: int, j: int|
            0 <= i < j < r.len() ==> match_score(r[i].name, query) >= match_score(r[j].name, query),
{
    let keep = kept_by_query(query);
    let pool = ranking_pool(items, query);
    assert forall|i: int| 0 <= i < r.len() implies match_score(#[trigger] r[i].name, query) > 0 by {
        r.to_multiset_ensures();
        pool.to_multiset_ensures();
        assert(r.contains(r[i]));
        assert(r.to_multiset().count(r[i]) > 0);
        assert(pool.to_multiset().count(r[i]) > 0);
        assert(pool.contains(r[i]));
        let k = choose|k: int| 0 <= k < pool.len() && pool[k] == r[i];
        items.lemma_filter_pred(keep, k);
    }
    assert forall|i: int, j: int| 0 <= i < j < r.len() implies match_score(r[i].name, query)
        >= match_score(r[j].name, query) by {
        assert(ranked_before(r[i], r[j], query));
    }
}

} // verus!
