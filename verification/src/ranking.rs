//! Scoring and ranking of candidate items: candidates are fuzzy-scored
//! against the pattern in enumeration order, unmatched candidates are
//! dropped, and the hits are sorted by score, descending, with a stable
//! sort, so that equal scores keep their enumeration order.

use vstd::prelude::*;

use crate::fuzzy::fuzzy_score;
use crate::item::{label_of, Item, ItemV};

verus! {

/// Mathematical model of one scored search result.
pub struct MatchV {
    pub label: Seq<char>,
    pub item: ItemV,
    pub score: i64,
}

/// One scored search result, as handed to the presentation layer: the label
/// that was scored, the item itself, and its fuzzy score.
pub struct Match {
    pub label: String,
    pub item: Item,
    pub score: i64,
}

impl View for Match {
    type V = MatchV;

    open spec fn view(&self) -> MatchV {
        MatchV { label: self.label@, item: self.item@, score: self.score }
    }
}

impl DeepView for Match {
    type V = MatchV;

    open spec fn deep_view(&self) -> MatchV {
        self.view()
    }
}

impl Clone for Match {
    fn clone(&self) -> (r: Self)
        ensures
            r == *self,
    {
        Match { label: self.label.clone(), item: self.item.clone(), score: self.score }
    }
}

/// The candidates that the pattern fuzzy-matches, in enumeration order, each
/// paired with its label and score.
pub open spec fn scored_of(cands: Seq<ItemV>, pattern: Seq<char>) -> Seq<MatchV>
    decreases cands.len(),
{
    if cands.len() == 0 {
        Seq::empty()
    } else {
        let rest = scored_of(cands.drop_last(), pattern);
        let it = cands.last();
        match fuzzy_score(label_of(it), pattern) {
            Some(sc) => rest.push(MatchV { label: label_of(it), item: it, score: sc }),
            None => rest,
        }
    }
}

/// Insert `x` into `s` directly before the first element whose score is
/// strictly below `x`'s: elements scoring at least `x`'s score stay in front
/// of it, which is what makes the sort stable.
pub open spec fn insert_by<T>(s: Seq<T>, x: T, sc: spec_fn(T) -> i64) -> Seq<T>
    decreases s.len(),
{
    if s.len() == 0 {
        seq![x]
    } else if sc(s[0]) >= sc(x) {
        seq![s[0]] + insert_by(s.drop_first(), x, sc)
    } else {
        seq![x] + s
    }
}

/// The position `insert_by` puts `x` at.
pub open spec fn insert_pos_by<T>(s: Seq<T>, x: T, sc: spec_fn(T) -> i64) -> int
    decreases s.len(),
{
    if s.len() == 0 {
        0
    } else if sc(s[0]) >= sc(x) {
        1 + insert_pos_by(s.drop_first(), x, sc)
    } else {
        0
    }
}

/// Stable insertion sort by score, descending: later elements are inserted
/// behind earlier elements of equal score.
pub open spec fn rank_by<T>(s: Seq<T>, sc: spec_fn(T) -> i64) -> Seq<T>
    decreases s.len(),
{
    if s.len() == 0 {
        Seq::empty()
    } else {
        insert_by(rank_by(s.drop_last(), sc), s.last(), sc)
    }
}

/// The score a match is ranked by.
pub open spec fn match_score() -> spec_fn(MatchV) -> i64 {
    |m: MatchV| m.score
}

/// The ranked result list: the scored candidates sorted by score, descending,
/// stably.
pub open spec fn rank(s: Seq<MatchV>) -> Seq<MatchV> {
    rank_by(s, match_score())
}

/// Every pair of positions is ordered by score, descending.
pub open spec fn sorted_desc_by<T>(s: Seq<T>, sc: spec_fn(T) -> i64) -> bool {
    forall|i: int, j: int| 0 <= i < j < s.len() ==> sc(s[i]) >= sc(s[j])
}

/// `insert_by` inserts at `insert_pos_by`: everything before that position
/// scores at least `x`, the element at it (if any) scores strictly below.
pub proof fn lemma_insert_by_shape<T>(s: Seq<T>, x: T, sc: spec_fn(T) -> i64)
    ensures
        0 <= insert_pos_by(s, x, sc) <= s.len(),
        forall|k: int| 0 <= k < insert_pos_by(s, x, sc) ==> sc(s[k]) >= sc(x),
        insert_pos_by(s, x, sc) < s.len() ==> sc(s[insert_pos_by(s, x, sc)]) < sc(x),
        insert_by(s, x, sc) == s.insert(insert_pos_by(s, x, sc), x),
    decreases s.len(),
{
    if s.len() == 0 {
        assert(insert_by(s, x, sc) =~= s.insert(0, x));
    } else if sc(s[0]) >= sc(x) {
        lemma_insert_by_shape(s.drop_first(), x, sc);
        let p = insert_pos_by(s.drop_first(), x, sc);
        assert forall|k: int| 0 <= k < 1 + p implies sc(s[k]) >= sc(x) by {
            if k > 0 {
                assert(s[k] == s.drop_first()[k - 1]);
            }
        }
        assert(insert_by(s, x, sc) =~= s.insert(1 + p, x));
    } else {
        assert(insert_by(s, x, sc) =~= s.insert(0, x));
    }
}

/// The insertion position is the unique one with the shape above.
pub proof fn lemma_insert_pos_unique<T>(s: Seq<T>, x: T, sc: spec_fn(T) -> i64, p: int)
    requires
        0 <= p <= s.len(),
        forall|k: int| 0 <= k < p ==> sc(s[k]) >= sc(x),
        p < s.len() ==> sc(s[p]) < sc(x),
    ensures
        p == insert_pos_by(s, x, sc),
    decreases s.len(),
{
    if s.len() == 0 {
    } else if sc(s[0]) >= sc(x) {
        assert(p != 0);
        lemma_insert_pos_unique(s.drop_first(), x, sc, p - 1);
    } else {
        assert(p == 0) by {
            if p > 0 {
                assert(sc(s[0]) >= sc(x));
            }
        }
    }
}

/// Ranking keeps the length, keeps exactly the same elements (as a
/// multiset), and sorts by score, descending.
pub proof fn lemma_rank_by_ensures<T>(s: Seq<T>, sc: spec_fn(T) -> i64)
    ensures
        rank_by(s, sc).len() == s.len(),
        rank_by(s, sc).to_multiset() == s.to_multiset(),
        sorted_desc_by(rank_by(s, sc), sc),
    decreases s.len(),
{
    broadcast use vstd::seq_lib::to_multiset_insert;
    broadcast use vstd::seq_lib::to_multiset_build;

    if s.len() == 0 {
        assert(s =~= Seq::<T>::empty());
    } else {
        let butlast = s.drop_last();
        let x = s.last();
        lemma_rank_by_ensures(butlast, sc);
        let r = rank_by(butlast, sc);
        lemma_insert_by_shape(r, x, sc);
        let p = insert_pos_by(r, x, sc);
        assert(butlast.push(x) =~= s);
        assert(rank_by(s, sc).to_multiset() == s.to_multiset()) by {
            assert(r.insert(p, x).to_multiset() == r.to_multiset().insert(x));
            assert(butlast.push(x).to_multiset() == butlast.to_multiset().insert(x));
        }
        let out = r.insert(p, x);
        assert forall|i: int, j: int| 0 <= i < j < out.len() implies sc(out[i]) >= sc(out[j]) by {
            if j < p {
                assert(out[i] == r[i] && out[j] == r[j]);
            } else if j == p {
                assert(out[i] == r[i]);
            } else {
                if i < p {
                    assert(out[i] == r[i] && out[j] == r[j - 1]);
                    if i < p <= j - 1 && p < r.len() {
                        assert(sc(r[p]) >= sc(r[j - 1]));
                    }
                } else if i == p {
                    assert(out[i] == x && out[j] == r[j - 1]);
                    assert(sc(r[p]) < sc(x));
                    assert(sc(r[p]) >= sc(r[j - 1]));
                } else {
                    assert(out[i] == r[i - 1] && out[j] == r[j - 1]);
                }
            }
        }
    }
}

/// Tag each scored candidate with its position in the pre-sort sequence.
pub open spec fn tag_matches(s: Seq<MatchV>) -> Seq<(int, MatchV)> {
    Seq::new(s.len(), |i: int| (i, s[i]))
}

/// The function that drops a tag again.
pub open spec fn untag_fn() -> spec_fn((int, MatchV)) -> MatchV {
    |p: (int, MatchV)| p.1
}

/// Drop the tags again.
pub open spec fn untag_matches(t: Seq<(int, MatchV)>) -> Seq<MatchV> {
    t.map_values(untag_fn())
}

/// The score a tagged match is ranked by.
pub open spec fn tagged_score() -> spec_fn((int, MatchV)) -> i64 {
    |p: (int, MatchV)| p.1.score
}

/// Ranking of the tagged scored candidates.
pub open spec fn rank_tagged(s: Seq<MatchV>) -> Seq<(int, MatchV)> {
    rank_by(tag_matches(s), tagged_score())
}

/// Sorted by score, descending, and stable: equal scores keep their tags in
/// ascending order, that is, in their pre-sort relative order.
pub open spec fn sorted_stable(t: Seq<(int, MatchV)>) -> bool {
    forall|i: int, j: int|
        0 <= i < j < t.len() ==> t[i].1.score > t[j].1.score || (t[i].1.score == t[j].1.score
            && t[i].0 < t[j].0)
}

/// Mapping a score-preserving function over a sequence commutes with
/// insertion.
pub proof fn lemma_insert_by_map<T, U>(
    s: Seq<T>,
    x: T,
    sct: spec_fn(T) -> i64,
    f: spec_fn(T) -> U,
    scu: spec_fn(U) -> i64,
)
    requires
        forall|t: T| #[trigger] scu(f(t)) == sct(t),
    ensures
        insert_by(s, x, sct).map_values(f) == insert_by(s.map_values(f), f(x), scu),
    decreases s.len(),
{
    if s.len() == 0 {
        assert(insert_by(s, x, sct).map_values(f) =~= insert_by(s.map_values(f), f(x), scu));
    } else if sct(s[0]) >= sct(x) {
        lemma_insert_by_map(s.drop_first(), x, sct, f, scu);
        assert(s.map_values(f).drop_first() =~= s.drop_first().map_values(f));
        assert(insert_by(s, x, sct).map_values(f) =~= seq![f(s[0])] + insert_by(
            s.drop_first(),
            x,
            sct,
        ).map_values(f));
        assert(insert_by(s.map_values(f), f(x), scu) =~= seq![f(s[0])] + insert_by(
            s.drop_first().map_values(f),
            f(x),
            scu,
        ));
    } else {
        assert(insert_by(s, x, sct).map_values(f) =~= insert_by(s.map_values(f), f(x), scu));
    }
}

/// Mapping a score-preserving function over a sequence commutes with
/// ranking.
pub proof fn lemma_rank_by_map<T, U>(
    s: Seq<T>,
    sct: spec_fn(T) -> i64,
    f: spec_fn(T) -> U,
    scu: spec_fn(U) -> i64,
)
    requires
        forall|t: T| #[trigger] scu(f(t)) == sct(t),
    ensures
        rank_by(s, sct).map_values(f) == rank_by(s.map_values(f), scu),
    decreases s.len(),
{
    if s.len() == 0 {
        assert(rank_by(s, sct).map_values(f) =~= rank_by(s.map_values(f), scu));
    } else {
        lemma_rank_by_map(s.drop_last(), sct, f, scu);
        assert(s.map_values(f).drop_last() =~= s.drop_last().map_values(f));
        lemma_insert_by_map(rank_by(s.drop_last(), sct), s.last(), sct, f, scu);
        assert(s.map_values(f).last() == f(s.last()));
    }
}

/// Inserting an element whose tag is above every tag present keeps the
/// sequence sorted and stable.
pub proof fn lemma_insert_tagged(t: Seq<(int, MatchV)>, x: (int, MatchV))
    requires
        sorted_stable(t),
        forall|k: int| 0 <= k < t.len() ==> t[k].0 < x.0,
    ensures
        sorted_stable(insert_by(t, x, tagged_score())),
{
    let sc = tagged_score();
    lemma_insert_by_shape(t, x, sc);
    let p = insert_pos_by(t, x, sc);
    let out = t.insert(p, x);
    assert forall|i: int, j: int| 0 <= i < j < out.len() implies out[i].1.score > out[j].1.score
        || (out[i].1.score == out[j].1.score && out[i].0 < out[j].0) by {
        if j < p {
            assert(out[i] == t[i] && out[j] == t[j]);
        } else if j == p {
            assert(out[i] == t[i] && out[j] == x);
            assert(sc(t[i]) >= sc(x));
        } else {
            if i < p {
                assert(out[i] == t[i] && out[j] == t[j - 1]);
            } else if i == p {
                assert(out[i] == x && out[j] == t[j - 1]);
                assert(sc(t[p]) < sc(x));
                if j - 1 > p {
                    assert(t[p].1.score > t[j - 1].1.score || t[p].1.score == t[j - 1].1.score);
                }
            } else {
                assert(out[i] == t[i - 1] && out[j] == t[j - 1]);
            }
        }
    }
}

/// Ranking a tagged sequence with strictly ascending tags yields a sorted,
/// stable sequence.
proof fn lemma_rank_tagged_rec(t: Seq<(int, MatchV)>)
    requires
        forall|i: int, j: int| 0 <= i < j < t.len() ==> t[i].0 < t[j].0,
    ensures
        sorted_stable(rank_by(t, tagged_score())),
    decreases t.len(),
{
    broadcast use vstd::seq_lib::group_to_multiset_ensures;

    if t.len() == 0 {
    } else {
        let butlast = t.drop_last();
        let x = t.last();
        lemma_rank_tagged_rec(butlast);
        let r = rank_by(butlast, tagged_score());
        lemma_rank_by_ensures(butlast, tagged_score());
        assert forall|k: int| 0 <= k < r.len() implies r[k].0 < x.0 by {
            assert(r.contains(r[k]));
            assert(r.to_multiset().count(r[k]) > 0);
            assert(butlast.contains(r[k]));
            let idx = choose|idx: int| 0 <= idx < butlast.len() && butlast[idx] == r[k];
            assert(t[idx].0 < t[t.len() - 1].0);
        }
        lemma_insert_tagged(r, x);
    }
}

/// Ranking keeps the length and exactly the elements of the scored sequence,
/// and sorts by score, descending.
pub proof fn lemma_rank_sorted(s: Seq<MatchV>)
    ensures
        rank(s).len() == s.len(),
        rank(s).to_multiset() == s.to_multiset(),
        sorted_desc_by(rank(s), match_score()),
{
    lemma_rank_by_ensures(s, match_score());
}

/// Ranking is a stable sort: tagging each scored candidate with its position
/// before the sort, ranking the tagged sequence permutes exactly those tagged
/// candidates, orders them by score, descending, and keeps candidates of
/// equal score in their pre-sort relative order; dropping the tags yields the
/// ranked results themselves.
pub proof fn lemma_rank_stable(s: Seq<MatchV>)
    ensures
        untag_matches(rank_tagged(s)) == rank(s),
        rank_tagged(s).len() == s.len(),
        rank_tagged(s).to_multiset() == tag_matches(s).to_multiset(),
        sorted_stable(rank_tagged(s)),
{
    lemma_rank_by_map(tag_matches(s), tagged_score(), untag_fn(), match_score());
    assert(tag_matches(s).map_values(untag_fn()) =~= s);
    lemma_rank_by_ensures(tag_matches(s), tagged_score());
    lemma_rank_tagged_rec(tag_matches(s));
}

} // verus!
