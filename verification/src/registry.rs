//! The registry and its dispatcher: the ordered collection of extensions,
//! and the per-keystroke algorithm that parses the input text for a trigger
//! prefix, selects the relevant finder's cached items, fuzzy-scores them
//! against the pattern, and returns them ranked.
//!
//! Trigger handling: the raw input is first folded to lower case; when the
//! leading whitespace-delimited token of the folded text equals some
//! extension's key, the dispatcher routes the remainder to that extension's
//! finder and never falls through to the default merged search.

use vstd::prelude::*;
use vstd::string::StrSliceExecFns;

use crate::extension::{Extension, ExtensionV};
use crate::finders::finder_results;
use crate::fuzzy::{fuzzy_match, lower, lower_of};
use crate::item::{label_of, Item};
use crate::ranking::{
    insert_by, lemma_insert_by_shape, lemma_insert_pos_unique, match_score, rank,
    scored_of, Match, MatchV,
};

verus! {

/// The whitespace characters that delimit a trigger token: the Unicode
/// white-space set, as std's `char::is_whitespace` draws it.
pub open spec fn is_space(c: char) -> bool {
    c == ' ' || c == '\t' || c == '\n' || c == '\u{0B}' || c == '\u{0C}' || c == '\r'
        || c == '\u{85}' || c == '\u{A0}' || c == '\u{1680}' || c == '\u{2000}'
        || c == '\u{2001}' || c == '\u{2002}' || c == '\u{2003}' || c == '\u{2004}'
        || c == '\u{2005}' || c == '\u{2006}' || c == '\u{2007}' || c == '\u{2008}'
        || c == '\u{2009}' || c == '\u{200A}' || c == '\u{2028}' || c == '\u{2029}'
        || c == '\u{202F}' || c == '\u{205F}' || c == '\u{3000}'
}

/// Executable test for `is_space`.
fn is_space_char(c: char) -> (r: bool)
    ensures
        r == is_space(c),
{
    c == ' ' || c == '\t' || c == '\n' || c == '\u{0B}' || c == '\u{0C}' || c == '\r'
        || c == '\u{85}' || c == '\u{A0}' || c == '\u{1680}' || c == '\u{2000}'
        || c == '\u{2001}' || c == '\u{2002}' || c == '\u{2003}' || c == '\u{2004}'
        || c == '\u{2005}' || c == '\u{2006}' || c == '\u{2007}' || c == '\u{2008}'
        || c == '\u{2009}' || c == '\u{200A}' || c == '\u{2028}' || c == '\u{2029}'
        || c == '\u{202F}' || c == '\u{205F}' || c == '\u{3000}'
}

/// Whether the text holds any whitespace character.
pub open spec fn has_space(t: Seq<char>) -> bool {
    exists|i: int| 0 <= i < t.len() && is_space(t[i])
}

/// Index of the first whitespace character (the text's length when there is
/// none).
pub open spec fn first_space(t: Seq<char>) -> int
    decreases t.len(),
{
    if t.len() == 0 {
        0
    } else if is_space(t[0]) {
        0
    } else {
        1 + first_space(t.drop_first())
    }
}

/// The candidate trigger: everything before the first whitespace character.
pub open spec fn token_of(t: Seq<char>) -> Seq<char> {
    t.subrange(0, first_space(t))
}

/// The remainder: everything after the first whitespace character.
pub open spec fn remainder_of(t: Seq<char>) -> Seq<char> {
    t.subrange(first_space(t) + 1, t.len() as int)
}

/// `first_space` is the least index holding a whitespace character.
pub proof fn lemma_first_space(t: Seq<char>)
    requires
        has_space(t),
    ensures
        0 <= first_space(t) < t.len(),
        is_space(t[first_space(t)]),
        forall|k: int| 0 <= k < first_space(t) ==> !is_space(t[k]),
    decreases t.len(),
{
    if t.len() == 0 {
    } else if is_space(t[0]) {
    } else {
        let i = choose|i: int| 0 <= i < t.len() && is_space(t[i]);
        assert(t.drop_first()[i - 1] == t[i]);
        assert(has_space(t.drop_first()));
        lemma_first_space(t.drop_first());
        assert(t[first_space(t)] == t.drop_first()[first_space(t) - 1]);
        assert forall|k: int| 0 <= k < first_space(t) implies !is_space(t[k]) by {
            if k > 0 {
                assert(t[k] == t.drop_first()[k - 1]);
            }
        }
    }
}

/// A position holding the first whitespace character is `first_space`.
pub proof fn lemma_first_space_at(t: Seq<char>, i: int)
    requires
        0 <= i < t.len(),
        is_space(t[i]),
        forall|k: int| 0 <= k < i ==> !is_space(t[k]),
    ensures
        has_space(t),
        first_space(t) == i,
{
    assert(has_space(t));
    lemma_first_space(t);
}

/// Whether an extension is selected by the given trigger token.
pub open spec fn keyed(e: ExtensionV, token: Seq<char>) -> bool {
    e.key == Some(token)
}

/// Whether any extension is selected by the given trigger token.
pub open spec fn has_keyed(reg: Seq<ExtensionV>, token: Seq<char>) -> bool {
    exists|i: int| 0 <= i < reg.len() && keyed(reg[i], token)
}

/// Index of the first extension selected by the token (the registry's length
/// when there is none).
pub open spec fn keyed_index(reg: Seq<ExtensionV>, token: Seq<char>) -> int
    decreases reg.len(),
{
    if reg.len() == 0 {
        0
    } else if keyed(reg[0], token) {
        0
    } else {
        1 + keyed_index(reg.drop_first(), token)
    }
}

/// `keyed_index` is the least index of an extension the token selects.
pub proof fn lemma_keyed_index(reg: Seq<ExtensionV>, token: Seq<char>)
    requires
        has_keyed(reg, token),
    ensures
        0 <= keyed_index(reg, token) < reg.len(),
        keyed(reg[keyed_index(reg, token)], token),
        forall|k: int| 0 <= k < keyed_index(reg, token) ==> !keyed(reg[k], token),
    decreases reg.len(),
{
    if reg.len() == 0 {
    } else if keyed(reg[0], token) {
    } else {
        let i = choose|i: int| 0 <= i < reg.len() && keyed(reg[i], token);
        assert(reg.drop_first()[i - 1] == reg[i]);
        assert(has_keyed(reg.drop_first(), token));
        lemma_keyed_index(reg.drop_first(), token);
        assert(reg[keyed_index(reg, token)] == reg.drop_first()[keyed_index(reg, token) - 1]);
        assert forall|k: int| 0 <= k < keyed_index(reg, token) implies !keyed(reg[k], token) by {
            if k > 0 {
                assert(reg[k] == reg.drop_first()[k - 1]);
            }
        }
    }
}

/// A position holding the first keyed extension is `keyed_index`.
pub proof fn lemma_keyed_index_at(reg: Seq<ExtensionV>, token: Seq<char>, i: int)
    requires
        0 <= i < reg.len(),
        keyed(reg[i], token),
        forall|k: int| 0 <= k < i ==> !keyed(reg[k], token),
    ensures
        has_keyed(reg, token),
        keyed_index(reg, token) == i,
{
    assert(has_keyed(reg, token));
    lemma_keyed_index(reg, token);
}

/// The default, trigger-less candidate sequence: the cached items of every
/// extension without a key, merged in registry order.
pub open spec fn default_candidates(reg: Seq<ExtensionV>, query: Seq<char>) -> Seq<crate::item::ItemV>
    decreases reg.len(),
{
    if reg.len() == 0 {
        Seq::empty()
    } else {
        default_candidates(reg.drop_last(), query) + (if reg.last().key is None {
            finder_results(reg.last().finder, query)
        } else {
            Seq::empty()
        })
    }
}

/// Whether the input text selects a trigger-keyed extension: it holds a
/// whitespace character and its leading token is some extension's key.
pub open spec fn routed(reg: Seq<ExtensionV>, text: Seq<char>) -> bool {
    has_space(text) && has_keyed(reg, token_of(text))
}

/// The dispatch over already case-folded input text: a recognised trigger
/// routes the remainder to the first extension keyed by it; otherwise all
/// keyless extensions' caches are merged in registry order, scored against
/// the whole folded text, and ranked.
pub open spec fn results_of(reg: Seq<ExtensionV>, low: Seq<char>) -> Seq<MatchV> {
    if routed(reg, low) {
        let rem = remainder_of(low);
        rank(scored_of(finder_results(reg[keyed_index(reg, token_of(low))].finder, rem), rem))
    } else {
        rank(scored_of(default_candidates(reg, low), low))
    }
}

/// What one keystroke's search returns. Empty input yields an empty, hidden
/// result whatever the caches hold; any other input is first folded to lower
/// case, as the launcher matches triggers and scores candidates
/// case-insensitively, and then dispatched by `results_of`.
pub open spec fn search_results(reg: Seq<ExtensionV>, text: Seq<char>) -> Seq<MatchV> {
    if text.len() == 0 {
        Seq::empty()
    } else {
        results_of(reg, lower_of(text))
    }
}

/// What a registry-wide refresh may change on one extension: everything but
/// the finder's cache is kept, and the finder keeps its variant.
pub open spec fn ext_frame(pre: ExtensionV, post: ExtensionV) -> bool {
    post.id == pre.id && post.name == pre.name && post.key == pre.key && post.description
        == pre.description && post.max_time == pre.max_time && crate::finders::finder_frame(
        pre.finder,
        post.finder,
    )
}

/// Verified character-wise string equality.
fn str_eq(a: &str, b: &str) -> (r: bool)
    ensures
        r == (a@ == b@),
{
    let alen = a.unicode_len();
    let blen = b.unicode_len();
    if alen != blen {
        return false;
    }
    let mut k: usize = 0;
    while k < alen
        invariant
            alen == a@.len(),
            blen == b@.len(),
            alen == blen,
            k <= alen,
            forall|i: int| 0 <= i < k ==> a@[i] == b@[i],
        decreases alen - k,
    {
        let ca = a.get_char(k);
        let cb = b.get_char(k);
        if ca != cb {
            return false;
        }
        k += 1;
    }
    proof {
        assert(a@ =~= b@);
    }
    true
}

/// Scan for the first whitespace character of the input text.
fn find_first_space(text: &str) -> (r: Option<usize>)
    ensures
        (match r {
            Some(i) => has_space(text@) && i == first_space(text@) && i < text@.len(),
            None => !has_space(text@),
        }),
{
    let len = text.unicode_len();
    let mut k: usize = 0;
    while k < len
        invariant
            len == text@.len(),
            k <= len,
            forall|i: int| 0 <= i < k ==> !is_space(text@[i]),
        decreases len - k,
    {
        let c = text.get_char(k);
        if is_space_char(c) {
            proof {
                lemma_first_space_at(text@, k as int);
            }
            return Some(k);
        }
        k += 1;
    }
    None
}

/// Score every candidate's label against the pattern, keeping the hits in
/// enumeration order.
fn score_candidates(cands: &Vec<Item>, pattern: &str) -> (r: Vec<Match>)
    ensures
        r.deep_view() == scored_of(cands.deep_view(), pattern@),
{
    let ghost cv = cands.deep_view();
    let mut out: Vec<Match> = Vec::new();
    let mut k: usize = 0;
    proof {
        assert(out.deep_view() =~= scored_of(cv.subrange(0, 0), pattern@));
    }
    while k < cands.len()
        invariant
            k <= cands.len(),
            cv == cands.deep_view(),
            out.deep_view() == scored_of(cv.subrange(0, k as int), pattern@),
        decreases cands.len() - k,
    {
        let ghost pre = out.deep_view();
        let item = &cands[k];
        let label = item.label();
        let sc_opt = fuzzy_match(label.as_str(), pattern);
        match sc_opt {
            Some(sc) => {
                out.push(Match { label: label.clone(), item: item.clone(), score: sc });
            },
            None => {},
        }
        proof {
            assert(cv.subrange(0, k as int + 1).drop_last() =~= cv.subrange(0, k as int));
            assert(cv.subrange(0, k as int + 1).last() == cv[k as int]);
            match sc_opt {
                Some(sc) => {
                    assert(out.deep_view() =~= pre.push(
                        MatchV { label: label_of(cv[k as int]), item: cv[k as int], score: sc },
                    ));
                },
                None => {},
            }
            assert(out.deep_view() =~= scored_of(cv.subrange(0, k as int + 1), pattern@));
        }
        k += 1;
    }
    proof {
        assert(cv.subrange(0, cands.len() as int) =~= cv);
    }
    out
}

/// Stable insertion sort of the scored candidates by score, descending.
fn rank_matches(scored: Vec<Match>) -> (r: Vec<Match>)
    ensures
        r.deep_view() == rank(scored.deep_view()),
{
    let ghost sv = scored.deep_view();
    let mut out: Vec<Match> = Vec::new();
    let mut k: usize = 0;
    proof {
        assert(out.deep_view() =~= crate::ranking::rank_by(sv.subrange(0, 0), match_score()));
    }
    while k < scored.len()
        invariant
            k <= scored.len(),
            sv == scored.deep_view(),
            out.len() == k,
            out.deep_view() == crate::ranking::rank_by(sv.subrange(0, k as int), match_score()),
        decreases scored.len() - k,
    {
        let ghost pre = out.deep_view();
        let m = scored[k].clone();
        let mut pos: usize = 0;
        while pos < out.len() && out[pos].score >= m.score
            invariant
                pos <= out.len(),
                forall|i: int| 0 <= i < pos ==> out.deep_view()[i].score >= m@.score,
            decreases out.len() - pos,
        {
            pos += 1;
        }
        proof {
            assert forall|i: int| 0 <= i < pos implies match_score()(pre[i]) >= match_score()(
                m@,
            ) by {}
            if pos < pre.len() {
                assert(match_score()(pre[pos as int]) < match_score()(m@));
            }
            lemma_insert_pos_unique(pre, m@, match_score(), pos as int);
            lemma_insert_by_shape(pre, m@, match_score());
        }
        out.insert(pos, m);
        k += 1;
        proof {
            assert(out.deep_view() =~= pre.insert(pos as int, m@));
            assert(out.deep_view() =~= insert_by(pre, m@, match_score()));
            assert(sv.subrange(0, k as int).drop_last() =~= sv.subrange(0, k as int - 1));
            assert(sv.subrange(0, k as int).last() == sv[k as int - 1]);
            assert(m@ == sv[k as int - 1]);
        }
    }
    proof {
        assert(sv.subrange(0, scored.len() as int) =~= sv);
    }
    out
}

/// The ordered collection of extensions loaded from configuration, insertion
/// order preserved: registry order decides the merge order of the default
/// search and thereby the tie-break order of equal scores.
pub struct Registry {
    pub extensions: Vec<Extension>,
}

impl View for Registry {
    type V = Seq<ExtensionV>;

    open spec fn view(&self) -> Seq<ExtensionV> {
        self.extensions.deep_view()
    }
}

impl Registry {
    /// A registry over the given extensions, in the given order.
    pub fn new(extensions: Vec<Extension>) -> (r: Self)
        ensures
            r@ == extensions.deep_view(),
    {
        Registry { extensions }
    }

    /// The extensions, in registry order.
    pub fn extensions(&self) -> (r: &Vec<Extension>)
        ensures
            r.deep_view() == self@,
    {
        &self.extensions
    }

    /// Initialize every extension's finder, exactly once each, in registry
    /// order, so that every finder can serve `search` afterwards. Everything
    /// but the finders' caches is kept.
    pub fn init(&mut self)
        ensures
            final(self)@.len() == old(self)@.len(),
            forall|i: int| 0 <= i < old(self)@.len() ==> ext_frame(old(self)@[i], final(self)@[i]),
    {
        let ghost orig = self@;
        let mut done: Vec<Extension> = Vec::new();
        while self.extensions.len() > 0
            invariant
                done.len() + self.extensions.len() == orig.len(),
                forall|i: int| 0 <= i < done.len() ==> ext_frame(orig[i], done.deep_view()[i]),
                forall|i: int|
                    0 <= i < self.extensions.len() ==> self.extensions.deep_view()[i] == orig[done.len() + i],
            decreases self.extensions.len(),
        {
            let ghost rest = self.extensions.deep_view();
            let ghost ndone = done.len() as int;
            let mut ext = self.extensions.remove(0);
            proof {
                assert(ext.deep_view() == rest[0]);
                assert forall|i: int| 0 <= i < self.extensions.len() implies self.extensions.deep_view()[i]
                    == orig[ndone + 1 + i] by {
                    assert(self.extensions.deep_view()[i] == rest[i + 1]);
                }
            }
            ext.finder.init();
            done.push(ext);
        }
        self.extensions = done;
    }

    /// Find the first extension whose key equals the trigger token.
    fn find_keyed(&self, token: &str) -> (r: Option<usize>)
        ensures
            (match r {
                Some(j) => has_keyed(self@, token@) && j == keyed_index(self@, token@) && j
                    < self@.len(),
                None => !has_keyed(self@, token@),
            }),
    {
        let n = self.extensions.len();
        let mut j: usize = 0;
        while j < n
            invariant
                n == self.extensions.len(),
                self@.len() == n,
                j <= n,
                forall|i: int| 0 <= i < j ==> !keyed(self@[i], token@),
            decreases n - j,
        {
            let hit = match &self.extensions[j].key {
                Some(k) => str_eq(k.as_str(), token),
                None => false,
            };
            proof {
                assert(self@[j as int] == self.extensions[j as int].deep_view());
                assert(hit == keyed(self@[j as int], token@));
            }
            if hit {
                proof {
                    lemma_keyed_index_at(self@, token@, j as int);
                }
                return Some(j);
            }
            j += 1;
        }
        None
    }

    /// Merge the cached items of every keyless extension, in registry order.
    fn gather_default(&self, query: &str) -> (r: Vec<Item>)
        ensures
            r.deep_view() == default_candidates(self@, query@),
    {
        let mut out: Vec<Item> = Vec::new();
        let mut j: usize = 0;
        let n = self.extensions.len();
        proof {
            assert(out.deep_view() =~= default_candidates(self@.subrange(0, 0), query@));
        }
        while j < n
            invariant
                n == self.extensions.len(),
                self@.len() == n,
                j <= n,
                out.deep_view() == default_candidates(self@.subrange(0, j as int), query@),
            decreases n - j,
        {
            let ghost pre = out.deep_view();
            let keyless = match &self.extensions[j].key {
                Some(_) => false,
                None => true,
            };
            proof {
                assert(self@[j as int] == self.extensions[j as int].deep_view());
            }
            if keyless {
                let mut part = self.extensions[j].finder.search(query);
                let ghost pv = part.deep_view();
                out.append(&mut part);
                proof {
                    assert(out.deep_view() =~= pre + pv);
                }
            }
            proof {
                assert(self@.subrange(0, j as int + 1).drop_last() =~= self@.subrange(0, j as int));
                assert(self@.subrange(0, j as int + 1).last() == self@[j as int]);
                if !keyless {
                    assert(out.deep_view() =~= pre + Seq::<crate::item::ItemV>::empty());
                }
                assert(out.deep_view() =~= default_candidates(
                    self@.subrange(0, j as int + 1),
                    query@,
                ));
            }
            j += 1;
        }
        proof {
            assert(self@.subrange(0, n as int) =~= self@);
        }
        out
    }

    /// The default, trigger-less search: merge, score against the whole
    /// text, rank.
    fn default_search(&self, text: &str) -> (r: Vec<Match>)
        ensures
            r.deep_view() == rank(scored_of(default_candidates(self@, text@), text@)),
    {
        let cands = self.gather_default(text);
        let scored = score_candidates(&cands, text);
        rank_matches(scored)
    }

    /// The dispatcher proper, over already case-folded text: returns exactly
    /// the ranked results `results_of` describes. Public so that routing and
    /// ranking can be exercised on given folded text; `search` folds the raw
    /// input and hands it here.
    pub fn search_folded(&self, low: &str) -> (r: Vec<Match>)
        ensures
            r.deep_view() == results_of(self@, low@),
    {
        let len = low.unicode_len();
        match find_first_space(low) {
            Some(i) => {
                let token = low.substring_char(0, i);
                proof {
                    assert(token@ == token_of(low@));
                }
                match self.find_keyed(token) {
                    Some(j) => {
                        let rem = low.substring_char(i + 1, len);
                        proof {
                            assert(rem@ == remainder_of(low@));
                            assert(routed(self@, low@));
                        }
                        let cands = self.extensions[j].finder.search(rem);
                        proof {
                            assert(self@[j as int] == self.extensions[j as int].deep_view());
                        }
                        let scored = score_candidates(&cands, rem);
                        rank_matches(scored)
                    },
                    None => {
                        proof {
                            assert(!routed(self@, low@));
                        }
                        self.default_search(low)
                    },
                }
            },
            None => {
                proof {
                    assert(!routed(self@, low@));
                }
                self.default_search(low)
            },
        }
    }

    /// One keystroke's search over the current input text: returns exactly
    /// the ranked results `search_results` describes, for every input,
    /// including empty and whitespace-only text. The text is folded to lower
    /// case before trigger matching and scoring.
    pub fn search(&self, text: &str) -> (r: Vec<Match>)
        ensures
            r.deep_view() == search_results(self@, text@),
    {
        if text.unicode_len() == 0 {
            let r: Vec<Match> = Vec::new();
            proof {
                assert(r.deep_view() =~= Seq::<MatchV>::empty());
            }
            return r;
        }
        let lowered = lower(text);
        self.search_folded(lowered.as_str())
    }
}

/// The visibility policy: the result list is shown iff it is non-empty and
/// the raw input text is non-empty.
pub fn visible(results: &Vec<Match>, text: &str) -> (r: bool)
    ensures
        r == (results@.len() > 0 && text@.len() > 0),
{
    results.len() > 0 && !text.is_empty()
}

/// Empty input text always yields an empty, hidden result, whatever the
/// finders' caches hold.
pub proof fn lemma_empty_input_hidden(reg: Seq<ExtensionV>, text: Seq<char>)
    requires
        text.len() == 0,
    ensures
        search_results(reg, text).len() == 0,
{
}

/// A trigger token present in the key set, followed by whitespace, routes to
/// the first extension whose key equals the token: the results are drawn from
/// that extension's finder and the remainder text alone, and the search never
/// falls through to the default merged search. Stated over the case-folded
/// text that `search` dispatches on.
pub proof fn lemma_trigger_routes(reg: Seq<ExtensionV>, text: Seq<char>)
    requires
        text.len() > 0,
        has_space(lower_of(text)),
        has_keyed(reg, token_of(lower_of(text))),
    ensures
        keyed(reg[keyed_index(reg, token_of(lower_of(text)))], token_of(lower_of(text))),
        search_results(reg, text) == rank(scored_of(
            finder_results(
                reg[keyed_index(reg, token_of(lower_of(text)))].finder,
                remainder_of(lower_of(text)),
            ),
            remainder_of(lower_of(text)),
        )),
{
    lemma_keyed_index(reg, token_of(lower_of(text)));
}

} // verus!
