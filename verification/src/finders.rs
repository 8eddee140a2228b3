//! Finders: polymorphic sources of searchable items. Each variant owns a
//! cache of items and a last-refresh timestamp; `search` never performs I/O,
//! it only reads the cache, and only `update` replaces the cache. An
//! enumeration failure reported by the host listing is fail-soft: the
//! previous cache is retained and the failure is not propagated.

use applications::AppInfo;
use vstd::prelude::*;

use crate::item::{AppEntry, AppEntryV, Item, ItemV};
use crate::utils::now;

verus! {

/// The capability every finder variant implements; the dispatcher depends on
/// nothing else.
pub trait Find {
    /// What `search` returns: a function of the finder's state alone.
    spec fn results_spec(&self, query: Seq<char>) -> Seq<ItemV>;

    /// What a refresh against the host environment may change.
    spec fn refresh_frame(pre: &Self, post: &Self) -> bool;

    /// One-time setup; performs the first refresh so that `search` is
    /// servable afterwards.
    fn init(&mut self)
        ensures
            Self::refresh_frame(old(self), final(self)),
    ;

    /// Re-runs the enumeration and replaces the cache wholesale; on failure
    /// the previous cache is retained.
    fn update(&mut self)
        ensures
            Self::refresh_frame(old(self), final(self)),
    ;

    /// Pure read of the cache; triggers no I/O.
    fn search(&self, query: &str) -> (r: Vec<Item>)
        ensures
            r.deep_view() == self.results_spec(query@),
    ;
}

/// A finder with nothing to find: its cache is empty and stays so.
pub struct EmptyFinder {}

impl Find for EmptyFinder {
    open spec fn results_spec(&self, query: Seq<char>) -> Seq<ItemV> {
        Seq::empty()
    }

    open spec fn refresh_frame(pre: &Self, post: &Self) -> bool {
        post == pre
    }

    fn init(&mut self) {
    }

    fn update(&mut self) {
    }

    fn search(&self, query: &str) -> (r: Vec<Item>) {
        let r: Vec<Item> = Vec::new();
        proof {
            assert(r.deep_view() =~= Seq::<ItemV>::empty());
        }
        r
    }
}

impl Default for EmptyFinder {
    fn default() -> (r: Self)
        ensures
            r == (EmptyFinder {  }),
    {
        EmptyFinder {  }
    }
}

/// Mathematical model of an application finder: its cached items and the
/// timestamp of the last successful refresh.
pub struct ApplicationFinderV {
    pub cache: Seq<ItemV>,
    pub updated_at: u128,
}

/// A finder over the applications installed on the host. The cache holds the
/// result of the last successful enumeration; `updated_at` is the staleness
/// marker, in milliseconds since the Unix epoch.
pub struct ApplicationFinder {
    cache: Vec<Item>,
    updated_at: u128,
}

impl View for ApplicationFinder {
    type V = ApplicationFinderV;

    closed spec fn view(&self) -> ApplicationFinderV {
        ApplicationFinderV { cache: self.cache.deep_view(), updated_at: self.updated_at }
    }
}

/// Relies on the `applications` crate's `AppInfoContext`: `refresh_apps`
/// enumerates the applications installed on the host and `get_all_apps`
/// returns the enumerated descriptors. What comes back depends on the host
/// environment, so nothing is promised of it; `None` reports an enumeration
/// failure. Caution: the crate itself can panic while parsing a malformed
/// desktop entry or an unset HOME, which escapes this wrapper.
#[verifier::external_body]
fn enumerate_apps() -> (r: Option<Vec<AppEntry>>) {
    let mut ctx = applications::AppInfoContext::new(vec![]);
    match ctx.refresh_apps() {
        Ok(()) => Some(
            ctx.get_all_apps().into_iter().map(
                |a| AppEntry {
                    name: a.name,
                    exec_path: a.app_path_exe.map(|p| p.to_string_lossy().into_owned()),
                    icon_path: a.icon_path.map(|p| p.to_string_lossy().into_owned()),
                    desktop_path: a.app_desktop_path.to_string_lossy().into_owned(),
                },
            ).collect(),
        ),
        Err(_) => None,
    }
}

/// The enumerated descriptors, each wrapped as an `App` item.
pub open spec fn as_app_items(entries: Seq<AppEntryV>) -> Seq<ItemV> {
    entries.map_values(|e: AppEntryV| ItemV::App(e))
}

/// Wrap each enumerated descriptor as an `App` item: a complete,
/// order-preserving, element-wise map, inventing and dropping nothing.
pub fn to_items(entries: Vec<AppEntry>) -> (r: Vec<Item>)
    ensures
        r.deep_view() == as_app_items(entries.deep_view()),
        r.deep_view().len() == entries.deep_view().len(),
        forall|i: int|
            0 <= i < entries.deep_view().len() ==> r.deep_view()[i] == ItemV::App(
                entries.deep_view()[i],
            ),
{
    let mut items: Vec<Item> = Vec::new();
    let mut k: usize = 0;
    while k < entries.len()
        invariant
            k <= entries.len(),
            items.len() == k,
            forall|i: int|
                0 <= i < k ==> items.deep_view()[i] == ItemV::App(entries.deep_view()[i]),
        decreases entries.len() - k,
    {
        let ghost pre = items.deep_view();
        items.push(Item::App(entries[k].clone()));
        k += 1;
        proof {
            assert(items.deep_view() =~= pre.push(ItemV::App(entries.deep_view()[k - 1])));
        }
    }
    proof {
        assert(items.deep_view() =~= as_app_items(entries.deep_view()));
    }
    items
}

impl ApplicationFinder {
    /// A fresh application finder with an empty cache.
    pub fn new() -> (r: Self)
        ensures
            r@ == (ApplicationFinderV { cache: Seq::empty(), updated_at: 0 }),
    {
        let r = ApplicationFinder { cache: Vec::new(), updated_at: 0 };
        proof {
            assert(r@.cache =~= Seq::<ItemV>::empty());
        }
        r
    }

    /// Enumerate the installed applications, fail-soft: `None` when the host
    /// listing failed, otherwise exactly the enumerated descriptors, each
    /// wrapped as an `App` item by `to_items`, in enumeration order.
    pub fn load() -> (r: Option<Vec<Item>>)
        ensures
            (match r {
                Some(v) => exists|entries: Seq<AppEntryV>| v.deep_view() == as_app_items(entries),
                None => true,
            }),
    {
        match enumerate_apps() {
            Some(entries) => {
                let ghost es = entries.deep_view();
                let items = to_items(entries);
                proof {
                    assert(items.deep_view() == as_app_items(es));
                }
                Some(items)
            },
            None => None,
        }
    }

    /// Take the outcome of one enumeration into the finder: a successful
    /// enumeration replaces the cache wholesale and refreshes the timestamp;
    /// a failed one leaves the finder exactly as it was.
    pub fn apply_refresh(&mut self, fetched: Option<Vec<Item>>, stamp: u128)
        ensures
            (match fetched {
                Some(items) => final(self)@ == (ApplicationFinderV {
                    cache: items.deep_view(),
                    updated_at: stamp,
                }),
                None => final(self)@ == old(self)@,
            }),
    {
        match fetched {
            Some(items) => {
                self.cache = items;
                self.updated_at = stamp;
            },
            None => {},
        }
    }
}

impl Find for ApplicationFinder {
    open spec fn results_spec(&self, query: Seq<char>) -> Seq<ItemV> {
        self@.cache
    }

    open spec fn refresh_frame(pre: &Self, post: &Self) -> bool {
        true
    }

    fn init(&mut self) {
        self.update();
    }

    fn update(&mut self) {
        let fetched = Self::load();
        let stamp = now();
        self.apply_refresh(fetched, stamp);
    }

    fn search(&self, query: &str) -> (r: Vec<Item>) {
        let mut r: Vec<Item> = Vec::new();
        let mut k: usize = 0;
        while k < self.cache.len()
            invariant
                k <= self.cache.len(),
                r.deep_view() == self@.cache.subrange(0, k as int),
            decreases self.cache.len() - k,
        {
            let ghost prefix = r.deep_view();
            r.push(self.cache[k].clone());
            k += 1;
            proof {
                assert(r.deep_view() =~= prefix.push(self@.cache[k - 1]));
                assert(self@.cache.subrange(0, k as int) =~= self@.cache.subrange(
                    0,
                    k as int - 1,
                ).push(self@.cache[k - 1]));
            }
        }
        proof {
            assert(self@.cache.subrange(0, self.cache.len() as int) =~= self@.cache);
        }
        r
    }
}

/// Mathematical model of a finder, one case per variant.
pub enum FinderV {
    EmptyFinder,
    ApplicationFinder(ApplicationFinderV),
}

/// The closed sum of finder variants. The dispatcher only depends on the
/// {init, update, search} capability, never on which variant it holds.
pub enum Finder {
    EmptyFinder(EmptyFinder),
    ApplicationFinder(ApplicationFinder),
}

impl View for Finder {
    type V = FinderV;

    open spec fn view(&self) -> FinderV {
        match self {
            Finder::EmptyFinder(_) => FinderV::EmptyFinder,
            Finder::ApplicationFinder(f) => FinderV::ApplicationFinder(f@),
        }
    }
}

impl DeepView for Finder {
    type V = FinderV;

    open spec fn deep_view(&self) -> FinderV {
        self.view()
    }
}

/// What `search` returns on each finder variant: the empty finder has
/// nothing; the application finder hands out its whole cache, unfiltered
/// (filtering and ranking happen one layer up, in the dispatcher).
pub open spec fn finder_results(f: FinderV, query: Seq<char>) -> Seq<ItemV> {
    match f {
        FinderV::EmptyFinder => Seq::empty(),
        FinderV::ApplicationFinder(a) => a.cache,
    }
}

/// What a refresh may change on each variant: an empty finder not at all; an
/// application finder stays an application finder, its cache refreshed
/// against the host environment.
pub open spec fn finder_frame(pre: FinderV, post: FinderV) -> bool {
    match pre {
        FinderV::EmptyFinder => post == pre,
        FinderV::ApplicationFinder(_) => post is ApplicationFinder,
    }
}

impl Finder {
    /// One-time setup of the held variant; performs the first refresh.
    pub fn init(&mut self)
        ensures
            finder_frame(old(self)@, final(self)@),
    {
        match self {
            Finder::EmptyFinder(finder) => finder.init(),
            Finder::ApplicationFinder(finder) => finder.init(),
        }
    }

    /// Refresh the held variant's cache against the host environment.
    pub fn update(&mut self)
        ensures
            finder_frame(old(self)@, final(self)@),
    {
        match self {
            Finder::EmptyFinder(finder) => finder.update(),
            Finder::ApplicationFinder(finder) => finder.update(),
        }
    }

    /// Pure read of the held variant's cache.
    pub fn search(&self, query: &str) -> (r: Vec<Item>)
        ensures
            r.deep_view() == finder_results(self@, query@),
    {
        match self {
            Finder::EmptyFinder(finder) => finder.search(query),
            Finder::ApplicationFinder(finder) => finder.search(query),
        }
    }
}

/// `search` is a pure read of the finder's state: what it returns is the
/// cache of the last successful enumeration (nothing, for the empty finder),
/// whatever the query, so repeated calls without an intervening `update`
/// return the same items.
pub proof fn lemma_search_reads_cache(f: FinderV, q1: Seq<char>, q2: Seq<char>)
    ensures
        finder_results(f, q1) == finder_results(f, q2),
        (match f {
            FinderV::EmptyFinder => finder_results(f, q1) == Seq::<ItemV>::empty(),
            FinderV::ApplicationFinder(a) => finder_results(f, q1) == a.cache,
        }),
{
}

impl Default for Finder {
    fn default() -> (r: Self)
        ensures
            r@ == FinderV::EmptyFinder,
    {
        Finder::EmptyFinder(EmptyFinder::default())
    }
}

} // verus!
