//! Search core of a keyboard-driven application launcher: a registry of
//! extensions, each owning a finder with a cache of items, and a dispatcher
//! that routes raw input text to a trigger-keyed extension or to the default
//! merged search, fuzzy-scores the candidates and returns them ranked.

pub mod config;
pub mod extension;
pub mod finders;
pub mod fuzzy;
pub mod item;
pub mod ranking;
pub mod registry;
pub mod utils;

pub use config::Config;
pub use config::Css;
pub use config::Edge;
pub use extension::Extension;
pub use extension::ExtensionV;
pub use finders::ApplicationFinder;
pub use finders::as_app_items;
pub use finders::to_items;
pub use finders::ApplicationFinderV;
pub use finders::EmptyFinder;
pub use finders::Find;
pub use finders::Finder;
pub use finders::FinderV;
pub use finders::finder_frame;
pub use finders::finder_results;
pub use finders::lemma_search_reads_cache;
pub use fuzzy::fuzzy_score;
pub use fuzzy::lower_of;
pub use item::AppEntry;
pub use item::AppEntryV;
pub use item::Item;
pub use item::ItemV;
pub use ranking::Match;
pub use ranking::MatchV;
pub use registry::Registry;
pub use registry::results_of;
pub use registry::search_results;
pub use registry::visible;
pub use utils::now;
