//! Extensions: the named, optionally trigger-keyed bindings of one finder
//! each into the registry. An extension is a pure data holder; all behaviour
//! is delegated to its owned finder.

use vstd::prelude::*;

use crate::finders::{Finder, FinderV};

verus! {

/// Mathematical model of an extension.
pub struct ExtensionV {
    pub id: Seq<char>,
    pub name: Seq<char>,
    pub key: Option<Seq<char>>,
    pub description: Option<Seq<char>>,
    pub finder: FinderV,
    pub max_time: Option<u32>,
}

/// One searchable source: a stable identifier, a display name, an optional
/// trigger keyword (absence means "always eligible, no explicit prefix
/// required"), an optional description, exactly one finder, and an optional,
/// currently advisory, per-search time budget in milliseconds.
pub struct Extension {
    pub id: String,
    pub name: String,
    pub key: Option<String>,
    pub description: Option<String>,
    pub finder: Finder,
    pub max_time: Option<u32>,
}

impl View for Extension {
    type V = ExtensionV;

    open spec fn view(&self) -> ExtensionV {
        ExtensionV {
            id: self.id@,
            name: self.name@,
            key: self.key.deep_view(),
            description: self.description.deep_view(),
            finder: self.finder@,
            max_time: self.max_time,
        }
    }
}

impl DeepView for Extension {
    type V = ExtensionV;

    open spec fn deep_view(&self) -> ExtensionV {
        self.view()
    }
}

/// Relies on `uuid`'s `Uuid::new_v4` and its hyphenated formatting: a fresh
/// random version-4 identifier rendered in the 36-character hyphenated form.
/// The value is random, so only its length is promised.
#[verifier::external_body]
fn new_id() -> (r: String)
    ensures
        r@.len() == 36,
{
    uuid::Uuid::new_v4().hyphenated().to_string()
}

impl Extension {
    /// Bind a finder under a fresh identifier, stable for the process
    /// lifetime; every other attribute is stored as supplied.
    pub fn new(
        name: String,
        key: Option<String>,
        description: Option<String>,
        finder: Finder,
        max_time: Option<u32>,
    ) -> (r: Self)
        ensures
            r@.id.len() == 36,
            r@.name == name@,
            r@.key == key.deep_view(),
            r@.description == description.deep_view(),
            r@.finder == finder@,
            r@.max_time == max_time,
    {
        Self { id: new_id(), name, key, description, finder, max_time }
    }
}

impl Default for Extension {
    fn default() -> (r: Self)
        ensures
            r@ == (ExtensionV {
                id: Seq::<char>::empty(),
                name: Seq::<char>::empty(),
                key: None,
                description: None,
                finder: FinderV::EmptyFinder,
                max_time: None,
            }),
    {
        Self {
            id: String::new(),
            name: String::new(),
            key: None,
            description: None,
            finder: Finder::default(),
            max_time: None,
        }
    }
}

} // verus!
