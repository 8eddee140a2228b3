//! Searchable result items. Today a single variant: an installed
//! application, held as the plain values the search logic and the
//! presentation layer read: its display name, what it is launched from, its
//! icon, and its desktop entry.

use vstd::prelude::*;

verus! {

/// Mathematical model of an application entry.
pub struct AppEntryV {
    pub name: Seq<char>,
    pub exec_path: Option<Seq<char>>,
    pub icon_path: Option<Seq<char>>,
    pub desktop_path: Seq<char>,
}

/// One installed application: its display name, the path it is launched
/// from (when the host lists one), its icon (when the host lists one), and
/// its desktop entry.
pub struct AppEntry {
    pub name: String,
    pub exec_path: Option<String>,
    pub icon_path: Option<String>,
    pub desktop_path: String,
}

impl View for AppEntry {
    type V = AppEntryV;

    open spec fn view(&self) -> AppEntryV {
        AppEntryV {
            name: self.name@,
            exec_path: self.exec_path.deep_view(),
            icon_path: self.icon_path.deep_view(),
            desktop_path: self.desktop_path@,
        }
    }
}

impl DeepView for AppEntry {
    type V = AppEntryV;

    open spec fn deep_view(&self) -> AppEntryV {
        self.view()
    }
}

fn clone_opt_string(o: &Option<String>) -> (r: Option<String>)
    ensures
        r == *o,
{
    match o {
        Some(s) => Some(s.clone()),
        None => None,
    }
}

impl Clone for AppEntry {
    fn clone(&self) -> (r: Self)
        ensures
            r == *self,
    {
        AppEntry {
            name: self.name.clone(),
            exec_path: clone_opt_string(&self.exec_path),
            icon_path: clone_opt_string(&self.icon_path),
            desktop_path: self.desktop_path.clone(),
        }
    }
}

impl AppEntry {
    pub fn new(
        name: String,
        exec_path: Option<String>,
        icon_path: Option<String>,
        desktop_path: String,
    ) -> (r: AppEntry)
        ensures
            r@ == (AppEntryV {
                name: name@,
                exec_path: exec_path.deep_view(),
                icon_path: icon_path.deep_view(),
                desktop_path: desktop_path@,
            }),
    {
        AppEntry { name, exec_path, icon_path, desktop_path }
    }
}

/// Mathematical model of an item, one case per item kind.
pub enum ItemV {
    App(AppEntryV),
}

/// A searchable result. The sum is closed today but new kinds of result
/// (files, calculations, web queries) are added as further variants; each
/// must supply a label for the ranking step.
pub enum Item {
    App(AppEntry),
}

impl View for Item {
    type V = ItemV;

    open spec fn view(&self) -> ItemV {
        match self {
            Item::App(a) => ItemV::App(a@),
        }
    }
}

impl DeepView for Item {
    type V = ItemV;

    open spec fn deep_view(&self) -> ItemV {
        self.view()
    }
}

impl Clone for Item {
    fn clone(&self) -> (r: Self)
        ensures
            r == *self,
    {
        match self {
            Item::App(a) => Item::App(a.clone()),
        }
    }
}

/// The human-readable label an item is ranked and displayed by.
pub open spec fn label_of(it: ItemV) -> Seq<char> {
    match it {
        ItemV::App(a) => a.name,
    }
}

impl Item {
    /// The label the ranking step scores this item by.
    pub fn label(&self) -> (r: &String)
        ensures
            r@ == label_of(self@),
    {
        match self {
            Item::App(a) => &a.name,
        }
    }
}

} // verus!
