//! Window configuration values and the default style sheet. Reading and
//! writing them on disk is the surrounding application's business; the
//! library only holds the values and their defaults.

use vstd::prelude::*;

verus! {

/// Margin and anchoring of the overlay window towards one screen edge.
pub struct Edge {
    pub margin: i32,
    pub anchor: bool,
}

impl Default for Edge {
    fn default() -> (r: Self)
        ensures
            r.margin == 100,
            !r.anchor,
    {
        Edge { margin: 100, anchor: false }
    }
}

/// Geometry of the overlay window: its size and its relation to the four
/// screen edges.
pub struct Config {
    pub width: i32,
    pub height: i32,
    pub left: Edge,
    pub right: Edge,
    pub top: Edge,
    pub bottom: Edge,
}

impl Default for Config {
    fn default() -> (r: Self)
        ensures
            r.width == 800,
            r.height == 600,
            r.left.margin == 100 && !r.left.anchor,
            r.right.margin == 100 && !r.right.anchor,
            r.top.margin == 100 && !r.top.anchor,
            r.bottom.margin == 100 && !r.bottom.anchor,
    {
        Config {
            width: 800,
            height: 600,
            left: Edge::default(),
            right: Edge::default(),
            top: Edge::default(),
            bottom: Edge::default(),
        }
    }
}

/// The style sheet applied to the overlay window.
pub struct Css {}

impl Css {
    /// The stock style sheet used when the host has none configured.
    pub fn default() -> String {
        let s = "
            .transparente {
                background-color: rgba(0, 0, 0, 0);
                background-image: none;
            }
            #lila-listbox {
                border-radius: 10px;
            }
            .overlay {
                -gtk-render-background: false;
                background-clip: padding-box;
            }
            .mi-texto-bonito {
                color: white;
                font-size: 24px;
                background-color: rgba(0, 0, 0, 0.5);
                padding: 10px;
                border-radius: 5px;
            }
        ";
        s.to_owned()
    }
}

} // verus!
