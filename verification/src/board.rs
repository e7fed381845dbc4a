//! The board-format model: named layouts of optional button slots and a
//! name-to-location image table.

use vstd::prelude::*;

use crate::button::Button;
use crate::text::str_eq;

verus! {

/// A single grid of optional button slots; slot `(col, row)` lives at index
/// `row*cols + col`.
#[derive(Clone, Debug, PartialEq)]
pub struct Layout {
    pub name: String,
    pub default: bool,
    pub immediate: bool,
    pub rows: usize,
    pub cols: usize,
    pub buttons: Vec<Option<Button>>,
}

/// A board: metadata, an image table keyed by image name, and the layouts.
#[derive(Clone, Debug)]
pub struct Board {
    pub format: String,
    pub format_version: usize,
    pub name: String,
    pub description: String,
    pub images: Vec<(String, String)>,
    pub layouts: Vec<Layout>,
}

/// First-match lookup in the image table from position `p` on.
pub open spec fn image_lookup_at(imgs: Seq<(String, String)>, name: Seq<char>, p: int) -> Option<
    Seq<char>,
>
    decreases imgs.len() - p when 0 <= p <= imgs.len()
{
    if p >= imgs.len() {
        None
    } else if imgs[p].0@ == name {
        Some(imgs[p].1@)
    } else {
        image_lookup_at(imgs, name, p + 1)
    }
}

/// The location stored for an image name, if any.
pub open spec fn image_lookup(imgs: Seq<(String, String)>, name: Seq<char>) -> Option<Seq<char>> {
    image_lookup_at(imgs, name, 0)
}

impl Layout {
    /// The button of slot `(col, row)`; the slot must lie within the stored
    /// buttons.
    pub fn get_button(&self, col: usize, row: usize) -> (r: Option<&Button>)
        requires
            row * self.cols + col < self.buttons@.len(),
        ensures
            match r {
                Some(b) => self.buttons@[row * self.cols + col] == Some(*b),
                None => self.buttons@[row * self.cols + col] is None,
            },
    {
        let _len = self.buttons.len();
        self.buttons[row * self.cols + col].as_ref()
    }
}

impl Board {
    /// Walks the image table from position `p` on.
    fn image_find_at(&self, name: &str, p: usize) -> (r: Option<&String>)
        requires
            p <= self.images@.len(),
        ensures
            match r {
                Some(v) => image_lookup_at(self.images@, name@, p as int) == Some(v@),
                None => image_lookup_at(self.images@, name@, p as int) is None,
            },
        decreases self.images@.len() - p,
    {
        if p == self.images.len() {
            None
        } else if str_eq(self.images[p].0.as_str(), name) {
            Some(&self.images[p].1)
        } else {
            self.image_find_at(name, p + 1)
        }
    }

    /// The stored location of image `name`, or `None` when the table has no
    /// entry for it.
    pub fn get_image_location(&self, name: &str) -> (r: Option<&String>)
        ensures
            match r {
                Some(v) => image_lookup(self.images@, name@) == Some(v@),
                None => image_lookup(self.images@, name@) is None,
            },
    {
        self.image_find_at(name, 0)
    }

    /// Index of the first layout flagged as the default one. The caller must
    /// hand a board that has one: a board without a default layout is
    /// invalid.
    pub fn default_layout(&self) -> (r: usize)
        requires
            exists|i: int| 0 <= i < self.layouts@.len() && (#[trigger] self.layouts@[i]).default,
        ensures
            r < self.layouts@.len(),
            self.layouts@[r as int].default,
            forall|j: int| 0 <= j < r ==> !(#[trigger] self.layouts@[j]).default,
    {
        let n = self.layouts.len();
        let mut i: usize = 0;
        while i < n
            invariant
                n == self.layouts@.len(),
                i <= n,
                forall|j: int| 0 <= j < i ==> !(#[trigger] self.layouts@[j]).default,
                exists|k: int| 0 <= k < self.layouts@.len() && (#[trigger] self.layouts@[k]).default,
            decreases n - i,
        {
            if self.layouts[i].default {
                return i;
            }
            i += 1;
        }
        proof {
            assert(false);
        }
        0
    }
}

} // verus!
