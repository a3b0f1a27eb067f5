//! The registry of frame contents that a frame can be switched to.

use vstd::prelude::*;

verus! {

/// `egui::Color32`, carried through the library as an opaque value.
#[verifier::external_type_specification]
#[verifier::external_body]
pub struct ExColor32(egui::Color32);

/// One kind of frame content: how it is shown in menus, and its index in the
/// registry of frame contents.
#[derive(Clone, Copy)]
pub struct FrameTypeInfo {
    pub icon: &'static str,
    pub name: &'static str,
    pub index: usize,
}

/// A named, coloured group of frame contents.
pub struct SelectorCategory {
    pub name: &'static str,
    pub color: egui::Color32,
    pub frames: Vec<FrameTypeInfo>,
}

impl FrameTypeInfo {
    /// A kind of frame content with the given name, icon and index.
    pub fn new(name: &'static str, icon: &'static str, index: usize) -> (info: FrameTypeInfo)
        ensures
            info.name == name,
            info.icon == icon,
            info.index == index,
    {
        FrameTypeInfo { name, icon, index }
    }
}

/// The menu of frame contents, category by category.
pub struct SelectorUi {
    pub categories: Vec<SelectorCategory>,
}

impl SelectorUi {
    /// The entry at place `frame` of category `category` has the index
    /// `index`.
    pub open spec fn has_index_at(self, index: usize, category: int, frame: int) -> bool {
        &&& 0 <= category < self.categories@.len()
        &&& 0 <= frame < self.categories@[category].frames@.len()
        &&& self.categories@[category].frames@[frame].index == index
    }

    /// The entry at place `frame` of category `category` is the first with
    /// the index `index`: no earlier category holds one, nor does this
    /// category at an earlier place.
    pub open spec fn is_first_with_index(self, index: usize, category: int, frame: int) -> bool {
        &&& self.has_index_at(index, category, frame)
        &&& forall|c: int, f: int|
            (c < category || (c == category && f < frame)) ==> !#[trigger] self.has_index_at(
                index,
                c,
                f,
            )
    }

    /// The length of the longest category: as long as each category at
    /// least, and as long as one of them, or zero where there is none.
    pub fn max_category_len(&self) -> (longest: usize)
        ensures
            forall|c: int|
                0 <= c < self.categories@.len() ==> (#[trigger] self.categories@[c]).frames@.len()
                    <= longest,
            self.categories@.len() == 0 ==> longest == 0,
            self.categories@.len() > 0 ==> exists|c: int|
                0 <= c < self.categories@.len() && (#[trigger] self.categories@[c]).frames@.len()
                    == longest,
    {
        let mut longest: usize = 0;
        let mut c: usize = 0;
        while c < self.categories.len()
            invariant
                c <= self.categories.len(),
                forall|i: int|
                    0 <= i < c ==> (#[trigger] self.categories@[i]).frames@.len() <= longest,
                c == 0 ==> longest == 0,
                c > 0 ==> exists|i: int|
                    0 <= i < c && (#[trigger] self.categories@[i]).frames@.len() == longest,
            decreases self.categories.len() - c,
        {
            let len = self.categories[c].frames.len();
            if c == 0 || len > longest {
                longest = len;
            }
            c += 1;
        }
        longest
    }

    /// The entry shown in the row `row` of the column of `category`, or
    /// `None` where the category is shorter or there is no such category.
    pub fn cell_at(&self, category: usize, row: usize) -> (cell: Option<FrameTypeInfo>)
        ensures
            cell == if category < self.categories@.len() && row
                < self.categories@[category as int].frames@.len() {
                Some(self.categories@[category as int].frames@[row as int])
            } else {
                None
            },
    {
        if category < self.categories.len() && row < self.categories[category].frames.len() {
            Some(self.categories[category].frames[row])
        } else {
            None
        }
    }

    /// Finds the frame content with the given index: the first one, going
    /// through the categories in order.
    pub fn get_frame_info(&self, index: usize) -> (found: Option<FrameTypeInfo>)
        ensures
            match found {
                Some(info) => exists|c: int, f: int|
                    #[trigger] self.is_first_with_index(index, c, f) && info
                        == self.categories@[c].frames@[f],
                None => forall|c: int, f: int| !#[trigger] self.has_index_at(index, c, f),
            },
    {
        let mut c: usize = 0;
        while c < self.categories.len()
            invariant
                c <= self.categories.len(),
                forall|i: int, f: int| i < c ==> !#[trigger] self.has_index_at(index, i, f),
            decreases self.categories.len() - c,
        {
            let cat = &self.categories[c];
            let mut f: usize = 0;
            while f < cat.frames.len()
                invariant
                    c < self.categories.len(),
                    *cat == self.categories@[c as int],
                    f <= cat.frames.len(),
                    forall|i: int, f: int| i < c ==> !#[trigger] self.has_index_at(index, i, f),
                    forall|j: int| j < f ==> !#[trigger] self.has_index_at(index, c as int, j),
                decreases cat.frames.len() - f,
            {
                let frame = &cat.frames[f];
                if frame.index == index {
                    assert(self.is_first_with_index(index, c as int, f as int));
                    return Some(frame.clone());
                }
                f += 1;
            }
            c += 1;
        }
        None
    }
}

} // verus!
