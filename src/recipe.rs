//! The catalog record.
use vstd::prelude::*;

verus! {

/// One selectable recipe: a title, a page range of the reference book, and
/// whether a picture is shown for it.
#[derive(Debug, Clone)]
pub struct Recipe {
    pub id: Option<i32>,
    pub name: String,
    pub page_start: i32,
    pub page_end: i32,
    pub has_picture: bool,
}

/// Mathematical form of a `Recipe`.
pub struct RecipeView {
    pub id: Option<i32>,
    pub name: Seq<char>,
    pub page_start: i32,
    pub page_end: i32,
    pub has_picture: bool,
}

impl View for Recipe {
    type V = RecipeView;

    open spec fn view(&self) -> RecipeView {
        RecipeView {
            id: self.id,
            name: self.name@,
            page_start: self.page_start,
            page_end: self.page_end,
            has_picture: self.has_picture,
        }
    }
}

impl Recipe {
    /// A field-by-field copy.
    pub fn copied(&self) -> (r: Recipe)
        ensures
            r@ == self@,
    {
        Recipe {
            id: self.id,
            name: self.name.clone(),
            page_start: self.page_start,
            page_end: self.page_end,
            has_picture: self.has_picture,
        }
    }
}

} // verus!
