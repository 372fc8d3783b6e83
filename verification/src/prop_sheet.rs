//! Property sheets: a builder collecting pages.

use vstd::prelude::*;

verus! {

/// A property sheet: a dialog of tabbed pages.
pub struct PropertySheet {}

/// One page of a property sheet.
pub struct PropertyPage {}

/// Collects the pages a property sheet is built from.
pub struct PropertySheetBuilder {
    pages: Vec<PropertyPageBuilder>,
}

/// Describes one page to be added to a sheet.
pub struct PropertyPageBuilder {}

impl PropertySheetBuilder {
    /// How many pages have been added.
    pub closed spec fn spec_page_count(&self) -> int {
        self.pages@.len() as int
    }

    /// How many pages have been added.
    pub fn page_count(&self) -> (r: usize)
        ensures
            r == self.spec_page_count(),
    {
        self.pages.len()
    }

    /// Add one page to the sheet.
    pub fn page(self, page: PropertyPageBuilder) -> (r: Self)
        requires
            self.spec_page_count() < usize::MAX,
        ensures
            r.spec_page_count() == self.spec_page_count() + 1,
    {
        let mut this = self;
        this.pages.push(page);
        this
    }
}

impl PropertySheet {
    /// Start building a sheet with no pages.
    pub fn builder() -> (r: PropertySheetBuilder)
        ensures
            r.spec_page_count() == 0,
    {
        PropertySheetBuilder { pages: Vec::with_capacity(10) }
    }
}

} // verus!
