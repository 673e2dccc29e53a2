//! The views of an analysed document that a user can choose from.
use vstd::prelude::*;

verus! {

/// The view that is shown.
#[derive(Clone, Copy, Debug, PartialEq, Eq, Structural)]
pub enum AppView {
    /// The opening view.
    Welcome,
    /// The findings of the structural checks.
    Heuristics,
    /// The summary of the document, the first view once it is analysed.
    Summary,
    /// One object.
    ObjectView,
    /// One page.
    PageView,
    /// The trailer of the document.
    Trailer,
}

/// What is shown of an object.
#[derive(Clone, Copy, Debug, PartialEq, Eq, Structural)]
pub enum ObjectSubView {
    /// The value of the object.
    Decoded,
    /// The payload of a stream as stored.
    HexCompressed,
    /// The payload of a stream after decoding.
    HexUncompressed,
    /// The classified content of a stream.
    Content,
}

/// What is shown of a page.
#[derive(Clone, Copy, Debug, PartialEq, Eq, Structural)]
pub enum PageSubView {
    /// The entries of the page.
    Decoded,
    /// The text of the page.
    TextExtracted,
    /// The operators of the page's content.
    Operations,
}

impl Default for AppView {
    fn default() -> (r: Self)
        ensures
            r == AppView::Welcome,
    {
        AppView::Welcome
    }
}

impl Default for ObjectSubView {
    fn default() -> (r: Self)
        ensures
            r == ObjectSubView::Decoded,
    {
        ObjectSubView::Decoded
    }
}

impl Default for PageSubView {
    fn default() -> (r: Self)
        ensures
            r == PageSubView::Decoded,
    {
        PageSubView::Decoded
    }
}

impl AppView {
    /// The view behind an entry of the menu: 0 the summary, 1 the findings,
    /// 2 the trailer, 3 the object view; any other number the opening view.
    pub open spec fn of_menu_entry(view_id: usize) -> AppView {
        if view_id == 0 {
            AppView::Summary
        } else if view_id == 1 {
            AppView::Heuristics
        } else if view_id == 2 {
            AppView::Trailer
        } else if view_id == 3 {
            AppView::ObjectView
        } else {
            AppView::Welcome
        }
    }

    /// The view behind an entry of the menu.
    pub fn from_menu_entry(view_id: usize) -> (r: AppView)
        ensures
            r == Self::of_menu_entry(view_id),
    {
        match view_id {
            0 => AppView::Summary,
            1 => AppView::Heuristics,
            2 => AppView::Trailer,
            3 => AppView::ObjectView,
            _ => AppView::Welcome,
        }
    }
}

impl PageSubView {
    /// The words that name the choice.
    pub open spec fn label_text(self) -> Seq<char> {
        match self {
            PageSubView::Decoded => "Decoded"@,
            PageSubView::TextExtracted => "Text extracted"@,
            PageSubView::Operations => "Operations"@,
        }
    }

    /// The words that name the choice.
    pub fn label(&self) -> (r: &'static str)
        ensures
            r@ == self.label_text(),
    {
        match self {
            PageSubView::Decoded => "Decoded",
            PageSubView::TextExtracted => "Text extracted",
            PageSubView::Operations => "Operations",
        }
    }
}

} // verus!
