//! The data the renderer works on: one registry package record, reduced to
//! plain values, and the display-ready result item built from it.

use vstd::prelude::*;

verus! {

/// One package record as the registry reports it.
pub struct RawPackage {
    /// Stable identifier, echoed back by the platform when a result is
    /// picked.
    pub id: String,
    /// Package name.  The registry restricts names to alphanumerics, `-`
    /// and `_`, so a name never needs escaping in a URL path segment; it
    /// may still need escaping inside HTML text.
    pub name: String,
    /// Free-form description, when the registry has one.
    pub description: Option<String>,
    /// Newest published version.
    pub latest_version: String,
    /// Documentation link, when one was declared for the package.
    pub documentation_url: Option<String>,
    /// Repository link, when one was declared for the package.
    pub repository_url: Option<String>,
}

/// One link button under a rendered result.
pub struct Button {
    /// The caption the platform shows.
    pub label: String,
    /// The link opened when the button is pressed.
    pub url: String,
}

/// A display-ready result item: what the platform needs to show one
/// package and act on its selection.
pub struct RenderedResult {
    /// Copied from the package record; opaque to this library.
    pub id: String,
    /// Plain-text title.
    pub title: String,
    /// HTML-markup message body.
    pub body: String,
    /// Link buttons, in their fixed display order.
    pub buttons: Vec<Button>,
    /// Always set: the body holds several links and no single page should
    /// be previewed.
    pub preview_disabled: bool,
}

/// The view of an optional string: the character sequence, when present.
pub open spec fn opt_view(o: Option<String>) -> Option<Seq<char>> {
    match o {
        Some(s) => Some(s@),
        None => None,
    }
}

/// The views of a button row: each button as its label and URL contents.
pub open spec fn button_views(bs: Seq<Button>) -> Seq<(Seq<char>, Seq<char>)> {
    bs.map_values(|b: Button| (b.label@, b.url@))
}

/// The views of a whole package record: what a record says, independent of
/// String identity.
pub open spec fn package_view(p: RawPackage) -> (
    Seq<char>,
    Seq<char>,
    Option<Seq<char>>,
    Seq<char>,
    Option<Seq<char>>,
    Option<Seq<char>>,
) {
    (
        p.id@,
        p.name@,
        opt_view(p.description),
        p.latest_version@,
        opt_view(p.documentation_url),
        opt_view(p.repository_url),
    )
}

/// The views of a whole rendered item.
pub open spec fn rendered_view(r: RenderedResult) -> (
    Seq<char>,
    Seq<char>,
    Seq<char>,
    Seq<(Seq<char>, Seq<char>)>,
    bool,
) {
    (r.id@, r.title@, r.body@, button_views(r.buttons@), r.preview_disabled)
}

} // verus!
