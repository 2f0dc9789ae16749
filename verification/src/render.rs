//! The result renderer: one registry package record becomes one
//! display-ready result item.  The mapping is pure and total; an absent
//! optional field only omits its output fragment.

use vstd::prelude::*;
use vstd::string::StringExecFns;
use crate::escape::{
    code_spans, collapse_ws, collapse_whitespace, encode_minimal, encode_with_code, escape_text,
};
use crate::package::{button_views, opt_view, package_view, rendered_view, Button, RawPackage,
    RenderedResult};

verus! {

/// The registry's own page for a package.
pub open spec fn crate_page_url(name: Seq<char>) -> Seq<char> {
    "https://crates.io/crates/"@ + name
}

/// The mirror site's page for a package.
pub open spec fn librs_page_url(name: Seq<char>) -> Seq<char> {
    "https://lib.rs/crates/"@ + name
}

/// The documentation page constructed when a package declares none.
pub open spec fn default_docs_url(name: Seq<char>) -> Seq<char> {
    "https://docs.rs/crate/"@ + name
}

/// The documentation link of a record: the declared one, else the
/// constructed default.
pub open spec fn doc_url_spec(p: RawPackage) -> Seq<char> {
    match p.documentation_url {
        Some(u) => u@,
        None => default_docs_url(p.name@),
    }
}

/// The plain-text title of a record: name, space, version.
pub open spec fn title_spec(p: RawPackage) -> Seq<char> {
    p.name@ + seq![' '] + p.latest_version@
}

/// The HTML body of a record: bolded escaped name and version, then, when
/// a description is present, a newline and the collapsed description with
/// code spans preserved.
pub open spec fn body_spec(p: RawPackage) -> Seq<char> {
    "<b>"@ + escape_text(p.name@) + "</b> ("@ + escape_text(p.latest_version@) + ")"@ + (match p
        .description {
        Some(d) => seq!['\n'] + code_spans(collapse_ws(d@)),
        None => Seq::empty(),
    })
}

/// The button row of a record, in its fixed order: `info`, `lib.rs`,
/// `doc`, then `repo` only when a repository was declared.
pub open spec fn buttons_spec(p: RawPackage) -> Seq<(Seq<char>, Seq<char>)> {
    seq![
        ("info"@, crate_page_url(p.name@)),
        ("lib.rs"@, librs_page_url(p.name@)),
        ("doc"@, doc_url_spec(p)),
    ] + (match p.repository_url {
        Some(u) => seq![("repo"@, u@)],
        None => Seq::empty(),
    })
}

/// What rendering promises: every field of the result is the stated
/// function of the record's contents.
pub open spec fn render_post(p: RawPackage, r: RenderedResult) -> bool {
    &&& r.id@ == p.id@
    &&& r.title@ == title_spec(p)
    &&& r.body@ == body_spec(p)
    &&& button_views(r.buttons@) == buttons_spec(p)
    &&& r.preview_disabled
}

/// Renders one package record into one display-ready result item.
pub fn render(p: RawPackage) -> (r: RenderedResult)
    ensures
        render_post(p, r),
{
    let ghost gp = p;
    let RawPackage { id, name, description, latest_version, documentation_url, repository_url } =
        p;

    let mut title = name.clone();
    title.push(' ');
    title.append(latest_version.as_str());
    proof {
        assert(title@ =~= title_spec(gp));
    }

    let name_esc = encode_minimal(name.as_str());
    let ver_esc = encode_minimal(latest_version.as_str());
    let mut body = String::from_str("<b>");
    body.append(name_esc.as_str());
    body.append("</b> (");
    body.append(ver_esc.as_str());
    body.append(")");
    match &description {
        Some(d) => {
            body.push('\n');
            let collapsed = collapse_whitespace(d.as_str());
            encode_with_code(&mut body, collapsed.as_str());
            proof {
                assert(body@ =~= body_spec(gp));
            }
        },
        None => {
            proof {
                assert(body@ =~= body_spec(gp));
            }
        },
    }

    let mut crate_url = String::from_str("https://crates.io/crates/");
    crate_url.append(name.as_str());
    let mut lib_rs_url = String::from_str("https://lib.rs/crates/");
    lib_rs_url.append(name.as_str());
    let doc_url = match documentation_url {
        Some(u) => u,
        None => {
            let mut d = String::from_str("https://docs.rs/crate/");
            d.append(name.as_str());
            d
        },
    };

    let mut buttons: Vec<Button> = Vec::new();
    buttons.push(Button { label: String::from_str("info"), url: crate_url });
    buttons.push(Button { label: String::from_str("lib.rs"), url: lib_rs_url });
    buttons.push(Button { label: String::from_str("doc"), url: doc_url });
    match repository_url {
        Some(u) => {
            buttons.push(Button { label: String::from_str("repo"), url: u });
        },
        None => {},
    }
    proof {
        assert(button_views(buttons@) =~= buttons_spec(gp));
    }

    RenderedResult { id, title, body, buttons, preview_disabled: true }
}

/// Whether `c` may appear in a registry package name: an ASCII letter or
/// digit, `-` or `_`.
pub open spec fn is_name_char(c: char) -> bool {
    crate::escape::is_ascii_alnum(c) || c == '-' || c == '_'
}

/// A text of name characters passes HTML escaping unchanged, so the page
/// URLs built from a registry name hold the name as it is.
pub proof fn lemma_name_needs_no_escape(s: Seq<char>)
    requires
        forall|k: int| 0 <= k < s.len() ==> is_name_char(s[k]),
    ensures
        escape_text(s) == s,
    decreases s.len(),
{
    if s.len() > 0 {
        assert(is_name_char(s[0]));
        assert(forall|k: int| 0 <= k < s.drop_first().len() ==> s.drop_first()[k] == s[k + 1]);
        lemma_name_needs_no_escape(s.drop_first());
        assert(seq![s[0]] + s.drop_first() =~= s);
    } else {
        assert(escape_text(s) =~= s);
    }
}

/// Rendering is pure: two records with the same contents render to results
/// with the same contents, whatever the rendering produced them.
pub proof fn lemma_render_pure(
    p1: RawPackage,
    p2: RawPackage,
    r1: RenderedResult,
    r2: RenderedResult,
)
    requires
        package_view(p1) == package_view(p2),
        render_post(p1, r1),
        render_post(p2, r2),
    ensures
        rendered_view(r1) == rendered_view(r2),
{
    assert(p1.id@ == p2.id@);
    assert(p1.name@ == p2.name@);
    assert(opt_view(p1.description) == opt_view(p2.description));
    assert(p1.latest_version@ == p2.latest_version@);
    assert(opt_view(p1.documentation_url) == opt_view(p2.documentation_url));
    assert(opt_view(p1.repository_url) == opt_view(p2.repository_url));
    assert(title_spec(p1) == title_spec(p2));
    match (p1.description, p2.description) {
        (Some(d1), Some(d2)) => {
            assert(d1@ == d2@);
            assert(body_spec(p1) == body_spec(p2));
        },
        (None, None) => {
            assert(body_spec(p1) == body_spec(p2));
        },
        _ => {
            assert(false);
        },
    }
    match (p1.documentation_url, p2.documentation_url) {
        (Some(u1), Some(u2)) => {
            assert(doc_url_spec(p1) == doc_url_spec(p2));
        },
        (None, None) => {
            assert(doc_url_spec(p1) == doc_url_spec(p2));
        },
        _ => {
            assert(false);
        },
    }
    match (p1.repository_url, p2.repository_url) {
        (Some(u1), Some(u2)) => {
            assert(u1@ == u2@);
            assert(buttons_spec(p1) == buttons_spec(p2));
        },
        (None, None) => {
            assert(buttons_spec(p1) == buttons_spec(p2));
        },
        _ => {
            assert(false);
        },
    }
}

/// The button order is invariant: `info`, `lib.rs`, `doc`, and `repo` last
/// exactly when a repository was declared, never otherwise.
pub proof fn lemma_button_order(p: RawPackage)
    ensures
        buttons_spec(p).len() == (if p.repository_url is Some {
            4int
        } else {
            3int
        }),
        buttons_spec(p)[0].0 == "info"@,
        buttons_spec(p)[1].0 == "lib.rs"@,
        buttons_spec(p)[2].0 == "doc"@,
        p.repository_url is Some ==> buttons_spec(p).last() == ("repo"@, p.repository_url->0@),
        forall|k: int|
            0 <= k < buttons_spec(p).len() ==> (buttons_spec(p)[k].0 == "repo"@ <==> (
            p.repository_url is Some && k == 3)),
{
    reveal_strlit("info");
    reveal_strlit("lib.rs");
    reveal_strlit("doc");
    reveal_strlit("repo");
    assert("info"@[0] == 'i' && "repo"@[0] == 'r');
    assert("info"@ != "repo"@);
    assert("lib.rs"@.len() == 6 && "repo"@.len() == 4);
    assert("lib.rs"@ != "repo"@);
    assert("doc"@.len() == 3);
    assert("doc"@ != "repo"@);
    match p.repository_url {
        Some(u) => {
            assert(buttons_spec(p).len() == 4);
        },
        None => {
            assert(buttons_spec(p).len() == 3);
        },
    }
}

/// An absent description leaves the body at exactly its first line; an
/// absent repository leaves exactly the three fixed buttons.
pub proof fn lemma_absent_fields_omit_fragments(p: RawPackage, r: RenderedResult)
    requires
        render_post(p, r),
    ensures
        p.description is None ==> r.body@ == "<b>"@ + escape_text(p.name@) + "</b> ("@
            + escape_text(p.latest_version@) + ")"@,
        p.repository_url is None ==> button_views(r.buttons@).len() == 3,
{
    if p.description is None {
        assert(body_spec(p) =~= "<b>"@ + escape_text(p.name@) + "</b> ("@ + escape_text(
            p.latest_version@,
        ) + ")"@);
    }
    if p.repository_url is None {
        assert(buttons_spec(p).len() == 3);
    }
}

} // verus!
