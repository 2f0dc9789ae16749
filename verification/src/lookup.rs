//! The single-package lookup command: the explicit text command that asks
//! for one package by name.  Unlike the inline path it answers a "not
//! found" status with a user-visible message; every other failure stays an
//! error.  The two paths deliberately share the fetch conventions but not
//! the error policy.

use vstd::prelude::*;
use vstd::string::StringExecFns;
use crate::client::{failure_message, fold_failure, FetchError, FetchFailure};
use crate::escape::{
    collapse_ws, collapse_whitespace, encode_attribute, encode_minimal, escape_attr, escape_text,
    trim_spec, trim_ws,
};

verus! {

/// The record the registry's single-package endpoint reports, reduced to
/// the plain values the command reads.  Here a description is always
/// present (possibly empty), as that endpoint reports it.
pub struct CrateInfo {
    pub id: String,
    pub name: String,
    pub description: String,
    pub max_version: String,
    pub documentation: Option<String>,
    pub repository: Option<String>,
}

/// What `encode_path_segment` returns for a given text: the text
/// percent-encoded for use as one URL path segment.
pub uninterp spec fn path_encoded_of(s: Seq<char>) -> Seq<char>;

/// Relies on `percent_encoding::utf8_percent_encode` with the path-segment
/// encode set: the percent-encoding of the text's UTF-8 bytes, a function
/// of the text alone.
#[verifier::external_body]
fn encode_path_segment(s: &str) -> (r: String)
    ensures
        r@ == path_encoded_of(s@),
{
    percent_encoding::utf8_percent_encode(s, percent_encoding::PATH_SEGMENT_ENCODE_SET).collect()
}

/// The single-package endpoint queried for the name in `param`, trimmed
/// and percent-encoded.
pub fn lookup_url(param: &str) -> (r: String)
    ensures
        r@ == "https://crates.io/api/v1/crates/"@ + path_encoded_of(trim_spec(param@)),
{
    let name = trim_ws(param);
    let enc = encode_path_segment(name.as_str());
    let mut u = String::from_str("https://crates.io/api/v1/crates/");
    u.append(enc.as_str());
    u
}

/// The message answering a successful lookup: bolded escaped name and
/// version, links to the registry page, the documentation and, when
/// declared, the repository, then the collapsed escaped description.
pub open spec fn lookup_message(name_enc: Seq<char>, info: CrateInfo) -> Seq<char> {
    "<b>"@ + escape_text(info.name@) + "</b> ("@ + escape_text(info.max_version@) + ")"@
        + " - <a href=\""@ + escape_attr("https://crates.io/crates/"@ + name_enc) + "\">info</a>"@
        + " - <a href=\""@ + escape_attr(
        match info.documentation {
            Some(u) => u@,
            None => "https://docs.rs/crate/"@ + name_enc,
        },
    ) + "\">doc</a>"@ + (match info.repository {
        Some(rep) => " - <a href=\""@ + escape_attr(rep@) + "\">repo</a>"@,
        None => Seq::empty(),
    }) + " - "@ + escape_text(collapse_ws(info.description@))
}

/// The message answering a lookup of a name the registry does not know:
/// the name as typed, unescaped, as the command has always shown it.
pub open spec fn not_found_message(name: Seq<char>) -> Seq<char> {
    "<b>"@ + name + "</b> - not found"@
}

/// Builds the successful-lookup message for a record.
fn render_crate_info(name_enc: &str, info: CrateInfo) -> (r: String)
    ensures
        r@ == lookup_message(name_enc@, info),
{
    let ghost ginfo = info;
    let CrateInfo { id: _, name, description, max_version, documentation, repository } = info;

    let mut crate_url = String::from_str("https://crates.io/crates/");
    crate_url.append(name_enc);
    let doc_url = match documentation {
        Some(u) => u,
        None => {
            let mut d = String::from_str("https://docs.rs/crate/");
            d.append(name_enc);
            d
        },
    };

    let mut m = String::from_str("<b>");
    let name_esc = encode_minimal(name.as_str());
    m.append(name_esc.as_str());
    m.append("</b> (");
    let ver_esc = encode_minimal(max_version.as_str());
    m.append(ver_esc.as_str());
    m.append(")");
    m.append(" - <a href=\"");
    let crate_url_esc = encode_attribute(crate_url.as_str());
    m.append(crate_url_esc.as_str());
    m.append("\">info</a>");
    m.append(" - <a href=\"");
    let doc_url_esc = encode_attribute(doc_url.as_str());
    m.append(doc_url_esc.as_str());
    m.append("\">doc</a>");
    match &repository {
        Some(rep) => {
            m.append(" - <a href=\"");
            let rep_esc = encode_attribute(rep.as_str());
            m.append(rep_esc.as_str());
            m.append("\">repo</a>");
        },
        None => {},
    }
    m.append(" - ");
    let collapsed = collapse_whitespace(description.as_str());
    let desc_esc = encode_minimal(collapsed.as_str());
    m.append(desc_esc.as_str());
    proof {
        assert(m@ =~= lookup_message(name_enc@, ginfo));
    }
    m
}

/// Answers one lookup command from what the fetch returned: a record
/// becomes the full message, a 404 status becomes the "not found" message,
/// and every other failure stays an error.
pub fn run(param: &str, outcome: Result<CrateInfo, FetchFailure>) -> (r: Result<
    String,
    FetchError,
>)
    ensures
        outcome matches Ok(info) ==> (r matches Ok(m) && m@ == lookup_message(
            path_encoded_of(trim_spec(param@)),
            info,
        )),
        outcome matches Err(f) ==> {
            if f matches FetchFailure::Status(c) && c == 404 {
                r matches Ok(m) && m@ == not_found_message(trim_spec(param@))
            } else {
                r matches Err(e) && e.message@ == failure_message(f)
            }
        },
{
    match outcome {
        Ok(info) => {
            let name = trim_ws(param);
            let enc = encode_path_segment(name.as_str());
            Ok(render_crate_info(enc.as_str(), info))
        },
        Err(f) => {
            match f {
                FetchFailure::Status(404u16) => {
                    let name = trim_ws(param);
                    let mut m = String::from_str("<b>");
                    m.append(name.as_str());
                    m.append("</b> - not found");
                    proof {
                        assert(m@ =~= not_found_message(trim_spec(param@)));
                    }
                    Ok(m)
                },
                other => Err(fold_failure(other)),
            }
        },
    }
}

} // verus!
