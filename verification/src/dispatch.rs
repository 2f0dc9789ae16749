//! The query dispatcher's decisions.  Each inbound update runs the same
//! pipeline: filter the update for an inline query, pick the fetch mode
//! from the query text, render every fetched record in registry order, and
//! either hand the ordered answer on or stay silent when the fetch failed.
//! The unverified shell performs the fetch and the answer submission
//! between these steps and retains nothing across updates.

use vstd::prelude::*;
use crate::client::{FetchError, FetchMode};
use crate::package::{RawPackage, RenderedResult};
use crate::render::{render, render_post};

verus! {

/// One inbound update, reduced to what the dispatcher reads: an inline
/// query with its identifier and text, or anything else.
pub enum UpdateEvent {
    InlineQuery { query_id: String, query_text: String },
    /// Every other update shape; ignored without a response.
    Other,
}

/// Whether `m` is the fetch mode owed to the query text `text`: trending
/// for empty text, a search carrying the text otherwise.
pub open spec fn mode_for(text: Seq<char>, m: FetchMode) -> bool {
    if text.len() == 0 {
        m is Trending
    } else {
        m matches FetchMode::Search(q) && q@ == text
    }
}

/// Picks the fetch mode for a query text: empty text asks for the trending
/// summary, non-empty text for a search with that text.
pub fn select_mode(query_text: String) -> (m: FetchMode)
    ensures
        mode_for(query_text@, m),
{
    if query_text.as_str().is_empty() {
        FetchMode::Trending
    } else {
        FetchMode::Search(query_text)
    }
}

/// Filters one inbound update: an inline query yields its identifier and
/// fetch mode, everything else is ignored.
pub fn plan_update(event: UpdateEvent) -> (r: Option<(String, FetchMode)>)
    ensures
        event is Other <==> r is None,
        event matches UpdateEvent::InlineQuery { query_id, query_text } ==> (r matches Some(plan)
            && plan.0@ == query_id@ && mode_for(query_text@, plan.1)),
{
    match event {
        UpdateEvent::InlineQuery { query_id, query_text } => Some(
            (query_id, select_mode(query_text)),
        ),
        UpdateEvent::Other => None,
    }
}

/// Renders every fetched record, keeping the registry's order.
pub fn render_all(pkgs: Vec<RawPackage>) -> (rs: Vec<RenderedResult>)
    ensures
        rs@.len() == pkgs@.len(),
        forall|i: int| 0 <= i < pkgs@.len() ==> render_post(pkgs@[i], rs@[i]),
{
    let ghost orig = pkgs@;
    let mut pkgs = pkgs;
    let mut rs: Vec<RenderedResult> = Vec::new();
    proof {
        assert(orig.skip(0) =~= orig);
    }
    while pkgs.len() > 0
        invariant
            rs@.len() + pkgs@.len() == orig.len(),
            pkgs@ == orig.skip(rs@.len() as int),
            forall|i: int| 0 <= i < rs@.len() ==> render_post(orig[i], rs@[i]),
        decreases pkgs@.len(),
    {
        let ghost done = rs@.len() as int;
        let p = pkgs.remove(0);
        proof {
            assert(p == orig[done]);
            assert(orig.skip(done).remove(0) =~= orig.skip(done + 1));
        }
        let item = render(p);
        rs.push(item);
    }
    proof {
        assert(orig.skip(rs@.len() as int).len() == 0);
    }
    rs
}

/// The fail-silent answer policy: a successful fetch yields the rendered
/// list, in order; any fetch error yields no answer at all, and the error
/// stays a diagnostic.
pub fn answer_results(outcome: Result<Vec<RawPackage>, FetchError>) -> (r: Option<
    Vec<RenderedResult>,
>)
    ensures
        outcome is Err ==> r is None,
        outcome matches Ok(pkgs) ==> (r matches Some(rs) && rs@.len() == pkgs@.len() && (forall|
            i: int,
        | 0 <= i < pkgs@.len() ==> render_post(pkgs@[i], rs@[i]))),
{
    match outcome {
        Ok(pkgs) => Some(render_all(pkgs)),
        Err(_) => None,
    }
}

} // verus!
