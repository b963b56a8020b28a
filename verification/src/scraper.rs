//! Link extraction: given a fetched document, collect every anchor's href,
//! resolve it against the page's own URL, and drop fragments. A malformed
//! href is skipped; one bad anchor never loses the rest of the page.

use vstd::prelude::*;

use crate::urls::{fragment_free, resolve_link, resolved_link};

verus! {

/// The href attribute of each anchor element of the document, in document
/// order. The result depends on the document text alone.
pub uninterp spec fn hrefs_of(html: Seq<char>) -> Seq<Seq<char>>;

/// Relies on select::document::Document, Document::find with the Name("a")
/// predicate, and Node::attr: collects the href attribute of each anchor
/// element, in document order.
#[verifier::external_body]
fn extract_hrefs(html: &str) -> (r: Vec<String>)
    ensures
        r@.map_values(|s: String| s@) == hrefs_of(html@),
{
    select::document::Document::from(html)
        .find(select::predicate::Name("a"))
        .filter_map(|n| n.attr("href").map(|v| v.to_owned()))
        .collect()
}

/// Each href of `hrefs` resolved against `base`, fragments dropped, in
/// order; an href that cannot be resolved is left out.
pub open spec fn resolved_links(base: Seq<char>, hrefs: Seq<Seq<char>>) -> Seq<Seq<char>>
    decreases hrefs.len(),
{
    if hrefs.len() == 0 {
        Seq::empty()
    } else {
        let rest = resolved_links(base, hrefs.drop_last());
        match resolved_link(base, hrefs.last()) {
            Some(u) => rest.push(u),
            None => rest,
        }
    }
}

/// The normalized links of the document at `base` with text `html`.
pub open spec fn extracted_links(base: Seq<char>, html: Seq<char>) -> Seq<Seq<char>> {
    resolved_links(base, hrefs_of(html))
}

/// What one fetch yields: the raw page text and its normalized links.
pub struct ScrapingResult {
    pub links: Vec<String>,
    pub html: String,
}

/// Collects the anchors of `html`, resolves each href against `base` and
/// strips fragments, skipping hrefs that cannot be resolved.
pub fn extract_links(base: &str, html: &str) -> (r: Vec<String>)
    ensures
        r@.map_values(|s: String| s@) == extracted_links(base@, html@),
        forall|k: int| 0 <= k < r@.len() ==> fragment_free((#[trigger] r@[k])@),
{
    let hrefs = extract_hrefs(html);
    let mut out: Vec<String> = Vec::new();
    let ghost href_views = hrefs@.map_values(|s: String| s@);
    let mut i: usize = 0;
    while i < hrefs.len()
        invariant
            i <= hrefs.len(),
            href_views == hrefs@.map_values(|s: String| s@),
            href_views.len() == hrefs@.len(),
            out@.map_values(|s: String| s@) == resolved_links(base@, href_views.take(i as int)),
            forall|k: int| 0 <= k < out@.len() ==> fragment_free((#[trigger] out@[k])@),
        decreases hrefs.len() - i,
    {
        let href = &hrefs[i];
        proof {
            assert(href_views.take(i + 1).drop_last() =~= href_views.take(i as int));
            assert(href_views.take(i + 1).last() == href@);
        }
        match resolve_link(base, href.as_str()) {
            Some(u) => {
                out.push(u);
            }
            None => {}
        }
        proof {
            assert(out@.map_values(|s: String| s@) =~= resolved_links(
                base@,
                href_views.take(i + 1),
            ));
        }
        i = i + 1;
    }
    proof {
        assert(href_views.take(hrefs@.len() as int) =~= href_views);
    }
    out
}

/// The compute half of one fetch task: turns the fetched page text into a
/// ScrapingResult whose links are the document's normalized anchors.
pub fn scrape_document(url: &str, html: String) -> (r: ScrapingResult)
    ensures
        r.html@ == html@,
        r.links@.map_values(|s: String| s@) == extracted_links(url@, html@),
        forall|k: int| 0 <= k < r.links@.len() ==> fragment_free((#[trigger] r.links@[k])@),
{
    let links = extract_links(url, html.as_str());
    ScrapingResult { links, html }
}

} // verus!
