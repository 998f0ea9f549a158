//! Trusted boundary to the `scraper` and `url` crates. Each call computes
//! from its text arguments alone, so its result carries a name that the
//! callers' contracts speak of exactly; the logic that reads these results
//! is verified in the other modules.

use vstd::prelude::*;

verus! {

/// The inline content of each `body > script` element of the HTML document
/// `h`, in document order.
pub uninterp spec fn script_texts_of(h: Seq<char>) -> Seq<Seq<char>>;

/// Relies on scraper's `Html::parse_document` and CSS selection: hands back
/// the inline content of every `body > script` element, in document order.
#[verifier::external_body]
pub(crate) fn body_script_texts(html: &str) -> (r: Vec<String>)
    ensures
        r.deep_view() == script_texts_of(html@),
{
    let doc = scraper::Html::parse_document(html);
    let sel = scraper::Selector::parse("body > script").unwrap();
    doc.select(&sel).map(|e| e.inner_html()).collect()
}

/// The `href` attribute of each `a.cover` anchor (a gallery cover link) of
/// the HTML document `h`, in document order; `None` where an anchor carries
/// no `href`.
pub uninterp spec fn cover_hrefs_of(h: Seq<char>) -> Seq<Option<Seq<char>>>;

/// Relies on scraper's `Html::parse_document`, CSS selection and
/// `ElementRef::attr`: the `href` of every `a.cover` anchor, in document
/// order.
#[verifier::external_body]
pub(crate) fn cover_anchor_hrefs(html: &str) -> (r: Vec<Option<String>>)
    ensures
        r.deep_view() == cover_hrefs_of(html@),
{
    let doc = scraper::Html::parse_document(html);
    let sel = scraper::Selector::parse("a.cover").unwrap();
    doc.select(&sel).map(|e| e.attr("href").map(|s| s.to_string())).collect()
}

/// The `href` attribute of each `a.last` anchor (the last-page navigation
/// control) of the HTML document `h`, in document order; `None` where an
/// anchor carries no `href`.
pub uninterp spec fn last_hrefs_of(h: Seq<char>) -> Seq<Option<Seq<char>>>;

/// Relies on scraper's `Html::parse_document`, CSS selection and
/// `ElementRef::attr`: the `href` of every `a.last` anchor, in document
/// order.
#[verifier::external_body]
pub(crate) fn last_anchor_hrefs(html: &str) -> (r: Vec<Option<String>>)
    ensures
        r.deep_view() == last_hrefs_of(html@),
{
    let doc = scraper::Html::parse_document(html);
    let sel = scraper::Selector::parse("a.last").unwrap();
    doc.select(&sel).map(|e| e.attr("href").map(|s| s.to_string())).collect()
}

/// The path component of `u` read as an absolute URL; `None` when `u` is
/// not one.
pub uninterp spec fn url_path_of(u: Seq<char>) -> Option<Seq<char>>;

/// Relies on `url::Url::parse` and `Url::path`: the path component of an
/// absolute URL, `None` on a parse failure (a relative reference included).
#[verifier::external_body]
pub(crate) fn parse_url_path(u: &str) -> (r: Option<String>)
    ensures
        r.deep_view() == url_path_of(u@),
{
    match url::Url::parse(u) {
        Ok(p) => Some(p.path().to_string()),
        Err(_) => None,
    }
}

/// The value of the `page` query parameter of `href` resolved against the
/// absolute base URL `base`; `None` when either URL step fails or no such
/// parameter exists.
pub uninterp spec fn page_param_of(base: Seq<char>, href: Seq<char>) -> Option<Seq<char>>;

/// Relies on `url::Url::parse`, `Url::join` and `Url::query_pairs`: the
/// first `page` query parameter of `href` resolved against `base`.
#[verifier::external_body]
pub(crate) fn resolve_page_param(base: &str, href: &str) -> (r: Option<String>)
    ensures
        r.deep_view() == page_param_of(base@, href@),
{
    let b = match url::Url::parse(base) {
        Ok(b) => b,
        Err(_) => return None,
    };
    let joined = match b.join(href) {
        Ok(j) => j,
        Err(_) => return None,
    };
    let v = joined.query_pairs().find(|(k, _)| k == "page").map(|(_, v)| v.into_owned());
    v
}

} // verus!
