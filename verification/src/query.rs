//! The query navigator's decision logic: building search URLs, telling a
//! redirect-to-gallery apart from a results page, reading gallery ids off a
//! results page, and the redirect policy that makes the distinction
//! observable. Fetching is the caller's work.

use vstd::prelude::*;
use vstd::string::StringExecFns;
use crate::markup::{
    cover_hrefs_of, cover_anchor_hrefs, last_hrefs_of, last_anchor_hrefs, page_param_of,
    resolve_page_param, url_path_of, parse_url_path,
};
use crate::strutil::{
    str_chars, spec_trim_char, trim_char_vec, spec_parse_u32, parse_u32_chars, spec_dec,
    u64_to_dec, copy_range, chars_eq,
};

verus! {

/// The sort orders a search accepts.
#[derive(Debug, Clone, Copy, PartialEq, Eq, Structural)]
pub enum SortType {
    Recent,
    Popular,
    PopularWeek,
    PopularToday,
}

/// Why a search response failed to interpret.
#[derive(Debug, Clone, Copy, PartialEq, Eq, Structural)]
pub enum QueryError {
    /// A redirect response carries no usable location.
    MissingLocation,
    /// A path is not a gallery reference of the form `/g/<id>/`.
    NotAGallery,
    /// The trailing gallery code is not a number.
    CodeNotANumber,
    /// A results page has no last-page control.
    MissingLastPage,
    /// The last-page control has no `href`.
    MissingLastHref,
    /// The last-page `href` has no usable `page` parameter.
    MissingPageParam,
    /// The `page` parameter is not a positive number.
    BadPageCount,
}

/// An in-progress paginated search: its text, its sort order, and the total
/// page count discovered from the first fetched page and fixed for the
/// session's lifetime.
#[derive(Debug)]
pub struct QueryInfo {
    sort: SortType,
    query: String,
    pages: u32,
}

pub struct QueryInfoView {
    pub sort: SortType,
    pub query: Seq<char>,
    pub pages: u32,
}

impl View for QueryInfo {
    type V = QueryInfoView;

    closed spec fn view(&self) -> QueryInfoView {
        QueryInfoView { sort: self.sort, query: self.query@, pages: self.pages }
    }
}

/// The two shapes a resolved search takes.
pub enum QueryResult {
    /// A results page: the session, and the gallery ids on the fetched page
    /// in document order.
    QueryList(QueryInfo, Vec<u32>),
    /// The search redirected straight to one gallery.
    Gallery(u32),
}

/// The suffix the sort order adds to a search URL; empty for `Recent`.
pub open spec fn spec_sort_suffix(sort: SortType) -> Seq<char> {
    match sort {
        SortType::Recent => ""@,
        SortType::Popular => "&sort=popular"@,
        SortType::PopularWeek => "&sort=popular-week"@,
        SortType::PopularToday => "&sort=popular-today"@,
    }
}

/// The search URL for one page of a query.
pub open spec fn spec_query_url(q: Seq<char>, sort: SortType, page: u32) -> Seq<char> {
    "https://nhentai.net/search/?q="@ + q + "&page="@ + spec_dec(page as nat) + spec_sort_suffix(
        sort,
    )
}

/// The first position at or after `i` holding `c`.
pub open spec fn spec_find_from(s: Seq<char>, c: char, i: int) -> Option<int>
    recommends
        0 <= i <= s.len(),
    decreases s.len() - i,
{
    if i >= s.len() {
        None
    } else if s[i] == c {
        Some(i)
    } else {
        spec_find_from(s, c, i + 1)
    }
}

fn find_char(s: &Vec<char>, c: char) -> (r: Option<usize>)
    ensures
        match r {
            Some(i) => spec_find_from(s@, c, 0) == Some(i as int) && i < s@.len(),
            None => spec_find_from(s@, c, 0) is None,
        },
{
    let mut i: usize = 0;
    while i < s.len()
        invariant
            i <= s@.len(),
            spec_find_from(s@, c, 0) == spec_find_from(s@, c, i as int),
        decreases s@.len() - i,
    {
        if s[i] == c {
            return Some(i);
        }
        i = i + 1;
    }
    None
}

/// The gallery-reference rule: the path, stripped of leading and trailing
/// slashes, must split at its first slash into the segment `g` and a
/// numeric code; `NotAGallery` when the shape is wrong, `CodeNotANumber`
/// when the code does not parse.
pub open spec fn spec_gallery_path(p: Seq<char>) -> Result<u32, QueryError> {
    let t = spec_trim_char(p, '/');
    match spec_find_from(t, '/', 0) {
        None => Err(QueryError::NotAGallery),
        Some(i) => if t.take(i) == "g"@ {
            match spec_parse_u32(t.skip(i + 1)) {
                Some(n) => Ok(n),
                None => Err(QueryError::CodeNotANumber),
            }
        } else {
            Err(QueryError::NotAGallery)
        },
    }
}

impl QueryInfo {
    /// The total page count discovered when the session was made.
    pub fn pages(&self) -> (n: u32)
        ensures
            n == self@.pages,
    {
        self.pages
    }

    /// The query text the session was made with.
    pub fn query_text(&self) -> (r: &str)
        ensures
            r@ == self@.query,
    {
        self.query.as_str()
    }

    /// The sort order the session was made with.
    pub fn sort(&self) -> (r: SortType)
        ensures
            r == self@.sort,
    {
        self.sort
    }

    /// The search URL for `page` of this session's query.
    pub fn load_page_url(&self, page: u32) -> (r: String)
        ensures
            r@ == spec_query_url(self@.query, self@.sort, page),
    {
        QueryInfo::query_url(self.query.as_str(), self.sort, page)
    }

    /// The search URL for `(query, sort, page)`: the fixed endpoint, the
    /// query text, the page number, and the sort suffix.
    pub fn query_url(query: &str, sort: SortType, page: u32) -> (r: String)
        ensures
            r@ == spec_query_url(query@, sort, page),
    {
        let mut s = String::from_str("https://nhentai.net/search/?q=");
        s.append(query);
        s.append("&page=");
        let d = u64_to_dec(page as u64);
        s.append(d.as_str());
        let suffix: &str = match sort {
            SortType::Recent => "",
            SortType::Popular => "&sort=popular",
            SortType::PopularWeek => "&sort=popular-week",
            SortType::PopularToday => "&sort=popular-today",
        };
        s.append(suffix);
        proof {
            assert(s@ =~= spec_query_url(query@, sort, page));
        }
        s
    }

    /// Reads a path as a gallery reference by the gallery-reference rule.
    pub fn parse_gallery_path(path: &str) -> (r: Result<u32, QueryError>)
        ensures
            r == spec_gallery_path(path@),
    {
        let chars = str_chars(path);
        let t = trim_char_vec(&chars, '/');
        match find_char(&t, '/') {
            None => Err(QueryError::NotAGallery),
            Some(i) => {
                let seg = copy_range(&t, 0, i);
                let g = str_chars("g");
                proof {
                    assert(seg@ =~= t@.take(i as int));
                }
                if chars_eq(&seg, &g) {
                    let len = t.len();
                    proof {
                        assert(i < len);
                    }
                    let code = copy_range(&t, i + 1, len);
                    proof {
                        assert(code@ =~= t@.skip(i + 1));
                    }
                    match parse_u32_chars(&code) {
                        Some(n) => Ok(n),
                        None => Err(QueryError::CodeNotANumber),
                    }
                } else {
                    Err(QueryError::NotAGallery)
                }
            },
        }
    }
}

/// The gallery ids a run of cover anchors yields: each anchor with an
/// `href` that reads as a gallery reference contributes its id, in order;
/// an anchor without an `href`, or with one that does not read as a gallery
/// reference, is skipped.
pub open spec fn spec_gallery_ids(hrefs: Seq<Option<Seq<char>>>) -> Seq<u32>
    decreases hrefs.len(),
{
    if hrefs.len() == 0 {
        Seq::empty()
    } else {
        let rest = spec_gallery_ids(hrefs.drop_first());
        match hrefs[0] {
            Some(h) => match spec_gallery_path(h) {
                Ok(id) => seq![id] + rest,
                Err(_) => rest,
            },
            None => rest,
        }
    }
}

proof fn lemma_gallery_ids_step(hrefs: Seq<Option<Seq<char>>>, i: int)
    requires
        0 <= i < hrefs.len(),
    ensures
        spec_gallery_ids(hrefs.skip(i)) == match hrefs[i] {
            Some(h) => match spec_gallery_path(h) {
                Ok(id) => seq![id] + spec_gallery_ids(hrefs.skip(i + 1)),
                Err(_) => spec_gallery_ids(hrefs.skip(i + 1)),
            },
            None => spec_gallery_ids(hrefs.skip(i + 1)),
        },
{
    let tail = hrefs.skip(i);
    assert(tail[0] == hrefs[i]);
    assert(tail.drop_first() =~= hrefs.skip(i + 1));
}

fn gallery_ids_from_hrefs(hrefs: &Vec<Option<String>>) -> (ids: Vec<u32>)
    ensures
        ids@ == spec_gallery_ids(hrefs.deep_view()),
{
    let ghost hv = hrefs.deep_view();
    proof {
        assert(hv.len() == hrefs@.len());
        assert(forall|j: int|
            0 <= j < hv.len() ==> #[trigger] hv[j] == hrefs@[j].deep_view());
        assert(hv.skip(0) =~= hv);
    }
    let mut out: Vec<u32> = Vec::new();
    let mut i: usize = 0;
    proof {
        assert(out@ + spec_gallery_ids(hv) =~= spec_gallery_ids(hv));
    }
    while i < hrefs.len()
        invariant
            i <= hrefs@.len(),
            hv == hrefs.deep_view(),
            hv.len() == hrefs@.len(),
            forall|j: int| 0 <= j < hv.len() ==> #[trigger] hv[j] == hrefs@[j].deep_view(),
            spec_gallery_ids(hv) == out@ + spec_gallery_ids(hv.skip(i as int)),
        decreases hrefs@.len() - i,
    {
        proof {
            lemma_gallery_ids_step(hv, i as int);
        }
        match &hrefs[i] {
            Some(h) => {
                match QueryInfo::parse_gallery_path(h.as_str()) {
                    Ok(id) => {
                        let ghost old_out = out@;
                        out.push(id);
                        proof {
                            assert(out@ =~= old_out + seq![id]);
                            assert(old_out + (seq![id] + spec_gallery_ids(hv.skip(i + 1))) =~= out@
                                + spec_gallery_ids(hv.skip(i + 1)));
                        }
                    },
                    Err(_) => {},
                }
            },
            None => {},
        }
        i = i + 1;
    }
    proof {
        assert(hv.skip(hv.len() as int) =~= Seq::<Option<Seq<char>>>::empty());
        assert(out@ + Seq::<u32>::empty() =~= out@);
    }
    out
}

impl QueryInfo {
    /// The gallery ids on a fetched results page, in document order; an
    /// anchor without an `href`, or whose `href` is not a gallery
    /// reference, is skipped rather than failing the page.
    pub fn read_query_page(html: &str) -> (ids: Vec<u32>)
        ensures
            ids@ == spec_gallery_ids(cover_hrefs_of(html@)),
    {
        let hrefs = cover_anchor_hrefs(html);
        gallery_ids_from_hrefs(&hrefs)
    }

    /// What a redirect response resolves to: its location, read as an
    /// absolute URL's path when it is one and as a bare path otherwise,
    /// must be a gallery reference.
    pub fn resolve_redirect(location: Option<&str>) -> (r: Result<u32, QueryError>)
        ensures
            r == spec_resolve_redirect(
                match location {
                    Some(l) => Some(l@),
                    None => None,
                },
            ),
    {
        match location {
            None => Err(QueryError::MissingLocation),
            Some(loc) => match parse_url_path(loc) {
                Some(p) => QueryInfo::parse_gallery_path(p.as_str()),
                None => QueryInfo::parse_gallery_path(loc),
            },
        }
    }

    /// Interprets a fetched results page: the first last-page control's
    /// `href`, resolved against the site root, fixes the session's total
    /// page count; the cover anchors give the page's gallery ids.
    pub fn from_results_page(query: &str, sort: SortType, html: &str) -> (r: Result<
        (QueryInfo, Vec<u32>),
        QueryError,
    >)
        ensures
            match r {
                Ok(p) => spec_results_page(query@, sort, html@) == Ok::<
                    (QueryInfoView, Seq<u32>),
                    QueryError,
                >((p.0@, p.1@)) && p.0@.pages >= 1,
                Err(e) => spec_results_page(query@, sort, html@) == Err::<
                    (QueryInfoView, Seq<u32>),
                    QueryError,
                >(e),
            },
    {
        let lasts = last_anchor_hrefs(html);
        proof {
            assert(lasts.deep_view().len() == lasts@.len());
            if lasts@.len() > 0 {
                assert(lasts.deep_view()[0] == lasts@[0].deep_view());
            }
        }
        if lasts.len() == 0 {
            return Err(QueryError::MissingLastPage);
        }
        let href = match &lasts[0] {
            Some(h) => h,
            None => {
                return Err(QueryError::MissingLastHref);
            },
        };
        let param = match resolve_page_param("https://nhentai.net", href.as_str()) {
            Some(p) => p,
            None => {
                return Err(QueryError::MissingPageParam);
            },
        };
        let pchars = str_chars(param.as_str());
        let pages = match parse_u32_chars(&pchars) {
            Some(n) => n,
            None => {
                return Err(QueryError::BadPageCount);
            },
        };
        if pages < 1 {
            return Err(QueryError::BadPageCount);
        }
        let info = QueryInfo { sort, query: String::from_str(query), pages };
        let ids = QueryInfo::read_query_page(html);
        Ok((info, ids))
    }
}

/// What a redirect location resolves to.
pub open spec fn spec_resolve_redirect(location: Option<Seq<char>>) -> Result<u32, QueryError> {
    match location {
        None => Err(QueryError::MissingLocation),
        Some(loc) => {
            let path = match url_path_of(loc) {
                Some(p) => p,
                None => loc,
            };
            spec_gallery_path(path)
        },
    }
}

/// What interpreting a results page yields.
pub open spec fn spec_results_page(q: Seq<char>, sort: SortType, h: Seq<char>) -> Result<
    (QueryInfoView, Seq<u32>),
    QueryError,
> {
    let lasts = last_hrefs_of(h);
    if lasts.len() == 0 {
        Err(QueryError::MissingLastPage)
    } else {
        match lasts[0] {
            None => Err(QueryError::MissingLastHref),
            Some(href) => match page_param_of("https://nhentai.net"@, href) {
                None => Err(QueryError::MissingPageParam),
                Some(p) => match spec_parse_u32(p) {
                    Some(n) => if n >= 1 {
                        Ok(
                            (
                                QueryInfoView { sort, query: q, pages: n },
                                spec_gallery_ids(cover_hrefs_of(h)),
                            ),
                        )
                    } else {
                        Err(QueryError::BadPageCount)
                    },
                    None => Err(QueryError::BadPageCount),
                },
            },
        }
    }
}

/// What the redirect policy does with one pending redirect hop.
#[derive(Debug, Clone, Copy, PartialEq, Eq, Structural)]
pub enum RedirectAction {
    /// Stop without following: the pending redirect stays observable.
    Stop,
    /// Fail the request: too many hops.
    Fail,
    /// Follow the redirect.
    Follow,
}

/// The asymmetric redirect policy: a redirect leaving the search endpoint
/// is never followed, so that a redirect-to-gallery stays observable;
/// elsewhere up to 10 hops are followed, and more fail.
pub open spec fn spec_redirect_decision(prev_path: Seq<char>, hops: int) -> RedirectAction {
    if spec_trim_char(prev_path, '/') == "search"@ {
        RedirectAction::Stop
    } else if hops > 10 {
        RedirectAction::Fail
    } else {
        RedirectAction::Follow
    }
}

/// Decides one redirect hop: `prev_path` is the path of the response that
/// redirected, `hops` the number of responses seen so far.
pub fn redirect_decision(prev_path: &str, hops: usize) -> (r: RedirectAction)
    ensures
        r == spec_redirect_decision(prev_path@, hops as int),
{
    let chars = str_chars(prev_path);
    let t = trim_char_vec(&chars, '/');
    let search = str_chars("search");
    if chars_eq(&t, &search) {
        RedirectAction::Stop
    } else if hops > 10 {
        RedirectAction::Fail
    } else {
        RedirectAction::Follow
    }
}

} // verus!
