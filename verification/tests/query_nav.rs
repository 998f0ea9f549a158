use nhentai_downloader::query::{QueryInfo, QueryError, SortType, RedirectAction, redirect_decision};

#[test]
fn redirect_to_gallery_yields_its_id() {
    assert_eq!(QueryInfo::resolve_redirect(Some("https://nhentai.net/g/555/")), Ok(555));
}

#[test]
fn relative_redirect_location_is_read_as_a_path() {
    assert_eq!(QueryInfo::resolve_redirect(Some("/g/555/")), Ok(555));
}

#[test]
fn missing_location_is_an_error() {
    assert_eq!(QueryInfo::resolve_redirect(None), Err(QueryError::MissingLocation));
}

#[test]
fn redirect_to_a_non_gallery_path_is_an_error() {
    assert_eq!(
        QueryInfo::resolve_redirect(Some("https://nhentai.net/info/x/")),
        Err(QueryError::NotAGallery)
    );
    assert_eq!(
        QueryInfo::resolve_redirect(Some("/g/abc/")),
        Err(QueryError::CodeNotANumber)
    );
}

#[test]
fn gallery_path_accepts_the_reference_shape() {
    assert_eq!(QueryInfo::parse_gallery_path("/g/177013/"), Ok(177013));
    assert_eq!(QueryInfo::parse_gallery_path("g/12"), Ok(12));
}

#[test]
fn gallery_path_rejects_other_shapes() {
    assert_eq!(QueryInfo::parse_gallery_path("/x/12/"), Err(QueryError::NotAGallery));
    assert_eq!(QueryInfo::parse_gallery_path("gallery"), Err(QueryError::NotAGallery));
    assert_eq!(QueryInfo::parse_gallery_path("/g/abc/"), Err(QueryError::CodeNotANumber));
    assert_eq!(QueryInfo::parse_gallery_path("/g/1/2"), Err(QueryError::CodeNotANumber));
}

const RESULTS_PAGE: &str = r#"<html><body>
<div class="container">
<a class="cover" href="/g/101/"><img src="a.jpg"></a>
<a class="cover" href="/g/202/"><img src="b.jpg"></a>
<a class="cover"><img src="no-href.jpg"></a>
<a class="cover" href="/broken/path/"><img src="c.jpg"></a>
<a class="cover" href="/g/303/"><img src="d.jpg"></a>
</div>
<section class="pagination"><a class="last" href="?page=7">last</a></section>
</body></html>"#;

#[test]
fn results_page_yields_session_and_ids_in_document_order() {
    let (info, ids) = QueryInfo::from_results_page("tag", SortType::Recent, RESULTS_PAGE).unwrap();
    assert_eq!(info.pages(), 7);
    assert_eq!(ids, vec![101, 202, 303]);
}

#[test]
fn read_query_page_skips_bad_anchors() {
    let ids = QueryInfo::read_query_page(RESULTS_PAGE);
    assert_eq!(ids, vec![101, 202, 303]);
}

#[test]
fn page_without_last_control_is_an_error() {
    let html = r#"<html><body><a class="cover" href="/g/1/">x</a></body></html>"#;
    assert_eq!(
        QueryInfo::from_results_page("q", SortType::Recent, html).unwrap_err(),
        QueryError::MissingLastPage
    );
}

#[test]
fn last_control_without_href_is_an_error() {
    let html = r#"<html><body><a class="last">last</a></body></html>"#;
    assert_eq!(
        QueryInfo::from_results_page("q", SortType::Recent, html).unwrap_err(),
        QueryError::MissingLastHref
    );
}

#[test]
fn last_control_without_page_parameter_is_an_error() {
    let html = r#"<html><body><a class="last" href="?offset=3">last</a></body></html>"#;
    assert_eq!(
        QueryInfo::from_results_page("q", SortType::Recent, html).unwrap_err(),
        QueryError::MissingPageParam
    );
}

#[test]
fn zero_page_count_is_an_error() {
    let html = r#"<html><body><a class="last" href="?page=0">last</a></body></html>"#;
    assert_eq!(
        QueryInfo::from_results_page("q", SortType::Recent, html).unwrap_err(),
        QueryError::BadPageCount
    );
}

#[test]
fn multiple_last_controls_use_the_first() {
    let html = r#"<html><body>
<a class="last" href="?page=4">last</a>
<a class="last" href="?page=9">last</a>
</body></html>"#;
    let (info, ids) = QueryInfo::from_results_page("q", SortType::Recent, html).unwrap();
    assert_eq!(info.pages(), 4);
    assert_eq!(ids, Vec::<u32>::new());
}

#[test]
fn query_url_carries_query_page_and_sort() {
    assert_eq!(
        QueryInfo::query_url("abc", SortType::Recent, 1),
        "https://nhentai.net/search/?q=abc&page=1"
    );
    assert_eq!(
        QueryInfo::query_url("abc", SortType::Popular, 2),
        "https://nhentai.net/search/?q=abc&page=2&sort=popular"
    );
    assert_eq!(
        QueryInfo::query_url("x y", SortType::PopularWeek, 3),
        "https://nhentai.net/search/?q=x y&page=3&sort=popular-week"
    );
    assert_eq!(
        QueryInfo::query_url("z", SortType::PopularToday, 10),
        "https://nhentai.net/search/?q=z&page=10&sort=popular-today"
    );
}

#[test]
fn redirects_from_the_search_endpoint_are_observed_not_followed() {
    assert_eq!(redirect_decision("/search/", 1), RedirectAction::Stop);
    assert_eq!(redirect_decision("search", 11), RedirectAction::Stop);
}

#[test]
fn redirects_elsewhere_follow_up_to_ten_hops() {
    assert_eq!(redirect_decision("/g/5/", 10), RedirectAction::Follow);
    assert_eq!(redirect_decision("/g/5/", 11), RedirectAction::Fail);
    assert_eq!(redirect_decision("/", 1), RedirectAction::Follow);
}
