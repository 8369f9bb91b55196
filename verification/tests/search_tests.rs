use cekunit_client::search::{
    build_export_query, build_input_user_query, build_listing_query, build_search_query,
    nasabah_from_cells, pagination_from_counts, SearchBuilder,
};
use cekunit_client::{build_info, name, version};

/// The query string percent-encodes values; a space does not pass through
/// unchanged.
#[test]
fn test_search_query_encoding() {
    let p = SearchBuilder::new().query("value with space").build();
    assert_eq!(build_search_query(&p), "?search=value%20with%20space");
}

/// All parameters appear in order, joined with ampersands.
#[test]
fn test_search_query_all_params() {
    let p = SearchBuilder::new()
        .query("x")
        .column("nopol")
        .sort_by("created_at", "desc")
        .page(3)
        .build();
    assert_eq!(
        build_search_query(&p),
        "?search=x&sort=nopol&sortColumn=created_at&sortDirection=desc&page=3"
    );
    let empty = SearchBuilder::new().build();
    assert_eq!(build_search_query(&empty), "");
}

/// Rows with enough cells become records; short rows are skipped.
#[test]
fn test_nasabah_from_cells() {
    let cells: Vec<String> = (0..17).map(|i| format!("c{}", i)).collect();
    let d = nasabah_from_cells(0, &cells).unwrap();
    assert_eq!(d.no, 1);
    assert_eq!(d.no_perjanjian, "c1");
    assert_eq!(d.tenor, "c16");
    let short: Vec<String> = (0..5).map(|i| format!("c{}", i)).collect();
    assert!(nasabah_from_cells(0, &short).is_none());
}

/// Page counts round up at twenty rows per page.
#[test]
fn test_pagination_from_counts() {
    let p = pagination_from_counts(2, 45);
    assert_eq!(p.current_page, 2);
    assert_eq!(p.total_pages, 3);
    assert_eq!(p.total_data, 45);
    assert_eq!(p.per_page, 20);
    assert_eq!(pagination_from_counts(1, 0).total_pages, 1);
    assert_eq!(pagination_from_counts(1, 40).total_pages, 2);
}

/// The build metadata names the crate.
#[test]
fn test_build_info() {
    assert_eq!(version(), "0.1.0");
    assert_eq!(name(), "cekunit_client");
    let info = build_info();
    assert_eq!(info.version, "0.1.0");
    assert_eq!(info.name, "cekunit_client");
}

/// The listing query carries its raw parameters in order.
#[test]
fn test_listing_query() {
    assert_eq!(
        build_listing_query(Some(1), None, Some("created_at"), Some("desc")),
        "?page=1&sort=created_at&direction=desc"
    );
    assert_eq!(build_listing_query(None, None, None, None), "");
    assert_eq!(
        build_export_query("csv", "created_at", "asc"),
        "?format=csv&sort=created_at&direction=asc"
    );
    assert_eq!(
        build_input_user_query(
            None,
            Some("BP1274OR"),
            Some("nopol"),
            Some("desc"),
            Some("2026-02-01"),
            Some("2026-02-02")
        ),
        "?search=BP1274OR&sort=nopol&direction=desc&start_date=2026-02-01&end_date=2026-02-02"
    );
}
