//! Dashboard data types, search parameters with their builder, and the
//! verified assembly of the query strings the dashboard endpoints take.
//! Percent-encoding goes through the `urlencoding` crate; the query-string
//! grammar around it is verified here.

use vstd::prelude::*;

use crate::error::DashboardError;
use crate::cookies::strs_view;
use crate::strutil::{chars_to_string, push_str_chars};
use vstd::string::StringExecFns;

verus! {

/// One row of the dashboard table.
pub struct NasabahData {
    pub no: u32,
    pub no_perjanjian: String,
    pub nama_nasabah: String,
    pub nopol: String,
    pub coll: String,
    pub pic: String,
    pub kategori: String,
    pub jto: String,
    pub no_rangka: String,
    pub no_mesin: String,
    pub merk: String,
    pub type_unit: String,
    pub warna: String,
    pub status: String,
    pub actual_penyelesaian: String,
    pub angsuran_ke: String,
    pub tenor: String,
}

/// The pagination state shown under the dashboard table.
pub struct PaginationInfo {
    pub current_page: u32,
    pub total_pages: u32,
    pub total_data: u32,
    pub per_page: u32,
}

/// The signed-in user, as shown in the dashboard header.
pub struct UserInfo {
    pub name: String,
    pub email: String,
}

/// One parsed dashboard page.
pub struct DashboardData {
    pub data: Vec<NasabahData>,
    pub pagination: PaginationInfo,
    pub user_info: UserInfo,
}

/// Search parameters for the dashboard listing.
pub struct SearchParams {
    pub query: String,
    pub column: Option<String>,
    pub sort_column: Option<String>,
    pub sort_direction: Option<String>,
    pub page: Option<u32>,
}

/// The view of search parameters.
#[verifier::ext_equal]
pub ghost struct SearchParamsView {
    pub query: Seq<char>,
    pub column: Option<Seq<char>>,
    pub sort_column: Option<Seq<char>>,
    pub sort_direction: Option<Seq<char>>,
    pub page: Option<u32>,
}

pub open spec fn opt_view(o: Option<String>) -> Option<Seq<char>> {
    match o {
        Some(s) => Some(s@),
        None => None,
    }
}

impl View for SearchParams {
    type V = SearchParamsView;

    open spec fn view(&self) -> SearchParamsView {
        SearchParamsView {
            query: self.query@,
            column: opt_view(self.column),
            sort_column: opt_view(self.sort_column),
            sort_direction: opt_view(self.sort_direction),
            page: self.page,
        }
    }
}

/// Builds search parameters step by step.
pub struct SearchBuilder {
    query: String,
    column: Option<String>,
    sort_column: Option<String>,
    sort_direction: Option<String>,
    page: Option<u32>,
}

impl View for SearchBuilder {
    type V = SearchParamsView;

    closed spec fn view(&self) -> SearchParamsView {
        SearchParamsView {
            query: self.query@,
            column: opt_view(self.column),
            sort_column: opt_view(self.sort_column),
            sort_direction: opt_view(self.sort_direction),
            page: self.page,
        }
    }
}

impl SearchBuilder {
    /// An empty set of parameters.
    pub fn new() -> (r: Self)
        ensures
            r@.query.len() == 0,
            r@.column is None,
            r@.sort_column is None,
            r@.sort_direction is None,
            r@.page is None,
    {
        SearchBuilder {
            query: String::new(),
            column: None,
            sort_column: None,
            sort_direction: None,
            page: None,
        }
    }

    /// Sets the search text.
    pub fn query(self, query: &str) -> (r: Self)
        ensures
            r@ == (SearchParamsView { query: query@, ..self@ }),
    {
        SearchBuilder {
            query: query.to_owned(),
            column: self.column,
            sort_column: self.sort_column,
            sort_direction: self.sort_direction,
            page: self.page,
        }
    }

    /// Restricts the search to one column.
    pub fn column(self, column: &str) -> (r: Self)
        ensures
            r@ == (SearchParamsView { column: Some(column@), ..self@ }),
    {
        SearchBuilder {
            query: self.query,
            column: Some(column.to_owned()),
            sort_column: self.sort_column,
            sort_direction: self.sort_direction,
            page: self.page,
        }
    }

    /// Sets the sort column and direction together.
    pub fn sort_by(self, column: &str, direction: &str) -> (r: Self)
        ensures
            r@ == (SearchParamsView {
                sort_column: Some(column@),
                sort_direction: Some(direction@),
                ..self@
            }),
    {
        SearchBuilder {
            query: self.query,
            column: self.column,
            sort_column: Some(column.to_owned()),
            sort_direction: Some(direction.to_owned()),
            page: self.page,
        }
    }

    /// Sets the page number.
    pub fn page(self, page: u32) -> (r: Self)
        ensures
            r@ == (SearchParamsView { page: Some(page), ..self@ }),
    {
        SearchBuilder {
            query: self.query,
            column: self.column,
            sort_column: self.sort_column,
            sort_direction: self.sort_direction,
            page: Some(page),
        }
    }

    /// Finishes the builder.
    pub fn build(self) -> (r: SearchParams)
        ensures
            r@ == self@,
    {
        SearchParams {
            query: self.query,
            column: self.column,
            sort_column: self.sort_column,
            sort_direction: self.sort_direction,
            page: self.page,
        }
    }
}

/// What `urlencoding::encode` returns for a string: a function of the
/// characters alone.
pub uninterp spec fn url_encoded(s: Seq<char>) -> Seq<char>;

/// Relies on `urlencoding::encode`: percent-encodes every byte except the
/// ASCII alphanumerics and `-`, `_`, `.`, `~`; deterministic in its input.
#[verifier::external_body]
fn url_encode(s: &str) -> (r: String)
    ensures
        r@ == url_encoded(s@),
{
    urlencoding::encode(s).into_owned()
}

/// The query-string fragments of a search, in the order they are sent.
pub open spec fn spec_search_parts(p: SearchParamsView) -> Seq<Seq<char>> {
    (if p.query.len() > 0 {
        seq!["search="@ + url_encoded(p.query)]
    } else {
        Seq::empty()
    }) + (match p.column {
        Some(c) => seq!["sort="@ + url_encoded(c)],
        None => Seq::empty(),
    }) + (match p.sort_column {
        Some(c) => seq!["sortColumn="@ + url_encoded(c)],
        None => Seq::empty(),
    }) + (match p.sort_direction {
        Some(c) => seq!["sortDirection="@ + url_encoded(c)],
        None => Seq::empty(),
    }) + (match p.page {
        Some(n) => seq!["page="@ + crate::codec::dec_digits(n as nat)],
        None => Seq::empty(),
    })
}

/// Query-string fragments joined with `&`.
pub open spec fn spec_join_query(parts: Seq<Seq<char>>) -> Seq<char>
    decreases parts.len(),
{
    if parts.len() == 0 {
        Seq::empty()
    } else if parts.len() == 1 {
        parts[0]
    } else {
        spec_join_query(parts.drop_last()) + seq!['&'] + parts.last()
    }
}

/// The query string of a search: empty without parameters, else a `?`
/// followed by the fragments joined with `&`.
pub open spec fn spec_search_query(p: SearchParamsView) -> Seq<char> {
    let parts = spec_search_parts(p);
    if parts.len() == 0 {
        Seq::empty()
    } else {
        seq!['?'] + spec_join_query(parts)
    }
}

/// Joins query-string fragments with `&`.
fn join_query(parts: &Vec<String>) -> (r: Vec<char>)
    ensures
        r@ == spec_join_query(strs_view(parts@)),
{
    let mut out: Vec<char> = Vec::new();
    let mut i: usize = 0;
    while i < parts.len()
        invariant
            i <= parts@.len(),
            out@ == spec_join_query(strs_view(parts@.subrange(0, i as int))),
        decreases parts@.len() - i,
    {
        let ghost pre2 = strs_view(parts@.subrange(0, i + 1 as int));
        proof {
            assert(pre2.drop_last() =~= strs_view(parts@.subrange(0, i as int)));
            assert(pre2.last() == parts@[i as int]@);
        }
        if i > 0 {
            out.push('&');
        }
        push_str_chars(&mut out, parts[i].as_str());
        proof {
            if i == 0 {
                assert(out@ =~= pre2[0]);
            } else {
                assert(out@ =~= spec_join_query(pre2.drop_last()) + seq!['&'] + pre2.last());
            }
        }
        i = i + 1;
    }
    proof {
        assert(parts@.subrange(0, parts@.len() as int) =~= parts@);
    }
    out
}

fn number_string(n: u32) -> (r: String)
    ensures
        r@ == crate::codec::dec_digits(n as nat),
{
    let mut out: Vec<char> = Vec::new();
    crate::codec::push_u64_digits(&mut out, n as u64);
    chars_to_string(&out)
}

/// Builds the query string for a dashboard search: each present parameter
/// becomes a `key=value` fragment with its value percent-encoded (the
/// page number is written in decimal), and the fragments are joined with
/// `&` behind a `?`.
pub fn build_search_query(params: &SearchParams) -> (r: String)
    ensures
        r@ == spec_search_query(params@),
{
    let mut parts: Vec<String> = Vec::new();
    if params.query.as_str().unicode_len() > 0 {
        let mut f: Vec<char> = Vec::new();
        push_str_chars(&mut f, "search=");
        let e = url_encode(params.query.as_str());
        push_str_chars(&mut f, e.as_str());
        parts.push(chars_to_string(&f));
    }
    match &params.column {
        Some(c) => {
            let mut f: Vec<char> = Vec::new();
            push_str_chars(&mut f, "sort=");
            let e = url_encode(c.as_str());
            push_str_chars(&mut f, e.as_str());
            parts.push(chars_to_string(&f));
        },
        None => {},
    }
    match &params.sort_column {
        Some(c) => {
            let mut f: Vec<char> = Vec::new();
            push_str_chars(&mut f, "sortColumn=");
            let e = url_encode(c.as_str());
            push_str_chars(&mut f, e.as_str());
            parts.push(chars_to_string(&f));
        },
        None => {},
    }
    match &params.sort_direction {
        Some(c) => {
            let mut f: Vec<char> = Vec::new();
            push_str_chars(&mut f, "sortDirection=");
            let e = url_encode(c.as_str());
            push_str_chars(&mut f, e.as_str());
            parts.push(chars_to_string(&f));
        },
        None => {},
    }
    match params.page {
        Some(n) => {
            let mut f: Vec<char> = Vec::new();
            push_str_chars(&mut f, "page=");
            let d = number_string(n);
            push_str_chars(&mut f, d.as_str());
            parts.push(chars_to_string(&f));
        },
        None => {},
    }
    proof {
        assert(strs_view(parts@) =~= spec_search_parts(params@));
    }
    finish_query(&parts)
}

/// The query-string fragments of a dashboard listing request, in the
/// order they are sent. These values travel as given, without encoding.
pub open spec fn spec_listing_parts(
    page: Option<u32>,
    search: Option<Seq<char>>,
    sort: Option<Seq<char>>,
    direction: Option<Seq<char>>,
) -> Seq<Seq<char>> {
    (match page {
        Some(n) => seq!["page="@ + crate::codec::dec_digits(n as nat)],
        None => Seq::empty(),
    }) + (match search {
        Some(s) => seq!["search="@ + s],
        None => Seq::empty(),
    }) + (match sort {
        Some(s) => seq!["sort="@ + s],
        None => Seq::empty(),
    }) + (match direction {
        Some(s) => seq!["direction="@ + s],
        None => Seq::empty(),
    })
}

/// The query string of a dashboard listing request: empty without
/// parameters, else a `?` followed by the fragments joined with `&`.
pub open spec fn spec_listing_query(
    page: Option<u32>,
    search: Option<Seq<char>>,
    sort: Option<Seq<char>>,
    direction: Option<Seq<char>>,
) -> Seq<char> {
    let parts = spec_listing_parts(page, search, sort, direction);
    if parts.len() == 0 {
        Seq::empty()
    } else {
        seq!['?'] + spec_join_query(parts)
    }
}

fn push_fragment(parts: &mut Vec<String>, key: &str, value: &str)
    ensures
        strs_view(final(parts)@) == strs_view(old(parts)@).push(key@ + value@),
{
    let mut f: Vec<char> = Vec::new();
    push_str_chars(&mut f, key);
    push_str_chars(&mut f, value);
    parts.push(chars_to_string(&f));
    proof {
        assert(strs_view(parts@) =~= strs_view(old(parts)@).push(key@ + value@));
    }
}

fn finish_query(parts: &Vec<String>) -> (r: String)
    ensures
        strs_view(parts@).len() == 0 ==> r@ == Seq::<char>::empty(),
        strs_view(parts@).len() > 0 ==> r@ == seq!['?'] + spec_join_query(strs_view(parts@)),
{
    if parts.len() == 0 {
        let empty: Vec<char> = Vec::new();
        chars_to_string(&empty)
    } else {
        let mut out: Vec<char> = Vec::new();
        out.push('?');
        let joined = join_query(parts);
        let mut k: usize = 0;
        while k < joined.len()
            invariant
                k <= joined@.len(),
                out@ == seq!['?'] + joined@.subrange(0, k as int),
            decreases joined@.len() - k,
        {
            let c = joined[k];
            out.push(c);
            proof {
                assert(out@ =~= seq!['?'] + joined@.subrange(0, k + 1 as int));
            }
            k = k + 1;
        }
        proof {
            assert(joined@.subrange(0, joined@.len() as int) =~= joined@);
        }
        chars_to_string(&out)
    }
}

/// Builds the query string of a dashboard listing request from its
/// optional page, search text, sort column, and sort direction.
pub fn build_listing_query(
    page: Option<u32>,
    search: Option<&str>,
    sort: Option<&str>,
    direction: Option<&str>,
) -> (r: String)
    ensures
        r@ == spec_listing_query(
            page,
            match search {
                Some(s) => Some(s@),
                None => None,
            },
            match sort {
                Some(s) => Some(s@),
                None => None,
            },
            match direction {
                Some(s) => Some(s@),
                None => None,
            },
        ),
{
    let mut parts: Vec<String> = Vec::new();
    match page {
        Some(n) => {
            let d = number_string(n);
            push_fragment(&mut parts, "page=", d.as_str());
        },
        None => {},
    }
    match search {
        Some(s) => {
            push_fragment(&mut parts, "search=", s);
        },
        None => {},
    }
    match sort {
        Some(s) => {
            push_fragment(&mut parts, "sort=", s);
        },
        None => {},
    }
    match direction {
        Some(s) => {
            push_fragment(&mut parts, "direction=", s);
        },
        None => {},
    }
    proof {
        assert(strs_view(parts@) =~= spec_listing_parts(
            page,
            match search {
                Some(s) => Some(s@),
                None => None,
            },
            match sort {
                Some(s) => Some(s@),
                None => None,
            },
            match direction {
                Some(s) => Some(s@),
                None => None,
            },
        ));
    }
    finish_query(&parts)
}

/// Builds the query string of an export request: the format, the sort
/// column, and the direction, always present and in that order.
pub fn build_export_query(format: &str, sort: &str, direction: &str) -> (r: String)
    ensures
        r@ == seq!['?'] + "format="@ + format@ + seq!['&'] + "sort="@ + sort@ + seq!['&']
            + "direction="@ + direction@,
{
    let mut out: Vec<char> = Vec::new();
    out.push('?');
    push_str_chars(&mut out, "format=");
    push_str_chars(&mut out, format);
    out.push('&');
    push_str_chars(&mut out, "sort=");
    push_str_chars(&mut out, sort);
    out.push('&');
    push_str_chars(&mut out, "direction=");
    push_str_chars(&mut out, direction);
    proof {
        assert(out@ =~= seq!['?'] + "format="@ + format@ + seq!['&'] + "sort="@ + sort@
            + seq!['&'] + "direction="@ + direction@);
    }
    chars_to_string(&out)
}

/// The query-string fragments of an input-user listing request.
pub open spec fn spec_input_user_parts(
    page: Option<u32>,
    search: Option<Seq<char>>,
    sort: Option<Seq<char>>,
    direction: Option<Seq<char>>,
    start_date: Option<Seq<char>>,
    end_date: Option<Seq<char>>,
) -> Seq<Seq<char>> {
    spec_listing_parts(page, search, sort, direction) + (match start_date {
        Some(s) => seq!["start_date="@ + s],
        None => Seq::empty(),
    }) + (match end_date {
        Some(s) => seq!["end_date="@ + s],
        None => Seq::empty(),
    })
}

/// Builds the query string of an input-user listing request: the listing
/// parameters followed by the optional date range.
pub fn build_input_user_query(
    page: Option<u32>,
    search: Option<&str>,
    sort: Option<&str>,
    direction: Option<&str>,
    start_date: Option<&str>,
    end_date: Option<&str>,
) -> (r: String)
    ensures
        ({
            let parts = spec_input_user_parts(
                page,
                match search {
                    Some(s) => Some(s@),
                    None => None,
                },
                match sort {
                    Some(s) => Some(s@),
                    None => None,
                },
                match direction {
                    Some(s) => Some(s@),
                    None => None,
                },
                match start_date {
                    Some(s) => Some(s@),
                    None => None,
                },
                match end_date {
                    Some(s) => Some(s@),
                    None => None,
                },
            );
            if parts.len() == 0 {
                r@ == Seq::<char>::empty()
            } else {
                r@ == seq!['?'] + spec_join_query(parts)
            }
        }),
{
    let mut parts: Vec<String> = Vec::new();
    match page {
        Some(n) => {
            let d = number_string(n);
            push_fragment(&mut parts, "page=", d.as_str());
        },
        None => {},
    }
    match search {
        Some(s) => {
            push_fragment(&mut parts, "search=", s);
        },
        None => {},
    }
    match sort {
        Some(s) => {
            push_fragment(&mut parts, "sort=", s);
        },
        None => {},
    }
    match direction {
        Some(s) => {
            push_fragment(&mut parts, "direction=", s);
        },
        None => {},
    }
    match start_date {
        Some(s) => {
            push_fragment(&mut parts, "start_date=", s);
        },
        None => {},
    }
    match end_date {
        Some(s) => {
            push_fragment(&mut parts, "end_date=", s);
        },
        None => {},
    }
    proof {
        assert(strs_view(parts@) =~= spec_input_user_parts(
            page,
            match search {
                Some(s) => Some(s@),
                None => None,
            },
            match sort {
                Some(s) => Some(s@),
                None => None,
            },
            match direction {
                Some(s) => Some(s@),
                None => None,
            },
            match start_date {
                Some(s) => Some(s@),
                None => None,
            },
            match end_date {
                Some(s) => Some(s@),
                None => None,
            },
        ));
    }
    finish_query(&parts)
}

/// Assembles one dashboard row out of the cell texts of a table row. Rows
/// with fewer than seventeen cells are skipped; the first cell holds a
/// row marker and is replaced by the one-based row index.
pub fn nasabah_from_cells(row_idx: u32, cells: &Vec<String>) -> (r: Option<NasabahData>)
    requires
        row_idx < 0xFFFF_FFFF,
    ensures
        cells@.len() < 17 ==> r is None,
        cells@.len() >= 17 ==> (r matches Some(d) && d.no == row_idx + 1 && d.no_perjanjian@
            == cells@[1]@ && d.nama_nasabah@ == cells@[2]@ && d.nopol@ == cells@[3]@ && d.coll@
            == cells@[4]@ && d.pic@ == cells@[5]@ && d.kategori@ == cells@[6]@ && d.jto@
            == cells@[7]@ && d.no_rangka@ == cells@[8]@ && d.no_mesin@ == cells@[9]@ && d.merk@
            == cells@[10]@ && d.type_unit@ == cells@[11]@ && d.warna@ == cells@[12]@ && d.status@
            == cells@[13]@ && d.actual_penyelesaian@ == cells@[14]@ && d.angsuran_ke@
            == cells@[15]@ && d.tenor@ == cells@[16]@),
{
    if cells.len() < 17 {
        return None;
    }
    Some(
        NasabahData {
            no: row_idx + 1,
            no_perjanjian: cells[1].clone(),
            nama_nasabah: cells[2].clone(),
            nopol: cells[3].clone(),
            coll: cells[4].clone(),
            pic: cells[5].clone(),
            kategori: cells[6].clone(),
            jto: cells[7].clone(),
            no_rangka: cells[8].clone(),
            no_mesin: cells[9].clone(),
            merk: cells[10].clone(),
            type_unit: cells[11].clone(),
            warna: cells[12].clone(),
            status: cells[13].clone(),
            actual_penyelesaian: cells[14].clone(),
            angsuran_ke: cells[15].clone(),
            tenor: cells[16].clone(),
        },
    )
}

/// Assembles the pagination record from the scraped current page and
/// total row count: twenty rows to a page, and the page count is the
/// total divided by twenty, rounded up (at least one page).
pub fn pagination_from_counts(current_page: u32, total_data: u32) -> (r: PaginationInfo)
    ensures
        r.current_page == current_page,
        r.total_data == total_data,
        r.per_page == 20,
        total_data == 0 ==> r.total_pages == 1,
        total_data > 0 ==> r.total_pages == (total_data + 19) / 20,
{
    let total_pages: u32 = if total_data == 0 {
        1
    } else {
        (((total_data as u64) + 19) / 20) as u32
    };
    PaginationInfo { current_page, total_pages, total_data, per_page: 20 }
}

impl DashboardError {
    /// A short human-readable description of the error.
    pub fn message(&self) -> (r: String)
        ensures
            match self {
                DashboardError::Request(m) => r@ == m@,
                DashboardError::Parse(m) => r@ == m@,
                DashboardError::Cache(m) => r@ == m@,
                DashboardError::Json(m) => r@ == m@,
                DashboardError::NotAuthenticated => r@ == "Not authenticated"@,
            },
    {
        match self {
            DashboardError::Request(m) => m.clone(),
            DashboardError::Parse(m) => m.clone(),
            DashboardError::Cache(m) => m.clone(),
            DashboardError::Json(m) => m.clone(),
            DashboardError::NotAuthenticated => "Not authenticated".to_owned(),
        }
    }
}

} // verus!
