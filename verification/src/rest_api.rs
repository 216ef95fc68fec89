//! Request-URL construction for the network's REST endpoints.
//!
//! Every REST operation targets a fixed base URL plus path and query
//! parameters; the functions here build those URLs exactly, character by
//! character, as the specification functions state. Optional query
//! parameters are omitted from the URL entirely when absent, never sent
//! empty, and always appear in the order page, start, date.

use vstd::prelude::*;
use vstd::string::*;

use crate::text::{spec_dec_digits, u64_to_dec};

verus! {

/// The view of an optional string argument.
pub open spec fn spec_opt_str(s: Option<&str>) -> Option<Seq<char>> {
    match s {
        Some(x) => Some(x@),
        None => None,
    }
}

/// A query piece joined onto a (possibly empty) query string: the first
/// piece is introduced by `'?'`, every later one by `'&'`.
pub open spec fn spec_join_piece(q: Seq<char>, piece: Seq<char>) -> Seq<char> {
    if q.len() == 0 {
        "?"@ + piece
    } else {
        q + "&"@ + piece
    }
}

/// The query suffix for the history endpoints: `page`, `start` and `date`
/// parameters, each present only when given, in that order.
pub open spec fn spec_history_query(
    page: Option<u64>,
    start: Option<Seq<char>>,
    date: Option<Seq<char>>,
) -> Seq<char> {
    let q0 = Seq::<char>::empty();
    let q1 = match page {
        Some(p) => spec_join_piece(q0, "page="@ + spec_dec_digits(p as nat)),
        None => q0,
    };
    let q2 = match start {
        Some(s) => spec_join_piece(q1, "start="@ + s),
        None => q1,
    };
    match date {
        Some(d) => spec_join_piece(q2, "date="@ + d),
        None => q2,
    }
}

/// The stats-page URL for an account.
pub open spec fn spec_stats_url(cid: u64) -> Seq<char> {
    "https://stats.vatsim.net/stats/"@ + spec_dec_digits(cid as nat)
}

/// The common prefix of every per-account ratings endpoint.
pub open spec fn spec_ratings_base(cid: u64) -> Seq<char> {
    "https://api.vatsim.net/api/ratings/"@ + spec_dec_digits(cid as nat)
}

/// The URL of a user's simple ratings view.
pub open spec fn spec_user_ratings_url(cid: u64) -> Seq<char> {
    spec_ratings_base(cid) + "/"@
}

/// The URL of a user's time-by-position summary.
pub open spec fn spec_rating_times_url(cid: u64) -> Seq<char> {
    spec_ratings_base(cid) + "/rating_times"@
}

/// The URL of one page of a user's past connections.
pub open spec fn spec_connections_url(cid: u64, page: Option<u64>) -> Seq<char> {
    spec_ratings_base(cid) + "/connections"@ + spec_history_query(page, None, None)
}

/// The URL of one page of a user's past flight plans.
pub open spec fn spec_flight_plans_url(cid: u64, page: Option<u64>) -> Seq<char> {
    spec_ratings_base(cid) + "/flight_plans"@ + spec_history_query(page, None, None)
}

/// The URL of one page of a user's past ATC sessions, optionally narrowed
/// to a position specifier and a date range.
pub open spec fn spec_atc_sessions_url(
    cid: u64,
    page: Option<u64>,
    specifier: Option<Seq<char>>,
    start: Option<Seq<char>>,
    date: Option<Seq<char>>,
) -> Seq<char> {
    spec_ratings_base(cid) + "/atcsessions/"@ + (match specifier {
        Some(s) => s,
        None => Seq::<char>::empty(),
    }) + spec_history_query(page, start, date)
}

/// The URL of one page of a facility's historical staffing data.
pub open spec fn spec_facility_history_url(
    specifier: Seq<char>,
    page: Option<u64>,
    start: Option<Seq<char>>,
    date: Option<Seq<char>>,
) -> Seq<char> {
    "https://api.vatsim.net/api/facilities/"@ + specifier + spec_history_query(page, start, date)
}

/// Join one more `name=value` piece onto a query string.
fn join_piece(q: String, piece: &str) -> (r: String)
    ensures
        r@ == spec_join_piece(q@, piece@),
{
    if q.as_str().is_empty() {
        let mut r = String::from_str("?");
        r.append(piece);
        r
    } else {
        let mut r = q;
        r.append("&");
        r.append(piece);
        proof {
            assert(r@ =~= spec_join_piece(q@, piece@));
        }
        r
    }
}

/// Build the query suffix shared by the history endpoints.
fn history_query(page: Option<u64>, start: Option<&str>, date: Option<&str>) -> (r: String)
    ensures
        r@ == spec_history_query(page, spec_opt_str(start), spec_opt_str(date)),
{
    let mut q = String::new();
    if let Some(p) = page {
        let mut piece = String::from_str("page=");
        let digits = u64_to_dec(p);
        piece.append(digits.as_str());
        q = join_piece(q, piece.as_str());
    }
    if let Some(s) = start {
        let mut piece = String::from_str("start=");
        piece.append(s);
        q = join_piece(q, piece.as_str());
    }
    if let Some(d) = date {
        let mut piece = String::from_str("date=");
        piece.append(d);
        q = join_piece(q, piece.as_str());
    }
    q
}

/// The per-account ratings base URL.
fn ratings_base(cid: u64) -> (r: String)
    ensures
        r@ == spec_ratings_base(cid),
{
    let mut r = String::from_str("https://api.vatsim.net/api/ratings/");
    let digits = u64_to_dec(cid);
    r.append(digits.as_str());
    r
}

/// Get the URL for viewing a user's stats page.
///
/// This function just returns the URL; the caller is responsible for
/// either giving it to a user or opening it in a browser.
pub fn stats_url(cid: u64) -> (r: String)
    ensures
        r@ == spec_stats_url(cid),
{
    let mut r = String::from_str("https://stats.vatsim.net/stats/");
    let digits = u64_to_dec(cid);
    r.append(digits.as_str());
    r
}

/// The URL queried for a simple view of a user's ratings.
pub fn user_ratings_url(cid: u64) -> (r: String)
    ensures
        r@ == spec_user_ratings_url(cid),
{
    let mut r = ratings_base(cid);
    r.append("/");
    r
}

/// The URL queried for the time a user has spent at each position kind.
pub fn rating_times_url(cid: u64) -> (r: String)
    ensures
        r@ == spec_rating_times_url(cid),
{
    let mut r = ratings_base(cid);
    r.append("/rating_times");
    r
}

/// The URL queried for one page of a user's previous connections.
pub fn connections_url(cid: u64, page: Option<u64>) -> (r: String)
    ensures
        r@ == spec_connections_url(cid, page),
{
    let mut r = ratings_base(cid);
    r.append("/connections");
    let q = history_query(page, None, None);
    r.append(q.as_str());
    proof {
        assert(r@ =~= spec_connections_url(cid, page));
    }
    r
}

/// The URL queried for one page of a user's previous flight plans.
pub fn flight_plans_url(cid: u64, page: Option<u64>) -> (r: String)
    ensures
        r@ == spec_flight_plans_url(cid, page),
{
    let mut r = ratings_base(cid);
    r.append("/flight_plans");
    let q = history_query(page, None, None);
    r.append(q.as_str());
    proof {
        assert(r@ =~= spec_flight_plans_url(cid, page));
    }
    r
}

/// The URL queried for one page of a user's ATC sessions.
pub fn atc_sessions_url(
    cid: u64,
    page: Option<u64>,
    specifier: Option<&str>,
    start: Option<&str>,
    date: Option<&str>,
) -> (r: String)
    ensures
        r@ == spec_atc_sessions_url(
            cid,
            page,
            spec_opt_str(specifier),
            spec_opt_str(start),
            spec_opt_str(date),
        ),
{
    let mut r = ratings_base(cid);
    r.append("/atcsessions/");
    if let Some(s) = specifier {
        r.append(s);
    }
    let q = history_query(page, start, date);
    r.append(q.as_str());
    proof {
        assert(r@ =~= spec_atc_sessions_url(
            cid,
            page,
            spec_opt_str(specifier),
            spec_opt_str(start),
            spec_opt_str(date),
        ));
    }
    r
}

/// The URL queried for one page of a facility's staffing history.
pub fn facility_history_url(
    specifier: &str,
    page: Option<u64>,
    start: Option<&str>,
    date: Option<&str>,
) -> (r: String)
    ensures
        r@ == spec_facility_history_url(
            specifier@,
            page,
            spec_opt_str(start),
            spec_opt_str(date),
        ),
{
    let mut r = String::from_str("https://api.vatsim.net/api/facilities/");
    r.append(specifier);
    let q = history_query(page, start, date);
    r.append(q.as_str());
    proof {
        assert(r@ =~= spec_facility_history_url(
            specifier@,
            page,
            spec_opt_str(start),
            spec_opt_str(date),
        ));
    }
    r
}

/// The URL queried for the list of network regions.
pub fn regions_url() -> (r: String)
    ensures
        r@ == "https://api.vatsim.net/api/regions/"@,
{
    String::from_str("https://api.vatsim.net/api/regions/")
}

/// The URL queried for the facilities currently staffed by ATC.
pub fn online_facilities_url() -> (r: String)
    ensures
        r@ == "https://api.vatsim.net/api/facilities/"@,
{
    String::from_str("https://api.vatsim.net/api/facilities/")
}

} // verus!
