use vatsim_utils::live_api::status_url;
use vatsim_utils::rest_api::{
    atc_sessions_url, connections_url, facility_history_url, flight_plans_url,
    online_facilities_url, rating_times_url, regions_url, stats_url, user_ratings_url,
};

#[test]
fn stats_url_formats_account_id() {
    let url = stats_url(1234567890);
    assert_eq!(&url, "https://stats.vatsim.net/stats/1234567890");
}

#[test]
fn stats_url_zero() {
    assert_eq!(&stats_url(0), "https://stats.vatsim.net/stats/0");
}

#[test]
fn stats_url_largest_account_id() {
    assert_eq!(
        &stats_url(u64::MAX),
        "https://stats.vatsim.net/stats/18446744073709551615"
    );
}

#[test]
fn status_url_is_fixed() {
    assert_eq!(&status_url(), "https://status.vatsim.net/status.json");
}

#[test]
fn user_ratings_url_has_trailing_slash() {
    assert_eq!(
        &user_ratings_url(1234567890),
        "https://api.vatsim.net/api/ratings/1234567890/"
    );
}

#[test]
fn rating_times_url_formats() {
    assert_eq!(
        &rating_times_url(1234567890),
        "https://api.vatsim.net/api/ratings/1234567890/rating_times"
    );
}

#[test]
fn connections_url_without_page() {
    assert_eq!(
        &connections_url(1234567890, None),
        "https://api.vatsim.net/api/ratings/1234567890/connections"
    );
}

#[test]
fn connections_url_with_page() {
    assert_eq!(
        &connections_url(1234567890, Some(3)),
        "https://api.vatsim.net/api/ratings/1234567890/connections?page=3"
    );
}

#[test]
fn flight_plans_url_without_page() {
    assert_eq!(
        &flight_plans_url(1234567890, None),
        "https://api.vatsim.net/api/ratings/1234567890/flight_plans"
    );
}

#[test]
fn flight_plans_url_with_page() {
    assert_eq!(
        &flight_plans_url(1234567890, Some(3)),
        "https://api.vatsim.net/api/ratings/1234567890/flight_plans?page=3"
    );
}

#[test]
fn atc_sessions_url_bare() {
    assert_eq!(
        &atc_sessions_url(1234567890, None, None, None, None),
        "https://api.vatsim.net/api/ratings/1234567890/atcsessions/"
    );
}

#[test]
fn atc_sessions_url_with_everything() {
    assert_eq!(
        &atc_sessions_url(
            1234567890,
            Some(2),
            Some("SAN_TWR"),
            Some("2020-01-02"),
            None
        ),
        "https://api.vatsim.net/api/ratings/1234567890/atcsessions/SAN_TWR?page=2&start=2020-01-02"
    );
}

#[test]
fn atc_sessions_url_date_only() {
    assert_eq!(
        &atc_sessions_url(7, None, None, None, Some("2021-06-30")),
        "https://api.vatsim.net/api/ratings/7/atcsessions/?date=2021-06-30"
    );
}

#[test]
fn atc_sessions_url_start_and_date() {
    assert_eq!(
        &atc_sessions_url(7, None, None, Some("2021-01-01"), Some("2021-06-30")),
        "https://api.vatsim.net/api/ratings/7/atcsessions/?start=2021-01-01&date=2021-06-30"
    );
}

#[test]
fn facility_history_url_bare() {
    assert_eq!(
        &facility_history_url("SAN_TWR", None, None, None),
        "https://api.vatsim.net/api/facilities/SAN_TWR"
    );
}

#[test]
fn facility_history_url_with_page_and_start() {
    assert_eq!(
        &facility_history_url("SAN_TWR", Some(2), Some("2022-02-01"), None),
        "https://api.vatsim.net/api/facilities/SAN_TWR?page=2&start=2022-02-01"
    );
}

#[test]
fn regions_url_is_fixed() {
    assert_eq!(&regions_url(), "https://api.vatsim.net/api/regions/");
}

#[test]
fn online_facilities_url_is_fixed() {
    assert_eq!(&online_facilities_url(), "https://api.vatsim.net/api/facilities/");
}
