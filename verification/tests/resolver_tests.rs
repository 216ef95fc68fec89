use vatsim_utils::errors::VatsimUtilError;
use vatsim_utils::live_api::Vatsim;
use vatsim_utils::models::StatusData;

fn status_data(v3: Vec<&str>, transceivers: Vec<&str>) -> StatusData {
    StatusData {
        v3: v3.into_iter().map(String::from).collect(),
        transceivers: transceivers.into_iter().map(String::from).collect(),
        servers: vec![],
        servers_sweatbox: vec![],
        servers_all: vec![],
    }
}

#[test]
fn empty_transceivers_list_fails_resolution() {
    let data = status_data(vec!["https://data.example.net/v3"], vec![]);
    let result = Vatsim::from_status_data(&data);
    assert_eq!(result, Err(VatsimUtilError::NoTransceiversUrl()));
}

#[test]
fn empty_v3_list_fails_resolution() {
    let data = status_data(vec![], vec!["https://data.example.net/transceivers"]);
    let result = Vatsim::from_status_data(&data);
    assert_eq!(result, Err(VatsimUtilError::NoV3Url()));
}

#[test]
fn both_lists_empty_reports_v3_first() {
    let data = status_data(vec![], vec![]);
    let result = Vatsim::from_status_data(&data);
    assert_eq!(result, Err(VatsimUtilError::NoV3Url()));
}

#[test]
fn singleton_lists_select_the_only_candidates() {
    let data = status_data(
        vec!["https://one.example.net/v3"],
        vec!["https://one.example.net/transceivers"],
    );
    let api = Vatsim::from_status_data(&data).unwrap();
    assert_eq!(&api.v3_url, "https://one.example.net/v3");
    assert_eq!(&api.transceivers_url, "https://one.example.net/transceivers");
}

#[test]
fn selection_comes_from_the_candidate_lists() {
    let data = status_data(
        vec!["https://a.example.net/v3", "https://b.example.net/v3"],
        vec![
            "https://a.example.net/xc",
            "https://b.example.net/xc",
            "https://c.example.net/xc",
        ],
    );
    for _ in 0..20 {
        let api = Vatsim::from_status_data(&data).unwrap();
        assert!(data.v3.contains(&api.v3_url));
        assert!(data.transceivers.contains(&api.transceivers_url));
    }
}
