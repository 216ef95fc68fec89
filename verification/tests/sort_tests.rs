use vatsim_utils::live_api::sort_by_callsign;
use vatsim_utils::models::{
    Atis, Controller, GeneralData, Pilot, ReferenceItem, ReferenceNameItem, Server,
    V3ResponseData,
};

fn pilot(callsign: &str, cid: i64) -> Pilot {
    Pilot {
        cid,
        name: String::from("Test Pilot"),
        callsign: String::from(callsign),
        server: String::from("SERVER1"),
        pilot_rating: 1,
        latitude: 32733600,
        longitude: -117189700,
        altitude: 12000,
        groundspeed: 250,
        transponder: String::from("2000"),
        heading: 270,
        qnh_i_hg: 29920,
        qnh_mb: 1013,
        flight_plan: None,
        logon_time: String::from("2024-01-01T00:00:00Z"),
        last_updated: String::from("2024-01-01T01:00:00Z"),
    }
}

fn controller(callsign: &str, cid: i64) -> Controller {
    Controller {
        cid,
        name: String::from("Test Controller"),
        callsign: String::from(callsign),
        frequency: String::from("118.300"),
        facility: 4,
        rating: 5,
        server: String::from("SERVER1"),
        visual_range: 50,
        text_atis: None,
        last_updated: String::from("2024-01-01T01:00:00Z"),
        logon_time: String::from("2024-01-01T00:00:00Z"),
    }
}

fn snapshot(pilots: Vec<Pilot>, controllers: Vec<Controller>) -> V3ResponseData {
    V3ResponseData {
        general: GeneralData {
            version: 3,
            reload: 1,
            update: String::from("20240101010000"),
            update_timestamp: String::from("2024-01-01T01:00:00Z"),
            connected_clients: 2,
            unique_users: 2,
        },
        pilots,
        controllers,
        atis: Vec::<Atis>::new(),
        servers: Vec::<Server>::new(),
        facilities: Vec::<ReferenceItem>::new(),
        ratings: Vec::<ReferenceItem>::new(),
        pilot_ratings: Vec::<ReferenceNameItem>::new(),
    }
}

#[test]
fn pilots_sort_ascending_by_callsign() {
    let v = vec![
        pilot("UAL123", 3),
        pilot("AAL1", 1),
        pilot("DAL99", 2),
        pilot("AAL10", 4),
    ];
    let sorted = sort_by_callsign(v);
    let callsigns: Vec<&str> = sorted.iter().map(|p| p.callsign.as_str()).collect();
    assert_eq!(callsigns, vec!["AAL1", "AAL10", "DAL99", "UAL123"]);
}

#[test]
fn sorted_snapshot_orders_pilots_and_controllers() {
    let data = snapshot(
        vec![pilot("SWA2", 1), pilot("ASA64", 2), pilot("SWA1", 3)],
        vec![
            controller("SAN_TWR", 10),
            controller("LAX_GND", 11),
            controller("LAX_CTR", 12),
        ],
    );
    let sorted = data.into_sorted();
    let pilot_callsigns: Vec<&str> = sorted.pilots.iter().map(|p| p.callsign.as_str()).collect();
    assert_eq!(pilot_callsigns, vec!["ASA64", "SWA1", "SWA2"]);
    let controller_callsigns: Vec<&str> =
        sorted.controllers.iter().map(|c| c.callsign.as_str()).collect();
    assert_eq!(controller_callsigns, vec!["LAX_CTR", "LAX_GND", "SAN_TWR"]);
    assert_eq!(sorted.general.connected_clients, 2);
}

#[test]
fn same_payload_sorts_the_same_regardless_of_upstream_order() {
    let one = snapshot(
        vec![pilot("UAL123", 3), pilot("AAL1", 1), pilot("DAL99", 2)],
        vec![],
    );
    let other = snapshot(
        vec![pilot("DAL99", 2), pilot("UAL123", 3), pilot("AAL1", 1)],
        vec![],
    );
    assert_eq!(one.into_sorted().pilots, other.into_sorted().pilots);
}

#[test]
fn equal_callsigns_keep_their_relative_order() {
    let v = vec![pilot("AAL1", 1), pilot("ZZZ9", 9), pilot("AAL1", 2)];
    let sorted = sort_by_callsign(v);
    assert_eq!(sorted[0].cid, 1);
    assert_eq!(sorted[1].cid, 2);
    assert_eq!(sorted[2].cid, 9);
}

#[test]
fn empty_and_singleton_sequences_sort_unchanged() {
    let empty: Vec<Pilot> = vec![];
    assert_eq!(sort_by_callsign(empty).len(), 0);
    let one = vec![pilot("AAL1", 1)];
    let sorted = sort_by_callsign(one);
    assert_eq!(sorted.len(), 1);
    assert_eq!(sorted[0].callsign, "AAL1");
}
