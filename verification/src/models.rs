//! Data models for the values the various HTTP APIs return.
//!
//! The fields match those that come from the APIs, except when underscores
//! are included to improve field readability. Fractional quantities are
//! held as scaled integers so that every field is a plain value: angles in
//! millionths of a degree, pressures in thousandths of an inch of mercury,
//! heights in millimetres, and durations in thousandths of an hour or of a
//! minute, as each field notes.

use vstd::prelude::*;

verus! {

/// The per-feed candidate URL lists published by the status endpoint.
#[derive(Clone, Debug, PartialEq)]
pub struct StatusData {
    pub v3: Vec<String>,
    pub transceivers: Vec<String>,
    pub servers: Vec<String>,
    pub servers_sweatbox: Vec<String>,
    pub servers_all: Vec<String>,
}

/// The full body of the status endpoint.
#[derive(Clone, Debug, PartialEq)]
pub struct Status {
    pub data: StatusData,
    pub user: Vec<String>,
    pub metar: Vec<String>,
}

/// A pilot's filed flight plan, as embedded in the live snapshot.
#[derive(Clone, Debug, PartialEq)]
pub struct FlightPlan {
    pub flight_rules: String,
    pub aircraft: String,
    pub aircraft_faa: String,
    pub aircraft_short: String,
    pub departure: String,
    pub arrival: String,
    pub alternate: String,
    pub cruise_tas: String,
    pub altitude: String,
    pub deptime: String,
    pub enroute_time: String,
    pub fuel_time: String,
    pub remarks: String,
    pub route: String,
    pub revision_id: i64,
    pub assigned_transponder: String,
}

/// A connected pilot. `latitude` and `longitude` are in millionths of a
/// degree; `qnh_i_hg` is in thousandths of an inch of mercury.
#[derive(Clone, Debug, PartialEq)]
pub struct Pilot {
    pub cid: i64,
    pub name: String,
    pub callsign: String,
    pub server: String,
    pub pilot_rating: i8,
    pub latitude: i64,
    pub longitude: i64,
    pub altitude: i64,
    pub groundspeed: i64,
    pub transponder: String,
    pub heading: i64,
    pub qnh_i_hg: i64,
    pub qnh_mb: i64,
    pub flight_plan: Option<FlightPlan>,
    pub logon_time: String,
    pub last_updated: String,
}

/// A connected controller.
#[derive(Clone, Debug, PartialEq)]
pub struct Controller {
    pub cid: i64,
    pub name: String,
    pub callsign: String,
    pub frequency: String,
    pub facility: i64,
    pub rating: i8,
    pub server: String,
    pub visual_range: i64,
    pub text_atis: Option<Vec<String>>,
    pub last_updated: String,
    pub logon_time: String,
}

/// Metadata about one live snapshot.
#[derive(Clone, Debug, PartialEq)]
pub struct GeneralData {
    pub version: i64,
    pub reload: i64,
    pub update: String,
    pub update_timestamp: String,
    pub connected_clients: i64,
    pub unique_users: i64,
}

/// A connected ATIS station.
#[derive(Clone, Debug, PartialEq)]
pub struct Atis {
    pub cid: u64,
    pub name: String,
    pub callsign: String,
    pub frequency: String,
    pub facility: u8,
    pub rating: u8,
    pub server: String,
    pub visual_range: u16,
    pub atis_code: String,
    pub text_atis: Vec<String>,
    pub last_updated: String,
    pub logon_time: String,
}

/// A network server descriptor.
#[derive(Clone, Debug, PartialEq)]
pub struct Server {
    pub ident: String,
    pub hostname_or_ip: String,
    pub location: String,
    pub name: String,
    pub clients_connection_allowed: u16,
    pub client_connections_allowed: bool,
    pub is_sweatbox: bool,
}

/// A reference-table row mapping a small code to short and long names.
#[derive(Clone, Debug, PartialEq)]
pub struct ReferenceItem {
    pub id: i8,
    pub short: String,
    pub long: String,
}

/// A reference-table row with `_name`-suffixed fields.
#[derive(Clone, Debug, PartialEq)]
pub struct ReferenceNameItem {
    pub id: i8,
    pub short_name: String,
    pub long_name: String,
}

/// One full live snapshot of the network.
#[derive(Clone, Debug, PartialEq)]
pub struct V3ResponseData {
    pub general: GeneralData,
    pub pilots: Vec<Pilot>,
    pub controllers: Vec<Controller>,
    pub atis: Vec<Atis>,
    pub servers: Vec<Server>,
    pub facilities: Vec<ReferenceItem>,
    pub ratings: Vec<ReferenceItem>,
    pub pilot_ratings: Vec<ReferenceNameItem>,
}

/// One radio transceiver: position angles in millionths of a degree,
/// heights in millimetres.
#[derive(Clone, Debug, PartialEq)]
pub struct TransceiverEntry {
    pub id: u16,
    pub frequency: u64,
    pub lat_deg: i64,
    pub lon_deg: i64,
    pub height_msl_m: i64,
    pub height_agl_m: i64,
}

/// The transceivers operated under one callsign.
#[derive(Clone, Debug, PartialEq)]
pub struct TransceiverResponseEntry {
    pub callsign: String,
    pub transceivers: Vec<TransceiverEntry>,
}

/// A simple view of a user's ratings.
#[derive(Clone, Debug, PartialEq)]
pub struct UserRatingsSimple {
    pub id: String,
    pub rating: i8,
    pub pilot_rating: i8,
    pub susp_date: Option<String>,
    pub reg_date: String,
    pub region: String,
    pub division: String,
    pub subdivision: String,
    pub last_rating_change: String,
}

/// Cumulative time a user has spent at each position kind, in thousandths
/// of an hour.
#[derive(Clone, Debug, PartialEq)]
pub struct RatingsTimeData {
    pub id: i64,
    pub atc: i64,
    pub pilot: i64,
    pub s1: i64,
    pub s2: i64,
    pub s3: i64,
    pub c1: i64,
    pub c2: i64,
    pub c3: i64,
    pub i1: i64,
    pub i2: i64,
    pub i3: i64,
    pub sup: i64,
    pub adm: i64,
}

/// One row of a user's connection history.
#[derive(Clone, Debug, PartialEq)]
pub struct ConnectionEntry {
    pub id: u64,
    pub vatsim_id: String,
    pub connection_type: u16,
    pub rating: i8,
    pub callsign: String,
    pub start: String,
    pub end: Option<String>,
    pub server: String,
}

/// A paginated response wrapper. Includes a count of items, potential
/// links to next/previous pages, and a list of results. The caller follows
/// `next` with a further call; no operation here does so on its own.
#[derive(Clone, Debug, PartialEq)]
pub struct PaginatedResponse<T> {
    pub count: u64,
    pub next: Option<String>,
    pub previous: Option<String>,
    pub results: Vec<T>,
}

/// One row of ATC-session history. `total_minutes_on_callsign` is in
/// thousandths of a minute.
#[derive(Clone, Debug, PartialEq)]
pub struct AtcSessionEntry {
    pub connection_id: u64,
    pub start: String,
    pub end: String,
    pub server: String,
    pub vatsim_id: String,
    pub session_type: u16,
    pub rating: i8,
    pub callsign: String,
    pub minutes_on_callsign: String,
    pub total_minutes_on_callsign: i64,
    pub total_aircraft_tracked: u64,
    pub total_aircraft_seen: u64,
    pub total_flights_amended: u64,
    pub total_handoffs_initiated: u64,
    pub total_handoffs_received: u64,
    pub total_handoffs_refused: u64,
    pub total_squawks_assigned: u64,
    pub total_cruisealts_modified: u64,
    pub total_tempalts_modified: u64,
    pub total_scratchpad_mods: u64,
    pub aircraft_tracked: u64,
    pub aircraft_seen: u64,
    pub flights_amended: u64,
    pub handoffs_initiated: u64,
    pub handoffs_received: u64,
    pub handoffs_refused: u64,
    pub squawks_assigned: u64,
    pub cruise_alts_modified: u64,
    pub temp_alts_modified: u64,
    pub scratchpad_mods: u64,
}

/// One row of a user's filed-flight-plan history. These records carry
/// different fields from the flight plans embedded in the live snapshot.
#[derive(Clone, Debug, PartialEq)]
pub struct RestFlightPlans {
    pub id: u64,
    pub connection_id: u64,
    pub vatsim_id: String,
    pub flight_type: String,
    pub callsign: String,
    pub aircraft: String,
    pub cruise_speed: String,
    pub dep: String,
    pub arr: String,
    pub alt: String,
    pub altitude: String,
    pub rmks: String,
    pub route: String,
    pub deptime: String,
    pub hrs_enroute: u64,
    pub min_enroute: u64,
    pub hrs_fuel: u64,
    pub min_sfuel: u8,
    pub filed: String,
    pub assigned_squawk: String,
    pub modified_by_cid: String,
    pub modified_by_callsign: String,
}

/// A network region.
#[derive(Clone, Debug, PartialEq)]
pub struct Region {
    pub id: String,
    pub name: String,
    pub director: String,
}

/// A staffed facility. The upstream schema for this endpoint is not
/// published, so no fields are exposed.
#[derive(Clone, Debug, PartialEq)]
pub struct Facility {
}

} // verus!
