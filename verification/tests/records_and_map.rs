//! Checks of the transit record types and the map-object helpers.

use updater::area::AreaID;
use updater::frontier::{
    calculate_frontier, Block, BlockID, Perimeter, RoadID, RoadSideID, SideOfRoad,
};
use updater::records::{
    Agency, Calendardates, Routes, Shapes, Stops, Stoptimes, Transfers, Trips,
};

fn fields(v: &[&str]) -> Vec<String> {
    v.iter().map(|s| s.to_string()).collect()
}

#[test]
fn agency_from_fields_and_eq() {
    let v = fields(&["tpg", "Transports Publics Genevois", "https://tpg.ch", "Europe/Zurich", "fr", "022"]);
    let a = Agency::from(&v);
    assert_eq!(a.agency_id, "tpg");
    assert_eq!(a.agency_name, "Transports Publics Genevois");
    assert_eq!(a.agency_url, "https://tpg.ch");
    assert_eq!(a.agency_timezone, "Europe/Zurich");
    assert_eq!(a.agency_lang, "fr");
    assert_eq!(a.agency_phone, "022");
    let b = Agency::from(&v);
    assert!(a == b);
    let mut w = v.clone();
    w[1] = "Other".to_string();
    assert!(a != Agency::from(&w));
}

#[test]
fn calendardates_from_fields_and_eq() {
    let v = fields(&["svc1", "20230401", "1"]);
    let c = Calendardates::from(&v);
    assert_eq!(c.service_id, "svc1");
    assert_eq!(c.date, "20230401");
    assert_eq!(c.exception_type, "1");
    assert!(c == Calendardates::from(&v));
}

#[test]
fn routes_from_fields_and_eq() {
    let v = fields(&["19", "tpg", "19", "Onex - Vernier", "", "700"]);
    let r = Routes::from(&v);
    assert_eq!(r.route_id, "19");
    assert_eq!(r.agency_id, "tpg");
    assert_eq!(r.route_short_name, "19");
    assert_eq!(r.route_long_name, "Onex - Vernier");
    assert_eq!(r.route_desc, "");
    assert_eq!(r.route_type, "700");
    assert!(r == Routes::from(&v));
}

#[test]
fn shapes_from_fields_and_eq() {
    let v = fields(&["s1", "46.2", "6.14", "1", "0"]);
    let s = Shapes::from(&v);
    assert_eq!(s.shape_id, "s1");
    assert_eq!(s.shape_pt_lat, "46.2");
    assert_eq!(s.shape_pt_lon, "6.14");
    assert_eq!(s.shape_pt_sequence, "1");
    assert_eq!(s.shape_dist_traveled, "0");
    assert!(s == Shapes::from(&v));
}

#[test]
fn stoptimes_from_fields_and_eq() {
    let v = fields(&["trip9", "16:02:00", "16:02:30", "stop4", "1", "0", "0"]);
    let st = Stoptimes::from(&v);
    assert_eq!(st.trip_id, "trip9");
    assert_eq!(st.arrival_time, "16:02:00");
    assert_eq!(st.departure_time, "16:02:30");
    assert_eq!(st.stop_id, "stop4");
    assert_eq!(st.stop_sequence, "1");
    assert_eq!(st.pickup_type, "0");
    assert_eq!(st.drop_off_type, "0");
    assert!(st == Stoptimes::from(&v));
}

#[test]
fn stops_from_fields_and_eq() {
    let v = fields(&["stop4", "Bel-Air", "46.20", "6.14", "0", ""]);
    let s = Stops::from(&v);
    assert_eq!(s.stop_id, "stop4");
    assert_eq!(s.stop_name, "Bel-Air");
    assert_eq!(s.stop_lat, "46.20");
    assert_eq!(s.stop_lon, "6.14");
    assert_eq!(s.location_type, "0");
    assert_eq!(s.parent_station, "");
    assert!(s == Stops::from(&v));
}

#[test]
fn transfers_from_fields_and_eq() {
    let v = fields(&["stop4", "stop7", "2", "120"]);
    let t = Transfers::from(&v);
    assert_eq!(t.from_stop_id, "stop4");
    assert_eq!(t.to_stop_id, "stop7");
    assert_eq!(t.transfer_type, "2");
    assert_eq!(t.min_transfer_time, "120");
    assert!(t == Transfers::from(&v));
}

#[test]
fn trips_from_fields_and_eq() {
    let v = fields(&["19", "svc1", "trip9", "Vernier", "", "0", "s1"]);
    let t = Trips::from(&v);
    assert_eq!(t.route_id, "19");
    assert_eq!(t.service_id, "svc1");
    assert_eq!(t.trip_id, "trip9");
    assert_eq!(t.trip_headsign, "Vernier");
    assert_eq!(t.trip_short_name, "");
    assert_eq!(t.direction_id, "0");
    assert_eq!(t.shape_id, "s1");
    assert!(t == Trips::from(&v));
    let mut w = v.clone();
    w[6] = "s2".to_string();
    assert!(t != Trips::from(&w));
}

fn block_of(roads: &[usize]) -> Block {
    Block {
        perimeter: Perimeter {
            roads: roads
                .iter()
                .map(|r| RoadSideID { road: RoadID(*r), side: SideOfRoad::Right })
                .collect(),
        },
    }
}

#[test]
fn frontier_holds_blocks_sharing_a_boundary_road() {
    // the boundary runs along roads 1 and 2, on either side
    let boundary = Perimeter {
        roads: vec![
            RoadSideID { road: RoadID(1), side: SideOfRoad::Right },
            RoadSideID { road: RoadID(2), side: SideOfRoad::Left },
        ],
    };
    let blocks = vec![
        (BlockID(0), block_of(&[1, 5])),   // shares road 1: on the frontier
        (BlockID(1), block_of(&[7, 8])),   // shares nothing
        (BlockID(2), block_of(&[9, 2])),   // shares road 2: on the frontier
    ];
    let frontier = calculate_frontier(&boundary, &blocks);
    assert_eq!(frontier, vec![BlockID(0), BlockID(2)]);
}

#[test]
fn area_id_value() {
    let id = AreaID(7);
    assert_eq!(id.value(), 7);
    assert_eq!(id, AreaID(7));
    assert!(id < AreaID(8));
}
