//! Record types for the rows of a transit feed's tables.
//!
//! Each record is built from the fields of one parsed line (a vector of
//! strings with the quotes already stripped), in the order the table's
//! header declares.  Two records are equal exactly when all their fields
//! read the same.

use vstd::prelude::*;

verus! {

/// One row of the agency table.
pub struct Agency {
    pub agency_id: String,
    pub agency_name: String,
    pub agency_url: String,
    pub agency_timezone: String,
    pub agency_lang: String,
    pub agency_phone: String,
}

impl Agency {
    /// Build a record from one parsed line's fields.
    pub fn from(v: &Vec<String>) -> (r: Agency)
        requires
            v@.len() >= 6,
        ensures
            r.agency_id == v@[0],
            r.agency_name == v@[1],
            r.agency_url == v@[2],
            r.agency_timezone == v@[3],
            r.agency_lang == v@[4],
            r.agency_phone == v@[5],
    {
        Agency {
            agency_id: v[0].clone(),
            agency_name: v[1].clone(),
            agency_url: v[2].clone(),
            agency_timezone: v[3].clone(),
            agency_lang: v[4].clone(),
            agency_phone: v[5].clone(),
        }
    }
}

impl PartialEq for Agency {
    fn eq(&self, other: &Agency) -> (r: bool) {
        self.agency_id.eq(&other.agency_id) && self.agency_name.eq(&other.agency_name)
            && self.agency_url.eq(&other.agency_url) && self.agency_timezone.eq(
            &other.agency_timezone,
        ) && self.agency_lang.eq(&other.agency_lang) && self.agency_phone.eq(&other.agency_phone)
    }
}

impl vstd::std_specs::cmp::PartialEqSpecImpl for Agency {
    open spec fn obeys_eq_spec() -> bool {
        true
    }

    open spec fn eq_spec(&self, other: &Agency) -> bool {
        self.agency_id@ == other.agency_id@ && self.agency_name@ == other.agency_name@
            && self.agency_url@ == other.agency_url@ && self.agency_timezone@
            == other.agency_timezone@ && self.agency_lang@ == other.agency_lang@
            && self.agency_phone@ == other.agency_phone@
    }
}

/// One row of the calendar-dates table.
pub struct Calendardates {
    pub service_id: String,
    pub date: String,
    pub exception_type: String,
}

impl Calendardates {
    /// Build a record from one parsed line's fields.
    pub fn from(v: &Vec<String>) -> (r: Calendardates)
        requires
            v@.len() >= 3,
        ensures
            r.service_id == v@[0],
            r.date == v@[1],
            r.exception_type == v@[2],
    {
        Calendardates { service_id: v[0].clone(), date: v[1].clone(), exception_type: v[2].clone() }
    }
}

impl PartialEq for Calendardates {
    fn eq(&self, other: &Calendardates) -> (r: bool) {
        self.service_id.eq(&other.service_id) && self.date.eq(&other.date)
            && self.exception_type.eq(&other.exception_type)
    }
}

impl vstd::std_specs::cmp::PartialEqSpecImpl for Calendardates {
    open spec fn obeys_eq_spec() -> bool {
        true
    }

    open spec fn eq_spec(&self, other: &Calendardates) -> bool {
        self.service_id@ == other.service_id@ && self.date@ == other.date@ && self.exception_type@
            == other.exception_type@
    }
}

/// One row of the routes table.
pub struct Routes {
    pub route_id: String,
    pub agency_id: String,
    pub route_short_name: String,
    pub route_long_name: String,
    pub route_desc: String,
    pub route_type: String,
}

impl Routes {
    /// Build a record from one parsed line's fields.
    pub fn from(v: &Vec<String>) -> (r: Routes)
        requires
            v@.len() >= 6,
        ensures
            r.route_id == v@[0],
            r.agency_id == v@[1],
            r.route_short_name == v@[2],
            r.route_long_name == v@[3],
            r.route_desc == v@[4],
            r.route_type == v@[5],
    {
        Routes {
            route_id: v[0].clone(),
            agency_id: v[1].clone(),
            route_short_name: v[2].clone(),
            route_long_name: v[3].clone(),
            route_desc: v[4].clone(),
            route_type: v[5].clone(),
        }
    }
}

impl PartialEq for Routes {
    fn eq(&self, other: &Routes) -> (r: bool) {
        self.route_id.eq(&other.route_id) && self.agency_id.eq(&other.agency_id)
            && self.route_short_name.eq(&other.route_short_name) && self.route_long_name.eq(
            &other.route_long_name,
        ) && self.route_desc.eq(&other.route_desc) && self.route_type.eq(&other.route_type)
    }
}

impl vstd::std_specs::cmp::PartialEqSpecImpl for Routes {
    open spec fn obeys_eq_spec() -> bool {
        true
    }

    open spec fn eq_spec(&self, other: &Routes) -> bool {
        self.route_id@ == other.route_id@ && self.agency_id@ == other.agency_id@
            && self.route_short_name@ == other.route_short_name@ && self.route_long_name@
            == other.route_long_name@ && self.route_desc@ == other.route_desc@ && self.route_type@
            == other.route_type@
    }
}

/// One row of the shapes table.
pub struct Shapes {
    pub shape_id: String,
    pub shape_pt_lat: String,
    pub shape_pt_lon: String,
    pub shape_pt_sequence: String,
    pub shape_dist_traveled: String,
}

impl Shapes {
    /// Build a record from one parsed line's fields.
    pub fn from(v: &Vec<String>) -> (r: Shapes)
        requires
            v@.len() >= 5,
        ensures
            r.shape_id == v@[0],
            r.shape_pt_lat == v@[1],
            r.shape_pt_lon == v@[2],
            r.shape_pt_sequence == v@[3],
            r.shape_dist_traveled == v@[4],
    {
        Shapes {
            shape_id: v[0].clone(),
            shape_pt_lat: v[1].clone(),
            shape_pt_lon: v[2].clone(),
            shape_pt_sequence: v[3].clone(),
            shape_dist_traveled: v[4].clone(),
        }
    }
}

impl PartialEq for Shapes {
    fn eq(&self, other: &Shapes) -> (r: bool) {
        self.shape_id.eq(&other.shape_id) && self.shape_pt_lat.eq(&other.shape_pt_lat)
            && self.shape_pt_lon.eq(&other.shape_pt_lon) && self.shape_pt_sequence.eq(
            &other.shape_pt_sequence,
        ) && self.shape_dist_traveled.eq(&other.shape_dist_traveled)
    }
}

impl vstd::std_specs::cmp::PartialEqSpecImpl for Shapes {
    open spec fn obeys_eq_spec() -> bool {
        true
    }

    open spec fn eq_spec(&self, other: &Shapes) -> bool {
        self.shape_id@ == other.shape_id@ && self.shape_pt_lat@ == other.shape_pt_lat@
            && self.shape_pt_lon@ == other.shape_pt_lon@ && self.shape_pt_sequence@
            == other.shape_pt_sequence@ && self.shape_dist_traveled@
            == other.shape_dist_traveled@
    }
}

/// One row of the stop-times table.
pub struct Stoptimes {
    pub trip_id: String,
    pub arrival_time: String,
    pub departure_time: String,
    pub stop_id: String,
    pub stop_sequence: String,
    pub pickup_type: String,
    pub drop_off_type: String,
}

impl Stoptimes {
    /// Build a record from one parsed line's fields.
    pub fn from(v: &Vec<String>) -> (r: Stoptimes)
        requires
            v@.len() >= 7,
        ensures
            r.trip_id == v@[0],
            r.arrival_time == v@[1],
            r.departure_time == v@[2],
            r.stop_id == v@[3],
            r.stop_sequence == v@[4],
            r.pickup_type == v@[5],
            r.drop_off_type == v@[6],
    {
        Stoptimes {
            trip_id: v[0].clone(),
            arrival_time: v[1].clone(),
            departure_time: v[2].clone(),
            stop_id: v[3].clone(),
            stop_sequence: v[4].clone(),
            pickup_type: v[5].clone(),
            drop_off_type: v[6].clone(),
        }
    }
}

impl PartialEq for Stoptimes {
    fn eq(&self, other: &Stoptimes) -> (r: bool) {
        self.trip_id.eq(&other.trip_id) && self.arrival_time.eq(&other.arrival_time)
            && self.departure_time.eq(&other.departure_time) && self.stop_id.eq(&other.stop_id)
            && self.stop_sequence.eq(&other.stop_sequence) && self.pickup_type.eq(
            &other.pickup_type,
        ) && self.drop_off_type.eq(&other.drop_off_type)
    }
}

impl vstd::std_specs::cmp::PartialEqSpecImpl for Stoptimes {
    open spec fn obeys_eq_spec() -> bool {
        true
    }

    open spec fn eq_spec(&self, other: &Stoptimes) -> bool {
        self.trip_id@ == other.trip_id@ && self.arrival_time@ == other.arrival_time@
            && self.departure_time@ == other.departure_time@ && self.stop_id@ == other.stop_id@
            && self.stop_sequence@ == other.stop_sequence@ && self.pickup_type@
            == other.pickup_type@ && self.drop_off_type@ == other.drop_off_type@
    }
}

/// One row of the stops table.
pub struct Stops {
    pub stop_id: String,
    pub stop_name: String,
    pub stop_lat: String,
    pub stop_lon: String,
    pub location_type: String,
    pub parent_station: String,
}

impl Stops {
    /// Build a record from one parsed line's fields.
    pub fn from(v: &Vec<String>) -> (r: Stops)
        requires
            v@.len() >= 6,
        ensures
            r.stop_id == v@[0],
            r.stop_name == v@[1],
            r.stop_lat == v@[2],
            r.stop_lon == v@[3],
            r.location_type == v@[4],
            r.parent_station == v@[5],
    {
        Stops {
            stop_id: v[0].clone(),
            stop_name: v[1].clone(),
            stop_lat: v[2].clone(),
            stop_lon: v[3].clone(),
            location_type: v[4].clone(),
            parent_station: v[5].clone(),
        }
    }
}

impl PartialEq for Stops {
    fn eq(&self, other: &Stops) -> (r: bool) {
        self.stop_id.eq(&other.stop_id) && self.stop_name.eq(&other.stop_name)
            && self.stop_lat.eq(&other.stop_lat) && self.stop_lon.eq(&other.stop_lon)
            && self.location_type.eq(&other.location_type) && self.parent_station.eq(
            &other.parent_station,
        )
    }
}

impl vstd::std_specs::cmp::PartialEqSpecImpl for Stops {
    open spec fn obeys_eq_spec() -> bool {
        true
    }

    open spec fn eq_spec(&self, other: &Stops) -> bool {
        self.stop_id@ == other.stop_id@ && self.stop_name@ == other.stop_name@ && self.stop_lat@
            == other.stop_lat@ && self.stop_lon@ == other.stop_lon@ && self.location_type@
            == other.location_type@ && self.parent_station@ == other.parent_station@
    }
}

/// One row of the transfers table.
pub struct Transfers {
    pub from_stop_id: String,
    pub to_stop_id: String,
    pub transfer_type: String,
    pub min_transfer_time: String,
}

impl Transfers {
    /// Build a record from one parsed line's fields.
    pub fn from(v: &Vec<String>) -> (r: Transfers)
        requires
            v@.len() >= 4,
        ensures
            r.from_stop_id == v@[0],
            r.to_stop_id == v@[1],
            r.transfer_type == v@[2],
            r.min_transfer_time == v@[3],
    {
        Transfers {
            from_stop_id: v[0].clone(),
            to_stop_id: v[1].clone(),
            transfer_type: v[2].clone(),
            min_transfer_time: v[3].clone(),
        }
    }
}

impl PartialEq for Transfers {
    fn eq(&self, other: &Transfers) -> (r: bool) {
        self.from_stop_id.eq(&other.from_stop_id) && self.to_stop_id.eq(&other.to_stop_id)
            && self.transfer_type.eq(&other.transfer_type) && self.min_transfer_time.eq(
            &other.min_transfer_time,
        )
    }
}

impl vstd::std_specs::cmp::PartialEqSpecImpl for Transfers {
    open spec fn obeys_eq_spec() -> bool {
        true
    }

    open spec fn eq_spec(&self, other: &Transfers) -> bool {
        self.from_stop_id@ == other.from_stop_id@ && self.to_stop_id@ == other.to_stop_id@
            && self.transfer_type@ == other.transfer_type@ && self.min_transfer_time@
            == other.min_transfer_time@
    }
}

/// One row of the trips table.
pub struct Trips {
    pub route_id: String,
    pub service_id: String,
    pub trip_id: String,
    pub trip_headsign: String,
    pub trip_short_name: String,
    pub direction_id: String,
    pub shape_id: String,
}

impl Trips {
    /// Build a record from one parsed line's fields.
    pub fn from(v: &Vec<String>) -> (r: Trips)
        requires
            v@.len() >= 7,
        ensures
            r.route_id == v@[0],
            r.service_id == v@[1],
            r.trip_id == v@[2],
            r.trip_headsign == v@[3],
            r.trip_short_name == v@[4],
            r.direction_id == v@[5],
            r.shape_id == v@[6],
    {
        Trips {
            route_id: v[0].clone(),
            service_id: v[1].clone(),
            trip_id: v[2].clone(),
            trip_headsign: v[3].clone(),
            trip_short_name: v[4].clone(),
            direction_id: v[5].clone(),
            shape_id: v[6].clone(),
        }
    }
}

impl PartialEq for Trips {
    fn eq(&self, other: &Trips) -> (r: bool) {
        self.route_id.eq(&other.route_id) && self.service_id.eq(&other.service_id)
            && self.trip_id.eq(&other.trip_id) && self.trip_headsign.eq(&other.trip_headsign)
            && self.trip_short_name.eq(&other.trip_short_name) && self.direction_id.eq(
            &other.direction_id,
        ) && self.shape_id.eq(&other.shape_id)
    }
}

impl vstd::std_specs::cmp::PartialEqSpecImpl for Trips {
    open spec fn obeys_eq_spec() -> bool {
        true
    }

    open spec fn eq_spec(&self, other: &Trips) -> bool {
        self.route_id@ == other.route_id@ && self.service_id@ == other.service_id@ && self.trip_id@
            == other.trip_id@ && self.trip_headsign@ == other.trip_headsign@
            && self.trip_short_name@ == other.trip_short_name@ && self.direction_id@
            == other.direction_id@ && self.shape_id@ == other.shape_id@
    }
}

} // verus!
