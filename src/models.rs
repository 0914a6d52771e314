//! Countries and visits as the persistence layer stores them.
use vstd::prelude::*;
use crate::base_data::BaseDataCountry;
use crate::text::{matches_any_case, matches_ignoring_case};

verus! {

/// A stored country.
#[derive(Clone, Debug)]
pub struct Country {
    pub id: i32,
    pub name: String,
    pub iso2: String,
    pub iso3: String,
    pub description: Option<String>,
}

impl Country {
    /// Whether `filter` occurs, case aside, in the name or one of the two codes.
    pub fn matches_filter(&self, filter: &str) -> (r: bool)
        ensures
            r == matches_any_case(self.name@, self.iso2@, self.iso3@, filter@),
            filter@.len() == 0 ==> r,
    {
        matches_ignoring_case(self.name.as_str(), self.iso2.as_str(), self.iso3.as_str(), filter)
    }
}

/// A country to be stored; the store gives it its id.
#[derive(Clone, Debug)]
pub struct NewCountry {
    pub name: String,
    pub iso2: String,
    pub iso3: String,
    pub description: Option<String>,
}

impl From<BaseDataCountry> for NewCountry {
    fn from(value: BaseDataCountry) -> (r: Self) {
        NewCountry {
            name: value.name,
            iso2: value.iso_code.alpha2,
            iso3: value.iso_code.alpha3,
            description: None,
        }
    }
}

impl vstd::std_specs::convert::FromSpecImpl<BaseDataCountry> for NewCountry {
    open spec fn obeys_from_spec() -> bool {
        true
    }

    open spec fn from_spec(value: BaseDataCountry) -> Self {
        NewCountry {
            name: value.name,
            iso2: value.iso_code.alpha2,
            iso3: value.iso_code.alpha3,
            description: None,
        }
    }
}

/// A stored visit of a country.
#[derive(Clone, Copy, Debug, PartialEq, Eq, Structural)]
pub struct CountryVisit {
    pub id: i32,
    pub country_id: i32,
}

/// A visit to be stored; the store gives it its id.
#[derive(Clone, Copy, Debug, PartialEq, Eq, Structural)]
pub struct NewCountryVisit {
    pub country_id: i32,
}

} // verus!
