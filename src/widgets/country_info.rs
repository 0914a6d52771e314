//! The selected country and whether it is visited.
use vstd::prelude::*;
use crate::models::Country;

verus! {

/// The country shown, and its visit status.
pub struct CountryInfo {
    country: Country,
    visited: bool,
}

/// A request to mark the shown country visited or not visited.
#[derive(Debug)]
pub enum CountryInfoMessage {
    VisitCountry(Country),
    UnvisitCountry(Country),
}

impl CountryInfo {
    /// The info of `country` with the given status.
    pub fn new(country: Country, visited: bool) -> (r: Self)
        ensures
            r.country() == country,
            r.is_visited() == visited,
    {
        CountryInfo { country, visited }
    }

    pub closed spec fn country(&self) -> Country {
        self.country
    }

    pub closed spec fn is_visited(&self) -> bool {
        self.visited
    }

    /// The country shown.
    pub fn get_country(&self) -> (r: &Country)
        ensures
            *r == self.country(),
    {
        &self.country
    }

    /// Whether the country shown is visited.
    pub fn visited(&self) -> (r: bool)
        ensures
            r == self.is_visited(),
    {
        self.visited
    }

    /// Marks the country visited or not visited; the country shown stays.
    pub fn update(&mut self, msg: CountryInfoMessage)
        ensures
            final(self).country() == old(self).country(),
            final(self).is_visited() == (msg is VisitCountry),
    {
        match msg {
            CountryInfoMessage::VisitCountry(_) => self.visited = true,
            CountryInfoMessage::UnvisitCountry(_) => self.visited = false,
        }
    }
}

} // verus!
