//! The state of the whole window and how each event changes it. The front end reads
//! the store and performs the visits; the decisions are made here.
use vstd::prelude::*;
use crate::models::Country;
use crate::widgets::country_filter::{CountryFilters, CountryFiltersMessage};
use crate::widgets::country_info::{CountryInfo, CountryInfoMessage};
use crate::widgets::country_list::{CountryList, CountryListMessage};
use crate::widgets::world_map::{WorldMap, WorldMapCountryFilter, WorldMapMessage};

verus! {

/// The widgets of the window: the list and its filters, the info of the selected
/// country if any, and the map.
pub struct AppState {
    pub country_list: CountryList,
    pub country_filter: CountryFilters,
    pub country_info: Option<CountryInfo>,
    pub world_map: WorldMap,
}

/// A copy of a country.
fn copy_country(c: &Country) -> (r: Country)
    ensures
        r == *c,
{
    let description = match &c.description {
        Some(d) => Some(d.clone()),
        None => None,
    };
    Country {
        id: c.id,
        name: c.name.clone(),
        iso2: c.iso2.clone(),
        iso3: c.iso3.clone(),
        description,
    }
}

/// Whether a map selection holds exactly the one code `code`.
pub open spec fn selects_only(f: Option<WorldMapCountryFilter>, code: Seq<char>) -> bool {
    match f {
        Some(WorldMapCountryFilter::Include(codes)) => codes@.len() == 1 && codes@[0]@ == code,
        None => false,
    }
}

impl AppState {
    /// No filters, no selection, and a map of the given countries.
    pub fn new(countries: Vec<(Country, bool)>) -> (r: Self)
        ensures
            r.country_list@ == (Seq::<char>::empty(), false),
            r.country_filter@ == (Seq::<char>::empty(), false),
            r.country_info is None,
            r.world_map.country_filter is None,
            r.world_map.countries@ == countries@,
    {
        AppState {
            country_list: CountryList::new(),
            country_filter: CountryFilters::new(),
            country_info: None,
            world_map: WorldMap::new(countries),
        }
    }

    /// Escape closes the info of the selected country and clears the map's selection;
    /// without a selected country it changes nothing. `countries` is the list as the
    /// store now holds it.
    pub fn escape_released(&mut self, countries: Vec<(Country, bool)>)
        ensures
            final(self).country_list@ == old(self).country_list@,
            final(self).country_filter@ == old(self).country_filter@,
            old(self).country_info is Some ==> {
                &&& final(self).country_info is None
                &&& final(self).world_map.country_filter is None
                &&& final(self).world_map.countries@ == countries@
            },
            old(self).country_info is None ==> final(self).country_info is None
                && final(self).world_map == old(self).world_map,
    {
        if self.country_info.is_some() {
            self.country_info = None;
            self.world_map.update(WorldMapMessage::FilterRemoved, countries);
        }
    }

    /// A message of the list. Picking a country shows its info (with `visited`, its
    /// status in the store) and selects it alone on the map; picking none closes the
    /// info and clears the selection. The list takes every message.
    pub fn update_country_list_event(
        &mut self,
        msg: CountryListMessage,
        visited: bool,
        countries: Vec<(Country, bool)>,
    )
        ensures
            final(self).country_filter@ == old(self).country_filter@,
            match msg {
                CountryListMessage::Search(s) => {
                    &&& final(self).country_list@ == (s@, old(self).country_list@.1)
                    &&& final(self).country_info == old(self).country_info
                    &&& final(self).world_map == old(self).world_map
                },
                CountryListMessage::FilterOnlyVisited(b) => {
                    &&& final(self).country_list@ == (old(self).country_list@.0, b)
                    &&& final(self).country_info == old(self).country_info
                    &&& final(self).world_map == old(self).world_map
                },
                CountryListMessage::Select(Some(c)) => {
                    &&& final(self).country_list@ == old(self).country_list@
                    &&& final(self).country_info is Some
                    &&& final(self).country_info->Some_0.country() == c
                    &&& final(self).country_info->Some_0.is_visited() == visited
                    &&& selects_only(final(self).world_map.country_filter, c.iso2@)
                    &&& final(self).world_map.countries@ == countries@
                },
                CountryListMessage::Select(None) => {
                    &&& final(self).country_list@ == old(self).country_list@
                    &&& final(self).country_info is None
                    &&& final(self).world_map.country_filter is None
                    &&& final(self).world_map.countries@ == countries@
                },
            },
    {
        match &msg {
            CountryListMessage::Select(Some(country)) => {
                self.country_info = Some(CountryInfo::new(copy_country(country), visited));
                let mut codes: Vec<String> = Vec::new();
                codes.push(country.iso2.clone());
                self.world_map.update(
                    WorldMapMessage::FilterChanged(WorldMapCountryFilter::Include(codes)),
                    countries,
                );
            },
            CountryListMessage::Select(None) => {
                self.country_info = None;
                self.world_map.update(WorldMapMessage::FilterRemoved, countries);
            },
            _ => {},
        }
        self.country_list.update(msg);
    }

    /// A message of the filters goes to both the filters and the list.
    pub fn update_country_filter_event(&mut self, msg: CountryFiltersMessage)
        ensures
            final(self).country_info == old(self).country_info,
            final(self).world_map == old(self).world_map,
            match msg {
                CountryFiltersMessage::SearchString(s) => {
                    &&& final(self).country_list@ == (s@, old(self).country_list@.1)
                    &&& final(self).country_filter@ == (s@, old(self).country_filter@.1)
                },
                CountryFiltersMessage::OnlyVisited(b) => {
                    &&& final(self).country_list@ == (old(self).country_list@.0, b)
                    &&& final(self).country_filter@ == (old(self).country_filter@.0, b)
                },
            },
    {
        match msg {
            CountryFiltersMessage::SearchString(search) => {
                self.country_list.update(CountryListMessage::Search(search.clone()));
                self.country_filter.update(CountryFiltersMessage::SearchString(search));
            },
            CountryFiltersMessage::OnlyVisited(only_visited) => {
                self.country_list.update(CountryListMessage::FilterOnlyVisited(only_visited));
                self.country_filter.update(CountryFiltersMessage::OnlyVisited(only_visited));
            },
        }
    }

    /// A visit or unvisit of the shown country, once the store has recorded it: the
    /// info shows the new status.
    pub fn update_country_info_event(&mut self, msg: CountryInfoMessage)
        ensures
            final(self).country_list@ == old(self).country_list@,
            final(self).country_filter@ == old(self).country_filter@,
            final(self).world_map == old(self).world_map,
            final(self).country_info is Some <==> old(self).country_info is Some,
            old(self).country_info is Some ==> {
                &&& final(self).country_info->Some_0.country() == old(self).country_info->Some_0.country()
                &&& final(self).country_info->Some_0.is_visited() == (msg is VisitCountry)
            },
    {
        if let Some(country_info) = &mut self.country_info {
            country_info.update(msg);
        }
    }
}

} // verus!
