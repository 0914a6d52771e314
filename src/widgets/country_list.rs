//! The list of countries: which ones are shown, and in which order.
use vstd::prelude::*;
use crate::models::Country;
use crate::text::{lower_of, lowercase, matches_any_case};

verus! {

/// The list's filters.
pub struct CountryList {
    filter: String,
    filter_only_visited: bool,
}

/// A change of the list's filters, or a country picked from it (`None`: none).
#[derive(Clone, Debug)]
pub enum CountryListMessage {
    Search(String),
    FilterOnlyVisited(bool),
    Select(Option<Country>),
}

/// Whether `a` comes before `b` or equals it, comparing char by char.
pub open spec fn text_le(a: Seq<char>, b: Seq<char>) -> bool
    decreases a.len(),
{
    if a.len() == 0 {
        true
    } else if b.len() == 0 {
        false
    } else if a[0] != b[0] {
        (a[0] as u32) < (b[0] as u32)
    } else {
        text_le(a.drop_first(), b.drop_first())
    }
}

/// Whether countries are in order of name.
pub open spec fn sorted_by_name(s: Seq<Country>) -> bool {
    forall|i: int, j: int| 0 <= i < j < s.len() ==> text_le(#[trigger] s[i].name@, #[trigger] s[j].name@)
}

/// The countries named `name`, in their order.
pub open spec fn with_name(s: Seq<Country>, name: Seq<char>) -> Seq<Country> {
    s.filter(|c: Country| c.name@ == name)
}

/// Whether `r` holds the countries of `s` in order of name, countries of equal names
/// keeping their order.
pub open spec fn stably_sorted_from(r: Seq<Country>, s: Seq<Country>) -> bool {
    &&& r.to_multiset() == s.to_multiset()
    &&& sorted_by_name(r)
    &&& forall|name: Seq<char>| #[trigger] with_name(r, name) == with_name(s, name)
}

/// Relies on itertools::Itertools::sorted_by with a comparison of names (`String`'s
/// order, by chars), a stable sort: the same countries, in order of name, those of
/// equal names in their order.
#[verifier::external_body]
fn sort_by_name(countries: Vec<Country>) -> (r: Vec<Country>)
    ensures
        stably_sorted_from(r@, countries@),
{
    itertools::Itertools::sorted_by(countries.into_iter(), |a, b| Ord::cmp(&a.name, &b.name)).collect()
}

/// Whether a country with its visit status passes the search text (compared in lower
/// case) and the "only visited" switch.
pub open spec fn passes(c: (Country, bool), filter: Seq<char>, only_visited: bool) -> bool {
    matches_any_case(c.0.name@, c.0.iso2@, c.0.iso3@, lower_of(filter)) && (!only_visited || c.1)
}

/// The countries that pass, in their order.
pub open spec fn passing(cs: Seq<(Country, bool)>, filter: Seq<char>, only_visited: bool) -> Seq<
    Country,
>
    decreases cs.len(),
{
    if cs.len() == 0 {
        Seq::empty()
    } else {
        let rest = passing(cs.drop_first(), filter, only_visited);
        if passes(cs[0], filter, only_visited) {
            seq![cs[0].0] + rest
        } else {
            rest
        }
    }
}

impl View for CountryList {
    type V = (Seq<char>, bool);

    closed spec fn view(&self) -> (Seq<char>, bool) {
        (self.filter@, self.filter_only_visited)
    }
}

impl CountryList {
    /// No search text; all countries, visited or not.
    pub fn new() -> (r: Self)
        ensures
            r@ == (Seq::<char>::empty(), false),
    {
        CountryList { filter: String::new(), filter_only_visited: false }
    }

    /// Takes a new search text or switch; picking a country changes nothing here.
    pub fn update(&mut self, message: CountryListMessage)
        ensures
            match message {
                CountryListMessage::Search(s) => final(self)@ == (s@, old(self)@.1),
                CountryListMessage::FilterOnlyVisited(b) => final(self)@ == (old(self)@.0, b),
                CountryListMessage::Select(_) => final(self)@ == old(self)@,
            },
    {
        match message {
            CountryListMessage::Search(filter) => {
                self.filter = filter;
            },
            CountryListMessage::Select(_) => {},
            CountryListMessage::FilterOnlyVisited(only_visited) => {
                self.filter_only_visited = only_visited;
            },
        }
    }

    /// The countries to list, out of all countries with their visit status: those that
    /// pass the filters, in order of name; those of equal names keep their order.
    pub fn get_filtered_countries(&self, countries: Vec<(Country, bool)>) -> (r: Vec<Country>)
        ensures
            stably_sorted_from(r@, passing(countries@, self@.0, self@.1)),
    {
        let filter = lowercase(self.filter.as_str());
        let mut rest = countries;
        let mut kept: Vec<Country> = Vec::new();
        while rest.len() > 0
            invariant
                filter@ == lower_of(self@.0),
                passing(countries@, self@.0, self@.1) == kept@ + passing(
                    rest@,
                    self@.0,
                    self@.1,
                ),
            decreases rest@.len(),
        {
            let ghost before = rest@;
            let (country, visited) = rest.remove(0);
            assert(rest@ =~= before.drop_first());
            if country.matches_filter(filter.as_str()) && (!self.filter_only_visited || visited) {
                kept.push(country);
                assert(passing(countries@, self@.0, self@.1) =~= kept@ + passing(
                    rest@,
                    self@.0,
                    self@.1,
                ));
            }
        }
        assert(kept@ + passing(rest@, self@.0, self@.1) =~= kept@);
        sort_by_name(kept)
    }
}

} // verus!
