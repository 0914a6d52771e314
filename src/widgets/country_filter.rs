//! The search text and the "only visited" switch.
use vstd::prelude::*;

verus! {

/// A change of the filters.
#[derive(Clone, Debug)]
pub enum CountryFiltersMessage {
    SearchString(String),
    OnlyVisited(bool),
}

/// The current filters.
pub struct CountryFilters {
    search_string: String,
    only_visited: bool,
}

impl View for CountryFilters {
    type V = (Seq<char>, bool);

    closed spec fn view(&self) -> (Seq<char>, bool) {
        (self.search_string@, self.only_visited)
    }
}

impl CountryFilters {
    /// No search text; all countries, visited or not.
    pub fn new() -> (r: Self)
        ensures
            r@ == (Seq::<char>::empty(), false),
    {
        CountryFilters { search_string: String::new(), only_visited: false }
    }

    /// The search text.
    pub fn search_string(&self) -> (r: &str)
        ensures
            r@ == self@.0,
    {
        self.search_string.as_str()
    }

    /// Whether only visited countries are listed.
    pub fn only_visited(&self) -> (r: bool)
        ensures
            r == self@.1,
    {
        self.only_visited
    }

    /// Takes the new search text or switch; the other stays.
    pub fn update(&mut self, msg: CountryFiltersMessage)
        ensures
            match msg {
                CountryFiltersMessage::SearchString(s) => final(self)@ == (s@, old(self)@.1),
                CountryFiltersMessage::OnlyVisited(b) => final(self)@ == (old(self)@.0, b),
            },
    {
        match msg {
            CountryFiltersMessage::SearchString(string) => self.search_string = string,
            CountryFiltersMessage::OnlyVisited(only_visited) => self.only_visited = only_visited,
        }
    }
}

} // verus!
