//! The base list of countries: names and ISO codes.
use vstd::prelude::*;
use crate::text::{lower_of, lowercase, matches_any_case, matches_ignoring_case, same_text};

verus! {

/// A country of the base list.
#[derive(Clone, Debug)]
pub struct BaseDataCountry {
    pub name: String,
    pub iso_code: ISOCode,
}

/// The two ISO 3166 codes of a country.
#[derive(Clone, Debug)]
pub struct ISOCode {
    pub alpha2: String,
    pub alpha3: String,
}

/// The index of the last country whose name equals `name` case aside (the base list is
/// keyed by lower-case name, a later entry replacing an earlier one).
pub open spec fn index_by_name(countries: Seq<BaseDataCountry>, name: Seq<char>) -> Option<int>
    decreases countries.len(),
{
    if countries.len() == 0 {
        None
    } else if lower_of(countries.last().name@) == lower_of(name) {
        Some(countries.len() - 1)
    } else {
        index_by_name(countries.drop_last(), name)
    }
}

impl BaseDataCountry {
    /// The country of the list named `name`, case aside.
    pub fn by_name<'a>(countries: &'a Vec<BaseDataCountry>, name: &str) -> (r: Option<
        &'a BaseDataCountry,
    >)
        ensures
            match index_by_name(countries@, name@) {
                Some(i) => r is Some && *r->Some_0 == countries@[i],
                None => r is None,
            },
    {
        let key = lowercase(name);
        let mut k: usize = countries.len();
        assert(countries@.take(k as int) =~= countries@);
        while k > 0
            invariant
                k <= countries@.len(),
                key@ == lower_of(name@),
                index_by_name(countries@, name@) == index_by_name(countries@.take(k as int), name@),
            decreases k,
        {
            assert(countries@.take(k as int).drop_last() =~= countries@.take(k - 1));
            assert(countries@.take(k as int).last() == countries@[k - 1]);
            let c = &countries[k - 1];
            let lowered = lowercase(c.name.as_str());
            if same_text(lowered.as_str(), key.as_str()) {
                return Some(c);
            }
            k = k - 1;
        }
        None
    }

    /// Whether `filter` occurs, case aside, in the name or one of the two codes.
    pub fn matches_filter(&self, filter: &str) -> (r: bool)
        ensures
            r == matches_any_case(self.name@, self.iso_code.alpha2@, self.iso_code.alpha3@, filter@),
            filter@.len() == 0 ==> r,
    {
        matches_ignoring_case(
            self.name.as_str(),
            self.iso_code.alpha2.as_str(),
            self.iso_code.alpha3.as_str(),
            filter,
        )
    }
}

} // verus!
