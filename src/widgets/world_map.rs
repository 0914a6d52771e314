//! The map: which countries are drawn in which style, and in which order.
use vstd::prelude::*;
use crate::models::Country;
use crate::style::CountryRenderStyle;
use crate::text::same_text;

verus! {

/// Which countries a selection on the map holds.
#[derive(Debug)]
pub enum WorldMapCountryFilter {
    /// The countries whose two-letter codes are listed.
    Include(Vec<String>),
}

/// Whether one of `codes` is `code`.
pub open spec fn includes(codes: Seq<String>, code: Seq<char>) -> bool {
    exists|i: int| 0 <= i < codes.len() && (#[trigger] codes[i])@ == code
}

impl WorldMapCountryFilter {
    pub open spec fn accepts(&self, country: Country) -> bool {
        match self {
            WorldMapCountryFilter::Include(codes) => includes(codes@, country.iso2@),
        }
    }

    /// Whether the selection holds `country`.
    pub fn accept(&self, country: &Country) -> (r: bool)
        ensures
            r == self.accepts(*country),
    {
        match self {
            WorldMapCountryFilter::Include(inclusions) => {
                let mut i: usize = 0;
                while i < inclusions.len()
                    invariant
                        i <= inclusions@.len(),
                        self.accepts(*country) == includes(inclusions@, country.iso2@),
                        forall|j: int| 0 <= j < i ==> (#[trigger] inclusions@[j])@ != country.iso2@,
                    decreases inclusions@.len() - i,
                {
                    if same_text(inclusions[i].as_str(), country.iso2.as_str()) {
                        assert(inclusions@[i as int]@ == country.iso2@);

                        return true;
                    }
                    i = i + 1;
                }
                false
            },
        }
    }
}

/// A new selection, or none.
#[derive(Debug)]
pub enum WorldMapMessage {
    FilterChanged(WorldMapCountryFilter),
    FilterRemoved,
}

/// The countries on the map with their visit status, and the selection if any.
pub struct WorldMap {
    pub country_filter: Option<WorldMapCountryFilter>,
    pub countries: Vec<(Country, bool)>,
}

/// The indices below `n` of the countries whose acceptance by `f` is `selected`, in
/// order.
pub open spec fn indices_where(
    cs: Seq<(Country, bool)>,
    f: WorldMapCountryFilter,
    selected: bool,
    n: int,
) -> Seq<usize>
    decreases n,
{
    if n <= 0 {
        Seq::empty()
    } else {
        let before = indices_where(cs, f, selected, n - 1);
        if f.accepts(cs[n - 1].0) == selected {
            before.push((n - 1) as usize)
        } else {
            before
        }
    }
}

/// What the map draws, in order: without a selection every country, in its normal
/// style; with one, first the countries outside it, then those in it.
pub open spec fn draw_plan(cs: Seq<(Country, bool)>, filter: Option<WorldMapCountryFilter>) -> Seq<
    (usize, CountryRenderStyle),
> {
    match filter {
        None => Seq::new(
            cs.len(),
            |i: int| (i as usize, CountryRenderStyle::Normal(cs[i].1)),
        ),
        Some(f) => indices_where(cs, f, false, cs.len() as int).map_values(
            |i: usize| (i, CountryRenderStyle::Unselected),
        ) + indices_where(cs, f, true, cs.len() as int).map_values(
            |i: usize| (i, CountryRenderStyle::Selected),
        ),
    }
}

/// The indices of the countries whose acceptance by `f` is `selected`, in order.
fn select_indices(cs: &Vec<(Country, bool)>, f: &WorldMapCountryFilter, selected: bool) -> (r: Vec<
    usize,
>)
    ensures
        r@ == indices_where(cs@, *f, selected, cs@.len() as int),
{
    let mut out: Vec<usize> = Vec::new();
    let mut i: usize = 0;
    while i < cs.len()
        invariant
            i <= cs@.len(),
            out@ == indices_where(cs@, *f, selected, i as int),
        decreases cs@.len() - i,
    {
        if f.accept(&cs[i].0) == selected {
            out.push(i);
        }
        i = i + 1;
    }
    out
}

impl WorldMap {
    /// A map of the given countries, without a selection.
    pub fn new(countries: Vec<(Country, bool)>) -> (r: Self)
        ensures
            r.country_filter is None,
            r.countries@ == countries@,
    {
        WorldMap { country_filter: None, countries }
    }

    /// Takes the countries as they now are, and the new selection or none.
    pub fn update(&mut self, msg: WorldMapMessage, countries: Vec<(Country, bool)>)
        ensures
            final(self).countries@ == countries@,
            match msg {
                WorldMapMessage::FilterChanged(f) => final(self).country_filter == Some(f),
                WorldMapMessage::FilterRemoved => final(self).country_filter is None,
            },
    {
        self.countries = countries;
        match msg {
            WorldMapMessage::FilterChanged(filter) => self.country_filter = Some(filter),
            WorldMapMessage::FilterRemoved => self.country_filter = None,
        }
    }

    /// The countries to draw, by index, with their styles, in drawing order.
    pub fn draw_order(&self) -> (r: Vec<(usize, CountryRenderStyle)>)
        ensures
            r@ == draw_plan(self.countries@, self.country_filter),
    {
        let mut out: Vec<(usize, CountryRenderStyle)> = Vec::new();
        match &self.country_filter {
            None => {
                let mut i: usize = 0;
                while i < self.countries.len()
                    invariant
                        i <= self.countries@.len(),
                        out@ =~= Seq::new(
                            i as nat,
                            |j: int| (j as usize, CountryRenderStyle::Normal(self.countries@[j].1)),
                        ),
                    decreases self.countries@.len() - i,
                {
                    out.push((i, CountryRenderStyle::Normal(self.countries[i].1)));
                    i = i + 1;
                }
            },
            Some(f) => {
                let unselected = select_indices(&self.countries, f, false);
                let selected = select_indices(&self.countries, f, true);
                let mut i: usize = 0;
                while i < unselected.len()
                    invariant
                        i <= unselected@.len(),
                        out@ =~= unselected@.take(i as int).map_values(
                            |k: usize| (k, CountryRenderStyle::Unselected),
                        ),
                    decreases unselected@.len() - i,
                {
                    out.push((unselected[i], CountryRenderStyle::Unselected));
                    assert(unselected@.take(i + 1) =~= unselected@.take(i as int).push(unselected@[i as int]));
                    i = i + 1;
                }
                assert(unselected@.take(i as int) =~= unselected@);
                let ghost first = out@;
                let mut j: usize = 0;
                while j < selected.len()
                    invariant
                        j <= selected@.len(),
                        out@ =~= first + selected@.take(j as int).map_values(
                            |k: usize| (k, CountryRenderStyle::Selected),
                        ),
                    decreases selected@.len() - j,
                {
                    out.push((selected[j], CountryRenderStyle::Selected));
                    assert(selected@.take(j + 1) =~= selected@.take(j as int).push(selected@[j as int]));
                    j = j + 1;
                }
                assert(selected@.take(j as int) =~= selected@);
            },
        }
        out
    }
}

} // verus!
