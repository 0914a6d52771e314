use country_logger::app_state::AppState;
use country_logger::models::Country;
use country_logger::style::CountryRenderStyle;
use country_logger::widgets::country_filter::CountryFiltersMessage;
use country_logger::widgets::country_info::CountryInfoMessage;
use country_logger::widgets::country_list::CountryListMessage;

fn country(id: i32, name: &str, iso2: &str, iso3: &str) -> Country {
    Country { id, name: name.to_string(), iso2: iso2.to_string(), iso3: iso3.to_string(), description: None }
}

fn sample() -> Vec<(Country, bool)> {
    vec![(country(1, "Germany", "DE", "DEU"), true), (country(2, "Austria", "AT", "AUT"), false)]
}

#[test]
fn selecting_a_country_shows_it_and_selects_it_on_the_map() {
    let mut app = AppState::new(sample());
    assert!(app.country_info.is_none());
    app.update_country_list_event(CountryListMessage::Select(Some(country(2, "Austria", "AT", "AUT"))), false, sample());
    let info = app.country_info.as_ref().unwrap();
    assert_eq!(info.get_country().iso2, "AT");
    assert!(!info.visited());
    assert_eq!(app.world_map.draw_order(), vec![(0, CountryRenderStyle::Unselected), (1, CountryRenderStyle::Selected)]);
    app.update_country_list_event(CountryListMessage::Select(None), false, sample());
    assert!(app.country_info.is_none());
    assert!(app.world_map.country_filter.is_none());
}

#[test]
fn escape_closes_the_selection() {
    let mut app = AppState::new(sample());
    app.escape_released(sample());
    assert!(app.country_info.is_none());
    app.update_country_list_event(CountryListMessage::Select(Some(country(1, "Germany", "DE", "DEU"))), true, sample());
    assert!(app.world_map.country_filter.is_some());
    app.escape_released(sample());
    assert!(app.country_info.is_none());
    assert!(app.world_map.country_filter.is_none());
}

#[test]
fn filter_events_reach_list_and_filters() {
    let mut app = AppState::new(sample());
    app.update_country_filter_event(CountryFiltersMessage::SearchString("aus".to_string()));
    app.update_country_filter_event(CountryFiltersMessage::OnlyVisited(false));
    assert_eq!(app.country_filter.search_string(), "aus");
    let listed = app.country_list.get_filtered_countries(sample());
    assert_eq!(listed.len(), 1);
    assert_eq!(listed[0].name, "Austria");
    app.update_country_list_event(CountryListMessage::Search("ger".to_string()), false, sample());
    assert_eq!(app.country_list.get_filtered_countries(sample())[0].name, "Germany");
    assert_eq!(app.country_filter.search_string(), "aus");
}

#[test]
fn visit_events_update_the_info() {
    let mut app = AppState::new(sample());
    app.update_country_info_event(CountryInfoMessage::VisitCountry(country(2, "Austria", "AT", "AUT")));
    assert!(app.country_info.is_none());
    app.update_country_list_event(CountryListMessage::Select(Some(country(2, "Austria", "AT", "AUT"))), false, sample());
    app.update_country_info_event(CountryInfoMessage::VisitCountry(country(2, "Austria", "AT", "AUT")));
    assert!(app.country_info.as_ref().unwrap().visited());
}
