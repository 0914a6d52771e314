use country_logger::base_data::{BaseDataCountry, ISOCode};
use country_logger::importer::{format_full_export_file, format_meta_line, full_import_file_body, parse_version, FormatError};
use country_logger::models::{Country, NewCountry};
use country_logger::style::CountryRenderStyle;
use country_logger::widgets::country_filter::{CountryFilters, CountryFiltersMessage};
use country_logger::widgets::country_info::{CountryInfo, CountryInfoMessage};
use country_logger::widgets::country_list::{CountryList, CountryListMessage};
use country_logger::widgets::world_map::{WorldMap, WorldMapCountryFilter, WorldMapMessage};

fn country(id: i32, name: &str, iso2: &str, iso3: &str) -> Country {
    Country { id, name: name.to_string(), iso2: iso2.to_string(), iso3: iso3.to_string(), description: None }
}

fn sample() -> Vec<(Country, bool)> {
    vec![
        (country(1, "Germany", "DE", "DEU"), true),
        (country(2, "Austria", "AT", "AUT"), false),
        (country(3, "Denmark", "DK", "DNK"), true),
    ]
}

fn names(cs: &[Country]) -> Vec<String> {
    cs.iter().map(|c| c.name.clone()).collect()
}

fn base(name: &str, a2: &str, a3: &str) -> BaseDataCountry {
    BaseDataCountry { name: name.to_string(), iso_code: ISOCode { alpha2: a2.to_string(), alpha3: a3.to_string() } }
}

#[test]
fn country_matches_filter_ignoring_case() {
    let c = country(1, "Germany", "DE", "DEU");
    assert!(c.matches_filter("GERM"));
    assert!(c.matches_filter("deu"));
    assert!(c.matches_filter(""));
    assert!(!c.matches_filter("fra"));
}

#[test]
fn base_country_matches_and_lookup() {
    let list = vec![base("France", "FR", "FRA"), base("Italy", "IT", "ITA"), base("FRANCE", "FX", "FXX")];
    assert!(list[1].matches_filter("it"));
    assert!(!list[1].matches_filter("fr"));
    assert_eq!(BaseDataCountry::by_name(&list, "italy").unwrap().iso_code.alpha3, "ITA");
    assert_eq!(BaseDataCountry::by_name(&list, "france").unwrap().iso_code.alpha2, "FX");
    assert!(BaseDataCountry::by_name(&list, "spain").is_none());
}

#[test]
fn new_country_from_base_data() {
    let n = NewCountry::from(base("Italy", "IT", "ITA"));
    assert_eq!((n.name.as_str(), n.iso2.as_str(), n.iso3.as_str()), ("Italy", "IT", "ITA"));
    assert!(n.description.is_none());
}

#[test]
fn filters_update() {
    let mut f = CountryFilters::new();
    assert_eq!((f.search_string(), f.only_visited()), ("", false));
    f.update(CountryFiltersMessage::SearchString("ger".to_string()));
    f.update(CountryFiltersMessage::OnlyVisited(true));
    assert_eq!((f.search_string(), f.only_visited()), ("ger", true));
}

#[test]
fn info_update() {
    let mut info = CountryInfo::new(country(1, "Germany", "DE", "DEU"), false);
    assert!(!info.visited());
    info.update(CountryInfoMessage::VisitCountry(country(1, "Germany", "DE", "DEU")));
    assert!(info.visited());
    info.update(CountryInfoMessage::UnvisitCountry(country(1, "Germany", "DE", "DEU")));
    assert!(!info.visited());
    assert_eq!(info.get_country().name, "Germany");
}

#[test]
fn list_filters_and_sorts_by_name() {
    let mut list = CountryList::new();
    assert_eq!(names(&list.get_filtered_countries(sample())), vec!["Austria", "Denmark", "Germany"]);
    list.update(CountryListMessage::Search("DE".to_string()));
    assert_eq!(names(&list.get_filtered_countries(sample())), vec!["Denmark", "Germany"]);
    list.update(CountryListMessage::Select(None));
    list.update(CountryListMessage::Search(String::new()));
    list.update(CountryListMessage::FilterOnlyVisited(true));
    assert_eq!(names(&list.get_filtered_countries(sample())), vec!["Denmark", "Germany"]);
    list.update(CountryListMessage::Search("aut".to_string()));
    assert!(list.get_filtered_countries(sample()).is_empty());
}

#[test]
fn equal_names_keep_their_order() {
    let rows = vec![
        (country(1, "Congo", "CG", "COG"), true),
        (country(2, "Chad", "TD", "TCD"), true),
        (country(3, "Congo", "CD", "COD"), false),
    ];
    let list = CountryList::new();
    let codes: Vec<String> = list.get_filtered_countries(rows).iter().map(|c| c.iso2.clone()).collect();
    assert_eq!(codes, vec!["TD", "CG", "CD"]);
    let rows = vec![
        (country(3, "Congo", "CD", "COD"), false),
        (country(1, "Congo", "CG", "COG"), true),
    ];
    let codes: Vec<String> = list.get_filtered_countries(rows).iter().map(|c| c.iso2.clone()).collect();
    assert_eq!(codes, vec!["CD", "CG"]);
}

#[test]
fn empty_filter_matches_everything() {
    assert!(country(1, "Åland", "AX", "ALA").matches_filter(""));
    assert!(base("", "", "").matches_filter(""));
}

#[test]
fn map_filter_accepts_listed_codes() {
    let f = WorldMapCountryFilter::Include(vec!["DE".to_string(), "FR".to_string()]);
    assert!(f.accept(&country(1, "Germany", "DE", "DEU")));
    assert!(!f.accept(&country(2, "Austria", "AT", "AUT")));
}

#[test]
fn map_draw_order() {
    let mut map = WorldMap::new(sample());
    let order = map.draw_order();
    assert_eq!(order, vec![
        (0, CountryRenderStyle::Normal(true)),
        (1, CountryRenderStyle::Normal(false)),
        (2, CountryRenderStyle::Normal(true)),
    ]);
    map.update(WorldMapMessage::FilterChanged(WorldMapCountryFilter::Include(vec!["AT".to_string()])), sample());
    assert_eq!(map.draw_order(), vec![
        (0, CountryRenderStyle::Unselected),
        (2, CountryRenderStyle::Unselected),
        (1, CountryRenderStyle::Selected),
    ]);
    map.update(WorldMapMessage::FilterRemoved, sample());
    assert!(map.country_filter.is_none());
    assert_eq!(map.draw_order().len(), 3);
}

fn object(pairs: Vec<(&str, serde_json::Value)>) -> serde_json::Value {
    let mut m = serde_json::Map::new();
    for (k, v) in pairs {
        m.insert(k.to_string(), v);
    }
    serde_json::Value::Object(m)
}

#[test]
fn import_exported_file_gives_same_result() {
    let import_file = object(vec![
        ("countries", serde_json::Value::Array(vec![
            object(vec![
                ("id", serde_json::Value::from(1)),
                ("name", serde_json::Value::from("Country 1")),
                ("iso2", serde_json::Value::from("C1")),
                ("iso3", serde_json::Value::from("CY1")),
                ("description", serde_json::Value::Null),
            ]),
            object(vec![
                ("id", serde_json::Value::from(2)),
                ("name", serde_json::Value::from("Country 2")),
                ("iso2", serde_json::Value::from("C2")),
                ("iso3", serde_json::Value::from("CY2")),
                ("description", serde_json::Value::from("Second Country")),
            ]),
        ])),
        ("visits", serde_json::Value::Array(vec![
            object(vec![("id", serde_json::Value::from(1)), ("country_id", serde_json::Value::from(2))]),
            object(vec![("id", serde_json::Value::from(2)), ("country_id", serde_json::Value::from(1))]),
        ])),
        ("notes", object(vec![])),
    ]);
    let json = serde_json::to_vec_pretty(&import_file).unwrap();
    let exported = format_full_export_file(&json);
    let body = full_import_file_body(&exported).unwrap();
    let imported: serde_json::Value = serde_json::from_slice(&body).unwrap();
    assert_eq!(import_file, imported);
}

#[test]
fn meta_line_text() {
    assert_eq!(format_meta_line(), b"1;".to_vec());
    assert_eq!(format_full_export_file(b"{}"), b"1;\n{}".to_vec());
}

#[test]
fn import_errors() {
    assert!(matches!(full_import_file_body(b""), Err(FormatError::MissingMetaLine)));
    match full_import_file_body(b"x;\n{}") {
        Err(FormatError::MetaLineFormat(message)) => assert_eq!(message, "Version is not a number (i32)"),
        other => panic!("unexpected {:?}", other),
    }
    assert!(matches!(full_import_file_body(b";1\n{}"), Err(FormatError::MetaLineFormat(_))));
    assert!(matches!(
        full_import_file_body(b"2;\n{}"),
        Err(FormatError::WrongVersion { expected: 1, actual: 2 })
    ));
}

#[test]
fn import_body_lines() {
    assert_eq!(full_import_file_body(b"1;\r\n{\r\n}\r\n").unwrap(), b"{\n}".to_vec());
    assert_eq!(full_import_file_body(b"1").unwrap(), b"".to_vec());
    assert_eq!(full_import_file_body(b"+1;x\n\na\rb\n").unwrap(), b"\na\rb".to_vec());
}

#[test]
fn version_numbers() {
    assert_eq!(parse_version(b"+7"), Some(7));
    assert_eq!(parse_version(b"007"), Some(7));
    assert_eq!(parse_version(b"-2147483648"), Some(i32::MIN));
    assert_eq!(parse_version(b"2147483647"), Some(i32::MAX));
    assert_eq!(parse_version(b"2147483648"), None);
    assert_eq!(parse_version(b"99999999999999999999"), None);
    assert_eq!(parse_version(b""), None);
    assert_eq!(parse_version(b"-"), None);
    assert_eq!(parse_version(b"12a"), None);
    assert_eq!(parse_version(b" 1"), None);
}
