use immo_search::search::{build_search_url, FilterParams, RoomCount};

const BASE: &str = "https://www.immobilier.ch/en/rent/apartment/zurich/page-1?t=rent&c=1&p=s126";

fn url(p: &FilterParams) -> String {
    build_search_url(p)
}

#[test]
fn default_filters_give_base_url() {
    let p = FilterParams::default();
    assert_eq!(
        url(&p),
        "https://www.immobilier.ch/en/rent/apartment/zurich/page-1?t=rent&c=1&p=s126&nb=false"
    );
}

#[test]
fn default_filters_hold_documented_values() {
    let p = FilterParams::default();
    assert_eq!(p.rent_range, (0, 0));
    assert_eq!(p.room_range, (RoomCount { tenths: 0 }, RoomCount { tenths: 0 }));
    assert_eq!(p.surface_range, (0, 0));
    assert_eq!(p.area, "zurich");
    assert_eq!(p.keywords, vec![String::new()]);
    assert!(!p.new_listings_only);
}

#[test]
fn rent_range_both_bounds_follow_base_query() {
    let mut p = FilterParams::default();
    p.rent_range = (400, 800);
    p.surface_range = (10, 60);
    p.keywords = vec!["AAAAA".to_string()];
    assert_eq!(url(&p), format!("{BASE}&pn=400&px=800&sn=10&sx=60&k=AAAAA&nb=false"));
}

#[test]
fn rent_range_alone() {
    let mut p = FilterParams::default();
    p.rent_range = (600, 800);
    assert_eq!(url(&p), format!("{BASE}&pn=600&px=800&nb=false"));
}

#[test]
fn rent_range_one_bound_only() {
    let mut p = FilterParams::default();
    p.rent_range = (0, 800);
    assert_eq!(url(&p), format!("{BASE}&px=800&nb=false"));
    p.rent_range = (400, 0);
    assert_eq!(url(&p), format!("{BASE}&pn=400&nb=false"));
}

#[test]
fn negative_bound_keeps_its_sign() {
    let mut p = FilterParams::default();
    p.surface_range = (-5, i32::MIN);
    assert_eq!(url(&p), format!("{BASE}&sn=-5&sx=-2147483648&nb=false"));
}

#[test]
fn room_range_renders_tenths() {
    let mut p = FilterParams::default();
    p.room_range = (RoomCount { tenths: 15 }, RoomCount { tenths: 45 });
    assert_eq!(url(&p), format!("{BASE}&nrn=1.5&nrx=4.5&nb=false"));
    p.room_range = (RoomCount { tenths: 10 }, RoomCount { tenths: 40 });
    assert_eq!(url(&p), format!("{BASE}&nrn=1&nrx=4&nb=false"));
    p.room_range = (RoomCount { tenths: 0 }, RoomCount { tenths: 5 });
    assert_eq!(url(&p), format!("{BASE}&nrx=0.5&nb=false"));
}

#[test]
fn all_filters_in_fixed_order() {
    let mut p = FilterParams::default();
    p.rent_range = (400, 800);
    p.room_range = (RoomCount { tenths: 15 }, RoomCount { tenths: 45 });
    p.surface_range = (50, 0);
    p.keywords = vec!["AAAAA".to_string()];
    assert_eq!(
        url(&p),
        format!("{BASE}&pn=400&px=800&nrn=1.5&nrx=4.5&sn=50&k=AAAAA&nb=false")
    );
    p.rent_range = (200, 1800);
    p.room_range = (RoomCount { tenths: 10 }, RoomCount { tenths: 45 });
    p.surface_range = (10, 90);
    p.keywords = vec!["XXXX".to_string(), "YYYY".to_string()];
    p.new_listings_only = true;
    assert_eq!(
        url(&p),
        format!("{BASE}&pn=200&px=1800&nrn=1&nrx=4.5&sn=10&sx=90&k=XXXX;YYYY&nb=true")
    );
}

#[test]
fn keywords_single_and_joined() {
    let mut p = FilterParams::default();
    p.keywords = vec!["AAAAA".to_string()];
    assert_eq!(url(&p), format!("{BASE}&k=AAAAA&nb=false"));
    p.keywords = vec!["A".to_string(), "B".to_string()];
    assert_eq!(url(&p), format!("{BASE}&k=A;B&nb=false"));
    p.keywords = vec!["XXXXXXX".to_string(), "YYYYYYY".to_string(), "ZZZZZZZ".to_string()];
    assert_eq!(url(&p), format!("{BASE}&k=XXXXXXX;YYYYYYY;ZZZZZZZ&nb=false"));
}

#[test]
fn keywords_other_than_unset_marker_are_emitted() {
    let mut p = FilterParams::default();
    p.keywords = vec![];
    assert_eq!(url(&p), format!("{BASE}&k=&nb=false"));
    p.keywords = vec![String::new(), String::new()];
    assert_eq!(url(&p), format!("{BASE}&k=;&nb=false"));
}

#[test]
fn new_listings_flag_changes_only_the_flag() {
    let mut p = FilterParams::default();
    p.rent_range = (400, 800);
    let before = url(&p);
    p.new_listings_only = true;
    let after = url(&p);
    assert_eq!(before, format!("{BASE}&pn=400&px=800&nb=false"));
    assert_eq!(after, format!("{BASE}&pn=400&px=800&nb=true"));
    assert_eq!(
        before.strip_suffix("&nb=false"),
        after.strip_suffix("&nb=true")
    );
}

#[test]
fn other_area_goes_into_path_verbatim() {
    let mut p = FilterParams::default();
    p.area = "geneve".to_string();
    assert_eq!(
        url(&p),
        "https://www.immobilier.ch/en/rent/apartment/geneve/page-1?t=rent&c=1&p=s126&nb=false"
    );
}

#[test]
fn building_twice_gives_same_url() {
    let mut p = FilterParams::default();
    p.rent_range = (400, 800);
    p.keywords = vec!["A".to_string(), "B".to_string()];
    assert_eq!(url(&p), url(&p));
}
