use windpower_sync::dedup::dedup_first;
use windpower_sync::entities::{unique_counties, unique_image_sources, unique_manufacturers, unique_models, unique_projects, CountyKey, Model, Project};
use windpower_sync::models::{ConfidenceLevel, Error, StateType};
use windpower_sync::normalize::{parse_date, TurbineInput, UsState};

fn region(abbreviation: &str, area: Option<i32>) -> UsState {
    UsState {
        state_type: "State".to_string(),
        name: "Somewhere".to_string(),
        abbreviation: abbreviation.to_string(),
        capital: None,
        population: None,
        area,
    }
}

fn turbine_row(state: &str, county: &str, manu: &str, model: &str, cap: Option<i32>) -> TurbineInput {
    TurbineInput {
        t_state: state.to_string(),
        t_county: county.to_string(),
        p_name: "Project".to_string(),
        p_tnum: 10,
        p_cap_milli: Some(15_000),
        t_manu: manu.to_string(),
        t_model: model.to_string(),
        t_cap: cap,
        t_hh_milli: Some(80_000),
        t_rd_milli: None,
        t_rsa_milli: None,
        t_ttlh_milli: None,
        retrofit: 0,
        retrofit_year: None,
        t_conf_atr: 3,
        t_conf_loc: 3,
        t_img_date: "1/1/2018".to_string(),
        t_img_srce: "Digital Globe".to_string(),
        xlong_micro: -118_000_000,
        ylat_micro: 35_000_000,
    }
}

#[test]
fn area_thousand_square_miles_truncates() {
    assert_eq!(region("CA", Some(1000)).area_in_square_km(), Some(2589));
}

#[test]
fn area_absent_stays_absent() {
    assert_eq!(region("CA", None).area_in_square_km(), None);
}

#[test]
fn area_small_values() {
    assert_eq!(region("CA", Some(0)).area_in_square_km(), Some(0));
    assert_eq!(region("CA", Some(1)).area_in_square_km(), Some(2));
    assert_eq!(region("CA", Some(163_696)).area_in_square_km(), Some(423_971));
}

#[test]
fn area_negative_truncates_toward_zero() {
    assert_eq!(region("CA", Some(-1000)).area_in_square_km(), Some(-2589));
}

#[test]
fn area_saturates_at_i32_bounds() {
    assert_eq!(region("CA", Some(i32::MAX)).area_in_square_km(), Some(i32::MAX));
    assert_eq!(region("CA", Some(i32::MIN)).area_in_square_km(), Some(i32::MIN));
}

#[test]
fn date_month_day_year_becomes_iso() {
    assert_eq!(parse_date("3/14/2020"), Some("2020-03-14".to_string()));
    assert_eq!(parse_date("12/25/1999"), Some("1999-12-25".to_string()));
}

#[test]
fn date_of_wrong_shape_is_absent() {
    assert_eq!(parse_date("2020-03-14"), None);
    assert_eq!(parse_date(""), None);
    assert_eq!(parse_date("3/14"), None);
    assert_eq!(parse_date("1/2/3/4"), None);
}

#[test]
fn date_empty_parts_are_zero_padded() {
    assert_eq!(parse_date("//"), Some("-00-00".to_string()));
    assert_eq!(parse_date("7/4/"), Some("-07-04".to_string()));
}

#[test]
fn state_type_codes() {
    assert_eq!(StateType::from_code("S"), Ok(StateType::State));
    assert_eq!(StateType::from_code("territory"), Ok(StateType::Territory));
    assert_eq!(StateType::from_code("Federal Capital"), Ok(StateType::FederalCapital));
    assert_eq!(StateType::from_code("X"), Err(Error::UnknownStateType("X".to_string())));
    assert_eq!(StateType::from_code(""), Err(Error::UnknownStateType(String::new())));
    assert_eq!(StateType::Territory.code(), 'T');
}

#[test]
fn confidence_level_codes() {
    assert_eq!(ConfidenceLevel::from_code(Some(1)), Ok(ConfidenceLevel::Low));
    assert_eq!(ConfidenceLevel::from_code(Some(2)), Ok(ConfidenceLevel::Medium));
    assert_eq!(ConfidenceLevel::from_code(Some(3)), Ok(ConfidenceLevel::High));
    assert_eq!(ConfidenceLevel::from_code(Some(0)), Err(Error::UnknownConfidenceLevel(Some(0))));
    assert_eq!(ConfidenceLevel::from_code(None), Err(Error::UnknownConfidenceLevel(None)));
    assert_eq!(ConfidenceLevel::Medium.code(), 2);
}

#[test]
fn region_row_maps_code_and_area() {
    let mut r = region("ca", Some(1000));
    r.state_type = "s".to_string();
    let s = r.to_state().unwrap();
    assert_eq!(s.id, "ca");
    assert_eq!(s.state_type, StateType::State);
    assert_eq!(s.area_square_km, Some(2589));
    r.state_type = "Q".to_string();
    assert_eq!(r.to_state(), Err(Error::UnknownStateType("Q".to_string())));
}

#[test]
fn duplicate_models_keep_first_specs() {
    let rows = vec![
        turbine_row("CA", "Kern", "Vestas", "V90", Some(2000)),
        turbine_row("CA", "Kern", "GE", "1.5", Some(1500)),
        turbine_row("TX", "Nolan", "Vestas", "V90", Some(3000)),
    ];
    let models = unique_models(&rows);
    assert_eq!(models.len(), 2);
    assert_eq!(models[0].manufacturer, "Vestas");
    assert_eq!(models[0].name, "V90");
    assert_eq!(models[0].capacity_kw, Some(2000));
    assert_eq!(models[1].manufacturer, "GE");
}

#[test]
fn counties_and_names_dedup_in_first_order() {
    let rows = vec![
        turbine_row("TX", "Nolan", "GE", "1.5", None),
        turbine_row("CA", "Kern", "Vestas", "V90", None),
        turbine_row("TX", "Nolan", "GE", "1.5", None),
        turbine_row("CA", "Nolan", "", "V90", None),
    ];
    let counties = unique_counties(&rows);
    let pairs: Vec<(String, String)> = counties.iter().map(|c| (c.state_id.clone(), c.name.clone())).collect();
    assert_eq!(
        pairs,
        vec![
            ("TX".to_string(), "Nolan".to_string()),
            ("CA".to_string(), "Kern".to_string()),
            ("CA".to_string(), "Nolan".to_string()),
        ]
    );
    assert_eq!(unique_manufacturers(&rows), vec!["GE".to_string(), "Vestas".to_string(), String::new()]);
    assert_eq!(unique_image_sources(&rows), vec!["Digital Globe".to_string()]);
}

#[test]
fn projects_dedup_on_name_count_and_capacity() {
    let mut a = turbine_row("CA", "Kern", "GE", "1.5", None);
    let mut b = a.clone();
    b.p_cap_milli = Some(15_001);
    let c = a.clone();
    a.p_tnum = 10;
    let projects = unique_projects(&vec![a, b, c]);
    assert_eq!(projects.len(), 2);
    assert_eq!(projects[0], Project { name: "Project".to_string(), num_turbines: 10, capacity_milli_mw: Some(15_000) });
    assert_eq!(projects[1].capacity_milli_mw, Some(15_001));
}

#[test]
fn generic_dedup_keeps_first_of_each_key() {
    let items = vec![
        CountyKey { state_id: "A".to_string(), name: "x".to_string() },
        CountyKey { state_id: "A".to_string(), name: "x".to_string() },
        CountyKey { state_id: "B".to_string(), name: "x".to_string() },
    ];
    assert_eq!(dedup_first(&items).len(), 2);
    let empty: Vec<Model> = Vec::new();
    assert!(dedup_first(&empty).is_empty());
}

#[test]
fn turbine_row_rejects_unknown_confidence() {
    let mut t = turbine_row("CA", "Kern", "GE", "1.5", None);
    t.t_conf_loc = 9;
    assert_eq!(t.to_turbine_row(), Err(Error::UnknownConfidenceLevel(Some(9))));
    t.t_conf_atr = 0;
    assert_eq!(t.to_turbine_row(), Err(Error::UnknownConfidenceLevel(Some(0))));
}

#[test]
fn turbine_row_converts_fields() {
    let mut t = turbine_row("CA", "Kern", "GE", "1.5", None);
    t.retrofit = 1;
    t.t_conf_atr = 1;
    let row = t.to_turbine_row().unwrap();
    assert!(row.retrofit);
    assert_eq!(row.attributes_confidence, ConfidenceLevel::Low);
    assert_eq!(row.location_confidence, ConfidenceLevel::High);
    assert_eq!(row.image_date, Some("2018-01-01".to_string()));
    assert_eq!(row.latitude_micro, 35_000_000);
    assert_eq!(row.longitude_micro, -118_000_000);
}

#[test]
fn stored_state_type_codes_are_exact() {
    assert_eq!(StateType::from_stored(Some("S")), Ok(StateType::State));
    assert_eq!(StateType::from_stored(Some("T")), Ok(StateType::Territory));
    assert_eq!(StateType::from_stored(Some("F")), Ok(StateType::FederalCapital));
    assert_eq!(StateType::from_stored(Some("X")), Err(Error::UnknownStateType("Some(\"X\")".to_string())));
    assert_eq!(StateType::from_stored(Some("s")), Err(Error::UnknownStateType("Some(\"s\")".to_string())));
    assert_eq!(StateType::from_stored(Some("State")), Err(Error::UnknownStateType("Some(\"State\")".to_string())));
    assert_eq!(StateType::from_stored(Some("")), Err(Error::UnknownStateType("Some(\"\")".to_string())));
    assert_eq!(StateType::from_stored(None), Err(Error::UnknownStateType("None".to_string())));
}

#[test]
fn stored_state_type_message_escapes_like_debug() {
    assert_eq!(
        StateType::from_stored(Some("a\"b\\c")),
        Err(Error::UnknownStateType("Some(\"a\\\"b\\\\c\")".to_string()))
    );
    let odd = "x\ny";
    assert_eq!(StateType::from_stored(Some(odd)), Err(Error::UnknownStateType(format!("{:?}", Some(odd)))));
}
