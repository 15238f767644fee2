use windpower_sync::models;
use windpower_sync::server::{index, rocket, update_outcome, code_message, push_decimal, Endpoint, Error, Method};

#[test]
fn rename_outcome_follows_row_count() {
    assert_eq!(update_outcome(0), Err(Error::NotFound(())));
    assert_eq!(update_outcome(1), Ok(()));
    assert_eq!(update_outcome(2), Err(Error::ServerError("Unexpected row count 2".to_string())));
    assert_eq!(update_outcome(1207), Err(Error::ServerError("Unexpected row count 1207".to_string())));
}

#[test]
fn store_errors_map_to_api_errors() {
    assert_eq!(Error::from(models::Error::NotFound), Error::NotFound(()));
    assert_eq!(Error::from(models::Error::LowLevel("down".to_string())), Error::LowLevel("down".to_string()));
    assert_eq!(Error::from(models::Error::UnknownStateType("Q".to_string())), Error::ServerError("Q".to_string()));
    assert_eq!(Error::from(models::Error::UnknownConfidenceLevel(Some(7))), Error::ServerError("Some(7)".to_string()));
    assert_eq!(Error::from(models::Error::UnknownConfidenceLevel(None)), Error::ServerError("None".to_string()));
    assert_eq!(Error::NotFound(()).status(), 404);
    assert_eq!(Error::LowLevel(String::new()).status(), 500);
}

#[test]
fn numerals_and_code_text() {
    let mut s = String::from("n=");
    push_decimal(&mut s, 0);
    assert_eq!(s, "n=0");
    let mut t = String::new();
    push_decimal(&mut t, u64::MAX);
    assert_eq!(t, u64::MAX.to_string());
    assert_eq!(code_message(Some(255)), "Some(255)");
}

#[test]
fn greeting_and_routes() {
    assert_eq!(index(), "Hello world!");
    let routes = rocket();
    assert_eq!(routes.len(), 10);
    assert_eq!(routes[0].path(), "/");
    assert_eq!(routes[3], Endpoint::UpdateImageSource);
    assert_eq!(routes[3].method(), Method::Put);
    assert_eq!(routes[4].path(), "/api/states");
    assert!(routes.iter().filter(|e| **e != Endpoint::UpdateImageSource).all(|e| e.method() == Method::Get));
}

use windpower_sync::models::ConfidenceLevel;
use windpower_sync::records::{Date, DecimalValue, TurbineRecord};

fn stored_turbine(image_date: Option<Date>) -> TurbineRecord {
    TurbineRecord {
        id: 1,
        county_id: 2,
        project_id: 3,
        model_id: 4,
        image_source_id: 5,
        retrofit: false,
        retrofit_year: None,
        attributes_confidence_level: ConfidenceLevel::High,
        location_confidence_level: ConfidenceLevel::Low,
        image_date,
        latitude: DecimalValue { value: 35_100_000, scale: 6 },
        longitude: DecimalValue { value: -118_250_000, scale: 6 },
    }
}

#[test]
fn dates_render_zero_padded() {
    assert_eq!(Date { year: 2020, month: 3, day: 14 }.iso_text(), "2020-03-14");
    assert_eq!(Date { year: 999, month: 12, day: 1 }.iso_text(), "0999-12-01");
}

#[test]
fn turbine_image_date_text() {
    assert_eq!(
        stored_turbine(Some(Date { year: 2018, month: 1, day: 9 })).image_date_text(),
        Some("2018-01-09".to_string())
    );
    assert_eq!(stored_turbine(None).image_date_text(), None);
    assert_eq!(stored_turbine(Some(Date { year: 2018, month: 13, day: 9 })).image_date_text(), None);
}
