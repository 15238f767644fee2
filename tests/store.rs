use windpower_sync::models::{Error, StateType};
use windpower_sync::normalize::{TurbineInput, UsState};
use windpower_sync::plan::{plan_regions, plan_turbines};
use windpower_sync::stages::{parents, stage_order, EntityKind};
use windpower_sync::store::{Store, Write};

fn us_state(abbreviation: &str, population: Option<i32>) -> UsState {
    UsState {
        state_type: "State".to_string(),
        name: format!("{} name", abbreviation),
        abbreviation: abbreviation.to_string(),
        capital: Some("Capital".to_string()),
        population,
        area: Some(1000),
    }
}

fn turbine(county: &str, project: &str, manu: &str, model: &str, cap: Option<i32>, source: &str) -> TurbineInput {
    TurbineInput {
        t_state: "CA".to_string(),
        t_county: county.to_string(),
        p_name: project.to_string(),
        p_tnum: 3,
        p_cap_milli: Some(4_500),
        t_manu: manu.to_string(),
        t_model: model.to_string(),
        t_cap: cap,
        t_hh_milli: Some(80_000),
        t_rd_milli: Some(90_000),
        t_rsa_milli: None,
        t_ttlh_milli: Some(125_000),
        retrofit: 0,
        retrofit_year: None,
        t_conf_atr: 2,
        t_conf_loc: 3,
        t_img_date: "3/14/2020".to_string(),
        t_img_srce: source.to_string(),
        xlong_micro: -118_250_000,
        ylat_micro: 35_100_000,
    }
}

fn region_ids(store: &Store) -> Vec<String> {
    let mut ids: Vec<String> = store.regions.rows().iter().map(|s| s.id.clone()).collect();
    ids.sort();
    ids
}

fn snapshot(store: &Store) -> String {
    format!(
        "{:?}|{:?}|{:?}|{:?}|{:?}|{:?}|{:?}",
        store.regions.rows(),
        store.counties.rows(),
        store.manufacturers.rows(),
        store.models.rows(),
        store.image_sources.rows(),
        store.projects.rows(),
        store.turbines
    )
}

fn sample_turbines() -> Vec<TurbineInput> {
    vec![
        turbine("Kern", "Alta", "Vestas", "V90", Some(3000), "Digital Globe"),
        turbine("Kern", "Alta", "GE", "1.5sle", Some(1500), "NAIP"),
        turbine("Riverside", "Coachella", "Vestas", "V90", Some(1800), ""),
    ]
}

#[test]
fn end_to_end_regions_then_shrinking_input() {
    let mut store = Store::new();
    assert_eq!(store.sync_regions(&vec![us_state("CA", Some(100)), us_state("TX", Some(200))]), Ok(()));
    assert_eq!(region_ids(&store), vec!["CA".to_string(), "TX".to_string()]);
    assert_eq!(store.sync_regions(&vec![us_state("CA", Some(150))]), Ok(()));
    assert_eq!(region_ids(&store), vec!["CA".to_string()]);
    let rows = store.regions.rows();
    assert_eq!(rows.len(), 1);
    assert_eq!(rows[0].population, Some(150));
    assert_eq!(rows[0].area_square_km, Some(2589));
    assert_eq!(rows[0].state_type, StateType::State);
}

#[test]
fn reconciliation_removes_stale_region() {
    let mut store = Store::new();
    store.sync_regions(&vec![us_state("ZZ", None)]).unwrap();
    assert_eq!(region_ids(&store), vec!["ZZ".to_string()]);
    let incoming = vec![us_state("CA", Some(4)), us_state("TX", None), us_state("CA", Some(5))];
    store.sync_regions(&incoming).unwrap();
    assert_eq!(region_ids(&store), vec!["CA".to_string(), "TX".to_string()]);
    assert_eq!(store.regions.rows().len(), 2);
    let ca = store.regions.rows().iter().find(|s| s.id == "CA").unwrap();
    assert_eq!(ca.population, Some(4));
}

#[test]
fn region_sync_with_unknown_code_writes_nothing() {
    let mut store = Store::new();
    store.sync_regions(&vec![us_state("CA", None)]).unwrap();
    let mut bad = us_state("TX", None);
    bad.state_type = "Kingdom".to_string();
    let before = snapshot(&store);
    assert_eq!(
        store.sync_regions(&vec![us_state("NV", None), bad]),
        Err(Error::UnknownStateType("Kingdom".to_string()))
    );
    assert_eq!(snapshot(&store), before);
}

#[test]
fn running_twice_changes_nothing() {
    let mut store = Store::new();
    let regions = vec![us_state("CA", Some(1)), us_state("TX", Some(2))];
    let turbines = sample_turbines();
    store.sync_regions(&regions).unwrap();
    store.sync_turbines(&turbines).unwrap();
    let once = snapshot(&store);
    store.sync_regions(&regions).unwrap();
    store.sync_turbines(&turbines).unwrap();
    assert_eq!(snapshot(&store), once);
    assert_eq!(store.turbines.len(), 3);
    assert_eq!(store.counties.rows().len(), 2);
    assert_eq!(store.models.rows().len(), 2);
    assert_eq!(store.projects.rows().len(), 2);
    assert_eq!(store.image_sources.rows().len(), 3);
}

#[test]
fn turbine_parents_all_exist() {
    let mut store = Store::new();
    store.sync_turbines(&sample_turbines()).unwrap();
    for t in &store.turbines {
        assert!(store.counties.rows().iter().any(|c| c.state_id == t.state_id && c.name == t.county));
        assert!(store.projects.rows().iter().any(|p| *p == t.project));
        assert!(store.models.rows().iter().any(|m| m.manufacturer == t.manufacturer && m.name == t.model));
        assert!(store.image_sources.rows().iter().any(|s| *s == t.image_source));
    }
}

#[test]
fn first_model_row_wins_in_store() {
    let mut store = Store::new();
    store.sync_turbines(&sample_turbines()).unwrap();
    let v90 = store.models.rows().iter().find(|m| m.name == "V90").unwrap();
    assert_eq!(v90.capacity_kw, Some(3000));
}

#[test]
fn existing_reference_rows_are_never_updated() {
    let mut store = Store::new();
    store.sync_turbines(&sample_turbines()).unwrap();
    let later = vec![turbine("Kern", "Alta", "Vestas", "V90", Some(9999), "Digital Globe")];
    store.sync_turbines(&later).unwrap();
    let v90 = store.models.rows().iter().find(|m| m.name == "V90").unwrap();
    assert_eq!(v90.capacity_kw, Some(3000));
    assert_eq!(store.models.rows().len(), 2);
    assert_eq!(store.turbines.len(), 1);
}

#[test]
fn projects_are_kept_per_key() {
    let mut store = Store::new();
    store.sync_turbines(&sample_turbines()).unwrap();
    assert_eq!(store.projects.rows().len(), 2);
    let mut changed = turbine("Kern", "Alta", "Vestas", "V90", Some(3000), "Digital Globe");
    changed.p_tnum = 7;
    let mut other = changed.clone();
    other.p_cap_milli = None;
    store.sync_turbines(&vec![changed.clone(), other, changed]).unwrap();
    let alta: Vec<(i32, Option<i32>)> = store
        .projects
        .rows()
        .iter()
        .filter(|p| p.name == "Alta")
        .map(|p| (p.num_turbines, p.capacity_milli_mw))
        .collect();
    assert_eq!(alta, vec![(3, Some(4_500)), (7, Some(4_500)), (7, None)]);
    assert_eq!(store.projects.rows().len(), 4);
    assert_eq!(store.turbines[1].project.num_turbines, 7);
    assert_eq!(store.turbines[1].project.capacity_milli_mw, None);
}

#[test]
fn repeated_region_keeps_first_row() {
    let mut store = Store::new();
    let mut first = us_state("CA", Some(1));
    first.name = "First".to_string();
    let mut second = us_state("CA", Some(2));
    second.name = "Second".to_string();
    store.sync_regions(&vec![first, us_state("TX", None), second]).unwrap();
    let rows = store.regions.rows();
    assert_eq!(rows.len(), 2);
    let ca = rows.iter().find(|s| s.id == "CA").unwrap();
    assert_eq!(ca.name, "First");
    assert_eq!(ca.population, Some(1));
    let plan = plan_regions(&vec![us_state("CA", Some(1)), us_state("CA", Some(2))]).unwrap();
    assert_eq!(plan.len(), 2);
}

#[test]
fn turbine_sync_with_unknown_code_writes_nothing() {
    let mut store = Store::new();
    let mut rows = sample_turbines();
    rows[1].t_conf_atr = 7;
    assert_eq!(store.sync_turbines(&rows), Err(Error::UnknownConfidenceLevel(Some(7))));
    assert!(store.turbines.is_empty());
    assert!(store.counties.rows().is_empty());
}

#[test]
fn turbine_plan_orders_parents_first() {
    let plan = plan_turbines(&sample_turbines()).unwrap();
    let rank = |w: &Write| match w {
        Write::InsertCounty(_) => 1,
        Write::InsertManufacturer(_) => 2,
        Write::InsertModel(_) => 3,
        Write::InsertImageSource(_) => 4,
        Write::UpsertProject(_) => 5,
        Write::ClearTurbines => 6,
        Write::InsertTurbine(_) => 7,
        _ => 0,
    };
    let ranks: Vec<i32> = plan.iter().map(rank).collect();
    assert_eq!(ranks, vec![1, 1, 2, 2, 3, 3, 4, 4, 4, 5, 5, 6, 7, 7, 7]);
}

#[test]
fn region_plan_upserts_then_prunes() {
    let plan = plan_regions(&vec![us_state("CA", None), us_state("TX", None)]).unwrap();
    assert_eq!(plan.len(), 3);
    assert!(matches!(plan[0], Write::UpsertRegion(ref s) if s.id == "CA"));
    assert!(matches!(plan[2], Write::PruneRegions(ref keep) if keep.len() == 2));
    let empty = plan_regions(&Vec::new()).unwrap();
    assert!(matches!(empty[..], [Write::PruneRegions(ref keep)] if keep.is_empty()));
}

#[test]
fn applying_a_plan_by_hand_matches_sync() {
    let rows = sample_turbines();
    let mut by_plan = Store::new();
    by_plan.run(&plan_turbines(&rows).unwrap());
    let mut by_sync = Store::new();
    by_sync.sync_turbines(&rows).unwrap();
    assert_eq!(snapshot(&by_plan), snapshot(&by_sync));
}

#[test]
fn stage_order_is_topological() {
    let order = stage_order();
    assert_eq!(order.len(), 7);
    assert_eq!(order[0], EntityKind::Region);
    assert_eq!(order[6], EntityKind::Turbine);
    for (i, k) in order.iter().enumerate() {
        for p in parents(*k) {
            assert!(order[..i].contains(&p));
        }
    }
}
