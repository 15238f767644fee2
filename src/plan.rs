use vstd::prelude::*;
use crate::dedup::{dedup_first, first_by_key, Keyed};
use crate::entities::{
    unique_counties, unique_image_sources, unique_manufacturers, unique_models, unique_projects,
    CountyKey, Model, Project, Turbine,
};
use crate::models::{state_type_of_code, Error, State, StateType};
use crate::normalize::{area_km_of, TurbineInput, UsState};
use crate::store::Write;

verus! {

impl UsState {
    /// The region-type code is recognised.
    pub open spec fn code_known(&self) -> bool {
        state_type_of_code(self.state_type@) is Some
    }

    /// The region row this input row stands for.
    pub open spec fn row(&self) -> State {
        State {
            id: self.abbreviation,
            name: self.name,
            capital: self.capital,
            population: self.population,
            area_square_km: area_km_of(self.area),
            state_type: state_type_of_code(self.state_type@).unwrap(),
        }
    }

    /// The region row; an unrecognised region-type code is a domain error.
    pub fn to_state(&self) -> (r: Result<State, Error>)
        ensures
            self.code_known() ==> r == Ok::<State, Error>(self.row()),
            !self.code_known() ==> (r matches Err(Error::UnknownStateType(c)) && c@
                == self.state_type@),
    {
        let state_type = match StateType::from_code(self.state_type.as_str()) {
            Ok(t) => t,
            Err(e) => return Err(e),
        };
        let capital = match &self.capital {
            Some(c) => Some(c.clone()),
            None => None,
        };
        Ok(State {
            id: self.abbreviation.clone(),
            name: self.name.clone(),
            capital,
            population: self.population,
            area_square_km: self.area_in_square_km(),
            state_type,
        })
    }
}

/// `plan` upserts each region of `states` in order, then deletes the regions not among them.
pub open spec fn is_region_plan(plan: Seq<Write>, states: Seq<State>) -> bool {
    &&& plan.len() == states.len() + 1
    &&& forall|i: int| 0 <= i < states.len() ==> plan[i] == Write::UpsertRegion(states[i])
    &&& plan[states.len() as int] matches Write::PruneRegions(keep) && keep@ == states
}

/// The region rows of `rows`, one per abbreviation: the first row of each wins.
pub open spec fn first_states(rows: Seq<UsState>) -> Seq<State> {
    first_by_key(rows.map_values(|u: UsState| u.row()), |t: State| t.key())
}

/// The writes that synchronise the regions with `rows`: each abbreviation is upserted once,
/// with the values of its first row, then every other region is deleted. Fails, before any
/// write, on the first row whose region-type code is not recognised.
pub fn plan_regions(rows: &Vec<UsState>) -> (r: Result<Vec<Write>, Error>)
    ensures
        r is Ok <==> forall|i: int| 0 <= i < rows@.len() ==> rows@[i].code_known(),
        r matches Ok(plan) ==> is_region_plan(plan@, first_states(rows@)),
        r matches Err(e) ==> exists|i: int|
            0 <= i < rows@.len() && !rows@[i].code_known() && (forall|j: int|
                0 <= j < i ==> rows@[j].code_known()) && (e matches Error::UnknownStateType(c)
                && c@ == rows@[i].state_type@),
{
    let mut all: Vec<State> = Vec::new();
    for i in 0..rows.len()
        invariant
            all@ == rows@.take(i as int).map_values(|u: UsState| u.row()),
            forall|j: int| 0 <= j < i ==> rows@[j].code_known(),
    {
        let state = match rows[i].to_state() {
            Ok(s) => s,
            Err(e) => return Err(e),
        };
        all.push(state);
        assert(rows@.take(i as int + 1) =~= rows@.take(i as int).push(rows@[i as int]));
    }
    assert(rows@.take(rows@.len() as int) =~= rows@);
    let keep = dedup_first(&all);
    let mut plan: Vec<Write> = Vec::new();
    for i in 0..keep.len()
        invariant
            plan@.len() == i,
            keep@ == first_states(rows@),
            forall|j: int| 0 <= j < i ==> plan@[j] == Write::UpsertRegion(keep@[j]),
    {
        plan.push(Write::UpsertRegion(keep[i].duplicate()));
    }
    plan.push(Write::PruneRegions(keep));
    Ok(plan)
}

/// Counties of `rows`, deduplicated.
pub open spec fn first_counties(rows: Seq<TurbineInput>) -> Seq<CountyKey> {
    first_by_key(rows.map_values(|t: TurbineInput| t.county()), |c: CountyKey| c.key())
}

/// Manufacturer names of `rows`, deduplicated.
pub open spec fn first_manufacturers(rows: Seq<TurbineInput>) -> Seq<String> {
    first_by_key(rows.map_values(|t: TurbineInput| t.t_manu), |s: String| s.key())
}

/// Models of `rows`, deduplicated.
pub open spec fn first_models(rows: Seq<TurbineInput>) -> Seq<Model> {
    first_by_key(rows.map_values(|t: TurbineInput| t.model()), |m: Model| m.key())
}

/// Image-source names of `rows`, deduplicated.
pub open spec fn first_image_sources(rows: Seq<TurbineInput>) -> Seq<String> {
    first_by_key(rows.map_values(|t: TurbineInput| t.t_img_srce), |s: String| s.key())
}

/// Projects of `rows`, deduplicated.
pub open spec fn first_projects(rows: Seq<TurbineInput>) -> Seq<Project> {
    first_by_key(rows.map_values(|t: TurbineInput| t.project()), |p: Project| p.key())
}

/// The writes that precede the turbines: every parent kind, in dependency order, then the
/// deletion of the previous turbines.
pub open spec fn parent_writes(rows: Seq<TurbineInput>) -> Seq<Write> {
    first_counties(rows).map_values(|c: CountyKey| Write::InsertCounty(c))
        + first_manufacturers(rows).map_values(|m: String| Write::InsertManufacturer(m))
        + first_models(rows).map_values(|m: Model| Write::InsertModel(m))
        + first_image_sources(rows).map_values(|s: String| Write::InsertImageSource(s))
        + first_projects(rows).map_values(|p: Project| Write::UpsertProject(p))
        + seq![Write::ClearTurbines]
}

/// `plan` writes the parents of `rows`, clears the turbines, then inserts one turbine per row.
pub open spec fn is_turbine_plan(plan: Seq<Write>, rows: Seq<TurbineInput>) -> bool {
    let head = parent_writes(rows);
    &&& plan.len() == head.len() + rows.len()
    &&& plan.take(head.len() as int) == head
    &&& forall|i: int|
        0 <= i < rows.len() ==> (#[trigger] plan[head.len() + i] matches Write::InsertTurbine(t)
            && rows[i].written_as(t))
}

/// The turbine rows of `rows`; fails on the first row with an unknown confidence code.
pub fn turbine_rows(rows: &Vec<TurbineInput>) -> (r: Result<Vec<Turbine>, Error>)
    ensures
        r is Ok <==> forall|i: int| 0 <= i < rows@.len() ==> rows@[i].codes_known(),
        r matches Ok(ts) ==> ts@.len() == rows@.len() && forall|i: int|
            0 <= i < rows@.len() ==> rows@[i].written_as(ts@[i]),
        r matches Err(e) ==> exists|i: int|
            0 <= i < rows@.len() && !rows@[i].codes_known() && (forall|j: int|
                0 <= j < i ==> rows@[j].codes_known()) && rows@[i].to_turbine_row_error(e),
{
    let mut ts: Vec<Turbine> = Vec::new();
    for i in 0..rows.len()
        invariant
            ts@.len() == i,
            forall|j: int| 0 <= j < i ==> rows@[j].codes_known() && rows@[j].written_as(ts@[j]),
    {
        match rows[i].to_turbine_row() {
            Ok(t) => ts.push(t),
            Err(e) => return Err(e),
        }
    }
    Ok(ts)
}

/// The writes that synchronise the store with the turbines file `rows`: parents first, in
/// dependency order and each kind deduplicated, then the turbines. Fails, before any write,
/// on the first row with an unknown confidence code.
pub fn plan_turbines(rows: &Vec<TurbineInput>) -> (r: Result<Vec<Write>, Error>)
    ensures
        r is Ok <==> forall|i: int| 0 <= i < rows@.len() ==> rows@[i].codes_known(),
        r matches Ok(plan) ==> is_turbine_plan(plan@, rows@),
        r matches Err(e) ==> exists|i: int|
            0 <= i < rows@.len() && !rows@[i].codes_known() && (forall|j: int|
                0 <= j < i ==> rows@[j].codes_known()) && rows@[i].to_turbine_row_error(e),
{
    let ts = match turbine_rows(rows) {
        Ok(ts) => ts,
        Err(e) => return Err(e),
    };
    let mut plan: Vec<Write> = Vec::new();
    let counties = unique_counties(rows);
    for i in 0..counties.len()
        invariant
            plan@ == counties@.take(i as int).map_values(|c: CountyKey| Write::InsertCounty(c)),
    {
        plan.push(Write::InsertCounty(counties[i].duplicate()));
        assert(counties@.take(i as int + 1).map_values(|c: CountyKey| Write::InsertCounty(c))
            =~= counties@.take(i as int).map_values(|c: CountyKey| Write::InsertCounty(c)).push(
            Write::InsertCounty(counties@[i as int])));
    }
    assert(counties@.take(counties@.len() as int) =~= counties@);
    let ghost after_counties = plan@;
    let manufacturers = unique_manufacturers(rows);
    for i in 0..manufacturers.len()
        invariant
            plan@ == after_counties + manufacturers@.take(i as int).map_values(
                |m: String| Write::InsertManufacturer(m),
            ),
    {
        plan.push(Write::InsertManufacturer(manufacturers[i].clone()));
        assert(manufacturers@.take(i as int + 1).map_values(
            |m: String| Write::InsertManufacturer(m),
        ) =~= manufacturers@.take(i as int).map_values(
            |m: String| Write::InsertManufacturer(m),
        ).push(Write::InsertManufacturer(manufacturers@[i as int])));
    }
    assert(manufacturers@.take(manufacturers@.len() as int) =~= manufacturers@);
    let ghost after_manufacturers = plan@;
    let models = unique_models(rows);
    for i in 0..models.len()
        invariant
            plan@ == after_manufacturers + models@.take(i as int).map_values(|m: Model| Write::InsertModel(m)),
    {
        plan.push(Write::InsertModel(models[i].duplicate()));
        assert(models@.take(i as int + 1).map_values(|m: Model| Write::InsertModel(m))
            =~= models@.take(i as int).map_values(|m: Model| Write::InsertModel(m)).push(
            Write::InsertModel(models@[i as int])));
    }
    assert(models@.take(models@.len() as int) =~= models@);
    let ghost after_models = plan@;
    let sources = unique_image_sources(rows);
    for i in 0..sources.len()
        invariant
            plan@ == after_models + sources@.take(i as int).map_values(
                |s: String| Write::InsertImageSource(s),
            ),
    {
        plan.push(Write::InsertImageSource(sources[i].clone()));
        assert(sources@.take(i as int + 1).map_values(|s: String| Write::InsertImageSource(s))
            =~= sources@.take(i as int).map_values(|s: String| Write::InsertImageSource(s)).push(
            Write::InsertImageSource(sources@[i as int])));
    }
    assert(sources@.take(sources@.len() as int) =~= sources@);
    let ghost after_sources = plan@;
    let projects = unique_projects(rows);
    for i in 0..projects.len()
        invariant
            plan@ == after_sources + projects@.take(i as int).map_values(
                |p: Project| Write::UpsertProject(p),
            ),
    {
        plan.push(Write::UpsertProject(projects[i].duplicate()));
        assert(projects@.take(i as int + 1).map_values(
            |p: Project| Write::UpsertProject(p),
        ) =~= projects@.take(i as int).map_values(
            |p: Project| Write::UpsertProject(p),
        ).push(Write::UpsertProject(projects@[i as int])));
    }
    assert(projects@.take(projects@.len() as int) =~= projects@);
    plan.push(Write::ClearTurbines);
    let ghost head = plan@;
    assert(head =~= parent_writes(rows@));
    let ghost all_ts = ts@;
    let n = ts.len();
    for i in 0..n
        invariant
            n == all_ts.len(),
            n == rows@.len(),
            plan@.len() == head.len() + i,
            plan@.take(head.len() as int) == head,
            forall|j: int| 0 <= j < rows@.len() ==> rows@[j].written_as(all_ts[j]),
            ts@ == all_ts,
            forall|j: int| 0 <= j < i ==> plan@[head.len() + j] == Write::InsertTurbine(all_ts[j]),
    {
        let ghost before = plan@;
        plan.push(Write::InsertTurbine(ts[i].duplicate()));
        assert(plan@.take(head.len() as int) =~= before.take(head.len() as int));
    }
    assert forall|i: int| 0 <= i < rows@.len() implies (#[trigger] plan@[head.len() + i]
        matches Write::InsertTurbine(t) && rows@[i].written_as(t)) by {
        assert(plan@[head.len() + i] == Write::InsertTurbine(all_ts[i]));
    }
    Ok(plan)
}

} // verus!
