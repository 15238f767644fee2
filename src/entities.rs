use vstd::prelude::*;
use crate::dedup::{dedup_first, first_by_key, Keyed};
use crate::models::{confidence_of_code, ConfidenceLevel, Error, State};
use crate::normalize::{parse_date, slash_shape, iso_date_of, TurbineInput};

verus! {

/// A county, identified by its region code and its name.
#[derive(Clone, Debug, PartialEq, Eq)]
pub struct CountyKey {
    pub state_id: String,
    pub name: String,
}

/// A turbine model; identified by manufacturer and model name alone.
#[derive(Clone, Debug, PartialEq, Eq)]
pub struct Model {
    pub manufacturer: String,
    pub name: String,
    pub capacity_kw: Option<i32>,
    pub hub_height_milli: Option<i64>,
    pub rotor_diameter_milli: Option<i64>,
    pub rotor_swept_area_milli: Option<i64>,
    pub total_height_to_tip_milli: Option<i64>,
}

/// A project, identified by name, number of turbines and capacity (in thousandths of a
/// megawatt) together; it has no other attributes.
#[derive(Clone, Debug, PartialEq, Eq)]
pub struct Project {
    pub name: String,
    pub num_turbines: i32,
    pub capacity_milli_mw: Option<i32>,
}

/// A turbine as written to the store; its parents are named by their natural keys.
#[derive(Clone, Debug, PartialEq, Eq)]
pub struct Turbine {
    pub state_id: String,
    pub county: String,
    pub project: Project,
    pub manufacturer: String,
    pub model: String,
    pub image_source: String,
    pub retrofit: bool,
    pub retrofit_year: Option<i32>,
    pub attributes_confidence: ConfidenceLevel,
    pub location_confidence: ConfidenceLevel,
    pub image_date: Option<String>,
    pub latitude_micro: i64,
    pub longitude_micro: i64,
}

impl Turbine {
    /// A copy of the row.
    pub fn duplicate(&self) -> (r: Turbine)
        ensures
            r == *self,
    {
        let image_date = match &self.image_date {
            Some(d) => Some(d.clone()),
            None => None,
        };
        Turbine {
            state_id: self.state_id.clone(),
            county: self.county.clone(),
            project: self.project.duplicate(),
            manufacturer: self.manufacturer.clone(),
            model: self.model.clone(),
            image_source: self.image_source.clone(),
            retrofit: self.retrofit,
            retrofit_year: self.retrofit_year,
            attributes_confidence: self.attributes_confidence,
            location_confidence: self.location_confidence,
            image_date,
            latitude_micro: self.latitude_micro,
            longitude_micro: self.longitude_micro,
        }
    }
}

impl Keyed for String {
    type Key = Seq<char>;

    open spec fn key(&self) -> Seq<char> {
        self@
    }

    fn same_key(&self, other: &String) -> (r: bool) {
        *self == *other
    }

    fn duplicate(&self) -> (r: String) {
        self.clone()
    }
}

impl Keyed for State {
    type Key = Seq<char>;

    open spec fn key(&self) -> Seq<char> {
        self.id@
    }

    fn same_key(&self, other: &State) -> (r: bool) {
        self.id == other.id
    }

    fn duplicate(&self) -> (r: State) {
        let capital = match &self.capital {
            Some(c) => Some(c.clone()),
            None => None,
        };
        State {
            id: self.id.clone(),
            name: self.name.clone(),
            capital,
            population: self.population,
            area_square_km: self.area_square_km,
            state_type: self.state_type,
        }
    }
}

impl Keyed for CountyKey {
    type Key = (Seq<char>, Seq<char>);

    open spec fn key(&self) -> (Seq<char>, Seq<char>) {
        (self.state_id@, self.name@)
    }

    fn same_key(&self, other: &CountyKey) -> (r: bool) {
        self.state_id == other.state_id && self.name == other.name
    }

    fn duplicate(&self) -> (r: CountyKey) {
        CountyKey { state_id: self.state_id.clone(), name: self.name.clone() }
    }
}

impl Keyed for Model {
    type Key = (Seq<char>, Seq<char>);

    open spec fn key(&self) -> (Seq<char>, Seq<char>) {
        (self.manufacturer@, self.name@)
    }

    fn same_key(&self, other: &Model) -> (r: bool) {
        self.manufacturer == other.manufacturer && self.name == other.name
    }

    fn duplicate(&self) -> (r: Model) {
        Model {
            manufacturer: self.manufacturer.clone(),
            name: self.name.clone(),
            capacity_kw: self.capacity_kw,
            hub_height_milli: self.hub_height_milli,
            rotor_diameter_milli: self.rotor_diameter_milli,
            rotor_swept_area_milli: self.rotor_swept_area_milli,
            total_height_to_tip_milli: self.total_height_to_tip_milli,
        }
    }
}

impl Keyed for Project {
    type Key = (Seq<char>, i32, Option<i32>);

    open spec fn key(&self) -> (Seq<char>, i32, Option<i32>) {
        (self.name@, self.num_turbines, self.capacity_milli_mw)
    }

    fn same_key(&self, other: &Project) -> (r: bool) {
        self.name == other.name && self.num_turbines == other.num_turbines
            && self.capacity_milli_mw == other.capacity_milli_mw
    }

    fn duplicate(&self) -> (r: Project) {
        Project {
            name: self.name.clone(),
            num_turbines: self.num_turbines,
            capacity_milli_mw: self.capacity_milli_mw,
        }
    }
}

/// The date a turbine row stores for the image date as supplied.
pub open spec fn stored_date(d: Seq<char>, r: Option<String>) -> bool {
    &&& (r is Some <==> exists|i: int, j: int| slash_shape(d, i, j))
    &&& forall|i: int, j: int| slash_shape(d, i, j) ==> (r matches Some(t) && t@ == iso_date_of(d, i, j))
}

impl TurbineInput {
    pub open spec fn county(&self) -> CountyKey {
        CountyKey { state_id: self.t_state, name: self.t_county }
    }

    pub open spec fn model(&self) -> Model {
        Model {
            manufacturer: self.t_manu,
            name: self.t_model,
            capacity_kw: self.t_cap,
            hub_height_milli: self.t_hh_milli,
            rotor_diameter_milli: self.t_rd_milli,
            rotor_swept_area_milli: self.t_rsa_milli,
            total_height_to_tip_milli: self.t_ttlh_milli,
        }
    }

    pub open spec fn project(&self) -> Project {
        Project { name: self.p_name, num_turbines: self.p_tnum, capacity_milli_mw: self.p_cap_milli }
    }

    /// The row is accepted: both confidence codes are known.
    pub open spec fn codes_known(&self) -> bool {
        &&& confidence_of_code(Some(self.t_conf_atr)) is Some
        &&& confidence_of_code(Some(self.t_conf_loc)) is Some
    }

    /// `r` is this input written as a turbine row.
    pub open spec fn written_as(&self, r: Turbine) -> bool {
        &&& r.state_id == self.t_state
        &&& r.county == self.t_county
        &&& r.project == self.project()
        &&& r.manufacturer == self.t_manu
        &&& r.model == self.t_model
        &&& r.image_source == self.t_img_srce
        &&& r.retrofit == (self.retrofit != 0)
        &&& r.retrofit_year == self.retrofit_year
        &&& confidence_of_code(Some(self.t_conf_atr)) == Some(r.attributes_confidence)
        &&& confidence_of_code(Some(self.t_conf_loc)) == Some(r.location_confidence)
        &&& stored_date(self.t_img_date@, r.image_date)
        &&& r.latitude_micro == self.ylat_micro
        &&& r.longitude_micro == self.xlong_micro
    }

    /// `e` is the error for this row's first unknown confidence code.
    pub open spec fn to_turbine_row_error(&self, e: Error) -> bool {
        if confidence_of_code(Some(self.t_conf_atr)) is None {
            e == Error::UnknownConfidenceLevel(Some(self.t_conf_atr))
        } else {
            e == Error::UnknownConfidenceLevel(Some(self.t_conf_loc))
        }
    }

    pub fn to_county(&self) -> (r: CountyKey)
        ensures
            r == self.county(),
    {
        CountyKey { state_id: self.t_state.clone(), name: self.t_county.clone() }
    }

    pub fn to_model(&self) -> (r: Model)
        ensures
            r == self.model(),
    {
        Model {
            manufacturer: self.t_manu.clone(),
            name: self.t_model.clone(),
            capacity_kw: self.t_cap,
            hub_height_milli: self.t_hh_milli,
            rotor_diameter_milli: self.t_rd_milli,
            rotor_swept_area_milli: self.t_rsa_milli,
            total_height_to_tip_milli: self.t_ttlh_milli,
        }
    }

    pub fn to_project(&self) -> (r: Project)
        ensures
            r == self.project(),
    {
        Project {
            name: self.p_name.clone(),
            num_turbines: self.p_tnum,
            capacity_milli_mw: self.p_cap_milli,
        }
    }

    /// The turbine row for this input; an unknown confidence code is a domain error.
    pub fn to_turbine_row(&self) -> (r: Result<Turbine, Error>)
        ensures
            r is Ok <==> self.codes_known(),
            r matches Ok(row) ==> self.written_as(row),
            r matches Err(e) ==> self.to_turbine_row_error(e),
            confidence_of_code(Some(self.t_conf_atr)) is None ==> r == Err::<Turbine, Error>(
                Error::UnknownConfidenceLevel(Some(self.t_conf_atr)),
            ),
            confidence_of_code(Some(self.t_conf_atr)) is Some && confidence_of_code(
                Some(self.t_conf_loc),
            ) is None ==> r == Err::<Turbine, Error>(
                Error::UnknownConfidenceLevel(Some(self.t_conf_loc)),
            ),
    {
        let attributes_confidence = match ConfidenceLevel::from_code(Some(self.t_conf_atr)) {
            Ok(l) => l,
            Err(e) => return Err(e),
        };
        let location_confidence = match ConfidenceLevel::from_code(Some(self.t_conf_loc)) {
            Ok(l) => l,
            Err(e) => return Err(e),
        };
        Ok(Turbine {
            state_id: self.t_state.clone(),
            county: self.t_county.clone(),
            project: self.to_project(),
            manufacturer: self.t_manu.clone(),
            model: self.t_model.clone(),
            image_source: self.t_img_srce.clone(),
            retrofit: self.retrofit != 0,
            retrofit_year: self.retrofit_year,
            attributes_confidence,
            location_confidence,
            image_date: parse_date(self.t_img_date.as_str()),
            latitude_micro: self.ylat_micro,
            longitude_micro: self.xlong_micro,
        })
    }
}

/// Counties of the input, one per key, in order of first occurrence.
pub fn unique_counties(rows: &Vec<TurbineInput>) -> (r: Vec<CountyKey>)
    ensures
        r@ == first_by_key(rows@.map_values(|t: TurbineInput| t.county()), |c: CountyKey| c.key()),
{
    let mut all: Vec<CountyKey> = Vec::new();
    for i in 0..rows.len()
        invariant
            all@ == rows@.take(i as int).map_values(|t: TurbineInput| t.county()),
    {
        all.push(rows[i].to_county());
        assert(rows@.take(i as int + 1) =~= rows@.take(i as int).push(rows@[i as int]));
    }
    assert(rows@.take(rows@.len() as int) =~= rows@);
    dedup_first(&all)
}

/// Manufacturer names of the input, one per name, in order of first occurrence.
pub fn unique_manufacturers(rows: &Vec<TurbineInput>) -> (r: Vec<String>)
    ensures
        r@ == first_by_key(rows@.map_values(|t: TurbineInput| t.t_manu), |s: String| s.key()),
{
    let mut all: Vec<String> = Vec::new();
    for i in 0..rows.len()
        invariant
            all@ == rows@.take(i as int).map_values(|t: TurbineInput| t.t_manu),
    {
        all.push(rows[i].t_manu.clone());
        assert(rows@.take(i as int + 1) =~= rows@.take(i as int).push(rows@[i as int]));
    }
    assert(rows@.take(rows@.len() as int) =~= rows@);
    dedup_first(&all)
}

/// Models of the input, one per (manufacturer, name), each with the values of its first row.
pub fn unique_models(rows: &Vec<TurbineInput>) -> (r: Vec<Model>)
    ensures
        r@ == first_by_key(rows@.map_values(|t: TurbineInput| t.model()), |m: Model| m.key()),
{
    let mut all: Vec<Model> = Vec::new();
    for i in 0..rows.len()
        invariant
            all@ == rows@.take(i as int).map_values(|t: TurbineInput| t.model()),
    {
        all.push(rows[i].to_model());
        assert(rows@.take(i as int + 1) =~= rows@.take(i as int).push(rows@[i as int]));
    }
    assert(rows@.take(rows@.len() as int) =~= rows@);
    dedup_first(&all)
}

/// Image-source names of the input, one per name, in order of first occurrence.
pub fn unique_image_sources(rows: &Vec<TurbineInput>) -> (r: Vec<String>)
    ensures
        r@ == first_by_key(rows@.map_values(|t: TurbineInput| t.t_img_srce), |s: String| s.key()),
{
    let mut all: Vec<String> = Vec::new();
    for i in 0..rows.len()
        invariant
            all@ == rows@.take(i as int).map_values(|t: TurbineInput| t.t_img_srce),
    {
        all.push(rows[i].t_img_srce.clone());
        assert(rows@.take(i as int + 1) =~= rows@.take(i as int).push(rows@[i as int]));
    }
    assert(rows@.take(rows@.len() as int) =~= rows@);
    dedup_first(&all)
}

/// Projects of the input, one per (name, turbine count, capacity), in order of first occurrence.
pub fn unique_projects(rows: &Vec<TurbineInput>) -> (r: Vec<Project>)
    ensures
        r@ == first_by_key(rows@.map_values(|t: TurbineInput| t.project()), |p: Project| p.key()),
{
    let mut all: Vec<Project> = Vec::new();
    for i in 0..rows.len()
        invariant
            all@ == rows@.take(i as int).map_values(|t: TurbineInput| t.project()),
    {
        all.push(rows[i].to_project());
        assert(rows@.take(i as int + 1) =~= rows@.take(i as int).push(rows@[i as int]));
    }
    assert(rows@.take(rows@.len() as int) =~= rows@);
    dedup_first(&all)
}

} // verus!
