use vstd::prelude::*;
use crate::dedup::Keyed;
use crate::entities::{CountyKey, Model, Project, Turbine};
use crate::models::State;
use crate::table::KeyedTable;

verus! {

/// One write against the store, in the order the pipeline issues them.
#[derive(Clone, Debug, PartialEq, Eq)]
pub enum Write {
    /// Update the region of this key, or insert it when absent.
    UpsertRegion(State),
    /// Delete every region whose key is not the key of one of these.
    PruneRegions(Vec<State>),
    /// Insert the county when its key is absent.
    InsertCounty(CountyKey),
    /// Insert the manufacturer when its name is absent.
    InsertManufacturer(String),
    /// Insert the model when its key is absent.
    InsertModel(Model),
    /// Insert the image source when its name is absent.
    InsertImageSource(String),
    /// Update the project of this key, or insert it when absent.
    UpsertProject(Project),
    /// Delete every turbine.
    ClearTurbines,
    /// Append one turbine.
    InsertTurbine(Turbine),
}

/// The store's contents: each table as a map from natural key to row; turbines in order.
pub struct StoreView {
    pub regions: Map<Seq<char>, State>,
    pub counties: Map<(Seq<char>, Seq<char>), CountyKey>,
    pub manufacturers: Map<Seq<char>, String>,
    pub models: Map<(Seq<char>, Seq<char>), Model>,
    pub image_sources: Map<Seq<char>, String>,
    pub projects: Map<(Seq<char>, i32, Option<i32>), Project>,
    pub turbines: Seq<Turbine>,
}

/// `m` with `x` added under its key, unless that key is already present.
pub open spec fn insert_absent<T: Keyed>(m: Map<T::Key, T>, x: T) -> Map<T::Key, T> {
    if m.contains_key(x.key()) {
        m
    } else {
        m.insert(x.key(), x)
    }
}

/// The keys of a sequence of keyed values, as a set.
pub open spec fn key_set<T: Keyed>(xs: Seq<T>) -> Set<T::Key> {
    xs.map_values(|t: T| t.key()).to_set()
}

/// The store after one write.
pub open spec fn apply_write(s: StoreView, w: Write) -> StoreView {
    match w {
        Write::UpsertRegion(r) => StoreView { regions: s.regions.insert(r.key(), r), ..s },
        Write::PruneRegions(keep) => StoreView {
            regions: s.regions.restrict(key_set(keep@)),
            ..s
        },
        Write::InsertCounty(c) => StoreView { counties: insert_absent(s.counties, c), ..s },
        Write::InsertManufacturer(m) => StoreView {
            manufacturers: insert_absent(s.manufacturers, m),
            ..s
        },
        Write::InsertModel(m) => StoreView { models: insert_absent(s.models, m), ..s },
        Write::InsertImageSource(i) => StoreView {
            image_sources: insert_absent(s.image_sources, i),
            ..s
        },
        Write::UpsertProject(p) => StoreView { projects: s.projects.insert(p.key(), p), ..s },
        Write::ClearTurbines => StoreView { turbines: Seq::empty(), ..s },
        Write::InsertTurbine(t) => StoreView { turbines: s.turbines.push(t), ..s },
    }
}

/// The store after the writes of `plan`, in order.
pub open spec fn run_plan(s: StoreView, plan: Seq<Write>) -> StoreView
    decreases plan.len(),
{
    if plan.len() == 0 {
        s
    } else {
        apply_write(run_plan(s, plan.drop_last()), plan.last())
    }
}

/// An in-memory store with the semantics the relational store gives each write.
pub struct Store {
    pub regions: KeyedTable<State>,
    pub counties: KeyedTable<CountyKey>,
    pub manufacturers: KeyedTable<String>,
    pub models: KeyedTable<Model>,
    pub image_sources: KeyedTable<String>,
    pub projects: KeyedTable<Project>,
    pub turbines: Vec<Turbine>,
}

impl View for Store {
    type V = StoreView;

    open spec fn view(&self) -> StoreView {
        StoreView {
            regions: self.regions@,
            counties: self.counties@,
            manufacturers: self.manufacturers@,
            models: self.models@,
            image_sources: self.image_sources@,
            projects: self.projects@,
            turbines: self.turbines@,
        }
    }
}

impl Store {
    /// An empty store.
    pub fn new() -> (r: Store)
        ensures
            r@.regions == Map::<Seq<char>, State>::empty(),
            r@.counties == Map::<(Seq<char>, Seq<char>), CountyKey>::empty(),
            r@.manufacturers == Map::<Seq<char>, String>::empty(),
            r@.models == Map::<(Seq<char>, Seq<char>), Model>::empty(),
            r@.image_sources == Map::<Seq<char>, String>::empty(),
            r@.projects == Map::<(Seq<char>, i32, Option<i32>), Project>::empty(),
            r@.turbines == Seq::<Turbine>::empty(),
    {
        Store {
            regions: KeyedTable::new(),
            counties: KeyedTable::new(),
            manufacturers: KeyedTable::new(),
            models: KeyedTable::new(),
            image_sources: KeyedTable::new(),
            projects: KeyedTable::new(),
            turbines: Vec::new(),
        }
    }

    /// Performs one write.
    pub fn apply(&mut self, w: &Write)
        ensures
            final(self)@ == apply_write(old(self)@, *w),
    {
        match w {
            Write::UpsertRegion(r) => self.regions.upsert(r.duplicate()),
            Write::PruneRegions(keep) => self.regions.retain_keys_of(keep),
            Write::InsertCounty(c) => self.counties.insert_if_absent(c.duplicate()),
            Write::InsertManufacturer(m) => self.manufacturers.insert_if_absent(m.duplicate()),
            Write::InsertModel(m) => self.models.insert_if_absent(m.duplicate()),
            Write::InsertImageSource(i) => self.image_sources.insert_if_absent(i.duplicate()),
            Write::UpsertProject(p) => self.projects.upsert(p.duplicate()),
            Write::ClearTurbines => self.turbines = Vec::new(),
            Write::InsertTurbine(t) => self.turbines.push(t.duplicate()),
        }
        assert(final(self)@ =~= apply_write(old(self)@, *w));
    }

    /// Performs the writes of `plan` in order.
    pub fn run(&mut self, plan: &Vec<Write>)
        ensures
            final(self)@ == run_plan(old(self)@, plan@),
    {
        let ghost start = self@;
        let mut i: usize = 0;
        while i < plan.len()
            invariant
                i <= plan@.len(),
                self@ == run_plan(start, plan@.take(i as int)),
            decreases plan@.len() - i,
        {
            self.apply(&plan[i]);
            assert(plan@.take(i as int + 1).drop_last() =~= plan@.take(i as int));
            i = i + 1;
        }
        assert(plan@.take(plan@.len() as int) =~= plan@);
    }
}

} // verus!
