use vstd::prelude::*;
use vstd::pervasive::arbitrary;
use crate::dedup::{first_by_key, Keyed};
use crate::entities::{CountyKey, Model, Project, Turbine};
use crate::models::State;
use crate::normalize::{TurbineInput, UsState};
use crate::plan::{
    first_counties, first_image_sources, first_manufacturers, first_models, first_projects, first_states,
    is_region_plan, is_turbine_plan, parent_writes,
};
use crate::stages::{stage_index, EntityKind};
use crate::store::{apply_write, insert_absent, key_set, run_plan, StoreView, Write};

verus! {

/// `m` after upserting each element of `xs` in order: the last value of a key wins.
pub open spec fn upsert_all<T: Keyed>(m: Map<T::Key, T>, xs: Seq<T>) -> Map<T::Key, T>
    decreases xs.len(),
{
    if xs.len() == 0 {
        m
    } else {
        upsert_all(m, xs.drop_last()).insert(xs.last().key(), xs.last())
    }
}

/// `m` after inserting each element of `xs` whose key is absent: existing rows are kept and
/// the first value of a new key wins.
pub open spec fn insert_absent_all<T: Keyed>(m: Map<T::Key, T>, xs: Seq<T>) -> Map<T::Key, T>
    decreases xs.len(),
{
    if xs.len() == 0 {
        m
    } else {
        insert_absent(insert_absent_all(m, xs.drop_last()), xs.last())
    }
}

proof fn lemma_run_concat(s: StoreView, a: Seq<Write>, b: Seq<Write>)
    ensures
        run_plan(s, a + b) == run_plan(run_plan(s, a), b),
    decreases b.len(),
{
    if b.len() == 0 {
        assert(a + b =~= a);
    } else {
        lemma_run_concat(s, a, b.drop_last());
        assert((a + b).drop_last() =~= a + b.drop_last());
        assert((a + b).last() == b.last());
    }
}

proof fn lemma_upsert_all_split<T: Keyed>(m: Map<T::Key, T>, xs: Seq<T>)
    ensures
        upsert_all(m, xs) == m.union_prefer_right(upsert_all(Map::empty(), xs)),
    decreases xs.len(),
{
    if xs.len() == 0 {
        assert(m.union_prefer_right(Map::empty()) =~= m);
    } else {
        lemma_upsert_all_split(m, xs.drop_last());
        assert(upsert_all(m, xs) =~= m.union_prefer_right(upsert_all(Map::empty(), xs)));
    }
}

proof fn lemma_insert_absent_all_split<T: Keyed>(m: Map<T::Key, T>, xs: Seq<T>)
    ensures
        insert_absent_all(m, xs) == insert_absent_all(Map::empty(), xs).union_prefer_right(m),
    decreases xs.len(),
{
    if xs.len() == 0 {
        assert(Map::<T::Key, T>::empty().union_prefer_right(m) =~= m);
    } else {
        lemma_insert_absent_all_split(m, xs.drop_last());
        assert(insert_absent_all(m, xs) =~= insert_absent_all(Map::empty(), xs).union_prefer_right(
            m,
        ));
    }
}

proof fn lemma_upsert_all_dom<T: Keyed>(m: Map<T::Key, T>, xs: Seq<T>)
    ensures
        upsert_all(m, xs).dom() == m.dom() + key_set(xs),
    decreases xs.len(),
{
    if xs.len() > 0 {
        lemma_upsert_all_dom(m, xs.drop_last());
        assert(xs.map_values(|t: T| t.key()) =~= xs.drop_last().map_values(|t: T| t.key()).push(
            xs.last().key(),
        ));
        xs.drop_last().map_values(|t: T| t.key()).lemma_push_to_set_commute(xs.last().key());
        assert(key_set(xs) =~= key_set(xs.drop_last()).insert(xs.last().key()));
    } else {
        assert(key_set(xs) =~= Set::<T::Key>::empty());
    }
    assert(upsert_all(m, xs).dom() =~= m.dom() + key_set(xs));
}

proof fn lemma_insert_absent_all_dom<T: Keyed>(m: Map<T::Key, T>, xs: Seq<T>)
    ensures
        insert_absent_all(m, xs).dom() == m.dom() + key_set(xs),
    decreases xs.len(),
{
    if xs.len() > 0 {
        lemma_insert_absent_all_dom(m, xs.drop_last());
        assert(xs.map_values(|t: T| t.key()) =~= xs.drop_last().map_values(|t: T| t.key()).push(
            xs.last().key(),
        ));
        xs.drop_last().map_values(|t: T| t.key()).lemma_push_to_set_commute(xs.last().key());
        assert(key_set(xs) =~= key_set(xs.drop_last()).insert(xs.last().key()));
    } else {
        assert(key_set(xs) =~= Set::<T::Key>::empty());
    }
    assert(insert_absent_all(m, xs).dom() =~= m.dom() + key_set(xs));
}

proof fn lemma_run_region_upserts(s: StoreView, xs: Seq<State>)
    ensures
        run_plan(s, xs.map_values(|r: State| Write::UpsertRegion(r))) == (StoreView { regions: upsert_all(s.regions, xs), ..s }),
    decreases xs.len(),
{
    if xs.len() == 0 {
        assert(xs.map_values(|r: State| Write::UpsertRegion(r)) =~= Seq::<Write>::empty());
    } else {
        lemma_run_region_upserts(s, xs.drop_last());
        assert(xs.map_values(|r: State| Write::UpsertRegion(r)).drop_last() =~= xs.drop_last().map_values(
            |r: State| Write::UpsertRegion(r),
        ));
    }
}

proof fn lemma_run_county_inserts(s: StoreView, xs: Seq<CountyKey>)
    ensures
        run_plan(s, xs.map_values(|c: CountyKey| Write::InsertCounty(c))) == (StoreView { counties: insert_absent_all(s.counties, xs), ..s }),
    decreases xs.len(),
{
    if xs.len() == 0 {
        assert(xs.map_values(|c: CountyKey| Write::InsertCounty(c)) =~= Seq::<Write>::empty());
    } else {
        lemma_run_county_inserts(s, xs.drop_last());
        assert(xs.map_values(|c: CountyKey| Write::InsertCounty(c)).drop_last() =~= xs.drop_last().map_values(
            |c: CountyKey| Write::InsertCounty(c),
        ));
    }
}

proof fn lemma_run_manufacturer_inserts(s: StoreView, xs: Seq<String>)
    ensures
        run_plan(s, xs.map_values(|m: String| Write::InsertManufacturer(m))) == (StoreView { manufacturers: insert_absent_all(s.manufacturers, xs), ..s }),
    decreases xs.len(),
{
    if xs.len() == 0 {
        assert(xs.map_values(|m: String| Write::InsertManufacturer(m)) =~= Seq::<Write>::empty());
    } else {
        lemma_run_manufacturer_inserts(s, xs.drop_last());
        assert(xs.map_values(|m: String| Write::InsertManufacturer(m)).drop_last() =~= xs.drop_last().map_values(
            |m: String| Write::InsertManufacturer(m),
        ));
    }
}

proof fn lemma_run_model_inserts(s: StoreView, xs: Seq<Model>)
    ensures
        run_plan(s, xs.map_values(|m: Model| Write::InsertModel(m))) == (StoreView { models: insert_absent_all(s.models, xs), ..s }),
    decreases xs.len(),
{
    if xs.len() == 0 {
        assert(xs.map_values(|m: Model| Write::InsertModel(m)) =~= Seq::<Write>::empty());
    } else {
        lemma_run_model_inserts(s, xs.drop_last());
        assert(xs.map_values(|m: Model| Write::InsertModel(m)).drop_last() =~= xs.drop_last().map_values(
            |m: Model| Write::InsertModel(m),
        ));
    }
}

proof fn lemma_run_image_source_inserts(s: StoreView, xs: Seq<String>)
    ensures
        run_plan(s, xs.map_values(|s: String| Write::InsertImageSource(s))) == (StoreView { image_sources: insert_absent_all(s.image_sources, xs), ..s }),
    decreases xs.len(),
{
    if xs.len() == 0 {
        assert(xs.map_values(|s: String| Write::InsertImageSource(s)) =~= Seq::<Write>::empty());
    } else {
        lemma_run_image_source_inserts(s, xs.drop_last());
        assert(xs.map_values(|s: String| Write::InsertImageSource(s)).drop_last() =~= xs.drop_last().map_values(
            |s: String| Write::InsertImageSource(s),
        ));
    }
}

proof fn lemma_run_project_upserts(s: StoreView, xs: Seq<Project>)
    ensures
        run_plan(s, xs.map_values(|p: Project| Write::UpsertProject(p))) == (StoreView { projects: upsert_all(s.projects, xs), ..s }),
    decreases xs.len(),
{
    if xs.len() == 0 {
        assert(xs.map_values(|p: Project| Write::UpsertProject(p)) =~= Seq::<Write>::empty());
    } else {
        lemma_run_project_upserts(s, xs.drop_last());
        assert(xs.map_values(|p: Project| Write::UpsertProject(p)).drop_last() =~= xs.drop_last().map_values(
            |p: Project| Write::UpsertProject(p),
        ));
    }
}

proof fn lemma_run_turbine_inserts(s: StoreView, xs: Seq<Turbine>)
    ensures
        run_plan(s, xs.map_values(|t: Turbine| Write::InsertTurbine(t))) == (StoreView { turbines: s.turbines + xs, ..s }),
    decreases xs.len(),
{
    if xs.len() == 0 {
        assert(xs.map_values(|t: Turbine| Write::InsertTurbine(t)) =~= Seq::<Write>::empty());
        assert(s.turbines + xs =~= s.turbines);
    } else {
        lemma_run_turbine_inserts(s, xs.drop_last());
        assert(xs.map_values(|t: Turbine| Write::InsertTurbine(t)).drop_last() =~= xs.drop_last().map_values(
            |t: Turbine| Write::InsertTurbine(t),
        ));
        assert(s.turbines + xs =~= (s.turbines + xs.drop_last()).push(xs.last()));
    }
}

/// The store after a region plan for `states`: the regions are exactly `states`, the last
/// row of a key winning; every other table is untouched.
pub open spec fn region_sync_result(s: StoreView, states: Seq<State>) -> StoreView {
    StoreView { regions: upsert_all(Map::empty(), states), ..s }
}

/// The effect of a region plan, in closed form.
pub proof fn lemma_region_plan_result(s: StoreView, states: Seq<State>, plan: Seq<Write>)
    requires
        is_region_plan(plan, states),
    ensures
        run_plan(s, plan) == region_sync_result(s, states),
{
    let ups = states.map_values(|r: State| Write::UpsertRegion(r));
    assert(plan.drop_last() =~= ups);
    lemma_run_region_upserts(s, states);
    let u = upsert_all(Map::<Seq<char>, State>::empty(), states);
    lemma_upsert_all_split(s.regions, states);
    lemma_upsert_all_dom(Map::<Seq<char>, State>::empty(), states);
    assert(u.dom() =~= key_set(states));
    assert(s.regions.union_prefer_right(u).restrict(key_set(states)) =~= u);
}

/// The turbines a turbine plan inserts, in order.
pub open spec fn planned_turbines(plan: Seq<Write>, rows: Seq<TurbineInput>) -> Seq<Turbine> {
    Seq::new(
        rows.len(),
        |i: int|
            match plan[parent_writes(rows).len() + i] {
                Write::InsertTurbine(t) => t,
                _ => arbitrary(),
            },
    )
}

/// The store after a turbine plan for `rows`: parents added where absent (projects upserted
/// by their key), the turbines replaced by `ts`, the regions untouched.
pub open spec fn turbine_sync_result(s: StoreView, rows: Seq<TurbineInput>, ts: Seq<Turbine>) -> StoreView {
    StoreView {
        regions: s.regions,
        counties: insert_absent_all(s.counties, first_counties(rows)),
        manufacturers: insert_absent_all(s.manufacturers, first_manufacturers(rows)),
        models: insert_absent_all(s.models, first_models(rows)),
        image_sources: insert_absent_all(s.image_sources, first_image_sources(rows)),
        projects: upsert_all(s.projects, first_projects(rows)),
        turbines: ts,
    }
}

/// The effect of a turbine plan, in closed form.
pub proof fn lemma_turbine_plan_result(s: StoreView, rows: Seq<TurbineInput>, plan: Seq<Write>)
    requires
        is_turbine_plan(plan, rows),
    ensures
        run_plan(s, plan) == turbine_sync_result(s, rows, planned_turbines(plan, rows)),
{
    let ts = planned_turbines(plan, rows);
    let head = parent_writes(rows);
    let a = first_counties(rows).map_values(|c: CountyKey| Write::InsertCounty(c));
    let b = first_manufacturers(rows).map_values(|m: String| Write::InsertManufacturer(m));
    let c = first_models(rows).map_values(|m: Model| Write::InsertModel(m));
    let d = first_image_sources(rows).map_values(|s: String| Write::InsertImageSource(s));
    let e = first_projects(rows).map_values(|p: Project| Write::UpsertProject(p));
    let tail = ts.map_values(|t: Turbine| Write::InsertTurbine(t));
    assert forall|i: int| 0 <= i < rows.len() implies plan[head.len() + i] == Write::InsertTurbine(ts[i]) by {
        assert(plan[head.len() + i] matches Write::InsertTurbine(t) && rows[i].written_as(t));
    }
    assert(plan =~= head + tail) by {
        assert(plan.take(head.len() as int) == head);
        assert forall|i: int| 0 <= i < plan.len() implies plan[i] == (head + tail)[i] by {
            if i < head.len() {
                assert(plan.take(head.len() as int)[i] == plan[i]);
            } else {
                assert(plan[head.len() + (i - head.len())] == Write::InsertTurbine(ts[i - head.len()]));
            }
        }
    }
    lemma_run_concat(s, head, tail);
    lemma_run_concat(s, a + b + c + d + e, seq![Write::ClearTurbines]);
    lemma_run_concat(s, a + b + c + d, e);
    lemma_run_concat(s, a + b + c, d);
    lemma_run_concat(s, a + b, c);
    lemma_run_concat(s, a, b);
    lemma_run_county_inserts(s, first_counties(rows));
    let s1 = run_plan(s, a);
    lemma_run_manufacturer_inserts(s1, first_manufacturers(rows));
    let s2 = run_plan(s1, b);
    lemma_run_model_inserts(s2, first_models(rows));
    let s3 = run_plan(s2, c);
    lemma_run_image_source_inserts(s3, first_image_sources(rows));
    let s4 = run_plan(s3, d);
    lemma_run_project_upserts(s4, first_projects(rows));
    let s5 = run_plan(s4, e);
    let s6 = run_plan(s5, seq![Write::ClearTurbines]);
    assert(seq![Write::ClearTurbines].drop_last() =~= Seq::<Write>::empty());
    assert(run_plan(s5, Seq::<Write>::empty()) == s5);
    assert(s6 == apply_write(s5, Write::ClearTurbines));
    lemma_run_turbine_inserts(s6, ts);
    assert(s6.turbines + ts =~= ts);
}

proof fn lemma_first_by_key_keys<T, K>(xs: Seq<T>, key: spec_fn(T) -> K, k: K)
    ensures
        first_by_key(xs, key).map_values(key).contains(k) <==> xs.map_values(key).contains(k),
    decreases xs.len(),
{
    broadcast use vstd::seq_lib::lemma_seq_contains_after_push;

    if xs.len() > 0 {
        let d = first_by_key(xs.drop_last(), key);
        lemma_first_by_key_keys(xs.drop_last(), key, k);
        assert(xs.map_values(key) =~= xs.drop_last().map_values(key).push(key(xs.last())));
        if !d.map_values(key).contains(key(xs.last())) {
            assert(d.push(xs.last()).map_values(key) =~= d.map_values(key).push(key(xs.last())));
        } else {
            lemma_first_by_key_keys(xs.drop_last(), key, key(xs.last()));
        }
    } else {
        assert(xs.map_values(key) =~= Seq::<K>::empty());
        assert(first_by_key(xs, key).map_values(key) =~= Seq::<K>::empty());
    }
}

/// The first element of `xs` with a given key is kept, preceded only by other keys.
proof fn lemma_first_by_key_keeps_first<T, K>(xs: Seq<T>, key: spec_fn(T) -> K, i: int)
    requires
        0 <= i < xs.len(),
        forall|j: int| 0 <= j < i ==> key(xs[j]) != key(xs[i]),
    ensures
        exists|a: int|
            0 <= a < first_by_key(xs, key).len() && first_by_key(xs, key)[a] == xs[i] && (forall|b: int|
                0 <= b < a ==> key(#[trigger] first_by_key(xs, key)[b]) != key(xs[i])),
    decreases xs.len(),
{
    let d = first_by_key(xs.drop_last(), key);
    let f = first_by_key(xs, key);
    if i < xs.len() - 1 {
        lemma_first_by_key_keeps_first(xs.drop_last(), key, i);
        let a = choose|a: int|
            0 <= a < d.len() && d[a] == xs[i] && (forall|b: int|
                0 <= b < a ==> key(#[trigger] d[b]) != key(xs[i]));
        assert(f[a] == d[a]);
        assert forall|b: int| 0 <= b < a implies key(#[trigger] f[b]) != key(xs[i]) by {
            assert(f[b] == d[b]);
        }
        assert(0 <= a < f.len() && f[a] == xs[i]);
    } else {
        lemma_first_by_key_keys(xs.drop_last(), key, key(xs[i]));
        if xs.drop_last().map_values(key).contains(key(xs[i])) {
            let ks = xs.drop_last().map_values(key);
            let j = choose|j: int| 0 <= j < ks.len() && #[trigger] ks[j] == key(xs[i]);
            assert(key(xs[j]) == key(xs[i]));
        }
        assert(!d.map_values(key).contains(key(xs[i])));
        assert(f == d.push(xs.last()));
        assert forall|b: int| 0 <= b < d.len() implies key(#[trigger] f[b]) != key(xs[i]) by {
            assert(f[b] == d[b]);
            assert(d.map_values(key)[b] == key(d[b]));
        }
        assert(f[d.len() as int] == xs[i]);
    }
}

proof fn lemma_insert_absent_all_value<T: Keyed>(m: Map<T::Key, T>, ys: Seq<T>, a: int)
    requires
        0 <= a < ys.len(),
        !m.contains_key(ys[a].key()),
        forall|b: int| 0 <= b < a ==> (#[trigger] ys[b]).key() != ys[a].key(),
    ensures
        insert_absent_all(m, ys).contains_key(ys[a].key()),
        insert_absent_all(m, ys)[ys[a].key()] == ys[a],
    decreases ys.len(),
{
    if a < ys.len() - 1 {
        lemma_insert_absent_all_value(m, ys.drop_last(), a);
        assert(ys.drop_last()[a] == ys[a]);
    } else {
        let before = insert_absent_all(m, ys.drop_last());
        lemma_insert_absent_all_dom(m, ys.drop_last());
        if key_set(ys.drop_last()).contains(ys[a].key()) {
            let ks = ys.drop_last().map_values(|t: T| t.key());
            let b = choose|b: int| 0 <= b < ks.len() && #[trigger] ks[b] == ys[a].key();
            assert(ys[b].key() == ys[a].key());
        }
        assert(!before.contains_key(ys[a].key()));
    }
}

proof fn lemma_key_in_set<T: Keyed>(xs: Seq<T>, i: int)
    requires
        0 <= i < xs.len(),
    ensures
        key_set(xs).contains(xs[i].key()),
{
    assert(xs.map_values(|t: T| t.key())[i] == xs[i].key());
}

proof fn lemma_insert_absent_all_twice<T: Keyed>(m: Map<T::Key, T>, xs: Seq<T>)
    ensures
        insert_absent_all(insert_absent_all(m, xs), xs) == insert_absent_all(m, xs),
{
    lemma_insert_absent_all_split(m, xs);
    lemma_insert_absent_all_split(insert_absent_all(m, xs), xs);
    let f = insert_absent_all(Map::<T::Key, T>::empty(), xs);
    assert(f.union_prefer_right(f.union_prefer_right(m)) =~= f.union_prefer_right(m));
}

proof fn lemma_upsert_all_twice<T: Keyed>(m: Map<T::Key, T>, xs: Seq<T>)
    ensures
        upsert_all(upsert_all(m, xs), xs) == upsert_all(m, xs),
{
    lemma_upsert_all_split(m, xs);
    lemma_upsert_all_split(upsert_all(m, xs), xs);
    let u = upsert_all(Map::<T::Key, T>::empty(), xs);
    assert(m.union_prefer_right(u).union_prefer_right(u) =~= m.union_prefer_right(u));
}

/// Synchronising the regions twice with the same rows leaves the store as the first run left it.
pub proof fn law_region_sync_idempotent(s: StoreView, rows: Seq<UsState>, plan: Seq<Write>)
    requires
        is_region_plan(plan, first_states(rows)),
    ensures
        run_plan(run_plan(s, plan), plan) == run_plan(s, plan),
{
    let states = first_states(rows);
    lemma_region_plan_result(s, states, plan);
    lemma_region_plan_result(run_plan(s, plan), states, plan);
}

/// Synchronising the turbines twice with the same rows leaves the store as the first run left it.
pub proof fn law_turbine_sync_idempotent(s: StoreView, rows: Seq<TurbineInput>, plan: Seq<Write>)
    requires
        is_turbine_plan(plan, rows),
    ensures
        run_plan(run_plan(s, plan), plan) == run_plan(s, plan),
{
    lemma_turbine_plan_result(s, rows, plan);
    lemma_turbine_plan_result(run_plan(s, plan), rows, plan);
    lemma_insert_absent_all_twice(s.counties, first_counties(rows));
    lemma_insert_absent_all_twice(s.manufacturers, first_manufacturers(rows));
    lemma_insert_absent_all_twice(s.models, first_models(rows));
    lemma_insert_absent_all_twice(s.image_sources, first_image_sources(rows));
    lemma_upsert_all_twice(s.projects, first_projects(rows));
}

/// A full run, regions then turbines, done twice on the same input leaves the store as one
/// run left it.
pub proof fn law_pipeline_idempotent(
    s: StoreView,
    region_rows: Seq<UsState>,
    region_plan: Seq<Write>,
    turbine_rows: Seq<TurbineInput>,
    turbine_plan: Seq<Write>,
)
    requires
        is_region_plan(region_plan, first_states(region_rows)),
        is_turbine_plan(turbine_plan, turbine_rows),
    ensures
        run_plan(run_plan(s, region_plan + turbine_plan), region_plan + turbine_plan) == run_plan(
            s,
            region_plan + turbine_plan,
        ),
{
    let states = first_states(region_rows);
    let once = run_plan(s, region_plan + turbine_plan);
    lemma_run_concat(s, region_plan, turbine_plan);
    lemma_run_concat(once, region_plan, turbine_plan);
    let r1 = run_plan(s, region_plan);
    lemma_region_plan_result(s, states, region_plan);
    lemma_turbine_plan_result(r1, turbine_rows, turbine_plan);
    lemma_region_plan_result(once, states, region_plan);
    assert(run_plan(once, region_plan) == once);
    law_turbine_sync_idempotent(r1, turbine_rows, turbine_plan);
}

/// The keys of a deduplicated sequence are pairwise distinct.
proof fn lemma_first_by_key_distinct<T, K>(xs: Seq<T>, key: spec_fn(T) -> K)
    ensures
        forall|a: int, b: int|
            0 <= a < b < first_by_key(xs, key).len() ==> key(#[trigger] first_by_key(xs, key)[a])
                != key(#[trigger] first_by_key(xs, key)[b]),
    decreases xs.len(),
{
    if xs.len() > 0 {
        let d = first_by_key(xs.drop_last(), key);
        let f = first_by_key(xs, key);
        lemma_first_by_key_distinct(xs.drop_last(), key);
        if !d.map_values(key).contains(key(xs.last())) {
            assert forall|a: int, b: int| 0 <= a < b < f.len() implies key(#[trigger] f[a]) != key(
                #[trigger] f[b],
            ) by {
                if b == d.len() {
                    assert(d.map_values(key)[a] == key(d[a]));
                } else {
                    assert(f[a] == d[a] && f[b] == d[b]);
                }
            }
        }
    }
}

proof fn lemma_upsert_all_value<T: Keyed>(m: Map<T::Key, T>, ys: Seq<T>, a: int)
    requires
        0 <= a < ys.len(),
        forall|b: int| 0 <= b < ys.len() && b != a ==> (#[trigger] ys[b]).key() != ys[a].key(),
    ensures
        upsert_all(m, ys)[ys[a].key()] == ys[a],
    decreases ys.len(),
{
    if a < ys.len() - 1 {
        assert forall|b: int| 0 <= b < ys.drop_last().len() && b != a implies (
        #[trigger] ys.drop_last()[b]).key() != ys.drop_last()[a].key() by {
            assert(ys.drop_last()[b] == ys[b]);
        }
        lemma_upsert_all_value(m, ys.drop_last(), a);
        assert(ys.last().key() != ys[a].key());
    }
}

/// After the region plan, the stored regions are exactly the incoming keys, each with the
/// values of its first incoming row; keys absent from the input are gone, and no other
/// table changes.
pub proof fn law_regions_reconciled(s: StoreView, rows: Seq<UsState>, plan: Seq<Write>)
    requires
        is_region_plan(plan, first_states(rows)),
    ensures
        run_plan(s, plan).regions.dom() == key_set(rows.map_values(|u: UsState| u.row())),
        run_plan(s, plan).regions.dom().len() == key_set(rows.map_values(|u: UsState| u.row())).len(),
        forall|i: int|
            0 <= i < rows.len() && (forall|j: int| 0 <= j < i ==> rows[j].abbreviation@ != rows[i].abbreviation@)
                ==> run_plan(s, plan).regions[#[trigger] rows[i].abbreviation@] == rows[i].row(),
        run_plan(s, plan) == region_sync_result(s, first_states(rows)),
{
    let all = rows.map_values(|u: UsState| u.row());
    let states = first_states(rows);
    lemma_region_plan_result(s, states, plan);
    lemma_upsert_all_dom(Map::<Seq<char>, State>::empty(), states);
    assert forall|k: Seq<char>| key_set(states).contains(k) <==> key_set(all).contains(k) by {
        lemma_first_by_key_keys(all, |t: State| t.key(), k);
    }
    assert(Set::<Seq<char>>::empty() + key_set(states) =~= key_set(all));
    lemma_first_by_key_distinct(all, |t: State| t.key());
    assert forall|i: int|
        0 <= i < rows.len() && (forall|j: int| 0 <= j < i ==> rows[j].abbreviation@ != rows[i].abbreviation@)
            implies run_plan(s, plan).regions[#[trigger] rows[i].abbreviation@] == rows[i].row() by {
        assert forall|j: int| 0 <= j < i implies (|t: State| t.key())(all[j]) != (|t: State| t.key())(all[i]) by {
            assert(all[j] == rows[j].row());
        }
        lemma_first_by_key_keeps_first(all, |t: State| t.key(), i);
        let a = choose|a: int|
            0 <= a < states.len() && states[a] == all[i] && (forall|b: int|
                0 <= b < a ==> (|t: State| t.key())(#[trigger] states[b]) != (|t: State| t.key())(all[i]));
        assert forall|b: int| 0 <= b < states.len() && b != a implies (#[trigger] states[b]).key() != states[a].key() by {
            if b < a {
                assert((|t: State| t.key())(states[b]) != (|t: State| t.key())(all[i]));
            } else {
                assert((|t: State| t.key())(states[a]) != (|t: State| t.key())(states[b]));
            }
        }
        lemma_upsert_all_value(Map::<Seq<char>, State>::empty(), states, a);
    }
}

/// After the turbine plan, each project of the input (name, turbine count, capacity) is
/// stored as a row of its own, whatever other projects share its name; earlier projects stay.
pub proof fn law_projects_kept_per_key(s: StoreView, rows: Seq<TurbineInput>, plan: Seq<Write>)
    requires
        is_turbine_plan(plan, rows),
    ensures
        run_plan(s, plan).projects.dom() == s.projects.dom() + key_set(
            rows.map_values(|t: TurbineInput| t.project()),
        ),
        forall|i: int|
            0 <= i < rows.len() ==> run_plan(s, plan).projects[#[trigger] rows[i].project().key()].key()
                == rows[i].project().key(),
{
    let all = rows.map_values(|t: TurbineInput| t.project());
    let ps = first_projects(rows);
    lemma_turbine_plan_result(s, rows, plan);
    lemma_upsert_all_dom(s.projects, ps);
    assert forall|k: (Seq<char>, i32, Option<i32>)| key_set(ps).contains(k) <==> key_set(all).contains(k) by {
        lemma_first_by_key_keys(all, |p: Project| p.key(), k);
    }
    assert(s.projects.dom() + key_set(ps) =~= s.projects.dom() + key_set(all));
    lemma_first_by_key_distinct(all, |p: Project| p.key());
    assert forall|i: int| 0 <= i < rows.len() implies run_plan(s, plan).projects[#[trigger] rows[i].project().key()].key()
        == rows[i].project().key() by {
        let k = rows[i].project().key();
        lemma_first_by_key_keys(all, |p: Project| p.key(), k);
        assert(all.map_values(|p: Project| p.key())[i] == k);
        let fk = ps.map_values(|p: Project| p.key());
        let a = choose|a: int| 0 <= a < fk.len() && #[trigger] fk[a] == k;
        assert forall|b: int| 0 <= b < ps.len() && b != a implies (#[trigger] ps[b]).key() != ps[a].key() by {
            if b < a {
                assert((|p: Project| p.key())(ps[b]) != (|p: Project| p.key())(ps[a]));
            } else {
                assert((|p: Project| p.key())(ps[a]) != (|p: Project| p.key())(ps[b]));
            }
        }
        lemma_upsert_all_value(s.projects, ps, a);
    }
}

/// After the turbine plan, every stored turbine's county, project, model and image source
/// is stored too.
pub proof fn law_turbine_parents_exist(s: StoreView, rows: Seq<TurbineInput>, plan: Seq<Write>)
    requires
        is_turbine_plan(plan, rows),
    ensures
        forall|i: int|
            0 <= i < run_plan(s, plan).turbines.len() ==> {
                let t = #[trigger] run_plan(s, plan).turbines[i];
                let r = run_plan(s, plan);
                &&& r.counties.contains_key((t.state_id@, t.county@))
                &&& r.projects.contains_key(t.project.key())
                &&& r.models.contains_key((t.manufacturer@, t.model@))
                &&& r.image_sources.contains_key(t.image_source@)
            },
{
    lemma_turbine_plan_result(s, rows, plan);
    let r = run_plan(s, plan);
    let ps = first_projects(rows);
    lemma_insert_absent_all_dom(s.counties, first_counties(rows));
    lemma_insert_absent_all_dom(s.manufacturers, first_manufacturers(rows));
    lemma_insert_absent_all_dom(s.models, first_models(rows));
    lemma_insert_absent_all_dom(s.image_sources, first_image_sources(rows));
    lemma_upsert_all_dom(s.projects, ps);
    assert forall|i: int| 0 <= i < r.turbines.len() implies {
        let t = #[trigger] r.turbines[i];
        &&& r.counties.contains_key((t.state_id@, t.county@))
        &&& r.projects.contains_key(t.project.key())
        &&& r.models.contains_key((t.manufacturer@, t.model@))
        &&& r.image_sources.contains_key(t.image_source@)
    } by {
        let t = r.turbines[i];
        let head = parent_writes(rows);
        assert(plan[head.len() + i] matches Write::InsertTurbine(u) && rows[i].written_as(u));
        assert(rows[i].written_as(t));
        let cs = rows.map_values(|x: TurbineInput| x.county());
        assert(cs[i].key() == (t.state_id@, t.county@));
        lemma_first_by_key_keys(cs, |c: CountyKey| c.key(), cs[i].key());
        assert(cs.map_values(|c: CountyKey| c.key())[i] == cs[i].key());
        let fc = first_counties(rows).map_values(|c: CountyKey| c.key());
        let a = choose|a: int| 0 <= a < fc.len() && #[trigger] fc[a] == cs[i].key();
        lemma_key_in_set(first_counties(rows), a);
        let ms = rows.map_values(|x: TurbineInput| x.t_manu);
        let mods = rows.map_values(|x: TurbineInput| x.model());
        assert(mods[i].key() == (t.manufacturer@, t.model@));
        lemma_first_by_key_keys(mods, |m: Model| m.key(), mods[i].key());
        assert(mods.map_values(|m: Model| m.key())[i] == mods[i].key());
        let fm = first_models(rows).map_values(|m: Model| m.key());
        let b = choose|b: int| 0 <= b < fm.len() && #[trigger] fm[b] == mods[i].key();
        lemma_key_in_set(first_models(rows), b);
        let srcs = rows.map_values(|x: TurbineInput| x.t_img_srce);
        assert(srcs[i].key() == t.image_source@);
        lemma_first_by_key_keys(srcs, |x: String| x.key(), srcs[i].key());
        assert(srcs.map_values(|x: String| x.key())[i] == srcs[i].key());
        let fs = first_image_sources(rows).map_values(|x: String| x.key());
        let c = choose|c: int| 0 <= c < fs.len() && #[trigger] fs[c] == srcs[i].key();
        lemma_key_in_set(first_image_sources(rows), c);
        let pks = rows.map_values(|x: TurbineInput| x.project());
        lemma_first_by_key_keys(pks, |p: Project| p.key(), pks[i].key());
        assert(pks.map_values(|p: Project| p.key())[i] == pks[i].key());
        let fp = first_projects(rows).map_values(|p: Project| p.key());
        let d = choose|d: int| 0 <= d < fp.len() && #[trigger] fp[d] == pks[i].key();
        assert(ps[d].key() == t.project.key());
        lemma_key_in_set(ps, d);
    }
}

/// When several incoming rows name one model, the stored model (if it was new) carries the
/// values of the first such row.
pub proof fn law_first_model_kept(s: StoreView, rows: Seq<TurbineInput>, plan: Seq<Write>, i: int)
    requires
        is_turbine_plan(plan, rows),
        0 <= i < rows.len(),
        forall|j: int| 0 <= j < i ==> rows[j].model().key() != rows[i].model().key(),
        !s.models.contains_key(rows[i].model().key()),
    ensures
        run_plan(s, plan).models.contains_key(rows[i].model().key()),
        run_plan(s, plan).models[rows[i].model().key()] == rows[i].model(),
{
    lemma_turbine_plan_result(s, rows, plan);
    let mods = rows.map_values(|x: TurbineInput| x.model());
    assert forall|j: int| 0 <= j < i implies (|m: Model| m.key())(mods[j]) != (|m: Model| m.key())(mods[i]) by {
        assert(mods[j] == rows[j].model());
    }
    lemma_first_by_key_keeps_first(mods, |m: Model| m.key(), i);
    let f = first_models(rows);
    let a = choose|a: int|
        0 <= a < f.len() && f[a] == mods[i] && (forall|b: int|
            0 <= b < a ==> (|m: Model| m.key())(#[trigger] f[b]) != (|m: Model| m.key())(mods[i]));
    assert forall|b: int| 0 <= b < a implies (#[trigger] f[b]).key() != f[a].key() by {
        assert((|m: Model| m.key())(f[b]) != (|m: Model| m.key())(mods[i]));
    }
    lemma_insert_absent_all_value(s.models, f, a);
}

/// The kind of entity a write touches.
pub open spec fn kind_of(w: Write) -> EntityKind {
    match w {
        Write::UpsertRegion(_) => EntityKind::Region,
        Write::PruneRegions(_) => EntityKind::Region,
        Write::InsertCounty(_) => EntityKind::County,
        Write::InsertManufacturer(_) => EntityKind::Manufacturer,
        Write::InsertModel(_) => EntityKind::Model,
        Write::InsertImageSource(_) => EntityKind::ImageSource,
        Write::UpsertProject(_) => EntityKind::Project,
        Write::ClearTurbines => EntityKind::Turbine,
        Write::InsertTurbine(_) => EntityKind::Turbine,
    }
}

/// The writes of `plan` never go back to an earlier stage.
pub open spec fn follows_stages(plan: Seq<Write>) -> bool {
    forall|i: int, j: int|
        0 <= i < j < plan.len() ==> stage_index(kind_of(#[trigger] plan[i])) <= stage_index(
            kind_of(#[trigger] plan[j]),
        )
}

/// The stage of each write of a turbine plan, by position.
spec fn turbine_plan_stage(rows: Seq<TurbineInput>, p: int) -> int {
    let a = first_counties(rows).len() as int;
    let b = a + first_manufacturers(rows).len();
    let c = b + first_models(rows).len();
    let d = c + first_image_sources(rows).len();
    let e = d + first_projects(rows).len();
    if p < a { 1 }
    else if p < b { 2 }
    else if p < c { 3 }
    else if p < d { 4 }
    else if p < e { 5 }
    else { 6 }
}

proof fn lemma_turbine_plan_stages(rows: Seq<TurbineInput>, plan: Seq<Write>, p: int)
    requires
        is_turbine_plan(plan, rows),
        0 <= p < plan.len(),
    ensures
        stage_index(kind_of(plan[p])) == turbine_plan_stage(rows, p),
{
    let head = parent_writes(rows);
    if p < head.len() {
        assert(plan.take(head.len() as int)[p] == plan[p]);
        let a = first_counties(rows).map_values(|c: CountyKey| Write::InsertCounty(c));
        let b = first_manufacturers(rows).map_values(|m: String| Write::InsertManufacturer(m));
        let c = first_models(rows).map_values(|m: Model| Write::InsertModel(m));
        let d = first_image_sources(rows).map_values(|s: String| Write::InsertImageSource(s));
        let e = first_projects(rows).map_values(|p: Project| Write::UpsertProject(p));
        let la = a.len() as int;
        let lb = la + b.len();
        let lc = lb + c.len();
        let ld = lc + d.len();
        let le = ld + e.len();
        if p < la {
            assert(head[p] == a[p]);
        } else if p < lb {
            assert(head[p] == b[p - la]);
        } else if p < lc {
            assert(head[p] == c[p - lb]);
        } else if p < ld {
            assert(head[p] == d[p - lc]);
        } else if p < le {
            assert(head[p] == e[p - ld]);
        } else {
            assert(head[p] == Write::ClearTurbines);
        }
    } else {
        let i = p - head.len();
        assert(plan[head.len() + i] matches Write::InsertTurbine(t) && rows[i].written_as(t));
    }
}

/// A turbine plan writes counties, manufacturers, models, image sources, projects and
/// turbines in that order: no write comes before a write of a kind it depends on.
pub proof fn law_turbine_plan_follows_stages(rows: Seq<TurbineInput>, plan: Seq<Write>)
    requires
        is_turbine_plan(plan, rows),
    ensures
        follows_stages(plan),
{
    assert forall|i: int, j: int| 0 <= i < j < plan.len() implies stage_index(
        kind_of(#[trigger] plan[i]),
    ) <= stage_index(kind_of(#[trigger] plan[j])) by {
        lemma_turbine_plan_stages(rows, plan, i);
        lemma_turbine_plan_stages(rows, plan, j);
    }
}

/// Regions first, then a turbine plan: the whole run never goes back to an earlier stage.
pub proof fn law_pipeline_follows_stages(
    region_rows: Seq<UsState>,
    region_plan: Seq<Write>,
    turbine_rows: Seq<TurbineInput>,
    turbine_plan: Seq<Write>,
)
    requires
        is_region_plan(region_plan, first_states(region_rows)),
        is_turbine_plan(turbine_plan, turbine_rows),
    ensures
        follows_stages(region_plan + turbine_plan),
{
    let all = region_plan + turbine_plan;
    let n = first_states(region_rows).len();
    assert forall|i: int| 0 <= i < region_plan.len() implies kind_of(#[trigger] region_plan[i])
        == EntityKind::Region by {
        if i < n {
            assert(region_plan[i] == Write::UpsertRegion(first_states(region_rows)[i]));
        }
    }
    law_turbine_plan_follows_stages(turbine_rows, turbine_plan);
    assert forall|i: int, j: int| 0 <= i < j < all.len() implies stage_index(
        kind_of(#[trigger] all[i]),
    ) <= stage_index(kind_of(#[trigger] all[j])) by {
        if j < region_plan.len() {
            assert(all[i] == region_plan[i]);
            assert(all[j] == region_plan[j]);
        } else if i < region_plan.len() {
            assert(all[i] == region_plan[i]);
        } else {
            assert(all[i] == turbine_plan[i - region_plan.len()]);
            assert(all[j] == turbine_plan[j - region_plan.len()]);
        }
    }
}

} // verus!
