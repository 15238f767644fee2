use vstd::prelude::*;
use crate::laws::{
    lemma_region_plan_result, lemma_turbine_plan_result, planned_turbines, region_sync_result,
    turbine_sync_result,
};
use crate::models::Error;
use crate::normalize::{TurbineInput, UsState};
use crate::plan::{first_states, parent_writes, plan_regions, plan_turbines};
use crate::store::{Store, Write};

verus! {

impl Store {
    /// Synchronises the regions with the rows of a regions file: every incoming key ends
    /// with the values of its first row and every other region is deleted. On an unknown
    /// region-type code nothing is written.
    pub fn sync_regions(&mut self, rows: &Vec<UsState>) -> (r: Result<(), Error>)
        ensures
            r is Ok <==> forall|i: int| 0 <= i < rows@.len() ==> rows@[i].code_known(),
            r is Ok ==> final(self)@ == region_sync_result(
                old(self)@,
                first_states(rows@),
            ),
            r is Err ==> final(self)@ == old(self)@,
            r matches Err(e) ==> exists|i: int|
                0 <= i < rows@.len() && !rows@[i].code_known() && (forall|j: int|
                    0 <= j < i ==> rows@[j].code_known()) && (e matches Error::UnknownStateType(c)
                    && c@ == rows@[i].state_type@),
    {
        let ghost before = self@;
        match plan_regions(rows) {
            Ok(plan) => {
                self.run(&plan);
                proof {
                    lemma_region_plan_result(before, first_states(rows@), plan@);
                }
                Ok(())
            },
            Err(e) => Err(e),
        }
    }

    /// Synchronises the store with the rows of a turbines file: counties, manufacturers,
    /// models and image sources are added where absent, projects upserted by their key, and the
    /// turbines replaced by one row per input row. On an unknown confidence code nothing is
    /// written.
    pub fn sync_turbines(&mut self, rows: &Vec<TurbineInput>) -> (r: Result<(), Error>)
        ensures
            r is Ok <==> forall|i: int| 0 <= i < rows@.len() ==> rows@[i].codes_known(),
            r is Ok ==> final(self)@ == turbine_sync_result(old(self)@, rows@, final(self)@.turbines),
            r is Ok ==> final(self)@.turbines.len() == rows@.len() && forall|i: int|
                0 <= i < rows@.len() ==> rows@[i].written_as(final(self)@.turbines[i]),
            r is Err ==> final(self)@ == old(self)@,
            r matches Err(e) ==> exists|i: int|
                0 <= i < rows@.len() && !rows@[i].codes_known() && (forall|j: int|
                    0 <= j < i ==> rows@[j].codes_known()) && rows@[i].to_turbine_row_error(e),
    {
        let ghost before = self@;
        match plan_turbines(rows) {
            Ok(plan) => {
                self.run(&plan);
                proof {
                    lemma_turbine_plan_result(before, rows@, plan@);
                    let ts = planned_turbines(plan@, rows@);
                    assert forall|i: int| 0 <= i < rows@.len() implies rows@[i].written_as(ts[i]) by {
                        let head = parent_writes(rows@);
                        assert(plan@[head.len() + i] matches Write::InsertTurbine(t) && rows@[i].written_as(t));
                    }
                }
                Ok(())
            },
            Err(e) => Err(e),
        }
    }
}

} // verus!
