use vstd::prelude::*;

verus! {

/// The kinds of entity the pipeline writes.
#[derive(Clone, Copy, Debug, PartialEq, Eq, Structural)]
pub enum EntityKind {
    Region,
    County,
    Manufacturer,
    Model,
    ImageSource,
    Project,
    Turbine,
}

/// The kinds a row of `k` refers to by foreign key.
pub open spec fn parents_of(k: EntityKind) -> Seq<EntityKind> {
    match k {
        EntityKind::County => seq![EntityKind::Region],
        EntityKind::Model => seq![EntityKind::Manufacturer],
        EntityKind::Turbine => seq![
            EntityKind::County,
            EntityKind::Project,
            EntityKind::Model,
            EntityKind::ImageSource,
        ],
        _ => seq![],
    }
}

/// Every kind's parents come before it in `order`, and each kind occurs once.
pub open spec fn is_topological(order: Seq<EntityKind>) -> bool {
    &&& order.no_duplicates()
    &&& forall|i: int, p: EntityKind|
        0 <= i < order.len() && parents_of(order[i]).contains(p) ==> exists|j: int|
            0 <= j < i && order[j] == p
}

/// The position of a kind in the stage order.
pub open spec fn stage_index(k: EntityKind) -> int {
    match k {
        EntityKind::Region => 0,
        EntityKind::County => 1,
        EntityKind::Manufacturer => 2,
        EntityKind::Model => 3,
        EntityKind::ImageSource => 4,
        EntityKind::Project => 5,
        EntityKind::Turbine => 6,
    }
}

/// The parents of a kind, as the store's schema declares them.
pub fn parents(k: EntityKind) -> (r: Vec<EntityKind>)
    ensures
        r@ == parents_of(k),
{
    match k {
        EntityKind::County => vec![EntityKind::Region],
        EntityKind::Model => vec![EntityKind::Manufacturer],
        EntityKind::Turbine => vec![
            EntityKind::County,
            EntityKind::Project,
            EntityKind::Model,
            EntityKind::ImageSource,
        ],
        _ => vec![],
    }
}

/// The order in which the pipeline writes the kinds; a valid topological order.
pub fn stage_order() -> (r: Vec<EntityKind>)
    ensures
        r@ == seq![
            EntityKind::Region,
            EntityKind::County,
            EntityKind::Manufacturer,
            EntityKind::Model,
            EntityKind::ImageSource,
            EntityKind::Project,
            EntityKind::Turbine,
        ],
        is_topological(r@),
        forall|k: EntityKind| r@[stage_index(k)] == k,
{
    let r = vec![
        EntityKind::Region,
        EntityKind::County,
        EntityKind::Manufacturer,
        EntityKind::Model,
        EntityKind::ImageSource,
        EntityKind::Project,
        EntityKind::Turbine,
    ];
    proof {
        let o = r@;
        assert forall|i: int, p: EntityKind|
            0 <= i < o.len() && parents_of(o[i]).contains(p) implies exists|j: int|
                0 <= j < i && o[j] == p by {
            let ps = parents_of(o[i]);
            let x = choose|x: int| 0 <= x < ps.len() && ps[x] == p;
            if o[i] == EntityKind::County {
                assert(o[0] == p);
            } else if o[i] == EntityKind::Model {
                assert(o[2] == p);
            } else if o[i] == EntityKind::Turbine {
                if x == 0 {
                    assert(o[1] == p);
                } else if x == 1 {
                    assert(o[5] == p);
                } else if x == 2 {
                    assert(o[3] == p);
                } else {
                    assert(o[4] == p);
                }
            }
        }
    }
    r
}

} // verus!
