//! The batch bike-lane planner.
//!
//! Given a selection of roads, a buffer style, and the set of roads a
//! previous edit already touched, the planner runs the per-road retrofit
//! and collects an old/new change record for every road whose layout it
//! actually alters. Roads already modified are skipped outright, so
//! re-running the planner over an overlapping selection never double-edits
//! or reverts an existing edit. Applying the records is the host
//! application's business.

use vstd::prelude::*;

use crate::lanes::BufferType;
use crate::lanes::EditRoad;
use crate::lanes::LaneSpec;
use crate::lanes::LaneType;
use crate::lanes::lemma_retrofit_no_parking;
use crate::lanes::retrofit_spec;

verus! {

/// One road of the selection: its identifier and its current layout.
#[derive(Debug)]
pub struct Road {
    pub id: u64,
    pub lanes: EditRoad,
}

/// One planned change: the road to touch, its layout as it stands, and the
/// layout to replace it with.
#[derive(Debug)]
pub struct RoadEdit {
    pub r: u64,
    pub old_layout: EditRoad,
    pub new_layout: EditRoad,
}

/// The part of a road the planner reads: its identifier and lane sequence.
pub open spec fn road_model(road: Road) -> (u64, Seq<LaneSpec>) {
    (road.id, road.lanes@)
}

/// The selection as the planner sees it, in order.
pub open spec fn roads_model(roads: Seq<Road>) -> Seq<(u64, Seq<LaneSpec>)> {
    roads.map_values(|road: Road| road_model(road))
}

/// The content of one change record.
pub open spec fn edit_model(edit: RoadEdit) -> (u64, Seq<LaneSpec>, Seq<LaneSpec>) {
    (edit.r, edit.old_layout@, edit.new_layout@)
}

/// The planned change list as records of plain values, in order.
pub open spec fn edits_model(edits: Seq<RoadEdit>) -> Seq<(u64, Seq<LaneSpec>, Seq<LaneSpec>)> {
    edits.map_values(|edit: RoadEdit| edit_model(edit))
}

/// Whether the retrofit would alter this cross-section at all.
pub open spec fn road_changed(lanes: Seq<LaneSpec>, buffer_style: Option<BufferType>) -> bool {
    retrofit_spec(lanes, buffer_style) != lanes
}

/// The change records the planner owes for a selection: one per road, in
/// selection order, kept only where the road is not already modified and
/// the retrofit alters its layout.
pub open spec fn plan_all_model(
    roads: Seq<(u64, Seq<LaneSpec>)>,
    buffer_style: Option<BufferType>,
    already_modified: Seq<u64>,
) -> Seq<(u64, Seq<LaneSpec>, Seq<LaneSpec>)>
    decreases roads.len(),
{
    if roads.len() == 0 {
        Seq::empty()
    } else {
        let rest = plan_all_model(roads.drop_first(), buffer_style, already_modified);
        if !already_modified.contains(roads[0].0) && road_changed(roads[0].1, buffer_style) {
            seq![(roads[0].0, roads[0].1, retrofit_spec(roads[0].1, buffer_style))] + rest
        } else {
            rest
        }
    }
}

proof fn lemma_plan_all_push(
    roads: Seq<(u64, Seq<LaneSpec>)>,
    buffer_style: Option<BufferType>,
    already_modified: Seq<u64>,
    road: (u64, Seq<LaneSpec>),
)
    ensures
        plan_all_model(roads.push(road), buffer_style, already_modified) == plan_all_model(
            roads,
            buffer_style,
            already_modified,
        ) + (if !already_modified.contains(road.0) && road_changed(road.1, buffer_style) {
            seq![(road.0, road.1, retrofit_spec(road.1, buffer_style))]
        } else {
            Seq::empty()
        }),
    decreases roads.len(),
{
    if roads.len() == 0 {
        assert(roads.push(road).drop_first() =~= roads);
        assert(plan_all_model(roads.push(road), buffer_style, already_modified) =~= plan_all_model(
            roads,
            buffer_style,
            already_modified,
        ) + (if !already_modified.contains(road.0) && road_changed(road.1, buffer_style) {
            seq![(road.0, road.1, retrofit_spec(road.1, buffer_style))]
        } else {
            Seq::empty()
        }));
    } else {
        assert(roads.push(road).drop_first() =~= roads.drop_first().push(road));
        lemma_plan_all_push(roads.drop_first(), buffer_style, already_modified, road);
        assert(plan_all_model(roads.push(road), buffer_style, already_modified) =~= plan_all_model(
            roads,
            buffer_style,
            already_modified,
        ) + (if !already_modified.contains(road.0) && road_changed(road.1, buffer_style) {
            seq![(road.0, road.1, retrofit_spec(road.1, buffer_style))]
        } else {
            Seq::empty()
        }));
    }
}

/// Batch skip, spelled out: every record the planner owes targets a road
/// outside the already-modified set, its new layout is exactly the
/// retrofit of its old one, and the two differ. With the planner's count
/// equal to the number of records, the count therefore counts exactly the
/// unskipped roads whose layouts differ.
pub proof fn lemma_plan_all_entry(
    roads: Seq<(u64, Seq<LaneSpec>)>,
    buffer_style: Option<BufferType>,
    already_modified: Seq<u64>,
    k: int,
)
    requires
        0 <= k < plan_all_model(roads, buffer_style, already_modified).len(),
    ensures
        !already_modified.contains(plan_all_model(roads, buffer_style, already_modified)[k].0),
        plan_all_model(roads, buffer_style, already_modified)[k].2 == retrofit_spec(
            plan_all_model(roads, buffer_style, already_modified)[k].1,
            buffer_style,
        ),
        plan_all_model(roads, buffer_style, already_modified)[k].2 != plan_all_model(
            roads,
            buffer_style,
            already_modified,
        )[k].1,
    decreases roads.len(),
{
    if roads.len() == 0 {
    } else {
        if !already_modified.contains(roads[0].0) && road_changed(roads[0].1, buffer_style) {
            if k == 0 {
            } else {
                lemma_plan_all_entry(roads.drop_first(), buffer_style, already_modified, k - 1);
            }
        } else {
            lemma_plan_all_entry(roads.drop_first(), buffer_style, already_modified, k);
        }
    }
}

/// A selection in which no road has a parking lane produces no change
/// records at all: the retrofit alters none of its layouts.
pub proof fn lemma_plan_all_no_parking(
    roads: Seq<(u64, Seq<LaneSpec>)>,
    buffer_style: Option<BufferType>,
    already_modified: Seq<u64>,
)
    requires
        forall|k: int, i: int|
            0 <= k < roads.len() && 0 <= i < roads[k].1.len() ==> (#[trigger] roads[k].1[i]).lt
                != LaneType::Parking,
    ensures
        plan_all_model(roads, buffer_style, already_modified) == Seq::<
            (u64, Seq<LaneSpec>, Seq<LaneSpec>),
        >::empty(),
    decreases roads.len(),
{
    if roads.len() == 0 {
    } else {
        assert forall|i: int| 0 <= i < roads[0].1.len() implies roads[0].1[i].lt
            != LaneType::Parking by {
            assert((#[trigger] roads[0].1[i]).lt != LaneType::Parking);
        }
        lemma_retrofit_no_parking(roads[0].1, buffer_style);
        assert(!road_changed(roads[0].1, buffer_style));
        assert forall|k: int, i: int|
            0 <= k < roads.drop_first().len() && 0 <= i < roads.drop_first()[k].1.len() implies (
        #[trigger] roads.drop_first()[k].1[i]).lt != LaneType::Parking by {
            assert(roads.drop_first()[k] == roads[k + 1]);
            assert((#[trigger] roads[k + 1].1[i]).lt != LaneType::Parking);
        }
        lemma_plan_all_no_parking(roads.drop_first(), buffer_style, already_modified);
    }
}

fn contains_id(ids: &Vec<u64>, id: u64) -> (r: bool)
    ensures
        r == ids@.contains(id),
{
    let mut i: usize = 0;
    while i < ids.len()
        invariant
            i <= ids.len(),
            forall|j: int| 0 <= j < i ==> ids@[j] != id,
        decreases ids.len() - i,
    {
        if ids[i] == id {
            return true;
        }
        i = i + 1;
    }
    false
}

/// Plan the retrofit for a whole selection.
///
/// Returns the change records in selection order together with the number
/// of roads actually changed, for user-facing reporting. A road already in
/// `already_modified` is skipped; a road the retrofit leaves as it is — one
/// with no parking lanes — produces no record.
pub fn plan_all(
    roads: &Vec<Road>,
    buffer_style: Option<BufferType>,
    already_modified: &Vec<u64>,
) -> (r: (Vec<RoadEdit>, usize))
    ensures
        edits_model(r.0@) == plan_all_model(roads_model(roads@), buffer_style, already_modified@),
        r.1 == r.0@.len(),
{
    let mut edits: Vec<RoadEdit> = Vec::new();
    let mut i: usize = 0;
    while i < roads.len()
        invariant
            i <= roads.len(),
            edits_model(edits@) == plan_all_model(
                roads_model(roads@.subrange(0, i as int)),
                buffer_style,
                already_modified@,
            ),
        decreases roads.len() - i,
    {
        proof {
            assert(roads@.subrange(0, i + 1) =~= roads@.subrange(0, i as int).push(
                roads@[i as int],
            ));
            assert(roads_model(roads@.subrange(0, i + 1)) =~= roads_model(
                roads@.subrange(0, i as int),
            ).push(road_model(roads@[i as int])));
            lemma_plan_all_push(
                roads_model(roads@.subrange(0, i as int)),
                buffer_style,
                already_modified@,
                road_model(roads@[i as int]),
            );
        }
        let road = &roads[i];
        if !contains_id(already_modified, road.id) {
            let before = road.lanes.copied();
            let after = road.lanes.retrofitted(buffer_style);
            if !before.same_layout(&after) {
                let ghost prev = edits@;
                edits.push(RoadEdit { r: road.id, old_layout: before, new_layout: after });
                proof {
                    assert(edits_model(edits@) =~= edits_model(prev).push(
                        edit_model(edits@[edits@.len() - 1]),
                    ));
                }
            }
        }
        proof {
            assert(edits_model(edits@) =~= plan_all_model(
                roads_model(roads@.subrange(0, i + 1)),
                buffer_style,
                already_modified@,
            ));
        }
        i = i + 1;
    }
    proof {
        assert(roads@.subrange(0, roads@.len() as int) =~= roads@);
    }
    let count: usize = edits.len();
    (edits, count)
}

} // verus!
