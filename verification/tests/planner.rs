use street_edits::lanes::{BufferType, Direction, EditRoad, LaneSpec, LaneType};
use street_edits::plan::{plan_all, Road};

fn driving(dir: Direction) -> LaneSpec {
    LaneSpec { lt: LaneType::Driving, dir, width: 300 }
}

fn parking(dir: Direction) -> LaneSpec {
    LaneSpec { lt: LaneType::Parking, dir, width: 240 }
}

fn road(id: u64, lanes: Vec<LaneSpec>) -> Road {
    Road { id, lanes: EditRoad::new(lanes) }
}

#[test]
fn already_modified_road_is_skipped() {
    let roads = vec![
        road(1, vec![driving(Direction::Fwd), parking(Direction::Fwd)]),
        road(2, vec![driving(Direction::Fwd), parking(Direction::Fwd)]),
    ];
    let already_modified = vec![1];
    let (edits, count) = plan_all(&roads, Some(BufferType::FlexPosts), &already_modified);
    assert_eq!(count, 1);
    assert_eq!(edits.len(), 1);
    assert_eq!(edits[0].r, 2);
}

#[test]
fn count_ignores_roads_without_parking() {
    let roads = vec![
        road(7, vec![driving(Direction::Fwd), driving(Direction::Back)]),
        road(8, vec![parking(Direction::Back), driving(Direction::Back)]),
    ];
    let (edits, count) = plan_all(&roads, None, &Vec::new());
    assert_eq!(count, 1);
    assert_eq!(edits.len(), 1);
    assert_eq!(edits[0].r, 8);
}

#[test]
fn nothing_to_change_yields_no_edits() {
    let roads = vec![
        road(3, vec![driving(Direction::Fwd)]),
        road(4, vec![driving(Direction::Back)]),
    ];
    let (edits, count) = plan_all(&roads, Some(BufferType::Stripes), &Vec::new());
    assert_eq!(count, 0);
    assert!(edits.is_empty());
}

#[test]
fn empty_selection_yields_no_edits() {
    let (edits, count) = plan_all(&Vec::new(), None, &vec![5, 6]);
    assert_eq!(count, 0);
    assert!(edits.is_empty());
}

#[test]
fn skipping_every_road_yields_no_edits() {
    let roads = vec![
        road(1, vec![parking(Direction::Fwd)]),
        road(2, vec![parking(Direction::Back)]),
    ];
    let (edits, count) = plan_all(&roads, None, &vec![1, 2]);
    assert_eq!(count, 0);
    assert!(edits.is_empty());
}

#[test]
fn edit_records_hold_old_and_retrofitted_layouts() {
    let roads = vec![road(9, vec![parking(Direction::Fwd), driving(Direction::Fwd)])];
    let (edits, count) = plan_all(&roads, Some(BufferType::Planters), &Vec::new());
    assert_eq!(count, 1);
    assert_eq!(
        edits[0].old_layout.lanes_ltr,
        vec![parking(Direction::Fwd), driving(Direction::Fwd)]
    );
    assert_eq!(
        edits[0].new_layout.lanes_ltr,
        vec![
            LaneSpec { lt: LaneType::Buffer(BufferType::Planters), dir: Direction::Fwd, width: 200 },
            LaneSpec { lt: LaneType::Biking, dir: Direction::Fwd, width: 150 },
            driving(Direction::Fwd),
        ]
    );
}

#[test]
fn edits_come_back_in_selection_order() {
    let roads = vec![
        road(20, vec![parking(Direction::Fwd)]),
        road(10, vec![parking(Direction::Back)]),
        road(30, vec![driving(Direction::Fwd)]),
        road(40, vec![parking(Direction::Fwd)]),
    ];
    let (edits, count) = plan_all(&roads, None, &Vec::new());
    assert_eq!(count, 3);
    let ids: Vec<u64> = edits.iter().map(|e| e.r).collect();
    assert_eq!(ids, vec![20, 10, 40]);
}
