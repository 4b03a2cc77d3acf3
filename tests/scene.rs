use raytracer::grid::{GridBox, GridRect};
use raytracer::scene::{HittableList, SceneError};
use space_partitioning::quadtree::AABB;

fn region() -> GridRect {
    GridRect { left: -100, top: -100, width: 200, height: 200 }
}

fn unit_box(x: i32, y: i32) -> GridBox {
    GridBox { min_x: x, min_y: y, max_x: x + 1, max_y: y + 1 }
}

#[test]
fn add_numbers_objects_in_order() {
    let mut list: HittableList<&str> = HittableList::new(region());
    assert_eq!(list.add("a", unit_box(0, 0)), Ok(0));
    assert_eq!(list.add("b", unit_box(5, 5)), Ok(1));
    assert_eq!(list.add("c", unit_box(-7, 3)), Ok(2));
    assert_eq!(list.len(), 3);
    assert_eq!(list.get(0), Some(&"a"));
    assert_eq!(list.get(1), Some(&"b"));
    assert_eq!(list.get(2), Some(&"c"));
    assert_eq!(list.get(3), None);
}

#[test]
fn extents_is_union_of_boxes() {
    let mut list: HittableList<u8> = HittableList::new(region());
    assert_eq!(list.extents(), None);
    list.add(1, GridBox { min_x: 2, min_y: 3, max_x: 4, max_y: 5 }).unwrap();
    assert_eq!(list.extents(), Some(GridBox { min_x: 2, min_y: 3, max_x: 4, max_y: 5 }));
    list.add(2, GridBox { min_x: -6, min_y: 4, max_x: 1, max_y: 9 }).unwrap();
    assert_eq!(list.extents(), Some(GridBox { min_x: -6, min_y: 3, max_x: 4, max_y: 9 }));
}

#[test]
fn extents_does_not_include_origin() {
    let mut list: HittableList<u8> = HittableList::new(region());
    list.add(1, GridBox { min_x: 10, min_y: 20, max_x: 12, max_y: 22 }).unwrap();
    assert_eq!(list.extents(), Some(GridBox { min_x: 10, min_y: 20, max_x: 12, max_y: 22 }));
}

#[test]
fn add_outside_region_is_refused() {
    let mut list: HittableList<u8> = HittableList::new(region());
    assert_eq!(list.add(1, unit_box(150, 0)), Err(SceneError::OutOfBounds));
    assert_eq!(list.len(), 0);
    assert_eq!(list.extents(), None);
    assert_eq!(list.add(2, unit_box(0, 0)), Ok(0));
}

#[test]
fn add_with_center_on_region_edge_is_accepted() {
    let mut list: HittableList<u8> = HittableList::new(region());
    // center (100, -100), both on the edge
    assert_eq!(list.add(1, GridBox { min_x: 99, min_y: -101, max_x: 101, max_y: -99 }), Ok(0));
    // center (101, 0) just outside
    assert_eq!(list.add(2, GridBox { min_x: 100, min_y: -1, max_x: 102, max_y: 1 }), Err(SceneError::OutOfBounds));
}

#[test]
fn clear_empties_scene_and_index() {
    let mut list: HittableList<u8> = HittableList::new(region());
    list.add(1, unit_box(0, 0)).unwrap();
    list.add(2, unit_box(3, 3)).unwrap();
    list.clear();
    assert_eq!(list.len(), 0);
    assert_eq!(list.extents(), None);
    assert_eq!(list.get(0), None);
    let everything = AABB::new(-100, -100, 100, 100);
    assert!(list.candidates(&everything).is_empty());
    assert_eq!(list.add(3, unit_box(1, 1)), Ok(0));
}

#[test]
fn candidates_find_overlapping_boxes() {
    let mut list: HittableList<u8> = HittableList::new(region());
    list.add(1, GridBox { min_x: 0, min_y: 0, max_x: 4, max_y: 4 }).unwrap();
    list.add(2, GridBox { min_x: 50, min_y: 50, max_x: 54, max_y: 54 }).unwrap();
    list.add(3, GridBox { min_x: -60, min_y: 10, max_x: -50, max_y: 20 }).unwrap();
    let probe = AABB::new(1, 1, 3, 3);
    let mut found = list.candidates(&probe);
    found.sort();
    found.dedup();
    assert_eq!(found, vec![0]);
    let wide = AABB::new(-99, -99, 99, 99);
    let mut all = list.candidates(&wide);
    all.sort();
    all.dedup();
    assert_eq!(all, vec![0, 1, 2]);
}

#[test]
fn grid_box_union() {
    let a = GridBox { min_x: 0, min_y: -3, max_x: 2, max_y: 1 };
    let b = GridBox { min_x: -1, min_y: 0, max_x: 5, max_y: 0 };
    assert_eq!(a.union(b), GridBox { min_x: -1, min_y: -3, max_x: 5, max_y: 1 });
    assert_eq!(a.union(a), a);
}

#[test]
fn center_rounds_down_on_negative_edge() {
    let mut list: HittableList<u8> = HittableList::new(region());
    // center x is -100.5, rounded down to -101: outside
    assert_eq!(
        list.add(1, GridBox { min_x: -101, min_y: 0, max_x: -100, max_y: 1 }),
        Err(SceneError::OutOfBounds)
    );
    // center x is 99.5, rounded down to 99: inside
    assert_eq!(list.add(2, GridBox { min_x: 99, min_y: 0, max_x: 100, max_y: 1 }), Ok(0));
}
