//! The scene container: the objects of a scene, numbered in the order they
//! were added, with a quadtree over their grid boxes that narrows the objects
//! a ray has to be tested against.
use vstd::prelude::*;
use vstd::multiset::Multiset;
use space_partitioning::intersections::IntersectsWith;
use space_partitioning::quadtree::{QuadRect, QuadTreeElement, AABB};
use space_partitioning::QuadTree;
use crate::grid::{GridBox, GridRect, center_fits, is_hull, ordered};

verus! {

/// A quadtree of element ids over the grid. The tree's id type carries a bound
/// that its crate does not export, so the tree is held here whole.
#[verifier::external_body]
pub struct GridIndex {
    tree: QuadTree<u32>,
}

/// The elements that an index holds, each as its id and the four edges of its box.
pub uninterp spec fn index_elements(t: GridIndex) -> Multiset<(u32, i32, i32, i32, i32)>;

/// The region that an index was made over: left, top, width and height.
pub uninterp spec fn index_region(t: GridIndex) -> (i32, i32, i32, i32);

/// Some element of the index has the id `id`.
pub open spec fn holds_id(t: GridIndex, id: u32) -> bool {
    exists|b: GridBox| #[trigger] index_elements(t).contains(element_of(id, b))
}

pub open spec fn region_tuple(r: GridRect) -> (i32, i32, i32, i32) {
    (r.left, r.top, r.width, r.height)
}

pub open spec fn element_of(id: u32, b: GridBox) -> (u32, i32, i32, i32, i32) {
    (id, b.min_x, b.min_y, b.max_x, b.max_y)
}

pub open spec fn rect_of(region: (i32, i32, i32, i32)) -> GridRect {
    GridRect { left: region.0, top: region.1, width: region.2, height: region.3 }
}

impl GridIndex {
    /// Relies on `QuadTree::new`: a tree over `region` that holds no element;
    /// it asserts that `max_elements` and `smallest_cell` are positive.
    #[verifier::external_body]
    pub(crate) fn new(region: GridRect, max_depth: u8, max_elements: u32, smallest_cell: u32) -> (r: GridIndex)
        requires
            max_elements > 0,
            smallest_cell > 0,
        ensures
            index_elements(r) =~= Multiset::empty(),
            index_region(r) == region_tuple(region),
    {
        let bounds = QuadRect::new(region.left, region.top, region.width, region.height);
        GridIndex { tree: QuadTree::new(bounds, max_depth, max_elements, smallest_cell) }
    }

    /// Relies on `QuadTree::insert`: an element whose box has its center (by
    /// `QuadRect::contains`) in the tree's region is stored, once; any other is
    /// refused with `InsertError::OutOfBounds` before the tree is touched. That
    /// error type is not exported by its crate, so the outcome is told by `r`.
    /// An inverted box would fit no quadrant when its cell splits, where the
    /// crate debug-asserts, so boxes are ordered.
    #[verifier::external_body]
    pub(crate) fn insert(&mut self, id: u32, b: GridBox) -> (r: bool)
        requires
            center_fits(b),
            ordered(b),
            rect_of(index_region(*old(self))).wf(),
        ensures
            index_region(*final(self)) == index_region(*old(self)),
            r == rect_of(index_region(*old(self))).holds_center_of(b),
            r ==> index_elements(*final(self)) == index_elements(*old(self)).insert(element_of(id, b)),
            !r ==> index_elements(*final(self)) == index_elements(*old(self)),
    {
        self.tree.insert(QuadTreeElement::new(id, AABB::new(b.min_x, b.min_y, b.max_x, b.max_y))).is_ok()
    }

    /// Relies on `QuadTree::intersect_generic`: the ids of stored elements whose
    /// boxes `probe` reports as intersected, read from the tree's leaves. The
    /// walk from the root adds half the region's extent to its edges, so the
    /// region's edges fit an `i32`.
    #[verifier::external_body]
    pub(crate) fn intersect<R: IntersectsWith<AABB>>(&self, probe: &R) -> (r: Vec<u32>)
        requires
            rect_of(index_region(*self)).wf(),
        ensures
            forall|k: int| 0 <= k < r.len() ==> holds_id(*self, #[trigger] r[k]),
    {
        self.tree.intersect_generic(probe)
    }
}

/// How deep the index may split its region.
pub const INDEX_MAX_DEPTH: u8 = 3;

/// How many elements a cell of the index holds before it splits.
pub const INDEX_CELL_CAPACITY: u32 = 16;

/// The smallest half-extent of a cell that the index still splits.
pub const INDEX_SMALLEST_CELL: u32 = 1;

/// The elements that an index over the boxes `boxes` holds: box `i` under the id `i`.
pub open spec fn elements_spec(boxes: Seq<GridBox>) -> Multiset<(u32, i32, i32, i32, i32)>
    decreases boxes.len(),
{
    if boxes.len() == 0 {
        Multiset::empty()
    } else {
        elements_spec(boxes.drop_last()).insert(element_of((boxes.len() - 1) as u32, boxes.last()))
    }
}

/// Every id in the index over `boxes` is the number of one of them.
pub proof fn lemma_ids_below_len(boxes: Seq<GridBox>, id: u32, b: GridBox)
    requires
        boxes.len() <= u32::MAX,
        elements_spec(boxes).contains(element_of(id, b)),
    ensures
        id < boxes.len(),
    decreases boxes.len(),
{
    if boxes.len() > 0 {
        let last = element_of((boxes.len() - 1) as u32, boxes.last());
        if element_of(id, b) != last {
            lemma_ids_below_len(boxes.drop_last(), id, b);
        }
    }
}

/// Why an object was not added to the scene.
#[derive(Clone, Copy, Debug, PartialEq, Eq, Structural)]
pub enum SceneError {
    /// The center of the object's grid box lies outside the region of the index.
    OutOfBounds,
}

/// A scene of objects of type `T`, each with the grid box that indexes it.
pub struct HittableList<T> {
    objects: Vec<T>,
    boxes: Ghost<Seq<GridBox>>,
    tree_objects: GridIndex,
    region: GridRect,
    extents: Option<GridBox>,
}

impl<T> HittableList<T> {
    /// The objects, numbered in the order they were added.
    pub closed spec fn objects(self) -> Seq<T> {
        self.objects@
    }

    /// The grid box of each object.
    pub closed spec fn boxes(self) -> Seq<GridBox> {
        self.boxes@
    }

    /// The region that the index covers.
    pub closed spec fn region(self) -> GridRect {
        self.region
    }

    pub closed spec fn wf(self) -> bool {
        &&& self.objects@.len() == self.boxes@.len()
        &&& self.objects@.len() <= u32::MAX
        &&& self.region.wf()
        &&& index_region(self.tree_objects) == region_tuple(self.region)
        &&& index_elements(self.tree_objects) == elements_spec(self.boxes@)
        &&& self.boxes@.len() == 0 ==> self.extents.is_none()
        &&& self.boxes@.len() > 0 ==> (self.extents matches Some(e) && is_hull(e, self.boxes@))
    }

    /// An empty scene whose index covers `region`.
    pub fn new(region: GridRect) -> (r: Self)
        requires
            region.wf(),
        ensures
            r.wf(),
            r.objects().len() == 0,
            r.boxes().len() == 0,
            r.region() == region,
    {
        HittableList {
            objects: Vec::new(),
            boxes: Ghost(Seq::empty()),
            tree_objects: GridIndex::new(region, INDEX_MAX_DEPTH, INDEX_CELL_CAPACITY, INDEX_SMALLEST_CELL),
            region,
            extents: None,
        }
    }

    /// Removes every object, and every entry of the index.
    pub fn clear(&mut self)
        requires
            old(self).wf(),
        ensures
            final(self).wf(),
            final(self).objects().len() == 0,
            final(self).boxes().len() == 0,
            final(self).region() == old(self).region(),
    {
        self.objects.clear();
        self.boxes = Ghost(Seq::empty());
        self.tree_objects = GridIndex::new(self.region, INDEX_MAX_DEPTH, INDEX_CELL_CAPACITY, INDEX_SMALLEST_CELL);
        self.extents = None;
    }

    /// Adds `object`, indexed by `bounds`, under the next id, which is returned.
    /// The object is refused when the center of `bounds` lies outside the
    /// region of the index. `bounds` must not be inverted: the index could not
    /// place such a box when it splits a cell.
    pub fn add(&mut self, object: T, bounds: GridBox) -> (r: Result<u32, SceneError>)
        requires
            old(self).wf(),
            old(self).objects().len() < u32::MAX,
            center_fits(bounds),
            ordered(bounds),
        ensures
            final(self).wf(),
            final(self).region() == old(self).region(),
            r is Ok <==> old(self).region().holds_center_of(bounds),
            r is Ok ==> {
                &&& r->Ok_0 == old(self).objects().len()
                &&& final(self).objects() == old(self).objects().push(object)
                &&& final(self).boxes() == old(self).boxes().push(bounds)
            },
            r is Err ==> {
                &&& r->Err_0 == SceneError::OutOfBounds
                &&& final(self).objects() == old(self).objects()
                &&& final(self).boxes() == old(self).boxes()
            },
    {
        let id = self.objects.len() as u32;
        if !self.tree_objects.insert(id, bounds) {
            return Err(SceneError::OutOfBounds);
        }
        let ghost old_boxes = self.boxes@;
        let new_extents = match self.extents {
            None => bounds,
            Some(e) => e.union(bounds),
        };
        self.extents = Some(new_extents);
        self.boxes = Ghost(old_boxes.push(bounds));
        self.objects.push(object);
        proof {
            let nb = old_boxes.push(bounds);
            assert(nb.drop_last() == old_boxes);
            assert(elements_spec(nb) == elements_spec(old_boxes).insert(element_of(id, bounds)));
            assert(nb[old_boxes.len() as int] == bounds);
            if old_boxes.len() > 0 {
                assert forall|i: int| 0 <= i < nb.len() implies crate::grid::encloses(new_extents, #[trigger] nb[i]) by {
                    if i < old_boxes.len() {
                        assert(nb[i] == old_boxes[i]);
                    }
                }
                assert(is_hull(new_extents, nb));
            } else {
                assert(is_hull(new_extents, nb));
            }
        }
        Ok(id)
    }

    /// The number of objects.
    pub fn len(&self) -> (r: usize)
        requires
            self.wf(),
        ensures
            r == self.objects().len(),
    {
        self.objects.len()
    }

    /// The object with the id `id`, if there is one.
    pub fn get(&self, id: u32) -> (r: Option<&T>)
        requires
            self.wf(),
        ensures
            (id < self.objects().len()) == r.is_some(),
            r matches Some(o) ==> *o == self.objects()[id as int],
    {
        if (id as usize) < self.objects.len() {
            Some(&self.objects[id as usize])
        } else {
            None
        }
    }

    /// The smallest grid box that holds the boxes of all objects; none for an
    /// empty scene.
    pub fn extents(&self) -> (r: Option<GridBox>)
        requires
            self.wf(),
        ensures
            self.boxes().len() == 0 ==> r.is_none(),
            self.boxes().len() > 0 ==> (r matches Some(e) && is_hull(e, self.boxes())),
    {
        self.extents
    }

    /// The ids of the objects whose grid boxes `probe` reports as intersected,
    /// as the index finds them; each names an object of the scene.
    pub fn candidates<R: IntersectsWith<AABB>>(&self, probe: &R) -> (r: Vec<u32>)
        requires
            self.wf(),
        ensures
            forall|k: int| 0 <= k < r.len() ==> #[trigger] r[k] < self.objects().len(),
    {
        let r = self.tree_objects.intersect(probe);
        proof {
            assert forall|k: int| 0 <= k < r.len() implies #[trigger] r[k] < self.objects().len() by {
                assert(holds_id(self.tree_objects, r[k]));
                let b = choose|b: GridBox| #[trigger] index_elements(self.tree_objects).contains(element_of(r[k], b));
                lemma_ids_below_len(self.boxes@, r[k], b);
            }
        }
        r
    }
}

} // verus!
