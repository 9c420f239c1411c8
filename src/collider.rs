//! Broad phase over a grid of cells and narrow phase between the bodies
//! that share a cell.
use vstd::prelude::*;
use crate::geometry::{floor_div, Vec2};
use crate::map::{AreaIndex, TileMap};
use crate::moving_object::{CollisionData, MovingObject};

verus! {

broadcast use vstd::std_specs::hash::group_hash_axioms;

/// Why a collider cannot be built.
#[derive(Clone, Copy, Debug, PartialEq, Eq, Structural)]
pub enum ColliderError {
    /// The level width is not a multiple of the cell width.
    WrongLevelWidth,
    /// The level height is not a multiple of the cell height.
    WrongLevelHeight,
}

/// A grid of broad-phase cells over the level, each cell `grid_area_width`
/// by `grid_area_height` tiles, holding the indices of the bodies in it.
pub struct Collider {
    pub grid_area_width: i8,
    pub grid_area_height: i8,
    pub horizontal_area_count: i8,
    pub vertical_area_count: i8,
    /// Bodies in each cell of the grid, row by row. Cells off the grid hold
    /// no entry: no pass of the narrow phase looks at them.
    pub objects_in_area: Vec<Vec<usize>>,
}

/// Whether a cell lies on the grid.
pub open spec fn on_grid(c: Collider, a: AreaIndex) -> bool {
    0 <= a.x < c.horizontal_area_count && 0 <= a.y < c.vertical_area_count
}

/// Position of a cell in `objects_in_area`.
pub open spec fn cell_index(c: Collider, a: AreaIndex) -> int {
    a.y * c.horizontal_area_count + a.x
}

/// Bodies recorded in a cell of the grid.
pub open spec fn bucket(c: Collider, a: AreaIndex) -> Seq<usize> {
    c.objects_in_area@[cell_index(c, a)]@
}

/// The cell of the tile that holds a world point.
pub open spec fn cell_at(c: Collider, m: TileMap, x: int, y: int) -> AreaIndex {
    AreaIndex {
        x: (m.column_of(x) / (c.grid_area_width as int)) as i64,
        y: (m.row_of(y) / (c.grid_area_height as int)) as i64,
    }
}

/// The cells a box covers: those of its corners, each once, in the order
/// top-left, bottom-left, top-right, bottom-right.
pub open spec fn footprint(c: Collider, m: TileMap, b: crate::aabb::AABB) -> Seq<AreaIndex> {
    let tl = cell_at(c, m, b.center.x - b.half_size.x, b.center.y - b.half_size.y);
    let tr = cell_at(c, m, b.center.x + b.half_size.x, b.center.y - b.half_size.y);
    let br = cell_at(c, m, b.center.x + b.half_size.x, b.center.y + b.half_size.y);
    let bl = AreaIndex { x: tl.x, y: br.y };
    if tl.x == tr.x && tl.y == bl.y {
        seq![tl]
    } else if tl.x == tr.x {
        seq![tl, bl]
    } else if tl.y == bl.y {
        seq![tl, tr]
    } else {
        seq![tl, bl, tr, br]
    }
}


/// Body `i` holds a record of body `k`.
pub open spec fn holds_record(objs: Seq<MovingObject>, i: usize, k: usize) -> bool {
    objs[i as int].all_colliding_objects@.contains_key(k)
}

/// The record body `i` holds of body `k`.
pub open spec fn record(objs: Seq<MovingObject>, i: usize, k: usize) -> CollisionData {
    objs[i as int].all_colliding_objects@[k]
}

/// The signed test between the boxes of bodies `i` and `k` reports a
/// collision.
pub open spec fn collide(objs: Seq<MovingObject>, i: usize, k: usize) -> bool {
    objs[i as int].aabb.overlaps_signed_spec(objs[k as int].aabb)
}

/// The record that body `i` makes of a collision with body `k`: the
/// push-out of its box out of the other's, and both bodies' motion.
pub open spec fn fresh_record(objs: Seq<MovingObject>, i: usize, k: usize) -> CollisionData {
    let a = objs[i as int];
    let b = objs[k as int];
    CollisionData {
        other_key: k,
        overlap: Vec2 { x: a.aabb.penetration_x(b.aabb) as i64, y: a.aabb.penetration_y(b.aabb) as i64 },
        speed1: a.speed,
        speed2: b.speed,
        old_pos1: a.old_position,
        old_pos2: b.old_position,
        pos1: a.position,
        pos2: b.position,
    }
}

/// Some cell of the grid holds both bodies.
pub open spec fn shares_cell(c: Collider, i: usize, k: usize) -> bool {
    exists|q: int| 0 <= q < c.objects_in_area@.len() && (#[trigger] c.objects_in_area@[q])@.contains(i) && c.objects_in_area@[q]@.contains(k)
}

/// Two distinct bodies that share a cell and collide.
pub open spec fn partners(c: Collider, objs: Seq<MovingObject>, i: usize, k: usize) -> bool {
    i != k && shares_cell(c, i, k) && collide(objs, i, k)
}

/// Every body holds a record of each of its partners.
pub open spec fn complete(c: Collider, objs: Seq<MovingObject>) -> bool {
    forall|i: usize, k: usize| #[trigger] partners(c, objs, i, k) ==> holds_record(objs, i, k)
}

/// The bodies differ at most in their collision records.
pub open spec fn same_bodies(o: Seq<MovingObject>, f: Seq<MovingObject>) -> bool {
    &&& o.len() == f.len()
    &&& forall|i: int| 0 <= i < o.len() ==> #[trigger] f[i] == (MovingObject { all_colliding_objects: f[i].all_colliding_objects, ..o[i] })
}

/// Every body index in the cells names a body.
pub open spec fn ids_valid(c: Collider, n: int) -> bool {
    forall|q: int, p: int| 0 <= q < c.objects_in_area@.len() && 0 <= p < c.objects_in_area@[q]@.len() ==> #[trigger] c.objects_in_area@[q]@[p] < n
}

/// Every body's box is in range.
pub open spec fn boxes_wf(objs: Seq<MovingObject>) -> bool {
    forall|i: int| 0 <= i < objs.len() ==> (#[trigger] objs[i]).aabb.wf()
}

/// The pairs at positions `first < second` of `keys` with `first < i`, or
/// `first == i` and `second < j`, that collide are recorded by both bodies.
pub open spec fn pairs_done(keys: Seq<usize>, o: Seq<MovingObject>, f: Seq<MovingObject>, i: int, j: int) -> bool {
    forall|first: int, second: int| 0 <= first < second < keys.len() && (first < i || (first == i && second < j)) && keys[first] != keys[second] && #[trigger] collide(o, keys[first], keys[second]) ==> holds_record(f, keys[first], keys[second]) && holds_record(f, keys[second], keys[first])
}

/// How a pass of the narrow phase over `keys` may change the bodies `o`,
/// giving `f`: only records change; every record held before is kept as
/// it was; a new record is the fresh record between two distinct bodies of
/// `keys` that collide.
pub open spec fn pass_ok(keys: Seq<usize>, o: Seq<MovingObject>, f: Seq<MovingObject>) -> bool {
    &&& same_bodies(o, f)
    &&& forall|i: usize, k: usize| #[trigger] holds_record(o, i, k) && i < o.len() ==> holds_record(f, i, k) && record(f, i, k) == record(o, i, k)
    &&& forall|i: usize, k: usize| #[trigger] holds_record(f, i, k) && i < o.len() && !holds_record(o, i, k) ==> i != k && keys.contains(i) && keys.contains(k) && collide(o, i, k) && record(f, i, k) == fresh_record(o, i, k)
}

/// What a narrow-phase pass over the grid `c` does to the bodies `o`,
/// giving `f`: only records change; every record held before is kept as it
/// was; a new record is the fresh record of a body of one of its partners;
/// every body holds a record of each of its partners; and a pass over
/// bodies that already do changes nothing.
pub open spec fn narrow_phase(c: Collider, o: Seq<MovingObject>, f: Seq<MovingObject>) -> bool {
    &&& same_bodies(o, f)
    &&& forall|i: usize, k: usize| #[trigger] holds_record(o, i, k) && i < o.len() ==> holds_record(f, i, k) && record(f, i, k) == record(o, i, k)
    &&& forall|i: usize, k: usize| #[trigger] holds_record(f, i, k) && i < o.len() && !holds_record(o, i, k) ==> partners(c, o, i, k) && record(f, i, k) == fresh_record(o, i, k)
    &&& forall|i: usize, k: usize| #[trigger] partners(c, o, i, k) ==> holds_record(f, i, k)
    &&& complete(c, o) ==> f == o
}

/// Bodies that share a cell and collide hold records of each other after a
/// pass.
pub proof fn lemma_partners_recorded(c: Collider, o: Seq<MovingObject>, f: Seq<MovingObject>, i: usize, k: usize)
    requires
        narrow_phase(c, o, f),
        ids_valid(c, o.len() as int),
        boxes_wf(o),
        i != k,
        shares_cell(c, i, k),
        collide(o, i, k),
    ensures
        holds_record(f, i, k),
        holds_record(f, k, i),
{
    let q = choose|q: int| 0 <= q < c.objects_in_area@.len() && (#[trigger] c.objects_in_area@[q])@.contains(i) && c.objects_in_area@[q]@.contains(k);
    let pi = choose|p: int| 0 <= p < c.objects_in_area@[q]@.len() && #[trigger] c.objects_in_area@[q]@[p] == i;
    let pk = choose|p: int| 0 <= p < c.objects_in_area@[q]@.len() && #[trigger] c.objects_in_area@[q]@[p] == k;
    assert(i < o.len() && k < o.len());
    crate::aabb::lemma_signed_symmetric(o[i as int].aabb, o[k as int].aabb);
    assert(partners(c, o, i, k));
    assert(partners(c, o, k, i));
}

/// After a pass that starts from cleared records, a body holds a record of
/// another exactly when the two are partners, and the record is the fresh
/// record of their collision.
pub proof fn lemma_pass_from_cleared(c: Collider, o: Seq<MovingObject>, f: Seq<MovingObject>)
    requires
        narrow_phase(c, o, f),
        forall|i: int| 0 <= i < o.len() ==> (#[trigger] o[i]).all_colliding_objects@.is_empty(),
    ensures
        forall|i: usize, k: usize| i < o.len() ==> (#[trigger] holds_record(f, i, k) <==> partners(c, o, i, k)),
        forall|i: usize, k: usize| #[trigger] holds_record(f, i, k) && i < o.len() ==> record(f, i, k) == fresh_record(o, i, k),
{
    assert forall|i: usize, k: usize| i < o.len() implies (#[trigger] holds_record(f, i, k) <==> partners(c, o, i, k)) by {
        assert(o[i as int].all_colliding_objects@.is_empty());
        assert(!holds_record(o, i, k));
    }
    assert forall|i: usize, k: usize| #[trigger] holds_record(f, i, k) && i < o.len() implies record(f, i, k) == fresh_record(o, i, k) by {
        assert(o[i as int].all_colliding_objects@.is_empty());
        assert(!holds_record(o, i, k));
    }
}

/// A second pass right after any pass changes nothing: no record is added
/// or refreshed.
pub proof fn lemma_second_pass_idle(c: Collider, o: Seq<MovingObject>, f: Seq<MovingObject>, g: Seq<MovingObject>)
    requires
        narrow_phase(c, o, f),
        ids_valid(c, o.len() as int),
        narrow_phase(c, f, g),
    ensures
        g == f,
{
    assert forall|i: usize, k: usize| #[trigger] partners(c, f, i, k) implies holds_record(f, i, k) by {
        let q = choose|q: int| 0 <= q < c.objects_in_area@.len() && (#[trigger] c.objects_in_area@[q])@.contains(i) && c.objects_in_area@[q]@.contains(k);
        let pi = choose|p: int| 0 <= p < c.objects_in_area@[q]@.len() && #[trigger] c.objects_in_area@[q]@[p] == i;
        let pk = choose|p: int| 0 <= p < c.objects_in_area@[q]@.len() && #[trigger] c.objects_in_area@[q]@[p] == k;
        assert(i < o.len() && k < o.len());
        assert(f[i as int] == (MovingObject { all_colliding_objects: f[i as int].all_colliding_objects, ..o[i as int] }));
        assert(f[k as int] == (MovingObject { all_colliding_objects: f[k as int].all_colliding_objects, ..o[k as int] }));
        assert(partners(c, o, i, k));
    }
}

/// Adding the fresh record of body `a` of its collision with body `b`,
/// which `a` did not hold, keeps a pass within what `pass_ok` allows.
proof fn lemma_record_added(keys: Seq<usize>, o: Seq<MovingObject>, cur: Seq<MovingObject>, f: Seq<MovingObject>, a: usize, b: usize)
    requires
        pass_ok(keys, o, cur),
        a < o.len(),
        a != b,
        keys.contains(a),
        keys.contains(b),
        collide(o, a, b),
        !holds_record(cur, a, b),
        f.len() == cur.len(),
        f[a as int] == (MovingObject { all_colliding_objects: f[a as int].all_colliding_objects, ..cur[a as int] }),
        f[a as int].all_colliding_objects@ == cur[a as int].all_colliding_objects@.insert(b, fresh_record(o, a, b)),
        forall|j: int| 0 <= j < f.len() && j != a ==> #[trigger] f[j] == cur[j],
    ensures
        pass_ok(keys, o, f),
        holds_record(f, a, b),
        forall|i: usize, k: usize| #[trigger] holds_record(cur, i, k) && i < o.len() ==> holds_record(f, i, k),
{
    assert forall|q: int| 0 <= q < o.len() implies #[trigger] f[q] == (MovingObject { all_colliding_objects: f[q].all_colliding_objects, ..o[q] }) by {
        assert(cur[q] == (MovingObject { all_colliding_objects: cur[q].all_colliding_objects, ..o[q] }));
    }
    assert forall|i: usize, k: usize| #[trigger] holds_record(o, i, k) && i < o.len() implies holds_record(f, i, k) && record(f, i, k) == record(o, i, k) by {
        assert(holds_record(cur, i, k));
        if i == a {
            assert(k != b);
        }
    }
    assert forall|i: usize, k: usize| #[trigger] holds_record(f, i, k) && i < o.len() && !holds_record(o, i, k) implies i != k && keys.contains(i) && keys.contains(k) && collide(o, i, k) && record(f, i, k) == fresh_record(o, i, k) by {
        if i != a || k != b {
            assert(holds_record(cur, i, k));
            assert(record(f, i, k) == record(cur, i, k));
        }
    }
}

/// Every body but `id`.
pub open spec fn other_than(id: usize) -> spec_fn(usize) -> bool {
    |j: usize| j != id
}

/// What `update_areas` leaves in the cell `a`: the body leaves the cells it
/// no longer covers and joins, at the end, those it newly covers.
pub open spec fn bucket_after(
    old_bucket: Seq<usize>,
    id: usize,
    old_areas: Seq<AreaIndex>,
    fp: Seq<AreaIndex>,
    a: AreaIndex,
) -> Seq<usize> {
    if old_areas.contains(a) && !fp.contains(a) {
        old_bucket.filter(other_than(id))
    } else if fp.contains(a) && !old_areas.contains(a) {
        old_bucket.push(id)
    } else {
        old_bucket
    }
}

/// Filtering twice by the same predicate is filtering once.
proof fn lemma_filter_twice<A>(s: Seq<A>, p: spec_fn(A) -> bool)
    ensures
        s.filter(p).filter(p) == s.filter(p),
    decreases s.len(),
{
    reveal(Seq::filter);
    if s.len() > 0 {
        lemma_filter_twice(s.drop_last(), p);
        if p(s.last()) {
            s.drop_last().filter(p).lemma_filter_push(s.last(), p);
        }
    }
}

/// Appending `x` does not change whether a sequence holds another value.
proof fn lemma_push_contains_other<A>(s: Seq<A>, x: A, a: A)
    requires
        a != x,
    ensures
        s.push(x).contains(a) == s.contains(a),
{
    if s.push(x).contains(a) {
        let q = choose|q: int| 0 <= q < s.len() + 1 && #[trigger] s.push(x)[q] == a;
        assert(s[q] == a);
    }
    if s.contains(a) {
        let q = choose|q: int| 0 <= q < s.len() && #[trigger] s[q] == a;
        assert(s.push(x)[q] == a);
    }
}

/// Two cells of the grid at the same position are the same cell.
proof fn lemma_cell_injective(c: Collider, a: AreaIndex, b: AreaIndex)
    requires
        on_grid(c, a),
        on_grid(c, b),
        cell_index(c, a) == cell_index(c, b),
    ensures
        a == b,
{
    let h = c.horizontal_area_count as int;
    assert(a.y == b.y) by (nonlinear_arith)
        requires
            a.y * h + a.x == b.y * h + b.x,
            0 <= a.x < h,
            0 <= b.x < h,
    ;
}

/// A cell of the grid lies within `objects_in_area`.
proof fn lemma_cell_in_range(c: Collider, a: AreaIndex)
    requires
        c.wf(),
        on_grid(c, a),
    ensures
        0 <= cell_index(c, a) < c.objects_in_area@.len(),
{
    let h = c.horizontal_area_count as int;
    let v = c.vertical_area_count as int;
    assert(0 <= a.y * h + a.x < h * v) by (nonlinear_arith)
        requires
            0 <= a.x < h,
            0 <= a.y < v,
    ;
}

fn contains_area(v: &Vec<AreaIndex>, a: AreaIndex) -> (r: bool)
    ensures
        r == v@.contains(a),
{
    let mut i: usize = 0;
    while i < v.len()
        invariant
            i <= v@.len(),
            forall|q: int| 0 <= q < i ==> v@[q] != a,
        decreases v@.len() - i,
    {
        if v[i] == a {
            return true;
        }
        i = i + 1;
    }
    false
}

/// The bodies of a cell without `id`.
fn without_id(b: &Vec<usize>, id: usize) -> (r: Vec<usize>)
    ensures
        r@ == b@.filter(other_than(id)),
{
    let mut r: Vec<usize> = Vec::new();
    let mut i: usize = 0;
    while i < b.len()
        invariant
            i <= b@.len(),
            r@ == b@.subrange(0, i as int).filter(other_than(id)),
        decreases b@.len() - i,
    {
        proof {
            reveal(Seq::filter);
            assert(b@.subrange(0, i + 1).drop_last() == b@.subrange(0, i as int));
        }
        if b[i] != id {
            r.push(b[i]);
        }
        i = i + 1;
    }
    assert(b@.subrange(0, b@.len() as int) == b@);
    r
}

impl Collider {
    pub open spec fn wf(&self) -> bool {
        &&& 0 < self.grid_area_width
        &&& 0 < self.grid_area_height
        &&& 0 <= self.horizontal_area_count
        &&& 0 <= self.vertical_area_count
        &&& self.objects_in_area@.len() == self.horizontal_area_count * self.vertical_area_count
    }



    /// Takes the body `id` out of the cells of `areas`, its earlier cells,
    /// that are not in `fp`.
    #[verifier::spinoff_prover]
    fn remove_object(&mut self, id: usize, areas: &Vec<AreaIndex>, fp: &Vec<AreaIndex>)
        requires
            old(self).wf(),
        ensures
            final(self).wf(),
            final(self).grid_area_width == old(self).grid_area_width,
            final(self).grid_area_height == old(self).grid_area_height,
            final(self).horizontal_area_count == old(self).horizontal_area_count,
            final(self).vertical_area_count == old(self).vertical_area_count,
            forall|a: AreaIndex| #[trigger] on_grid(*old(self), a) ==> bucket(*final(self), a) == (if areas@.contains(a) && !fp@.contains(a) {
                bucket(*old(self), a).filter(other_than(id))
            } else {
                bucket(*old(self), a)
            }),
    {
        let ghost prev = areas@;
        let mut i: usize = 0;
        while i < areas.len()
            invariant
                self.wf(),
                self.grid_area_width == old(self).grid_area_width,
                self.grid_area_height == old(self).grid_area_height,
                self.horizontal_area_count == old(self).horizontal_area_count,
                self.vertical_area_count == old(self).vertical_area_count,
                prev == areas@,
                i <= prev.len(),
                forall|a: AreaIndex| #[trigger] on_grid(*old(self), a) ==> bucket(*self, a) == (if prev.subrange(0, i as int).contains(a) && !fp@.contains(a) {
                    bucket(*old(self), a).filter(other_than(id))
                } else {
                    bucket(*old(self), a)
                }),
            decreases prev.len() - i,
        {
            let area = areas[i];
            proof {
                assert(prev.subrange(0, i + 1) == prev.subrange(0, i as int).push(area));
                assert forall|a: AreaIndex| a != area implies prev.subrange(0, i + 1).contains(a) == prev.subrange(0, i as int).contains(a) by {
                    lemma_push_contains_other(prev.subrange(0, i as int), area, a);
                }
                assert(prev.subrange(0, i + 1)[i as int] == area);
            }
            if !contains_area(fp, area) {
                match self.cell_position(area) {
                    Some(k) => {
                        let ghost before = *self;
                        assert(on_grid(*old(self), area));
                        let nb = without_id(&self.objects_in_area[k], id);
                        self.objects_in_area[k] = nb;
                        proof {
                            lemma_filter_twice(bucket(*old(self), area), other_than(id));
                            assert forall|a: AreaIndex| #[trigger] on_grid(*old(self), a) implies bucket(*self, a) == (if prev.subrange(0, i + 1).contains(a) && !fp@.contains(a) {
                                bucket(*old(self), a).filter(other_than(id))
                            } else {
                                bucket(*old(self), a)
                            }) by {
                                lemma_cell_in_range(before, a);
                                if a != area {
                                    if cell_index(before, a) == cell_index(before, area) {
                                        lemma_cell_injective(before, a, area);
                                    }
                                    assert(bucket(*self, a) == bucket(before, a));
                                }
                            }
                        }
                    },
                    None => {
                        assert forall|a: AreaIndex| #[trigger] on_grid(*old(self), a) implies bucket(*self, a) == (if prev.subrange(0, i + 1).contains(a) && !fp@.contains(a) {
                            bucket(*old(self), a).filter(other_than(id))
                        } else {
                            bucket(*old(self), a)
                        }) by {
                            assert(a != area);
                        }
                    },
                }
            } else {
                assert forall|a: AreaIndex| #[trigger] on_grid(*old(self), a) implies bucket(*self, a) == (if prev.subrange(0, i + 1).contains(a) && !fp@.contains(a) {
                    bucket(*old(self), a).filter(other_than(id))
                } else {
                    bucket(*old(self), a)
                }) by {
                    if a == area {
                        assert(fp@.contains(a));
                    }
                }
            }
            i = i + 1;
        }
        assert(prev.subrange(0, prev.len() as int) == prev);
    }

    /// Puts the body `id` into the cells of `fp` that `areas`, its earlier
    /// cells, do not hold.
    #[verifier::spinoff_prover]
    fn add_object(&mut self, id: usize, areas: &Vec<AreaIndex>, fp: &Vec<AreaIndex>)
        requires
            old(self).wf(),
            fp@.no_duplicates(),
        ensures
            final(self).wf(),
            final(self).grid_area_width == old(self).grid_area_width,
            final(self).grid_area_height == old(self).grid_area_height,
            final(self).horizontal_area_count == old(self).horizontal_area_count,
            final(self).vertical_area_count == old(self).vertical_area_count,
            forall|a: AreaIndex| #[trigger] on_grid(*old(self), a) ==> bucket(*final(self), a) == (if fp@.contains(a) && !areas@.contains(a) {
                bucket(*old(self), a).push(id)
            } else {
                bucket(*old(self), a)
            }),
    {
        let ghost prev = areas@;
        let mut j: usize = 0;
        while j < fp.len()
            invariant
                self.wf(),
                self.grid_area_width == old(self).grid_area_width,
                self.grid_area_height == old(self).grid_area_height,
                self.horizontal_area_count == old(self).horizontal_area_count,
                self.vertical_area_count == old(self).vertical_area_count,
                j <= fp@.len(),
                fp@.no_duplicates(),
                prev == areas@,
                forall|a: AreaIndex| #[trigger] on_grid(*old(self), a) ==> bucket(*self, a) == (if fp@.subrange(0, j as int).contains(a) && !prev.contains(a) {
                    bucket(*old(self), a).push(id)
                } else {
                    bucket(*old(self), a)
                }),
            decreases fp@.len() - j,
        {
            let area = fp[j];
            let ghost sub = fp@.subrange(0, j as int);
            proof {
                assert(fp@.subrange(0, j + 1) == sub.push(area));
                assert(fp@.subrange(0, j + 1)[j as int] == area);
                assert(!sub.contains(area)) by {
                    if sub.contains(area) {
                        let q = choose|q: int| 0 <= q < j && #[trigger] sub[q] == area;
                        assert(fp@[q] == fp@[j as int]);
                    }
                }
            }
            if !contains_area(areas, area) {
                match self.cell_position(area) {
                    Some(k) => {
                        let ghost before = *self;
                        assert(on_grid(*old(self), area));
                        self.objects_in_area[k].push(id);
                        proof {
                            assert forall|a: AreaIndex| #[trigger] on_grid(*old(self), a) implies bucket(*self, a) == (if fp@.subrange(0, j + 1).contains(a) && !prev.contains(a) {
                                bucket(*old(self), a).push(id)
                            } else {
                                bucket(*old(self), a)
                            }) by {
                                lemma_cell_in_range(before, a);
                                if a != area {
                                    if cell_index(before, a) == cell_index(before, area) {
                                        lemma_cell_injective(before, a, area);
                                    }
                                    assert(bucket(*self, a) == bucket(before, a));
                                    lemma_push_contains_other(sub, area, a);
                                }
                            }
                        }
                    },
                    None => {
                        assert forall|a: AreaIndex| #[trigger] on_grid(*old(self), a) implies bucket(*self, a) == (if fp@.subrange(0, j + 1).contains(a) && !prev.contains(a) {
                            bucket(*old(self), a).push(id)
                        } else {
                            bucket(*old(self), a)
                        }) by {
                            lemma_push_contains_other(sub, area, a);
                        }
                    },
                }
            } else {
                assert forall|a: AreaIndex| #[trigger] on_grid(*old(self), a) implies bucket(*self, a) == (if fp@.subrange(0, j + 1).contains(a) && !prev.contains(a) {
                    bucket(*old(self), a).push(id)
                } else {
                    bucket(*old(self), a)
                }) by {
                    if a != area {
                        lemma_push_contains_other(sub, area, a);
                    }
                }
            }
            j = j + 1;
        }
        assert(fp@.subrange(0, fp@.len() as int) == fp@);
    }

    /// Places a body, known by its index `id`, in the cells its box covers:
    /// it leaves the cells it no longer covers and joins, at the end of each
    /// cell, those it newly covers; its recorded areas become the covered
    /// cells, each once. Cells off the grid get no entry in
    /// `objects_in_area`: the narrow phase visits only the grid.
    pub fn update_areas(&mut self, id: usize, object: &mut MovingObject, map: &TileMap)
        requires
            old(self).wf(),
            map.wf(),
            old(object).aabb.wf(),
        ensures
            final(self).wf(),
            final(self).grid_area_width == old(self).grid_area_width,
            final(self).grid_area_height == old(self).grid_area_height,
            final(self).horizontal_area_count == old(self).horizontal_area_count,
            final(self).vertical_area_count == old(self).vertical_area_count,
            *final(object) == (MovingObject { areas: final(object).areas, ..*old(object) }),
            final(object).areas@ == footprint(*old(self), *map, old(object).aabb),
            final(object).areas@.no_duplicates(),
            forall|a: AreaIndex| #[trigger] on_grid(*old(self), a) ==> bucket(*final(self), a) == bucket_after(
                bucket(*old(self), a),
                id,
                old(object).areas@,
                footprint(*old(self), *map, old(object).aabb),
                a,
            ),
    {
        let (top_left, top_right, bottom_right, bottom_left) = self.get_areas(map, &object.aabb);
        let fp = Self::fill_overlapping_areas(top_left, top_right, bottom_right, bottom_left);
        self.remove_object(id, &object.areas, &fp);
        let ghost mid = *self;
        self.add_object(id, &object.areas, &fp);
        assert forall|a: AreaIndex| #[trigger] on_grid(*old(self), a) implies bucket(*self, a) == bucket_after(
            bucket(*old(self), a),
            id,
            old(object).areas@,
            fp@,
            a,
        ) by {
            assert(on_grid(mid, a));
        }
        object.areas = fp;
    }

    /// Of two distinct bodies whose boxes collide, each that holds no record
    /// of the other gets one; nothing else changes.
    #[verifier::rlimit(80)]
    #[verifier::spinoff_prover]
    fn record_pair(objects: &mut Vec<MovingObject>, a: usize, b: usize, Ghost(keys): Ghost<Seq<usize>>, Ghost(o): Ghost<Seq<MovingObject>>)
        requires
            pass_ok(keys, o, old(objects)@),
            boxes_wf(o),
            a < o.len(),
            b < o.len(),
            a != b,
            keys.contains(a),
            keys.contains(b),
        ensures
            pass_ok(keys, o, final(objects)@),
            forall|i: usize, k: usize| #[trigger] holds_record(old(objects)@, i, k) && i < o.len() ==> holds_record(final(objects)@, i, k),
            collide(o, a, b) ==> holds_record(final(objects)@, a, b) && holds_record(final(objects)@, b, a),
            !collide(o, a, b) || (holds_record(old(objects)@, a, b) && holds_record(old(objects)@, b, a)) ==> final(objects)@ == old(objects)@,
    {
        let ghost start = objects@;
        assert(start[a as int] == (MovingObject { all_colliding_objects: start[a as int].all_colliding_objects, ..o[a as int] }));
        assert(start[b as int] == (MovingObject { all_colliding_objects: start[b as int].all_colliding_objects, ..o[b as int] }));
        let (collides, overlap) = objects[a].aabb.overlaps_signed(&objects[b].aabb);
        if !collides {
            return;
        }
        proof {
            crate::aabb::lemma_signed_symmetric(o[a as int].aabb, o[b as int].aabb);
        }
        let d1 = CollisionData {
            other_key: b,
            overlap,
            speed1: objects[a].speed,
            speed2: objects[b].speed,
            old_pos1: objects[a].old_position,
            old_pos2: objects[b].old_position,
            pos1: objects[a].position,
            pos2: objects[b].position,
        };
        let d2 = CollisionData {
            other_key: a,
            overlap: Vec2 { x: -overlap.x, y: -overlap.y },
            speed1: objects[b].speed,
            speed2: objects[a].speed,
            old_pos1: objects[b].old_position,
            old_pos2: objects[a].old_position,
            pos1: objects[b].position,
            pos2: objects[a].position,
        };
        assert(d1 == fresh_record(o, a, b));
        assert(d2 == fresh_record(o, b, a));
        Self::add_record(objects, a, b, d1, Ghost(keys), Ghost(o));
        Self::add_record(objects, b, a, d2, Ghost(keys), Ghost(o));
    }

    /// Gives body `a` the record `d` of its collision with body `b` unless
    /// it already holds one.
    #[verifier::spinoff_prover]
    fn add_record(objects: &mut Vec<MovingObject>, a: usize, b: usize, d: CollisionData, Ghost(keys): Ghost<Seq<usize>>, Ghost(o): Ghost<Seq<MovingObject>>)
        requires
            pass_ok(keys, o, old(objects)@),
            a < o.len(),
            a != b,
            keys.contains(a),
            keys.contains(b),
            collide(o, a, b),
            d == fresh_record(o, a, b),
        ensures
            pass_ok(keys, o, final(objects)@),
            holds_record(final(objects)@, a, b),
            forall|i: usize, k: usize| #[trigger] holds_record(old(objects)@, i, k) && i < o.len() ==> holds_record(final(objects)@, i, k),
            holds_record(old(objects)@, a, b) ==> final(objects)@ == old(objects)@,
    {
        if !objects[a].all_colliding_objects.contains_key(&b) {
            let ghost before = objects@;
            objects[a].all_colliding_objects.insert(b, d);
            proof {
                lemma_record_added(keys, o, before, objects@, a, b);
            }
        }
    }

    /// Narrow phase over the bodies of one cell: for each pair of distinct
    /// bodies whose boxes collide, each body that holds no record of the
    /// other gets one.
    #[verifier::rlimit(60)]
    #[verifier::spinoff_prover]
    fn check_collisions_in_area(&self, keys: &Vec<usize>, objects: &mut Vec<MovingObject>)
        requires
            forall|p: int| 0 <= p < keys@.len() ==> #[trigger] keys@[p] < old(objects)@.len(),
            boxes_wf(old(objects)@),
        ensures
            pass_ok(keys@, old(objects)@, final(objects)@),
            pairs_done(keys@, old(objects)@, final(objects)@, keys@.len() as int, 0),
            pairs_done(keys@, old(objects)@, old(objects)@, keys@.len() as int, 0) ==> final(objects)@ == old(objects)@,
    {
        let n = keys.len();
        let ghost o = objects@;
        let mut i: usize = 0;
        while n > 0 && i < n - 1
            invariant
                n == keys@.len(),
                i <= n,
                o == old(objects)@,
                forall|p: int| 0 <= p < keys@.len() ==> #[trigger] keys@[p] < o.len(),
                boxes_wf(o),
                pass_ok(keys@, o, objects@),
                pairs_done(keys@, o, objects@, i as int, 0),
                pairs_done(keys@, o, o, n as int, 0) ==> objects@ == o,
            decreases n - i,
        {
            let mut j: usize = i + 1;
            while j < n
                invariant
                    n == keys@.len(),
                    i + 1 <= j <= n,
                    o == old(objects)@,
                    forall|p: int| 0 <= p < keys@.len() ==> #[trigger] keys@[p] < o.len(),
                    boxes_wf(o),
                    pass_ok(keys@, o, objects@),
                    pairs_done(keys@, o, objects@, i as int, j as int),
                    pairs_done(keys@, o, o, n as int, 0) ==> objects@ == o,
                decreases n - j,
            {
                let a = keys[i];
                let b = keys[j];
                let ghost start = objects@;
                proof {
                    assert(keys@[i as int] == a && keys@[j as int] == b);
                }
                if a != b {
                    Self::record_pair(objects, a, b, Ghost(keys@), Ghost(o));
                    proof {
                        let f = objects@;
                        assert(pairs_done(keys@, o, f, i as int, j + 1)) by {
                            assert forall|first: int, second: int| 0 <= first < second < keys@.len() && (first < i || (first == i && second < j + 1)) && keys@[first] != keys@[second] && #[trigger] collide(o, keys@[first], keys@[second]) implies holds_record(f, keys@[first], keys@[second]) && holds_record(f, keys@[second], keys@[first]) by {
                                if first < i || second < j {
                                    assert(holds_record(start, keys@[first], keys@[second]));
                                    assert(holds_record(start, keys@[second], keys@[first]));
                                }
                            }
                        }
                        if pairs_done(keys@, o, o, n as int, 0) && collide(o, a, b) {
                            assert(collide(o, keys@[i as int], keys@[j as int]));
                        }
                    }
                } else {
                    assert(pairs_done(keys@, o, objects@, i as int, j + 1));
                }
                j = j + 1;
            }
            i = i + 1;
        }
    }

    /// Narrow phase over every cell in row-major order: of two distinct
    /// bodies that share a cell and whose boxes collide, each that holds no
    /// record of the other gets one. Records held before are kept as they
    /// were, so a second pass without clearing them changes nothing.
    #[verifier::spinoff_prover]
    pub fn check_collisions(&self, objects: &mut Vec<MovingObject>)
        requires
            self.wf(),
            ids_valid(*self, old(objects)@.len() as int),
            boxes_wf(old(objects)@),
        ensures
            narrow_phase(*self, old(objects)@, final(objects)@),
    {
        let ghost o = objects@;
        let cells = self.objects_in_area.len();
        let mut q: usize = 0;
        while q < cells
            invariant
                self.wf(),
                cells == self.objects_in_area@.len(),
                q <= cells,
                o == old(objects)@,
                ids_valid(*self, o.len() as int),
                boxes_wf(o),
                same_bodies(o, objects@),
                forall|i: usize, k: usize| #[trigger] holds_record(o, i, k) && i < o.len() ==> holds_record(objects@, i, k) && record(objects@, i, k) == record(o, i, k),
                forall|i: usize, k: usize| #[trigger] holds_record(objects@, i, k) && i < o.len() && !holds_record(o, i, k) ==> partners(*self, o, i, k) && record(objects@, i, k) == fresh_record(o, i, k),
                forall|r: int| 0 <= r < q ==> pairs_done(#[trigger] self.objects_in_area@[r]@, o, objects@, self.objects_in_area@[r]@.len() as int, 0),
                complete(*self, o) ==> objects@ == o,
            decreases cells - q,
        {
            let keys = &self.objects_in_area[q];
            if keys.len() >= 2 {
                let ghost cur = objects@;
                let ghost ks = keys@;
                assert(boxes_wf(cur)) by {
                    assert forall|i: int| 0 <= i < cur.len() implies (#[trigger] cur[i]).aabb.wf() by {
                        assert(cur[i] == (MovingObject { all_colliding_objects: cur[i].all_colliding_objects, ..o[i] }));
                        assert(o[i].aabb.wf());
                    }
                }
                assert forall|p: int| 0 <= p < ks.len() implies #[trigger] ks[p] < cur.len() by {
                    assert(self.objects_in_area@[q as int]@[p] < o.len());
                }
                self.check_collisions_in_area(keys, objects);
                proof {
                    let f = objects@;
                    assert forall|i: int| 0 <= i < o.len() implies #[trigger] f[i] == (MovingObject { all_colliding_objects: f[i].all_colliding_objects, ..o[i] }) by {
                        assert(f[i] == (MovingObject { all_colliding_objects: f[i].all_colliding_objects, ..cur[i] }));
                        assert(cur[i] == (MovingObject { all_colliding_objects: cur[i].all_colliding_objects, ..o[i] }));
                    }
                    assert forall|i: usize, k: usize| #[trigger] holds_record(o, i, k) && i < o.len() implies holds_record(f, i, k) && record(f, i, k) == record(o, i, k) by {
                        assert(holds_record(cur, i, k));
                    }
                    assert forall|i: usize, k: usize| #[trigger] holds_record(f, i, k) && i < o.len() && !holds_record(o, i, k) implies partners(*self, o, i, k) && record(f, i, k) == fresh_record(o, i, k) by {
                        if holds_record(cur, i, k) {
                            assert(record(f, i, k) == record(cur, i, k));
                        } else {
                            assert(i != k && ks.contains(i) && ks.contains(k) && collide(cur, i, k) && record(f, i, k) == fresh_record(cur, i, k));
                            let pi = choose|p: int| 0 <= p < ks.len() && #[trigger] ks[p] == i;
                            assert(k < o.len()) by {
                                let pk = choose|p: int| 0 <= p < ks.len() && #[trigger] ks[p] == k;
                                assert(self.objects_in_area@[q as int]@[pk] < o.len());
                            }
                            assert(cur[i as int] == (MovingObject { all_colliding_objects: cur[i as int].all_colliding_objects, ..o[i as int] }));
                            assert(cur[k as int] == (MovingObject { all_colliding_objects: cur[k as int].all_colliding_objects, ..o[k as int] }));
                            assert(fresh_record(cur, i, k) == fresh_record(o, i, k));
                            assert(shares_cell(*self, i, k)) by {
                                assert(self.objects_in_area@[q as int]@ == ks);
                            }
                        }
                    }
                    assert forall|r: int| 0 <= r < q + 1 implies pairs_done(#[trigger] self.objects_in_area@[r]@, o, f, self.objects_in_area@[r]@.len() as int, 0) by {
                        let kr = self.objects_in_area@[r]@;
                        assert forall|first: int, second: int| 0 <= first < second < kr.len() && (first < kr.len() || (first == kr.len() && second < 0)) && kr[first] != kr[second] && #[trigger] collide(o, kr[first], kr[second]) implies holds_record(f, kr[first], kr[second]) && holds_record(f, kr[second], kr[first]) by {
                            assert(kr[first] < o.len());
                            assert(kr[second] < o.len());
                            if r < q {
                                assert(holds_record(cur, kr[first], kr[second]));
                                assert(holds_record(cur, kr[second], kr[first]));
                            } else {
                                assert(cur[kr[first] as int].aabb == o[kr[first] as int].aabb);
                                assert(cur[kr[second] as int].aabb == o[kr[second] as int].aabb);
                                assert(collide(cur, kr[first], kr[second]));
                            }
                        }
                    }
                    if complete(*self, o) {
                        assert(pairs_done(ks, cur, cur, ks.len() as int, 0)) by {
                            assert forall|first: int, second: int| 0 <= first < second < ks.len() && (first < ks.len() || (first == ks.len() && second < 0)) && ks[first] != ks[second] && #[trigger] collide(cur, ks[first], ks[second]) implies holds_record(cur, ks[first], ks[second]) && holds_record(cur, ks[second], ks[first]) by {
                                assert(ks[first] < o.len() && ks[second] < o.len());
                                assert(ks.contains(ks[first]) && ks.contains(ks[second]));
                                assert(self.objects_in_area@[q as int]@ == ks);
                                assert(shares_cell(*self, ks[first], ks[second]));
                                assert(shares_cell(*self, ks[second], ks[first]));
                                crate::aabb::lemma_signed_symmetric(o[ks[first] as int].aabb, o[ks[second] as int].aabb);
                                assert(partners(*self, o, ks[first], ks[second]));
                                assert(partners(*self, o, ks[second], ks[first]));
                            }
                        }
                    }
                }
            } else {
                proof {
                    let kq = self.objects_in_area@[q as int]@;
                    assert(pairs_done(kq, o, objects@, kq.len() as int, 0));
                }
            }
            q = q + 1;
        }
        proof {
            let f = objects@;
            assert forall|i: usize, k: usize| #[trigger] partners(*self, o, i, k) implies holds_record(f, i, k) by {
                let r = choose|r: int| 0 <= r < self.objects_in_area@.len() && (#[trigger] self.objects_in_area@[r])@.contains(i) && self.objects_in_area@[r]@.contains(k);
                let kr = self.objects_in_area@[r]@;
                let pi = choose|p: int| 0 <= p < kr.len() && #[trigger] kr[p] == i;
                let pk = choose|p: int| 0 <= p < kr.len() && #[trigger] kr[p] == k;
                assert(pairs_done(kr, o, f, kr.len() as int, 0));
                assert(i < o.len() && k < o.len());
                crate::aabb::lemma_signed_symmetric(o[i as int].aabb, o[k as int].aabb);
                if pi < pk {
                    assert(collide(o, kr[pi], kr[pk]));
                } else {
                    assert(collide(o, kr[pk], kr[pi]));
                }
            }
        }
    }

    /// Position of a cell in `objects_in_area`, if it lies on the grid.
    fn cell_position(&self, a: AreaIndex) -> (r: Option<usize>)
        requires
            self.wf(),
        ensures
            r matches Some(k) ==> on_grid(*self, a) && k == cell_index(*self, a) && k < self.objects_in_area@.len(),
            r is None ==> !on_grid(*self, a),
    {
        if a.x < 0 || a.x >= self.horizontal_area_count as i64 || a.y < 0 || a.y >= self.vertical_area_count as i64 {
            return None;
        }
        proof {
            lemma_cell_in_range(*self, a);
        }
        let h = self.horizontal_area_count as i64;
        assert(0 <= a.y * h + a.x < 128 * 128) by (nonlinear_arith)
            requires
                0 <= a.y < 128,
                0 <= a.x < h,
                h <= 127,
        ;
        Some((a.y * h + a.x) as usize)
    }

    /// Cells of the corners of a box: top-left, top-right, bottom-right and
    /// bottom-left.
    fn get_areas(&self, map: &TileMap, b: &crate::aabb::AABB) -> (r: (AreaIndex, AreaIndex, AreaIndex, AreaIndex))
        requires
            self.wf(),
            map.wf(),
            b.wf(),
        ensures
            r.0 == cell_at(*self, *map, b.center.x - b.half_size.x, b.center.y - b.half_size.y),
            r.1 == cell_at(*self, *map, b.center.x + b.half_size.x, b.center.y - b.half_size.y),
            r.2 == cell_at(*self, *map, b.center.x + b.half_size.x, b.center.y + b.half_size.y),
            r.3 == (AreaIndex { x: r.0.x, y: r.2.y }),
    {
        let c = b.center;
        let h = b.half_size;
        let top_left = map.get_map_tile_in_point(Vec2 { x: c.x - h.x, y: c.y - h.y });
        let top_right = map.get_map_tile_in_point(Vec2 { x: c.x + h.x, y: c.y - h.y });
        let bottom_right = map.get_map_tile_in_point(Vec2 { x: c.x + h.x, y: c.y + h.y });
        let gw = self.grid_area_width as i64;
        let gh = self.grid_area_height as i64;
        let tl = AreaIndex { x: floor_div(top_left.x, gw), y: floor_div(top_left.y, gh) };
        let tr = AreaIndex { x: floor_div(top_right.x, gw), y: floor_div(top_right.y, gh) };
        let br = AreaIndex { x: floor_div(bottom_right.x, gw), y: floor_div(bottom_right.y, gh) };
        let bl = AreaIndex { x: tl.x, y: br.y };
        (tl, tr, br, bl)
    }

    /// The distinct cells among the corners' cells.
    fn fill_overlapping_areas(top_left: AreaIndex, top_right: AreaIndex, bottom_right: AreaIndex, bottom_left: AreaIndex) -> (r: Vec<AreaIndex>)
        requires
            top_right.y == top_left.y,
            bottom_left.x == top_left.x,
            bottom_left.y == bottom_right.y,
            bottom_right.x == top_right.x,
        ensures
            r@ == (if top_left.x == top_right.x && top_left.y == bottom_left.y {
                seq![top_left]
            } else if top_left.x == top_right.x {
                seq![top_left, bottom_left]
            } else if top_left.y == bottom_left.y {
                seq![top_left, top_right]
            } else {
                seq![top_left, bottom_left, top_right, bottom_right]
            }),
            r@.no_duplicates(),
    {
        let mut r: Vec<AreaIndex> = Vec::new();
        if top_left.x == top_right.x && top_left.y == bottom_left.y {
            r.push(top_left);
        } else if top_left.x == top_right.x {
            r.push(top_left);
            r.push(bottom_left);
        } else if top_left.y == bottom_left.y {
            r.push(top_left);
            r.push(top_right);
        } else {
            r.push(top_left);
            r.push(bottom_left);
            r.push(top_right);
            r.push(bottom_right);
        }
        r
    }

    /// A grid of `level_width / grid_area_width` by
    /// `level_height / grid_area_height` empty cells. Fails when a level
    /// dimension is not a multiple of the cell's.
    pub fn new(grid_area_width: i8, grid_area_height: i8, level_width: i8, level_height: i8) -> (r: Result<Collider, ColliderError>)
        requires
            0 < grid_area_width,
            0 < grid_area_height,
            0 <= level_width,
            0 <= level_height,
        ensures
            level_width % grid_area_width != 0 ==> r == Err::<Collider, ColliderError>(ColliderError::WrongLevelWidth),
            level_width % grid_area_width == 0 && level_height % grid_area_height != 0
                ==> r == Err::<Collider, ColliderError>(ColliderError::WrongLevelHeight),
            level_width % grid_area_width == 0 && level_height % grid_area_height == 0 ==> r is Ok,
            r matches Ok(c) ==> {
                &&& c.wf()
                &&& c.grid_area_width == grid_area_width
                &&& c.grid_area_height == grid_area_height
                &&& c.horizontal_area_count == level_width / grid_area_width
                &&& c.vertical_area_count == level_height / grid_area_height
                &&& forall|k: int| 0 <= k < c.objects_in_area@.len() ==> (#[trigger] c.objects_in_area@[k])@.len() == 0
            },
    {
        if level_width % grid_area_width != 0 {
            return Err(ColliderError::WrongLevelWidth);
        }
        if level_height % grid_area_height != 0 {
            return Err(ColliderError::WrongLevelHeight);
        }
        let horizontal_area_count = level_width / grid_area_width;
        let vertical_area_count = level_height / grid_area_height;
        assert(0 <= horizontal_area_count <= 127 && 0 <= vertical_area_count <= 127) by {
            crate::geometry::lemma_div_bounded(level_width as int, grid_area_width as int);
            crate::geometry::lemma_div_bounded(level_height as int, grid_area_height as int);
        }
        assert(horizontal_area_count * vertical_area_count <= 127 * 127) by (nonlinear_arith)
            requires
                0 <= horizontal_area_count <= 127,
                0 <= vertical_area_count <= 127,
        ;
        let cells = (horizontal_area_count as usize) * (vertical_area_count as usize);
        let mut objects_in_area: Vec<Vec<usize>> = Vec::new();
        let mut k: usize = 0;
        while k < cells
            invariant
                k <= cells,
                objects_in_area@.len() == k,
                forall|q: int| 0 <= q < k ==> (#[trigger] objects_in_area@[q])@.len() == 0,
            decreases cells - k,
        {
            objects_in_area.push(Vec::new());
            k = k + 1;
        }
        Ok(Collider {
            grid_area_width,
            grid_area_height,
            horizontal_area_count,
            vertical_area_count,
            objects_in_area,
        })
    }
}

} // verus!
