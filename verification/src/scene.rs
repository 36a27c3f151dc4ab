//! The scene builder.
//!
//! The scene is a grid of stacked boxes: `COLUMNS` columns of `ROWS` boxes
//! each, every box offset a little further sideways than the one below it,
//! plus one static ground box. The creation order of the columns is
//! randomized, but each body's geometry is a pure function of its column and
//! row indices, so the shuffle can never change the built layout -- only the
//! sequence in which equivalent bodies are realized.
//!
//! Positions are held in tenths of a scene unit, which keeps every
//! coordinate of the layout integral: the half size of a box is 0.5 units
//! (5 tenths), the per-row sideways offset 0.2 units, the column spacing
//! 5 units, and the leftmost column sits at -7.5 units.

use vstd::prelude::*;
use vstd::seq_lib::group_to_multiset_ensures;

verus! {

/// Boxes stacked in each column.
pub const ROWS: u32 = 30;

/// Columns of stacked boxes.
pub const COLUMNS: u32 = 4;

/// Half size of one box, in tenths of a unit.
pub const HALF_SIZE_TENTHS: i32 = 5;

/// Sideways offset added per row, in tenths of a unit.
pub const ROW_OFFSET_TENTHS: i32 = 2;

/// Horizontal spacing between column centers, in tenths of a unit.
pub const COLUMN_SPACING_TENTHS: i32 = 50;

/// X-coordinate of the leftmost column's base, in tenths of a unit.
pub const X_ROOT_TENTHS: i32 = -75;

/// Y-coordinate of the ground box center, in tenths of a unit.
pub const GROUND_Y_TENTHS: i32 = -20;

/// Horizontal half extent of the ground box, in tenths of a unit.
pub const GROUND_HALF_EXTENT_TENTHS: i32 = 500;

/// One dynamic body of the initial layout: a box of half size
/// `HALF_SIZE_TENTHS` at the recorded position.
#[derive(Clone, Copy, Debug, PartialEq, Eq, Structural)]
pub struct BodySpec {
    pub column: u32,
    pub row: u32,
    pub x_tenths: i32,
    pub y_tenths: i32,
    pub z_tenths: i32,
}

/// The static ground body: a box with the recorded half extents.
#[derive(Clone, Copy, Debug, PartialEq, Eq, Structural)]
pub struct GroundSpec {
    pub x_tenths: i32,
    pub y_tenths: i32,
    pub z_tenths: i32,
    pub half_extent_x_tenths: i32,
    pub half_extent_y_tenths: i32,
    pub half_extent_z_tenths: i32,
}

/// X-coordinate of the body of (`column`, `row`): the column's base
/// x-coordinate plus a sideways offset growing with the row.
pub open spec fn body_x_tenths(column: u32, row: u32) -> int {
    X_ROOT_TENTHS as int + column as int * COLUMN_SPACING_TENTHS as int + row as int
        * ROW_OFFSET_TENTHS as int
}

/// Y-coordinate of the body of row `row`: boxes stacked bottom to top.
pub open spec fn body_y_tenths(row: u32) -> int {
    HALF_SIZE_TENTHS as int + 2 * HALF_SIZE_TENTHS as int * row as int
}

/// The body of (`column`, `row`): geometry is a pure function of the two
/// indices, never of the order in which columns are realized.
pub open spec fn body_at(column: u32, row: u32) -> BodySpec {
    BodySpec {
        column,
        row,
        x_tenths: body_x_tenths(column, row) as i32,
        y_tenths: body_y_tenths(row) as i32,
        z_tenths: 0,
    }
}

/// The one static ground body of every scene.
pub open spec fn ground_spec() -> GroundSpec {
    GroundSpec {
        x_tenths: 0,
        y_tenths: GROUND_Y_TENTHS,
        z_tenths: 0,
        half_extent_x_tenths: GROUND_HALF_EXTENT_TENTHS,
        half_extent_y_tenths: HALF_SIZE_TENTHS,
        half_extent_z_tenths: GROUND_HALF_EXTENT_TENTHS,
    }
}

/// All dynamic bodies of the layout, one for every (column, row) pair.
pub open spec fn scene_bodies() -> Set<BodySpec> {
    Set::new(
        |b: BodySpec| exists|c: u32, r: u32| c < COLUMNS && r < ROWS && b == body_at(c, r),
    )
}

/// The column indices in their canonical order.
pub open spec fn column_ids() -> Seq<u32> {
    Seq::new(COLUMNS as nat, |i: int| i as u32)
}

/// `s` lists every column index exactly once, in any order.
pub open spec fn is_column_order(s: Seq<u32>) -> bool {
    s.to_multiset() == column_ids().to_multiset()
}

/// `bodies` is the creation sequence of a scene built column by column in
/// the order `order`: within each column the rows are realized bottom to
/// top, and every body's geometry comes from its indices alone.
pub open spec fn built_from(bodies: Seq<BodySpec>, order: Seq<u32>) -> bool {
    &&& bodies.len() == COLUMNS as int * ROWS as int
    &&& order.len() == COLUMNS as int
    &&& forall|c: int, t: int|
        0 <= c < COLUMNS as int && 0 <= t < ROWS as int ==> #[trigger] bodies[c * ROWS as int + t]
            == body_at(order[c], t as u32)
}

/// A column order lists `COLUMNS` indices, each below `COLUMNS`, and holds
/// every column index.
pub proof fn lemma_column_order_props(s: Seq<u32>)
    requires
        is_column_order(s),
    ensures
        s.len() == COLUMNS as int,
        forall|k: int| 0 <= k < s.len() ==> #[trigger] s[k] < COLUMNS,
        forall|c: u32| c < COLUMNS ==> s.contains(c),
{
    broadcast use group_to_multiset_ensures;

    assert(s.to_multiset().len() == s.len());
    assert(column_ids().to_multiset().len() == column_ids().len());
    assert forall|k: int| 0 <= k < s.len() implies #[trigger] s[k] < COLUMNS by {
        assert(s.contains(s[k]));
        assert(s.to_multiset().count(s[k]) > 0);
        assert(column_ids().contains(s[k]));
        let i = choose|i: int| 0 <= i < column_ids().len() && column_ids()[i] == s[k];
    }
    assert forall|c: u32| c < COLUMNS implies s.contains(c) by {
        assert(column_ids()[c as int] == c);
        assert(column_ids().contains(c));
        assert(column_ids().to_multiset().count(c) > 0);
        assert(s.to_multiset().count(c) > 0);
    }
}

/// Computes the dynamic body of (`column`, `row`).
pub fn dynamic_body(column: u32, row: u32) -> (r: BodySpec)
    requires
        column < COLUMNS,
        row < ROWS,
    ensures
        r == body_at(column, row),
{
    let x: i32 = X_ROOT_TENTHS + (column as i32) * COLUMN_SPACING_TENTHS + (row as i32)
        * ROW_OFFSET_TENTHS;
    let stack_step: i32 = 2 * HALF_SIZE_TENTHS;
    let y: i32 = HALF_SIZE_TENTHS + stack_step * (row as i32);
    BodySpec { column, row, x_tenths: x, y_tenths: y, z_tenths: 0 }
}

/// Computes the static ground body.
pub fn ground_body() -> (r: GroundSpec)
    ensures
        r == ground_spec(),
{
    GroundSpec {
        x_tenths: 0,
        y_tenths: GROUND_Y_TENTHS,
        z_tenths: 0,
        half_extent_x_tenths: GROUND_HALF_EXTENT_TENTHS,
        half_extent_y_tenths: HALF_SIZE_TENTHS,
        half_extent_z_tenths: GROUND_HALF_EXTENT_TENTHS,
    }
}

/// Relies on rand's `SliceRandom::shuffle`, a Fisher-Yates swap loop driven
/// by the thread-local generator: it permutes the slice in place.
#[verifier::external_body]
fn shuffle_in_place(v: &mut Vec<u32>)
    ensures
        final(v)@.to_multiset() == old(v)@.to_multiset(),
{
    rand::seq::SliceRandom::shuffle(v.as_mut_slice(), &mut rand::thread_rng());
}

/// Produces the column indices in a randomized creation order: every column
/// index exactly once. Which order comes back depends on the generator;
/// every outcome is a valid column order.
pub fn shuffled_columns() -> (r: Vec<u32>)
    ensures
        is_column_order(r@),
{
    let mut v: Vec<u32> = Vec::new();
    let mut c: u32 = 0;
    while c < COLUMNS
        invariant
            0 <= c <= COLUMNS,
            v@.len() == c as int,
            forall|k: int| 0 <= k < c as int ==> #[trigger] v@[k] == k as u32,
        decreases COLUMNS - c,
    {
        v.push(c);
        c = c + 1;
    }
    assert(v@ =~= column_ids());
    shuffle_in_place(&mut v);
    v
}

/// Builds the dynamic bodies of the scene, realizing the columns in the
/// order given: `ROWS` boxes per column, stacked bottom to top.
pub fn build_scene(order: &Vec<u32>) -> (r: Vec<BodySpec>)
    requires
        is_column_order(order@),
    ensures
        built_from(r@, order@),
        r@.to_set() == scene_bodies(),
{
    proof {
        lemma_column_order_props(order@);
    }
    let mut out: Vec<BodySpec> = Vec::new();
    let mut ci: usize = 0;
    while ci < order.len()
        invariant
            0 <= ci <= order@.len(),
            order@.len() == COLUMNS as int,
            forall|k: int| 0 <= k < order@.len() ==> #[trigger] order@[k] < COLUMNS,
            out@.len() == ci as int * ROWS as int,
            forall|c: int, t: int|
                0 <= c < ci as int && 0 <= t < ROWS as int ==> #[trigger] out@[c * ROWS as int + t]
                    == body_at(order@[c], t as u32),
        decreases order@.len() - ci,
    {
        let column = order[ci];
        let mut row: u32 = 0;
        while row < ROWS
            invariant
                0 <= ci < order@.len(),
                order@.len() == COLUMNS as int,
                forall|k: int| 0 <= k < order@.len() ==> #[trigger] order@[k] < COLUMNS,
                column == order@[ci as int],
                column < COLUMNS,
                0 <= row <= ROWS,
                out@.len() == ci as int * ROWS as int + row as int,
                forall|c: int, t: int|
                    0 <= c < ci as int && 0 <= t < ROWS as int ==> #[trigger] out@[c * ROWS as int
                        + t] == body_at(order@[c], t as u32),
                forall|t: int|
                    0 <= t < row as int ==> #[trigger] out@[ci as int * ROWS as int + t] == body_at(
                        column,
                        t as u32,
                    ),
            decreases ROWS - row,
        {
            let b = dynamic_body(column, row);
            out.push(b);
            row = row + 1;
        }
        ci = ci + 1;
    }
    proof {
        lemma_built_scene_set(out@, order@);
    }
    out
}

/// The creation sequence of any column order realizes exactly the bodies of
/// the layout: one body per (column, row) pair.
pub proof fn lemma_built_scene_set(bodies: Seq<BodySpec>, order: Seq<u32>)
    requires
        is_column_order(order),
        built_from(bodies, order),
    ensures
        bodies.to_set() == scene_bodies(),
{
    lemma_column_order_props(order);
    assert forall|b: BodySpec| bodies.to_set().contains(b) implies scene_bodies().contains(b) by {
        let k = choose|k: int| 0 <= k < bodies.len() && bodies[k] == b;
        let c = k / ROWS as int;
        let t = k % ROWS as int;
        assert(0 <= c < COLUMNS as int && 0 <= t < ROWS as int && k == c * ROWS as int + t) by (
        nonlinear_arith)
            requires
                0 <= k < COLUMNS as int * ROWS as int,
                c == k / ROWS as int,
                t == k % ROWS as int,
        ;
        assert(bodies[c * ROWS as int + t] == body_at(order[c], t as u32));
        assert(order[c] < COLUMNS && (t as u32) < ROWS);
    }
    assert forall|b: BodySpec| scene_bodies().contains(b) implies bodies.to_set().contains(b) by {
        let (c, r) = choose|c: u32, r: u32| c < COLUMNS && r < ROWS && b == body_at(c, r);
        assert(order.contains(c));
        let i = choose|i: int| 0 <= i < order.len() && order[i] == c;
        assert(bodies[i * ROWS as int + r as int] == body_at(c, r));
        assert(0 <= i * ROWS as int + (r as int) < bodies.len()) by (nonlinear_arith)
            requires
                0 <= i < COLUMNS as int,
                0 <= r < ROWS,
                bodies.len() == COLUMNS as int * ROWS as int,
        ;
        assert(bodies.contains(b));
    }
    assert(bodies.to_set() =~= scene_bodies());
}

/// Shuffle independence: scenes built from any two column creation orders
/// hold exactly the same bodies, so the randomized creation order can never
/// change the built layout.
pub proof fn lemma_shuffle_independence(
    o1: Seq<u32>,
    o2: Seq<u32>,
    b1: Seq<BodySpec>,
    b2: Seq<BodySpec>,
)
    requires
        is_column_order(o1),
        is_column_order(o2),
        built_from(b1, o1),
        built_from(b2, o2),
    ensures
        b1.to_set() == b2.to_set(),
{
    lemma_built_scene_set(b1, o1);
    lemma_built_scene_set(b2, o2);
}

} // verus!
