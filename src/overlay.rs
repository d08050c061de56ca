use vstd::prelude::*;

verus! {

/// Half the length of each arm of a cross.
pub const CROSS_HALF: i32 = 10;

/// Pen style of the overlay: a solid line.
pub const PEN_STYLE: i32 = 0;

/// Pen width of the overlay.
pub const PEN_WIDTH: i32 = 2;

/// Pen colour of the overlay, as red, green and blue.
pub const PEN_RED: u8 = 255;

pub const PEN_GREEN: u8 = 0;

pub const PEN_BLUE: u8 = 0;

/// A request to draw on the screen overlay.
#[derive(Clone, Copy, Debug, PartialEq, Eq)]
pub enum Shape {
    /// Two perpendicular segments centred on the point.
    Cross((i32, i32)),
    /// The rectangle whose opposite corners are the two points.
    Square((i32, i32), (i32, i32)),
}

/// One primitive on the screen's drawing context, once it has been acquired.
#[derive(Clone, Copy, Debug, PartialEq, Eq, Structural)]
pub enum DrawOp {
    /// Create the overlay pen (style, width and colour above).
    CreatePen,
    /// Select the new pen into the context, keeping the previous one.
    SelectPen,
    /// Move the current position without drawing.
    MoveTo(i32, i32),
    /// Draw a segment from the current position to the point.
    LineTo(i32, i32),
    /// Select the previous pen back into the context.
    RestorePen,
    /// Delete the pen that was created.
    DeletePen,
    /// Release the drawing context.
    ReleaseContext,
}

/// Whether each coordinate of a cross's arms fits in an `i32`.
pub open spec fn drawable(s: Shape) -> bool {
    match s {
        Shape::Cross(p) => i32::MIN + CROSS_HALF <= p.0 <= i32::MAX - CROSS_HALF
            && i32::MIN + CROSS_HALF <= p.1 <= i32::MAX - CROSS_HALF,
        Shape::Square(_, _) => true,
    }
}

/// The corners of the rectangle spanned by `p1` and `p2`, in the order of
/// traversal: start, along the top edge, down the right edge, back along
/// the bottom edge. Mirrored or degenerate rectangles are kept as they are.
pub open spec fn rect_corners(p1: (i32, i32), p2: (i32, i32)) -> Seq<(i32, i32)> {
    seq![(p1.0, p1.1), (p2.0, p1.1), (p2.0, p2.1), (p1.0, p2.1)]
}

/// The pen movements that draw a shape.
pub open spec fn strokes_spec(s: Shape) -> Seq<DrawOp> {
    match s {
        Shape::Cross(p) => seq![
            DrawOp::MoveTo((p.0 - CROSS_HALF) as i32, p.1),
            DrawOp::LineTo((p.0 + CROSS_HALF) as i32, p.1),
            DrawOp::MoveTo(p.0, (p.1 - CROSS_HALF) as i32),
            DrawOp::LineTo(p.0, (p.1 + CROSS_HALF) as i32),
        ],
        Shape::Square(p1, p2) => {
            let c = rect_corners(p1, p2);
            seq![
                DrawOp::MoveTo(c[0].0, c[0].1),
                DrawOp::LineTo(c[1].0, c[1].1),
                DrawOp::LineTo(c[2].0, c[2].1),
                DrawOp::LineTo(c[3].0, c[3].1),
                DrawOp::LineTo(c[0].0, c[0].1),
            ]
        },
    }
}

/// The primitives issued for one shape once the attempt to acquire the
/// drawing context is known: nothing when it failed; otherwise the pen is
/// set up, the strokes are drawn, and the pen and the context are given
/// back. The outcome of a stroke is never consulted, so the cleanup runs
/// whether or not each stroke succeeded.
pub open spec fn plan_spec(s: Shape, acquired: bool) -> Seq<DrawOp> {
    if acquired {
        seq![DrawOp::CreatePen, DrawOp::SelectPen] + strokes_spec(s) + seq![
            DrawOp::RestorePen,
            DrawOp::DeletePen,
            DrawOp::ReleaseContext,
        ]
    } else {
        seq![]
    }
}

/// The shapes that show a selection with `click` corners recorded.
pub open spec fn shapes_spec(click: int, p1: (i32, i32), p2: (i32, i32)) -> Seq<Shape> {
    if click == 1 {
        seq![Shape::Cross(p1)]
    } else if click == 2 {
        seq![Shape::Cross(p1), Shape::Square(p1, p2), Shape::Cross(p2)]
    } else {
        seq![]
    }
}

/// The four corners of the rectangle spanned by `p1` and `p2`, in the
/// order in which its edges are drawn.
pub fn rectangle_corners(p1: (i32, i32), p2: (i32, i32)) -> (r: Vec<(i32, i32)>)
    ensures
        r@ == rect_corners(p1, p2),
{
    let r = vec![(p1.0, p1.1), (p2.0, p1.1), (p2.0, p2.1), (p1.0, p2.1)];
    assert(r@ =~= rect_corners(p1, p2));
    r
}

/// The pen movements that draw `shape`.
pub fn shape_strokes(shape: &Shape) -> (r: Vec<DrawOp>)
    requires
        drawable(*shape),
    ensures
        r@ == strokes_spec(*shape),
{
    match shape {
        Shape::Cross(p) => {
            let (x, y) = *p;
            let left = x - CROSS_HALF;
            let right = x + CROSS_HALF;
            let top = y - CROSS_HALF;
            let bottom = y + CROSS_HALF;
            let r = vec![
                DrawOp::MoveTo(left, y),
                DrawOp::LineTo(right, y),
                DrawOp::MoveTo(x, top),
                DrawOp::LineTo(x, bottom),
            ];
            assert(r@ =~= strokes_spec(*shape));
            r
        },
        Shape::Square(p1, p2) => {
            let c = rectangle_corners(*p1, *p2);
            let r = vec![
                DrawOp::MoveTo(c[0].0, c[0].1),
                DrawOp::LineTo(c[1].0, c[1].1),
                DrawOp::LineTo(c[2].0, c[2].1),
                DrawOp::LineTo(c[3].0, c[3].1),
                DrawOp::LineTo(c[0].0, c[0].1),
            ];
            assert(r@ =~= strokes_spec(*shape));
            r
        },
    }
}

/// The primitives to issue for `shape`, given whether the screen's
/// drawing context was acquired.
pub fn draw_shape_ops(shape: &Shape, context_acquired: bool) -> (r: Vec<DrawOp>)
    requires
        drawable(*shape),
    ensures
        r@ == plan_spec(*shape, context_acquired),
{
    let mut r: Vec<DrawOp> = Vec::new();
    if !context_acquired {
        assert(r@ =~= plan_spec(*shape, context_acquired));
        return r;
    }
    r.push(DrawOp::CreatePen);
    r.push(DrawOp::SelectPen);
    let mut strokes = shape_strokes(shape);
    r.append(&mut strokes);
    r.push(DrawOp::RestorePen);
    r.push(DrawOp::DeletePen);
    r.push(DrawOp::ReleaseContext);
    assert(r@ =~= plan_spec(*shape, context_acquired));
    r
}

/// The shapes that show a selection with `click` corners recorded: a cross
/// at the first corner, and once there are two, the rectangle and a cross
/// at the second corner too.
pub fn draw_shapes(click: i32, p1: (i32, i32), p2: (i32, i32)) -> (r: Vec<Shape>)
    ensures
        r@ == shapes_spec(click as int, p1, p2),
{
    let r = match click {
        1 => vec![Shape::Cross(p1)],
        2 => vec![Shape::Cross(p1), Shape::Square(p1, p2), Shape::Cross(p2)],
        _ => Vec::new(),
    };
    assert(r@ =~= shapes_spec(click as int, p1, p2));
    r
}

/// How many times `k` occurs in `ops`.
pub open spec fn count_of(ops: Seq<DrawOp>, k: DrawOp) -> nat
    decreases ops.len(),
{
    if ops.len() == 0 {
        0
    } else {
        count_of(ops.drop_last(), k) + if ops.last() == k {
            1nat
        } else {
            0nat
        }
    }
}

/// The primitives issued by a sequence of draw calls, each given with
/// whether its drawing context was acquired.
pub open spec fn plans_spec(calls: Seq<(Shape, bool)>) -> Seq<DrawOp>
    decreases calls.len(),
{
    if calls.len() == 0 {
        seq![]
    } else {
        plans_spec(calls.drop_last()) + plan_spec(calls.last().0, calls.last().1)
    }
}

/// How many of the draw calls acquired their drawing context.
pub open spec fn acquired_count(calls: Seq<(Shape, bool)>) -> nat
    decreases calls.len(),
{
    if calls.len() == 0 {
        0
    } else {
        acquired_count(calls.drop_last()) + if calls.last().1 {
            1nat
        } else {
            0nat
        }
    }
}

/// Whether `k` is one of the primitives that set up or give back a resource.
pub open spec fn is_resource_op(k: DrawOp) -> bool {
    ||| k == DrawOp::CreatePen
    ||| k == DrawOp::SelectPen
    ||| k == DrawOp::RestorePen
    ||| k == DrawOp::DeletePen
    ||| k == DrawOp::ReleaseContext
}

proof fn lemma_count_of_push(ops: Seq<DrawOp>, x: DrawOp, k: DrawOp)
    ensures
        count_of(ops.push(x), k) == count_of(ops, k) + if x == k {
            1nat
        } else {
            0nat
        },
{
    assert(ops.push(x).drop_last() =~= ops);
}

proof fn lemma_count_of_add(a: Seq<DrawOp>, b: Seq<DrawOp>, k: DrawOp)
    ensures
        count_of(a + b, k) == count_of(a, k) + count_of(b, k),
    decreases b.len(),
{
    if b.len() == 0 {
        assert(a + b =~= a);
    } else {
        lemma_count_of_add(a, b.drop_last(), k);
        assert((a + b).drop_last() =~= a + b.drop_last());
    }
}

proof fn lemma_count_of_absent(ops: Seq<DrawOp>, k: DrawOp)
    requires
        forall|i: int| 0 <= i < ops.len() ==> ops[i] != k,
    ensures
        count_of(ops, k) == 0,
    decreases ops.len(),
{
    if ops.len() > 0 {
        lemma_count_of_absent(ops.drop_last(), k);
    }
}

/// Each resource primitive occurs exactly once in the plan of a call whose
/// context was acquired, and not at all otherwise.
proof fn lemma_plan_counts(s: Shape, acquired: bool, k: DrawOp)
    requires
        is_resource_op(k),
    ensures
        count_of(plan_spec(s, acquired), k) == if acquired {
            1nat
        } else {
            0nat
        },
{
    if acquired {
        let pre = seq![DrawOp::CreatePen, DrawOp::SelectPen];
        let post = seq![DrawOp::RestorePen, DrawOp::DeletePen, DrawOp::ReleaseContext];
        let st = strokes_spec(s);
        let e = Seq::<DrawOp>::empty();
        assert(count_of(e, k) == 0);
        assert(pre =~= e.push(DrawOp::CreatePen).push(DrawOp::SelectPen));
        assert(post =~= e.push(DrawOp::RestorePen).push(DrawOp::DeletePen).push(
            DrawOp::ReleaseContext,
        ));
        lemma_count_of_push(e, DrawOp::CreatePen, k);
        lemma_count_of_push(e.push(DrawOp::CreatePen), DrawOp::SelectPen, k);
        lemma_count_of_push(e, DrawOp::RestorePen, k);
        lemma_count_of_push(e.push(DrawOp::RestorePen), DrawOp::DeletePen, k);
        lemma_count_of_push(
            e.push(DrawOp::RestorePen).push(DrawOp::DeletePen),
            DrawOp::ReleaseContext,
            k,
        );
        assert forall|i: int| 0 <= i < st.len() implies st[i] != k by {
            assert(st[i] is MoveTo || st[i] is LineTo);
        }
        lemma_count_of_absent(st, k);
        lemma_count_of_add(pre, st, k);
        lemma_count_of_add(pre + st, post, k);
    } else {
        assert(count_of(Seq::<DrawOp>::empty(), k) == 0);
    }
}

proof fn lemma_plans_counts(calls: Seq<(Shape, bool)>, k: DrawOp)
    requires
        is_resource_op(k),
    ensures
        count_of(plans_spec(calls), k) == acquired_count(calls),
    decreases calls.len(),
{
    if calls.len() == 0 {
        assert(count_of(Seq::<DrawOp>::empty(), k) == 0);
    } else {
        lemma_plans_counts(calls.drop_last(), k);
        lemma_plan_counts(calls.last().0, calls.last().1, k);
        lemma_count_of_add(
            plans_spec(calls.drop_last()),
            plan_spec(calls.last().0, calls.last().1),
            k,
        );
    }
}

/// Drawing never leaks a resource. Over any sequence of draw calls, as many
/// pens are created as are deleted, the previous pen is selected back as
/// often as the new one was selected, and the drawing context is released
/// once for each call that acquired it: exactly once within that call's
/// primitives, as their last step, and never by a call that did not. The
/// strokes' outcomes are no input of a plan, so this holds whichever of
/// them fail.
pub proof fn lemma_draw_cleanup_balanced(calls: Seq<(Shape, bool)>)
    ensures
        count_of(plans_spec(calls), DrawOp::CreatePen) == count_of(
            plans_spec(calls),
            DrawOp::DeletePen,
        ),
        count_of(plans_spec(calls), DrawOp::SelectPen) == count_of(
            plans_spec(calls),
            DrawOp::RestorePen,
        ),
        count_of(plans_spec(calls), DrawOp::ReleaseContext) == acquired_count(calls),
        forall|i: int|
            0 <= i < calls.len() ==> count_of(
                #[trigger] plan_spec(calls[i].0, calls[i].1),
                DrawOp::ReleaseContext,
            ) == if calls[i].1 {
                1nat
            } else {
                0nat
            },
        forall|i: int|
            0 <= i < calls.len() && calls[i].1 ==> #[trigger] plan_spec(calls[i].0, calls[i].1).last()
                == DrawOp::ReleaseContext,
{
    lemma_plans_counts(calls, DrawOp::CreatePen);
    lemma_plans_counts(calls, DrawOp::DeletePen);
    lemma_plans_counts(calls, DrawOp::SelectPen);
    lemma_plans_counts(calls, DrawOp::RestorePen);
    lemma_plans_counts(calls, DrawOp::ReleaseContext);
    assert forall|i: int| 0 <= i < calls.len() implies count_of(
        #[trigger] plan_spec(calls[i].0, calls[i].1),
        DrawOp::ReleaseContext,
    ) == if calls[i].1 {
        1nat
    } else {
        0nat
    } by {
        lemma_plan_counts(calls[i].0, calls[i].1, DrawOp::ReleaseContext);
    }
}

} // verus!
