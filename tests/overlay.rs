use region_picker::overlay::{
    draw_shape_ops, draw_shapes, rectangle_corners, shape_strokes, DrawOp, Shape,
};

#[test]
fn rectangle_corners_in_traversal_order() {
    assert_eq!(
        rectangle_corners((10, 10), (50, 40)),
        vec![(10, 10), (50, 10), (50, 40), (10, 40)]
    );
}

#[test]
fn rectangle_corners_mirrored_are_kept() {
    assert_eq!(
        rectangle_corners((50, 40), (10, 10)),
        vec![(50, 40), (10, 40), (10, 10), (50, 10)]
    );
}

#[test]
fn square_strokes_close_the_rectangle() {
    assert_eq!(
        shape_strokes(&Shape::Square((10, 10), (50, 40))),
        vec![
            DrawOp::MoveTo(10, 10),
            DrawOp::LineTo(50, 10),
            DrawOp::LineTo(50, 40),
            DrawOp::LineTo(10, 40),
            DrawOp::LineTo(10, 10),
        ]
    );
}

#[test]
fn cross_strokes_have_half_length_ten() {
    assert_eq!(
        shape_strokes(&Shape::Cross((100, 200))),
        vec![
            DrawOp::MoveTo(90, 200),
            DrawOp::LineTo(110, 200),
            DrawOp::MoveTo(100, 190),
            DrawOp::LineTo(100, 210),
        ]
    );
}

#[test]
fn draw_shapes_by_click_count() {
    assert_eq!(draw_shapes(0, (1, 2), (3, 4)), vec![]);
    assert_eq!(draw_shapes(1, (1, 2), (3, 4)), vec![Shape::Cross((1, 2))]);
    assert_eq!(
        draw_shapes(2, (1, 2), (3, 4)),
        vec![Shape::Cross((1, 2)), Shape::Square((1, 2), (3, 4)), Shape::Cross((3, 4))]
    );
    assert_eq!(draw_shapes(3, (1, 2), (3, 4)), vec![]);
}

#[test]
fn draw_ops_without_context_do_nothing() {
    assert_eq!(draw_shape_ops(&Shape::Cross((5, 5)), false), vec![]);
}

#[test]
fn draw_ops_pair_every_resource() {
    assert_eq!(
        draw_shape_ops(&Shape::Cross((20, 30)), true),
        vec![
            DrawOp::CreatePen,
            DrawOp::SelectPen,
            DrawOp::MoveTo(10, 30),
            DrawOp::LineTo(30, 30),
            DrawOp::MoveTo(20, 20),
            DrawOp::LineTo(20, 40),
            DrawOp::RestorePen,
            DrawOp::DeletePen,
            DrawOp::ReleaseContext,
        ]
    );
}

#[test]
fn draw_cleanup_balanced_over_many_calls() {
    let calls = vec![
        (Shape::Cross((1, 1)), true),
        (Shape::Square((1, 1), (9, 9)), false),
        (Shape::Square((0, 0), (1920, 1080)), true),
        (Shape::Cross((1920, 0)), true),
    ];
    let mut ops = Vec::new();
    for (shape, acquired) in &calls {
        ops.extend(draw_shape_ops(shape, *acquired));
    }
    let count = |k: DrawOp| ops.iter().filter(|o| **o == k).count();
    assert_eq!(count(DrawOp::CreatePen), count(DrawOp::DeletePen));
    assert_eq!(count(DrawOp::SelectPen), count(DrawOp::RestorePen));
    assert_eq!(count(DrawOp::ReleaseContext), 3);
    assert_eq!(ops.last(), Some(&DrawOp::ReleaseContext));
}
