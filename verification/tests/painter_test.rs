use svg_bot::rational::Scalar;
use svg_bot::rect::Rect;
use svg_bot::painter::{Painter, PathCommand, PointerAction, Position, CommandOutcome};

fn session() -> Painter {
    let svg_area = Rect::new(
        Scalar::from_int(0),
        Scalar::from_int(0),
        Scalar::from_int(10),
        Scalar::from_int(10),
    );
    let screen_area = Rect::new(
        Scalar::from_int(0),
        Scalar::from_int(0),
        Scalar::from_int(100),
        Scalar::from_int(100),
    );
    Painter::new(svg_area, screen_area)
}

fn ints(values: &[i64]) -> Vec<Scalar> {
    let mut out: Vec<Scalar> = Vec::new();
    for v in values {
        out.push(Scalar::from_int(*v));
    }
    out
}

fn move_to(x: i64, y: i64) -> PointerAction {
    PointerAction::MoveTo(Scalar::from_int(x), Scalar::from_int(y))
}

fn drawn(outcome: Result<CommandOutcome, svg_bot::my_error::MyError>) -> Vec<PointerAction> {
    match outcome.unwrap() {
        CommandOutcome::Drawn(acts) => acts,
        CommandOutcome::Unsupported => panic!("expected a drawn stroke"),
    }
}

#[test]
fn move_with_extra_pairs_draws_an_implicit_line() {
    let mut painter = session();
    let cmd = PathCommand::Move(Position::Absolute, ints(&[1, 1, 3, 3, 5, 5]));
    let acts = drawn(painter.perform_command(&cmd));

    let expected = vec![
        PointerAction::Release,
        move_to(10, 10),
        PointerAction::Press,
        move_to(30, 30),
        move_to(50, 50),
    ];
    assert_eq!(acts, expected);
    assert_eq!(painter.current_point.x(), Scalar::from_int(5));
    assert_eq!(painter.current_point.y(), Scalar::from_int(5));
    assert_eq!(painter.subpath_initial_point.unwrap().x(), Scalar::from_int(1));
    assert_eq!(painter.subpath_initial_point.unwrap().y(), Scalar::from_int(1));
}

#[test]
fn move_with_one_pair_only_releases() {
    let mut painter = session();
    let cmd = PathCommand::Move(Position::Absolute, ints(&[2, 7]));
    let acts = drawn(painter.perform_command(&cmd));
    assert_eq!(acts, vec![PointerAction::Release]);
    assert_eq!(painter.current_point.x(), Scalar::from_int(2));
    assert_eq!(painter.current_point.y(), Scalar::from_int(7));
}

#[test]
fn relative_move_resolves_against_the_pen() {
    let mut painter = session();
    painter.perform_command(&PathCommand::Move(Position::Absolute, ints(&[2, 2]))).unwrap();
    let acts = drawn(painter.perform_command(&PathCommand::Move(Position::Relative, ints(&[1, 1]))));

    assert_eq!(acts, vec![PointerAction::Release]);
    // the pen ends on the resolved pair, the same point that opens the subpath
    assert_eq!(painter.current_point.x(), Scalar::from_int(3));
    assert_eq!(painter.current_point.y(), Scalar::from_int(3));
    assert_eq!(painter.subpath_initial_point.unwrap().x(), Scalar::from_int(3));
    assert_eq!(painter.subpath_initial_point.unwrap().y(), Scalar::from_int(3));
}

#[test]
fn relative_move_with_extra_pairs_lines_from_the_resolved_start() {
    let mut painter = session();
    painter.perform_command(&PathCommand::Move(Position::Absolute, ints(&[2, 2]))).unwrap();
    let acts = drawn(
        painter.perform_command(&PathCommand::Move(Position::Relative, ints(&[1, 1, 2, 2]))),
    );

    let expected = vec![
        PointerAction::Release,
        move_to(30, 30),
        PointerAction::Press,
        move_to(50, 50),
    ];
    assert_eq!(acts, expected);
    assert_eq!(painter.current_point.x(), Scalar::from_int(5));
    assert_eq!(painter.current_point.y(), Scalar::from_int(5));
    assert_eq!(painter.subpath_initial_point.unwrap().x(), Scalar::from_int(3));
    assert_eq!(painter.subpath_initial_point.unwrap().y(), Scalar::from_int(3));
}

#[test]
fn relative_line_accumulates_in_source_space() {
    let mut painter = session();
    painter.perform_command(&PathCommand::Move(Position::Absolute, ints(&[2, 2]))).unwrap();
    let acts = drawn(
        painter.perform_command(&PathCommand::Line(Position::Relative, ints(&[1, 1, 1, 1]))),
    );

    assert_eq!(painter.current_point.x(), Scalar::from_int(4));
    assert_eq!(painter.current_point.y(), Scalar::from_int(4));
    let expected = vec![
        move_to(20, 20),
        PointerAction::Press,
        move_to(30, 30),
        move_to(40, 40),
    ];
    assert_eq!(acts, expected);
}

#[test]
fn cubic_curve_resolves_to_eleven_samples() {
    let mut painter = session();
    let cmd = PathCommand::CubicCurve(Position::Absolute, ints(&[1, 1, 2, 2, 3, 3]));
    let acts = drawn(painter.perform_command(&cmd));

    // the pen's own position, a press, then the eleven samples
    assert_eq!(acts.len(), 13);
    assert_eq!(acts[0], move_to(0, 0));
    assert_eq!(acts[1], PointerAction::Press);
    // the first sample is the mapped pen position, the last the mapped endpoint
    assert_eq!(acts[2], move_to(0, 0));
    assert_eq!(acts[12], move_to(30, 30));
    // the half-way sample: with collinear control points the curve passes
    // through B(1/2) = 3/2 in source units, 15 in destination units
    assert_eq!(acts[7], move_to(15, 15));
    let mut presses: usize = 0;
    let mut moves: usize = 0;
    for a in &acts {
        match a {
            PointerAction::MoveTo(_, _) => moves += 1,
            PointerAction::Press => presses += 1,
            PointerAction::Release => {},
        }
    }
    assert_eq!(moves, 12);
    assert_eq!(presses, 1);
}

#[test]
fn cubic_curve_with_too_few_parameters_is_unsupported() {
    let mut painter = session();
    let before = painter.current_point;
    let cmd = PathCommand::CubicCurve(Position::Absolute, ints(&[1, 1, 2, 2]));
    let outcome = painter.perform_command(&cmd).unwrap();
    assert!(matches!(outcome, CommandOutcome::Unsupported));
    assert_eq!(painter.current_point, before);
    assert!(painter.subpath_initial_point.is_none());
}

#[test]
fn close_as_first_command_draws_a_degenerate_stroke() {
    let mut painter = session();
    let acts = drawn(painter.perform_command(&PathCommand::Close));

    let expected = vec![
        move_to(0, 0),
        PointerAction::Press,
        move_to(0, 0),
        move_to(0, 0),
    ];
    assert_eq!(acts, expected);
    assert!(painter.subpath_initial_point.is_none());
    assert_eq!(painter.current_point.x(), Scalar::from_int(0));
    assert_eq!(painter.current_point.y(), Scalar::from_int(0));
}

#[test]
fn close_clears_the_subpath_and_returns_to_its_start() {
    let mut painter = session();
    painter.perform_command(&PathCommand::Move(Position::Absolute, ints(&[1, 1]))).unwrap();
    painter.perform_command(&PathCommand::Line(Position::Absolute, ints(&[4, 1]))).unwrap();
    let acts = drawn(painter.perform_command(&PathCommand::Close));

    let expected = vec![
        move_to(40, 10),
        PointerAction::Press,
        move_to(40, 10),
        move_to(10, 10),
    ];
    assert_eq!(acts, expected);
    assert!(painter.subpath_initial_point.is_none());
    assert_eq!(painter.current_point.x(), Scalar::from_int(1));
    assert_eq!(painter.current_point.y(), Scalar::from_int(1));
}

#[test]
fn elliptical_arc_is_a_reported_no_op() {
    let mut painter = session();
    let before_point = painter.current_point;
    let cmd = PathCommand::EllipticalArc(Position::Absolute, ints(&[5, 5, 0, 0, 1, 7, 7]));
    let outcome = painter.perform_command(&cmd).unwrap();

    assert!(matches!(outcome, CommandOutcome::Unsupported));
    assert_eq!(painter.current_point, before_point);
    assert!(painter.subpath_initial_point.is_none());
}

#[test]
fn quadratic_and_smooth_curves_are_reported_no_ops() {
    let mut painter = session();
    let q = painter
        .perform_command(&PathCommand::QuadraticCurve(Position::Absolute, ints(&[1, 1, 2, 2])))
        .unwrap();
    let sq = painter
        .perform_command(&PathCommand::SmoothQuadraticCurve(Position::Relative, ints(&[2, 2])))
        .unwrap();
    let sc = painter
        .perform_command(&PathCommand::SmoothCubicCurve(Position::Relative, ints(&[1, 1, 2, 2])))
        .unwrap();
    assert!(matches!(q, CommandOutcome::Unsupported));
    assert!(matches!(sq, CommandOutcome::Unsupported));
    assert!(matches!(sc, CommandOutcome::Unsupported));
    assert_eq!(painter.current_point.x(), Scalar::from_int(0));
    assert!(painter.subpath_initial_point.is_none());
}

#[test]
fn horizontal_line_holds_the_vertical_coordinate() {
    let mut painter = session();
    painter.perform_command(&PathCommand::Move(Position::Absolute, ints(&[1, 2]))).unwrap();
    let acts = drawn(
        painter.perform_command(&PathCommand::HorizontalLine(Position::Absolute, ints(&[5, 7]))),
    );

    let expected = vec![
        move_to(10, 20),
        PointerAction::Press,
        move_to(50, 20),
        move_to(70, 20),
    ];
    assert_eq!(acts, expected);
    assert_eq!(painter.current_point.x(), Scalar::from_int(7));
    assert_eq!(painter.current_point.y(), Scalar::from_int(2));
}

#[test]
fn vertical_line_accumulates_relative_offsets() {
    let mut painter = session();
    painter.perform_command(&PathCommand::Move(Position::Absolute, ints(&[1, 2]))).unwrap();
    let acts = drawn(
        painter.perform_command(&PathCommand::VerticalLine(Position::Relative, ints(&[3, 4]))),
    );

    let expected = vec![
        move_to(10, 20),
        PointerAction::Press,
        move_to(10, 50),
        move_to(10, 90),
    ];
    assert_eq!(acts, expected);
    assert_eq!(painter.current_point.x(), Scalar::from_int(1));
    assert_eq!(painter.current_point.y(), Scalar::from_int(9));
}

#[test]
fn overflow_in_a_relative_line_is_an_error_and_changes_nothing() {
    let mut painter = session();
    painter
        .perform_command(&PathCommand::Move(Position::Absolute, ints(&[i64::MAX, 0])))
        .unwrap();
    let before_x = painter.current_point.x();
    let result = painter.perform_command(&PathCommand::Line(Position::Relative, ints(&[1, 1])));
    assert!(result.is_err());
    assert_eq!(painter.current_point.x(), before_x);
    assert_eq!(painter.current_point.y(), Scalar::from_int(0));
}

#[test]
fn close_without_open_subpath_called_directly_is_an_error() {
    let mut painter = session();
    let result = painter.perform_close();
    assert!(result.is_err());
    let message = result.err().unwrap();
    assert!(!message.message().is_empty());
}

#[test]
fn fresh_painter_starts_at_the_origin_with_no_subpath() {
    let painter = session();
    assert_eq!(painter.current_point.x(), Scalar::from_int(0));
    assert_eq!(painter.current_point.y(), Scalar::from_int(0));
    assert!(painter.subpath_initial_point.is_none());
}
