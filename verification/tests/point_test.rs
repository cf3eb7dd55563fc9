use svg_bot::rational::Scalar;
use svg_bot::rect::Rect;
use svg_bot::point::{SvgPoint, ScreenPoint, offset_to_screen};

fn areas() -> (Rect, Rect) {
    let svg_area = Rect::new(
        Scalar::from_int(2),
        Scalar::from_int(4),
        Scalar::from_int(5),
        Scalar::from_int(6),
    );
    let screen_area = Rect::new(
        Scalar::from_int(6),
        Scalar::from_int(5),
        Scalar::from_int(4),
        Scalar::from_int(3),
    );
    (svg_area, screen_area)
}

#[test]
fn svg_point_constructs_correctly() {
    let x = Scalar::from_int(1);
    let y = Scalar::from_int(3);
    let (svg_area, screen_area) = areas();

    let point = SvgPoint::new(x, y, &svg_area, &screen_area);

    assert_eq!(x, point.x());
    assert_eq!(y, point.y());
    assert_eq!(svg_area, *point.svg_area());
    assert_eq!(screen_area, *point.screen_area());
}

#[test]
fn screen_point_constructs_correctly() {
    let x = Scalar::from_int(1);
    let y = Scalar::from_int(3);
    let (svg_area, screen_area) = areas();

    let point = ScreenPoint::new(x, y, &svg_area, &screen_area);

    assert_eq!(x, point.x());
    assert_eq!(y, point.y());
    assert_eq!(svg_area, *point.svg_area());
    assert_eq!(screen_area, *point.screen_area());
}

#[test]
fn svg_point_constructed_from_screen_point_has_different_coords() {
    let x = Scalar::from_int(1);
    let y = Scalar::from_int(3);
    let (svg_area, screen_area) = areas();

    let screen_point = ScreenPoint::new(x, y, &svg_area, &screen_area);
    let svg_point = screen_point.to_svg().unwrap();

    assert_ne!(screen_point.x(), svg_point.x());
    assert_ne!(screen_point.y(), svg_point.y());
}

#[test]
fn screen_point_constructed_from_svg_point_has_different_coords() {
    let x = Scalar::from_int(1);
    let y = Scalar::from_int(3);
    let (svg_area, screen_area) = areas();

    let svg_point = SvgPoint::new(x, y, &svg_area, &screen_area);
    let screen_point = svg_point.to_screen().unwrap();

    assert_ne!(svg_point.x(), screen_point.x());
    assert_ne!(svg_point.y(), screen_point.y());
}

#[test]
fn svg_point_constructed_from_screen_point_has_same_areas() {
    let x = Scalar::from_int(1);
    let y = Scalar::from_int(3);
    let (svg_area, screen_area) = areas();

    let screen_point = ScreenPoint::new(x, y, &svg_area, &screen_area);
    let svg_point = screen_point.to_svg().unwrap();

    assert_eq!(*screen_point.svg_area(), *svg_point.svg_area());
    assert_eq!(*screen_point.screen_area(), *svg_point.screen_area());
}

#[test]
fn screen_point_constructed_from_svg_point_has_same_areas() {
    let x = Scalar::from_int(1);
    let y = Scalar::from_int(3);
    let (svg_area, screen_area) = areas();

    let svg_point = SvgPoint::new(x, y, &svg_area, &screen_area);
    let screen_point = svg_point.to_screen().unwrap();

    assert_eq!(*svg_point.svg_area(), *screen_point.svg_area());
    assert_eq!(*svg_point.screen_area(), *screen_point.screen_area());
}

#[test]
fn points_recalculation_works() {
    let x = Scalar::from_int(1);
    let y = Scalar::from_int(3);
    let (svg_area, screen_area) = areas();

    let svg_point = SvgPoint::new(x, y, &svg_area, &screen_area);
    let screen_point = svg_point.to_screen().unwrap();
    let recalculated_svg_point = screen_point.to_svg().unwrap();

    // the mapping is exact rational arithmetic, so the round trip is exact
    assert_eq!(svg_point.x(), recalculated_svg_point.x());
    assert_eq!(svg_point.y(), recalculated_svg_point.y());
}

#[test]
fn can_offset_svg_point() {
    let (svg_area, screen_area) = areas();
    let point = SvgPoint::new(Scalar::from_int(1), Scalar::from_int(3), &svg_area, &screen_area);

    let offset_x = Scalar::from_int(123);
    let offset_y = Scalar::from_int(321);
    let moved_point = point.clone().offset(offset_x, offset_y).unwrap();
    assert_eq!(moved_point.x(), Scalar::from_int(124));
    assert_eq!(moved_point.y(), Scalar::from_int(324));
}

#[test]
fn can_offset_screen_point() {
    let (svg_area, screen_area) = areas();
    let point = ScreenPoint::new(Scalar::from_int(1), Scalar::from_int(3), &svg_area, &screen_area);

    let offset_x = Scalar::from_int(123);
    let offset_y = Scalar::from_int(321);
    let moved_point = point.clone().offset(offset_x, offset_y).unwrap();
    assert_eq!(moved_point.x(), Scalar::from_int(124));
    assert_eq!(moved_point.y(), Scalar::from_int(324));
}

#[test]
fn mapped_offset_equals_difference_of_mapped_points() {
    let svg_area = Rect::new(
        Scalar::from_int(0),
        Scalar::from_int(0),
        Scalar::from_int(10),
        Scalar::from_int(10),
    );
    let screen_area = Rect::new(
        Scalar::from_int(0),
        Scalar::from_int(0),
        Scalar::from_int(100),
        Scalar::from_int(100),
    );
    let (ox, oy) = offset_to_screen(
        Scalar::from_int(2),
        Scalar::from_int(3),
        &svg_area,
        &screen_area,
    )
    .unwrap();
    assert_eq!(ox, Scalar::from_int(20));
    assert_eq!(oy, Scalar::from_int(30));

    let p = SvgPoint::new(Scalar::from_int(1), Scalar::from_int(1), &svg_area, &screen_area);
    let q = SvgPoint::new(Scalar::from_int(3), Scalar::from_int(4), &svg_area, &screen_area);
    let pm = p.to_screen().unwrap();
    let qm = q.to_screen().unwrap();
    assert_eq!(ox, qm.x().checked_sub(pm.x()).unwrap());
    assert_eq!(oy, qm.y().checked_sub(pm.y()).unwrap());
}
