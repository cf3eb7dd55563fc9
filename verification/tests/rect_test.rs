use svg_bot::rational::Scalar;
use svg_bot::rect::Rect;

#[test]
fn rect_constructs_correctly() {
    let x = Scalar::from_int(123);
    let y = Scalar::from_int(321);
    let width = Scalar::from_int(10);
    let height = Scalar::from_int(20);
    let rect = Rect::new(x, y, width, height);

    assert_eq!(x, rect.x());
    assert_eq!(y, rect.y());
    assert_eq!(width, rect.width());
    assert_eq!(height, rect.height());
}
