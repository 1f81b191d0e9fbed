use robotics::types::{Point, Point2D};

#[test]
fn point2d_test() {
    let p = Point2D::new(1, 2, "A");

    assert_eq!(1, p.x);
    assert_eq!(2, p.y);
    assert_eq!("A", p.frame_name);
}

#[test]
fn point_test() {
    let p = Point::new(1, 1, 3, "B");
    assert_eq!(1, p.x);
    assert_eq!(1, p.y);
    assert_eq!(3, p.z);
    assert_eq!("B", p.frame_name);
}
