use orbital::number::{clamp, Dual, Vector3};

#[test]
fn vector_new_holds_components() {
    let v = Vector3::new(1i64, -2, 3);
    assert_eq!((v.x, v.y, v.z), (1, -2, 3));
}

#[test]
fn cross_of_unit_axes() {
    let x = Vector3::new(1i64, 0, 0);
    let y = Vector3::new(0i64, 1, 0);
    assert_eq!(x.cross(y), Vector3::new(0, 0, 1));
    assert_eq!(y.cross(x), Vector3::new(0, 0, -1));
}

#[test]
fn cross_of_general_vectors() {
    let a = Vector3::new(2i64, 3, 4);
    let b = Vector3::new(5i64, 6, 7);
    assert_eq!(a.cross(b), Vector3::new(-3, 6, -3));
}

#[test]
fn len2_sums_squares() {
    assert_eq!(Vector3::new(1i64, -2, 3).len2(), 14);
    assert_eq!(Vector3::new(0i64, 0, 0).len2(), 0);
}

#[test]
fn clamp_limits_each_component() {
    let v = Vector3::new(-5i64, 0, 9).clamp(-1, 1);
    assert_eq!(v, Vector3::new(-1, 0, 1));
}

#[test]
fn clamp_scalar() {
    assert_eq!(clamp(5, 0, 10), 5);
    assert_eq!(clamp(-3, 0, 10), 0);
    assert_eq!(clamp(12, 0, 10), 10);
    assert_eq!(clamp(10, 0, 10), 10);
}

#[test]
fn dual_new_compares_by_parts() {
    assert_eq!(Dual::new(1i64, 2), Dual::new(1i64, 2));
    assert_ne!(Dual::new(1i64, 2), Dual::new(2i64, 1));
}
