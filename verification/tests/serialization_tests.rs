use nalgebra::Matrix4;

const MATRIX_STR: &str = "[1,0,0,0,0,1,0,0,0,0,1,0,0,0,0,1]";

#[test]
fn test_serialization() {
    let matrix: Matrix4<f32> = serde_json::from_str(MATRIX_STR).unwrap();
    assert!(approx::RelativeEq::relative_eq(
        &matrix,
        &Matrix4::identity(),
        f32::EPSILON,
        f32::EPSILON
    ));
}
