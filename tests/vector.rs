use stones::number_traits::Scalar;
use stones::vector::{
    vec2_add, vec2_dot, vec2_mul, vec2_sub, vec3_add, vec3_cross, vec3_dot, vec3_mul, vec3_sub,
    vec4_add, vec4_dot, vec4_mul, vec4_sub,
};

#[test]
fn vec2_add_example() {
    assert_eq!(vec2_add([5, 3], [12, -8]), [17, -5]);
}

#[test]
fn vec3_add_example() {
    assert_eq!(vec3_add([5, 3, 7], [12, -8, -2]), [17, -5, 5]);
}

#[test]
fn vec4_add_example() {
    assert_eq!(vec4_add([5, 3, 7, 2], [12, -8, -2, 1]), [17, -5, 5, 3]);
}

#[test]
fn vec2_sub_example() {
    assert_eq!(vec2_sub([5, 3], [12, -8]), [-7, 11]);
}

#[test]
fn vec3_sub_example() {
    assert_eq!(vec3_sub([5, 3, 7], [12, -8, -2]), [-7, 11, 9]);
}

#[test]
fn vec4_sub_example() {
    assert_eq!(vec4_sub([5, 3, 7, 2], [12, -8, -2, 1]), [-7, 11, 9, 1]);
}

#[test]
fn vec2_mul_example() {
    assert_eq!(vec2_mul([5, 3], 2), [10, 6]);
}

#[test]
fn vec3_mul_example() {
    assert_eq!(vec3_mul([5, 3, 7], 2), [10, 6, 14]);
}

#[test]
fn vec4_mul_example() {
    assert_eq!(vec4_mul([5, 3, 7, 2], 2), [10, 6, 14, 4]);
}

#[test]
fn vec2_dot_example() {
    assert_eq!(vec2_dot([3, -4], [5, 6]), -9);
}

#[test]
fn vec3_dot_example() {
    assert_eq!(vec3_dot([6, -8, 20], [0, 10, 10]), 120);
}

#[test]
fn vec4_dot_example() {
    assert_eq!(vec4_dot([1i64, 2, 3, 4], [5, 6, 7, 8]), 70);
}

#[test]
fn vec3_cross_unit_axes() {
    assert_eq!(vec3_cross([1, 0, 0], [0, 1, 0]), [0, 0, 1]);
}

#[test]
fn vec3_cross_general() {
    assert_eq!(vec3_cross([1, 2, 3], [4, 5, 6]), [-3, 6, -3]);
}

#[test]
fn cross_is_anticommutative() {
    let a = [3, -1, 7];
    let b = [2, 5, -4];
    assert_eq!(vec3_cross(a, b), vec3_mul(vec3_cross(b, a), -1));
}

#[test]
fn cross_with_itself_is_zero() {
    assert_eq!(vec3_cross([9, -2, 4], [9, -2, 4]), [0, 0, 0]);
}

#[test]
fn dot_is_commutative() {
    let a = [3, -1, 7, 2];
    let b = [2, 5, -4, 11];
    assert_eq!(vec4_dot(a, b), vec4_dot(b, a));
    assert_eq!(vec4_dot(a, b), -5);
}

#[test]
fn vector_sub_undoes_add() {
    let a = [3, -1, 7];
    let b = [i32::MAX, i32::MIN, 12];
    assert_eq!(vec3_sub(vec3_add(a, b), b), a);
}

#[test]
fn vector_add_wraps_on_overflow() {
    assert_eq!(vec2_add([i32::MAX, i32::MIN], [1, -1]), [i32::MIN, i32::MAX]);
    assert_eq!(vec2_add([i64::MAX, 0], [1, 0]), [i64::MIN, 0]);
}

#[test]
fn vector_scale_wraps_on_overflow() {
    assert_eq!(vec2_mul([65536, 3], 65536), [0, 196608]);
    assert_eq!(vec2_mul([i32::MIN, 1], -1), [i32::MIN, -1]);
}

#[test]
fn dot_wraps_on_overflow() {
    assert_eq!(vec2_dot([i32::MAX, 1], [1, 1]), i32::MIN);
    assert_eq!(vec2_dot([i32::MAX, i32::MIN], [1, 1]), -1);
}

#[test]
fn scalar_ops_on_vectors_agree() {
    let a = [4i64, -9];
    let b = [7i64, 3];
    assert_eq!(vec2_dot(a, b), a[0].times(b[0]).plus(a[1].times(b[1])));
}
