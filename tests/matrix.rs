use stones::matrix::{
    mat2_add, mat2_identity, mat2_mul, mat2_scale, mat2_sub, mat3_add, mat3_identity, mat3_mul,
    mat3_scale, mat3_sub, mat4_add, mat4_identity, mat4_mul, mat4_scale, mat4_sub,
    mat4_transform_vec,
};

#[test]
fn mat2_identity_example() {
    assert_eq!(mat2_identity::<i32>(), [1, 0, 0, 1]);
}

#[test]
fn mat3_identity_example() {
    assert_eq!(mat3_identity::<i32>(), [1, 0, 0, 0, 1, 0, 0, 0, 1]);
}

#[test]
fn mat4_identity_example() {
    assert_eq!(
        mat4_identity::<i64>(),
        [1, 0, 0, 0, 0, 1, 0, 0, 0, 0, 1, 0, 0, 0, 0, 1]
    );
}

#[test]
fn mat2_add_example() {
    assert_eq!(mat2_add([2, 4, 5, 9], [1, 9, 1, -2]), [3, 13, 6, 7]);
}

#[test]
fn mat3_add_example() {
    assert_eq!(
        mat3_add([2, 4, 5, 9, 1, 1, 4, 2, 1], [1, 9, 6, 1, -2, 9, 10, 3, 5]),
        [3, 13, 11, 10, -1, 10, 14, 5, 6]
    );
}

#[test]
fn mat4_add_example() {
    assert_eq!(
        mat4_add(
            [2, 4, 5, 1, 9, 1, 1, 3, 4, 2, 1, 2, 1, 0, 2, 2],
            [1, 9, 6, 5, 1, -2, 9, 9, 10, 3, 5, 4, 4, 3, 1, 0]
        ),
        [3, 13, 11, 6, 10, -1, 10, 12, 14, 5, 6, 6, 5, 3, 3, 2]
    );
}

#[test]
fn mat2_sub_example() {
    assert_eq!(mat2_sub([2, 4, 5, 9], [1, 9, 1, -2]), [1, -5, 4, 11]);
}

#[test]
fn mat3_sub_example() {
    assert_eq!(
        mat3_sub([2, 4, 5, 9, 1, 1, 4, 2, 1], [1, 9, 6, 1, -2, 9, 10, 3, 5]),
        [1, -5, -1, 8, 3, -8, -6, -1, -4]
    );
}

#[test]
fn mat4_sub_example() {
    assert_eq!(
        mat4_sub(
            [2, 4, 5, 1, 9, 1, 1, 3, 4, 2, 1, 2, 1, 0, 2, 2],
            [1, 9, 6, 5, 1, -2, 9, 9, 10, 3, 5, 4, 4, 3, 1, 0]
        ),
        [1, -5, -1, -4, 8, 3, -8, -6, -6, -1, -4, -2, -3, -3, 1, 2]
    );
}

#[test]
fn mat2_scale_example() {
    assert_eq!(mat2_scale([1, 2, 3, 4], 2), [2, 4, 6, 8]);
}

#[test]
fn mat3_scale_example() {
    assert_eq!(
        mat3_scale([1, 2, 3, 4, 5, 6, 7, 8, 9], 2),
        [2, 4, 6, 8, 10, 12, 14, 16, 18]
    );
}

#[test]
fn mat4_scale_example() {
    assert_eq!(
        mat4_scale([1, 2, 3, 4, 5, 6, 7, 8, 9, 10, 11, 12, 13, 14, 15, 16], 2),
        [2, 4, 6, 8, 10, 12, 14, 16, 18, 20, 22, 24, 26, 28, 30, 32]
    );
}

#[test]
fn mat2_mul_example() {
    assert_eq!(mat2_mul([1, 2, 3, 4], [5, 6, 7, 8]), [19, 22, 43, 50]);
}

#[test]
fn mat2_mul_is_not_commutative() {
    assert_eq!(mat2_mul([5, 6, 7, 8], [1, 2, 3, 4]), [23, 34, 31, 46]);
}

#[test]
fn mat3_mul_example() {
    assert_eq!(
        mat3_mul(
            [1, 2, 3, 4, 5, 6, 7, 8, 9],
            [10, 11, 12, 13, 14, 15, 16, 17, 18]
        ),
        [84, 90, 96, 201, 216, 231, 318, 342, 366]
    );
}

#[test]
fn mat4_mul_example() {
    assert_eq!(
        mat4_mul(
            [1, 2, 3, 4, 5, 6, 7, 8, 9, 10, 11, 12, 13, 14, 15, 16],
            [17, 18, 19, 20, 21, 22, 23, 24, 25, 26, 27, 28, 29, 30, 31, 32]
        ),
        [
            250, 260, 270, 280, 618, 644, 670, 696, 986, 1028, 1070, 1112, 1354, 1412, 1470,
            1528
        ]
    );
}

#[test]
fn mat4_transform_vec_identity() {
    assert_eq!(mat4_transform_vec(mat4_identity(), [5, 7, 2, 3]), [5, 7, 2, 3]);
}

#[test]
fn mat4_transform_vec_scaling() {
    let m = [3, 0, 0, 0, 0, 2, 0, 0, 0, 0, 1, 0, 0, 0, 0, 1];
    assert_eq!(mat4_transform_vec(m, [5, 7, 2, 3]), [15, 14, 2, 3]);
}

#[test]
fn mat4_transform_vec_general() {
    let m = [1, 2, 3, 4, 5, 6, 7, 8, 9, 10, 11, 12, 13, 14, 15, 16];
    assert_eq!(mat4_transform_vec(m, [1, 0, -1, 2]), [6, 14, 22, 30]);
}

#[test]
fn identity_is_neutral_for_mul() {
    let m = [4, -2, 7, 1, 0, 3, -5, 8, 6];
    assert_eq!(mat3_mul(mat3_identity(), m), m);
    assert_eq!(mat3_mul(m, mat3_identity()), m);
    let n = [9i64, -3, 2, 5];
    assert_eq!(mat2_mul(mat2_identity(), n), n);
    assert_eq!(mat2_mul(n, mat2_identity()), n);
}

#[test]
fn matrix_sub_undoes_add() {
    let a = [1, 2, 3, 4, 5, 6, 7, 8, 9, 10, 11, 12, 13, 14, 15, 16];
    let b = [i32::MAX, -3, 0, 9, i32::MIN, 2, 2, 2, 1, 1, 1, 1, -7, 0, 0, 5];
    assert_eq!(mat4_sub(mat4_add(a, b), b), a);
}

#[test]
fn mul_is_associative() {
    let a = [1, 2, 0, -1, 3, 4, 2, 2, 5];
    let b = [0, 1, 1, 2, -3, 0, 4, 1, 1];
    let c = [2, 0, -1, 1, 1, 1, 0, 3, 2];
    assert_eq!(mat3_mul(mat3_mul(a, b), c), mat3_mul(a, mat3_mul(b, c)));
}

#[test]
fn mul_is_associative_under_wrapping() {
    let a = [i32::MAX, 2, 3, i32::MIN];
    let b = [65536, -7, 11, 65536];
    let c = [3, i32::MAX, -1, 5];
    assert_eq!(mat2_mul(mat2_mul(a, b), c), mat2_mul(a, mat2_mul(b, c)));
}

#[test]
fn transform_distributes_over_mul() {
    let a = [1, 2, 0, -1, 3, 4, 2, 2, 5, 0, 1, 1, -2, 3, 1, 0];
    let b = [0, 1, 1, 2, -3, 0, 4, 1, 1, 2, 0, 0, 7, -1, 1, 3];
    let v = [4, -2, 9, 1];
    assert_eq!(
        mat4_transform_vec(mat4_mul(a, b), v),
        mat4_transform_vec(a, mat4_transform_vec(b, v))
    );
}

#[test]
fn matrix_mul_wraps_on_overflow() {
    assert_eq!(
        mat2_mul([65536, 0, 0, 1], [65536, 0, 0, 1]),
        [0, 0, 0, 1]
    );
    assert_eq!(mat2_add([i32::MAX, 0, 0, 0], [1, 0, 0, 0]), [i32::MIN, 0, 0, 0]);
}
