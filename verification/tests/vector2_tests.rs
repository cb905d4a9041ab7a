use hl_spray_size_calculator::{Vector2, VectorFrom, VectorTryFrom};

#[test]
fn creation_test() {
    let vec = Vector2 { x: 1, y: 2 };
    assert_eq!(vec.x, 1);
    assert_eq!(vec.y, 2);

    let vec = Vector2::new(1, 2);
    assert_eq!(vec.x, 1);
    assert_eq!(vec.y, 2);

    let vec = Vector2::<i32>::from(&[1, 2]);
    assert_eq!(vec.x, 1);
    assert_eq!(vec.y, 2);

    let vec = Vector2::<i32>::from([1, 2]);
    assert_eq!(vec.x, 1);
    assert_eq!(vec.y, 2);

    let vec = Vector2::from(1);
    assert_eq!(vec.x, 1);
    assert_eq!(vec.y, 1);
}

#[test]
fn conversion_test() {
    let vec = Vector2::<i32> { x: 1, y: 2 };
    let vec_2: Vector2<i64> = VectorFrom::vector_from(vec);
    let vec_3: Result<Vector2<f64>, _> = VectorTryFrom::vector_try_from(vec);

    assert_eq!(Into::<i64>::into(vec.x), vec_2.x);
    assert_eq!(Into::<i64>::into(vec.y), vec_2.y);
    assert_eq!(Into::<f64>::into(vec.x), vec_3.unwrap().x);
    assert_eq!(Into::<f64>::into(vec.y), vec_3.unwrap().y);
}

#[test]
fn arith_test() {
    let lhs = Vector2 { x: 3, y: 4 };
    let rhs = Vector2 { x: 7, y: 8 };

    assert_eq!(lhs + rhs, Vector2 { x: 3 + 7, y: 4 + 8 });
    assert_eq!(lhs - rhs, Vector2 { x: 3 - 7, y: 4 - 8 });
    assert_eq!(lhs * rhs, Vector2 { x: 3 * 7, y: 4 * 8 });
    assert_eq!(lhs / rhs, Vector2 { x: 3 / 7, y: 4 / 8 });
    assert_eq!(lhs % rhs, Vector2 { x: 3 % 7, y: 4 % 8 });

    assert_eq!(-lhs, Vector2 { x: -3, y: -4 });
}

#[test]
fn bit_test() {
    let lhs = Vector2 { x: 3, y: 4 };
    let rhs = Vector2 { x: 7, y: 8 };

    assert_eq!(lhs & rhs, Vector2 { x: 3 & 7, y: 4 & 8 });
    assert_eq!(lhs | rhs, Vector2 { x: 3 | 7, y: 4 | 8 });
    assert_eq!(lhs ^ rhs, Vector2 { x: 3 ^ 7, y: 4 ^ 8 });

    let lhs = Vector2 { x: true, y: false };
    let rhs = Vector2 { x: true, y: true };
    println!("{:?} {:?}", lhs, rhs);

    assert_eq!(lhs & rhs, Vector2 { x: true & true, y: false & true });
    assert_eq!(lhs | rhs, Vector2 { x: true | true, y: false | true });
    assert_eq!(lhs ^ rhs, Vector2 { x: true ^ true, y: false ^ true });
}

#[test]
fn fold_test() {
    let vec = Vector2 { x: 3, y: 4 };

    assert_eq!(vec.fold(|lhs, rhs| lhs.min(rhs)), 3.min(4));
    assert_eq!(vec.fold(|lhs, rhs| lhs.max(rhs)), 3.max(4));
    assert_eq!(vec.fold(|lhs, rhs| lhs + rhs), 3 + 4);
    assert_eq!(vec.fold(|lhs, rhs| lhs - rhs), 3 - 4);
    assert_eq!(vec.fold(|lhs, rhs| lhs * rhs), 3 * 4);
    assert_eq!(vec.fold(|lhs, rhs| lhs / rhs), 3 / 4);
}

#[test]
fn reciprocal_test() {
    let mut vec = Vector2 { x: 3, y: 4 };
    vec.reciprocate_in_place();

    assert_eq!(vec, Vector2 { x: 4, y: 3 });

    let vec = Vector2 { x: 3, y: 4 };
    assert_eq!(vec.reciprocal(), Vector2 { x: 4, y: 3 })
}

#[test]
fn reciprocate_twice_restores() {
    let mut vec = Vector2 { x: -5, y: 11 };
    vec.reciprocate_in_place();
    vec.reciprocate_in_place();
    assert_eq!(vec, Vector2 { x: -5, y: 11 });
    assert_eq!(vec.reciprocal().reciprocal(), vec);
}

#[test]
fn map_and_apply_two_work_per_component() {
    let vec = Vector2 { x: 3u32, y: 10u32 };
    assert_eq!(vec.map(|c| c * 2), Vector2 { x: 6, y: 20 });
    let other = Vector2 { x: 5u32, y: 2u32 };
    assert_eq!(vec.apply_two(other, |a, b| a.min(b)), Vector2 { x: 3, y: 2 });
    assert_eq!(vec.apply_two(other, |a, b| a as u64 * b as u64), Vector2 { x: 15u64, y: 20u64 });
}

#[test]
fn apply_n_gathers_each_axis() {
    let vecs = [Vector2 { x: 1, y: 10 }, Vector2 { x: 2, y: 20 }, Vector2 { x: 3, y: 30 }];
    let sums = Vector2::apply_n(&vecs, |s: &[i32]| s.iter().sum::<i32>());
    assert_eq!(sums, Vector2 { x: 6, y: 60 });
    let lens = Vector2::apply_n(&vecs[..0], |s: &[i32]| s.len());
    assert_eq!(lens, Vector2 { x: 0, y: 0 });
}

#[test]
fn array_and_pair_round_trips() {
    let vec = Vector2 { x: 7u8, y: 9u8 };
    let arr: [u8; 2] = vec.into();
    assert_eq!(arr, [7, 9]);
    assert_eq!(Vector2::from(arr), vec);
    let pair: (u8, u8) = vec.into();
    assert_eq!(pair, (7, 9));
    let arr_ref: [u8; 2] = (&vec).into();
    assert_eq!(arr_ref, [7, 9]);
    let pair_ref: (u8, u8) = (&vec).into();
    assert_eq!(pair_ref, (7, 9));
}

#[test]
fn vector_try_from_reports_first_failure() {
    let ok: Result<Vector2<u8>, _> = VectorTryFrom::vector_try_from(Vector2 { x: 1i32, y: 255i32 });
    assert_eq!(ok.unwrap(), Vector2 { x: 1u8, y: 255u8 });
    let bad_y: Result<Vector2<u8>, _> = VectorTryFrom::vector_try_from(Vector2 { x: 1i32, y: 256i32 });
    assert!(bad_y.is_err());
    let bad_x: Result<Vector2<u8>, _> = VectorTryFrom::vector_try_from(Vector2 { x: -1i32, y: 3i32 });
    assert!(bad_x.is_err());
}

#[test]
fn borrowed_operands_and_assignments() {
    let a = Vector2 { x: 12u32, y: 5u32 };
    let b = Vector2 { x: 3u32, y: 2u32 };
    assert_eq!(a + &b, Vector2 { x: 15, y: 7 });
    assert_eq!(&a - &b, Vector2 { x: 9, y: 3 });
    assert_eq!(a << b, Vector2 { x: 96, y: 20 });
    assert_eq!(a >> &b, Vector2 { x: 1, y: 1 });
    assert_eq!(!Vector2 { x: true, y: false }, Vector2 { x: false, y: true });

    let mut c = a;
    c += b;
    assert_eq!(c, Vector2 { x: 15, y: 7 });
    c -= &b;
    assert_eq!(c, a);
    c *= b;
    assert_eq!(c, Vector2 { x: 36, y: 10 });
    c /= b;
    assert_eq!(c, a);
    c %= Vector2 { x: 5, y: 3 };
    assert_eq!(c, Vector2 { x: 2, y: 2 });
    c |= Vector2 { x: 1, y: 4 };
    assert_eq!(c, Vector2 { x: 3, y: 6 });
    c &= &Vector2 { x: 2, y: 6 };
    assert_eq!(c, Vector2 { x: 2, y: 6 });
    c ^= Vector2 { x: 3, y: 3 };
    assert_eq!(c, Vector2 { x: 1, y: 5 });
    c <<= Vector2 { x: 4, y: 1 };
    assert_eq!(c, Vector2 { x: 16, y: 10 });
    c >>= &Vector2 { x: 2, y: 1 };
    assert_eq!(c, Vector2 { x: 4, y: 5 });
}

#[test]
fn text_shows_both_components() {
    assert_eq!(Vector2::new(1u32, 2u32).to_string(), "(1, 2)");
    assert_eq!(Vector2::new(-3i32, 40i32).to_string(), "(-3, 40)");
    assert_eq!(Vector2::new("a", "b").to_string(), "(a, b)");
}
