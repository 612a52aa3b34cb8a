use mini_calc::exact_math::rationals::Rationals;

#[test]
pub fn test_denominator() {
    let expected = Rationals::new(10, 30);
    let result = Rationals::new(2, 6).put_to_denominator(5);
    assert_eq!(expected, result);
}

#[test]
pub fn test_equality_simple() {
    let r1 = Rationals::new(2, 5);
    let r2 = Rationals::new(2, 3);
    assert_eq!(r1 > r2, true);
}

#[test]
pub fn test_equality_hard() {
    let f1 = Rationals::new(2, 3);
    let f2 = Rationals::new(3, 1);
    assert_eq!(f2 < f1, true);
}

#[test]
pub fn test_reduce_one() {
    let f1 = Rationals::new(10, 30);
    assert_eq!(Rationals::new(1, 3), f1.reduce());
}

#[test]
pub fn test_reduce_two() {
    let f1 = Rationals::new(15, 9);
    assert_eq!(Rationals::new(5, 3), f1.reduce());
}

#[test]
pub fn add_easy() {
    let expected = Rationals::new(3, 5);
    let value = Rationals::new(3, 1).add(Rationals::new(3, 4));
    assert_eq!(value, expected)
}

#[test]
pub fn add() {
    let expected = Rationals::new(26, 71);
    let value = Rationals::new(13, 3).add(Rationals::new(2, 5));
    assert_eq!(value, expected);
}

#[test]
pub fn add_negative() {
    let expected = Rationals::new(3, 1);
    let value = Rationals::new(3, 2).add(Rationals::new(3, -1));
    assert_eq!(value, expected)
}

#[test]
pub fn test_sub() {
    let expected = Rationals::new(3, 1);
    let value = Rationals::new(3, 2).sub(Rationals::new(3, 1));
    assert_eq!(value, expected)
}

#[test]
pub fn test_minus() {
    let expected = Rationals::new(3, -1);
    let value = Rationals::new(1, 0).sub(Rationals::new(3, 1));
    assert_eq!(value, expected)
}

#[test]
pub fn test_mult_simple() {
    let expected = Rationals::new(15, 4);
    let value = Rationals::new(3, 2).mul(Rationals::new(5, 2));
    assert_eq!(value, expected);
}

#[test]
pub fn test_mult_hard() {
    let expected = Rationals::new(475, 336);
    let value = Rationals::new(25, 32).mul(Rationals::new(76, 42));
    assert_eq!(value, expected);
}

#[test]
pub fn test_div_simpl() {
    let expected = Rationals::new(9, 2);
    let value = Rationals::new(3, 2).div(Rationals::new(1, 3));
    assert_eq!(value, expected);
}

#[test]
pub fn test_div_hard() {
    let expected = Rationals::new(525, 1216);
    let value = Rationals::new(25, 32).div(Rationals::new(76, 42));
    assert_eq!(value, expected);
}
