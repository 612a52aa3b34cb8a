use mini_calc::exact_math::rationals::Rationals;
use mini_calc::interpreting::function::{greater, minus};
use mini_calc::parsing::ast::Parameters;
use mini_calc::utils::matrix_utils::{lup_decompose, lup_determinant};

#[test]
pub fn test() {
    let mut a = vec![
        vec![
            Parameters::Float(Rationals::new(1, 1)),
            Parameters::Float(Rationals::new(1, 2)),
            Parameters::Float(Rationals::new(1, 3)),
        ],
        vec![
            Parameters::Float(Rationals::new(1, 4)),
            Parameters::Float(Rationals::new(1, 0)),
            Parameters::Float(Rationals::new(1, 6)),
        ],
        vec![
            Parameters::Float(Rationals::new(1, 7)),
            Parameters::Float(Rationals::new(1, 8)),
            Parameters::Float(Rationals::new(1, 9)),
        ],
    ];

    let mut b = vec![
        Parameters::Int(0),
        Parameters::Int(0),
        Parameters::Int(0),
        Parameters::Int(0),
    ];

    let _ = lup_decompose(&mut a, &mut b, 3 as usize, None);

    let det = lup_determinant(&mut a, &mut b, 3 as usize, None);

    // The arithmetic is exact, so the determinant is exactly 60 and
    // lands within the one-part-in-ten-billion tolerance a floating
    // computation would need.
    assert_eq!(
        greater(
            Parameters::Float(Rationals::new(10_000_000_000, 1)),
            minus(det, Parameters::Float(Rationals::new(1, 60)), None).abs(None),
            None
        ),
        Parameters::Bool(true)
    );
}
