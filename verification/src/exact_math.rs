pub mod rationals;
