pub mod infix_parselet;
pub mod prefix_parselet;
