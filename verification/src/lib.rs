//! Two small composite-pattern families, each verified: a closed set of
//! geometric shapes with canonical representations and exact areas, and a
//! recursive text-composition tree, built two ways, that flattens to a
//! string.

pub mod decimal;
pub mod shapes;
pub mod text;
pub mod texts;
