//! Control points and the evaluation algorithms over them.
pub mod algorithm;
pub mod point;
pub mod rational;

pub use point::{ControlPoint, HomoControlPoint};
