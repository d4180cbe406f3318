//! An exact quantity-and-unit algebra for physical computation.
//!
//! Every quantity value carries, beside its magnitude, a dimension (a
//! seven-component integer exponent vector over the SI base dimensions) and a
//! kind (a finer semantic tag that separates quantities of equal dimension
//! that are not interchangeable, such as an absolute temperature and a
//! temperature difference).  Dimension and kind are ghost data: they occupy no
//! space at run time, and every operation that combines quantities carries a
//! precondition stating that the combination is dimensionally and kind-wise
//! sound, so an ill-formed combination is rejected when the calling code is
//! verified rather than discovered at run time.
//!
//! Magnitudes are exact rational numbers, so unit conversions round-trip
//! exactly and the algebraic laws of the engine are theorems rather than
//! floating-point approximations.

pub mod decimal;
pub mod dimension;
pub mod kind;
pub mod power;
pub mod quantity;
pub mod rational;
pub mod si;
pub mod unit;
pub mod util;
pub mod value_type;
