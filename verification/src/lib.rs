//! Decoding of `name=value` recipe tokens and computation of how many whole
//! production units a pantry's stock allows, with the residual stock.

pub mod allocator;
pub mod codec;
pub mod error;
pub mod ingredients;
pub mod json;
