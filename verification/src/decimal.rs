//! Exact decimal amounts.
//!
//! Prices and quantities travel as decimal text. An amount is kept as that
//! text in canonical form: an optional minus sign, the integer digits without
//! needless leading zeros and, where the fraction is not zero, a point and
//! the fraction digits without trailing zeros.

pub mod amount;
pub mod text;
pub mod value;

pub use amount::Decimal;
pub use text::{
    canonical_text, denotes_positive, denotes_zero, is_canonical, is_decimal_text,
    is_negative_text,
};
