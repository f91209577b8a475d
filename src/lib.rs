//! Recognises monetary amounts such as `$50` or `50,000 PAB` and splits them
//! into their numeric part and their currency designator.

pub mod currency;
pub mod money;
pub mod number;
pub mod text;
pub mod theorems;

pub use currency::{currency_codes, CurrencyDefinition, CurrencyLocale};
pub use money::{split, validate, CurrencyIndex};
pub use number::is_float_literal;
