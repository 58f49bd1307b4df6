//! Input-mapping tools: interfaces that take raw text from some input
//! source and map it to booleans or numbers, with the mapping and
//! validation rules verified. Reading the text itself is the input
//! source's own business.

pub mod basic_input;
pub mod to_bool;
pub mod to_numerical;

pub use basic_input::LineReadStep;
pub use basic_input::TakeBasicInput;
pub use to_bool::TakeBoolInput;
pub use to_bool::ToBoolError;
pub use to_numerical::NumInputError;
pub use to_numerical::NumInputErrorKind;
pub use to_numerical::TakeIntInput;
