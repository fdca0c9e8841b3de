//! A registry of named tables whose cells hold loosely typed scalar values.
//!
//! Raw input values are normalised into a closed union of cell values, every
//! column and cell receives an identifier derived from a block height and a
//! store-wide counter, and the store keeps registry names unique.
pub mod contract;
pub mod error;
pub mod ident;
pub mod registry;
pub mod value;

pub use crate::contract::Contract;
pub use crate::error::RegistryError;
pub use crate::registry::{HeadCell, Registry, Row, RowCell};
pub use crate::value::{CellValue, RawNumber, RawValue};
