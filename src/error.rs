use vstd::prelude::*;

verus! {

/// The ways in which a request to the store can be refused.
#[derive(PartialEq, Eq, Structural, Clone, Copy, Debug)]
pub enum RegistryError {
    /// The store already exists.
    AlreadyInitialized,
    /// A registry of that name is already stored.
    DuplicateName,
    /// A column is not an object with string fields `value` and `type`.
    MalformedHeader,
    /// A row, or one of its entries, is not an object.
    MalformedRow,
    /// A cell holds an array, an object or a non-finite number.
    UnsupportedCellValue,
}

impl RegistryError {
    /// A short text that names the error.
    pub fn message(&self) -> (r: String) {
        match self {
            RegistryError::AlreadyInitialized => String::from_str("Already initialized"),
            RegistryError::DuplicateName => String::from_str("Name already exists"),
            RegistryError::MalformedHeader => String::from_str(
                "Unsupported column cell structure, column cell should be an object with string value and type fields",
            ),
            RegistryError::MalformedRow => String::from_str(
                "Unsupported row structure, row should be an object with a value field",
            ),
            RegistryError::UnsupportedCellValue => String::from_str(
                "Unsupported row cell value, row cell value should be one of the following types: string, number, boolean, null",
            ),
        }
    }
}

} // verus!
