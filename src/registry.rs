use crate::error::RegistryError;
use crate::ident::{cell_id, cell_identifier, registry_id, registry_identifier, seed_of};
use crate::value::{header_from_ref, header_of, wrapped_cell, wrapped_from_entries, CellValue, RawValue};
use near_sdk::AccountId;
use vstd::prelude::*;

verus! {

/// The account type of the host, carried through as an opaque value.
#[verifier::external_type_specification]
#[verifier::external_body]
pub struct ExAccountId(near_sdk::AccountId);

/// Relies on the derived `Clone` of `near_sdk::AccountId`, which copies its text.
pub assume_specification[ <near_sdk::AccountId as Clone>::clone ](a: &near_sdk::AccountId) -> (r:
    near_sdk::AccountId)
    ensures
        r == *a,
;

/// A column descriptor: a display label and a free-text declared type.
#[derive(Clone, Debug, PartialEq)]
pub struct HeadCell {
    pub uuid: String,
    pub value: String,
    pub type_: String,
}

/// One cell of a row.
#[derive(Clone, Debug, PartialEq)]
pub struct RowCell {
    pub uuid: String,
    pub value: CellValue,
}

/// A row: its cells under their column keys, in the order the keys were visited.
pub type Row = Vec<(String, RowCell)>;

/// A named table with its owner, its ordered columns and its ordered rows.
#[derive(Clone, Debug, PartialEq)]
pub struct Registry {
    pub uuid: String,
    pub owner: AccountId,
    pub name: String,
    pub columns: Vec<HeadCell>,
    pub rows: Vec<Row>,
}

/// The value that a row entry gives its cell: the entry must be a wrapper object.
pub open spec fn row_cell_of(v: RawValue) -> Result<CellValue, RegistryError> {
    match v {
        RawValue::Object(w) => wrapped_cell(w@),
        _ => Err(RegistryError::MalformedRow),
    }
}

/// `c` is the column that `v` describes, stamped with the identifier of `seed`.
pub open spec fn head_cell_built(c: HeadCell, v: RawValue, seed: nat) -> bool {
    &&& header_of(v) == Some((c.value@, c.type_@))
    &&& c.uuid@ == cell_id(seed)
}

/// `c` is the cell that the row entry `v` gives, stamped with the identifier of `seed`.
pub open spec fn row_cell_built(c: RowCell, v: RawValue, seed: nat) -> bool {
    &&& row_cell_of(v) == Ok::<CellValue, RegistryError>(c.value)
    &&& c.uuid@ == cell_id(seed)
}

impl HeadCell {
    /// Reads a column descriptor and stamps it with the identifier of its number.
    pub fn from_value(value: RawValue, cell_number: u64, block_height: u64) -> (r: Result<HeadCell, RegistryError>)
        requires
            block_height + cell_number <= u64::MAX,
        ensures
            match r {
                Ok(c) => head_cell_built(c, value, seed_of(block_height as nat, cell_number as nat)),
                Err(e) => header_of(value) is None && e == RegistryError::MalformedHeader,
            },
    {
        head_cell_from_ref(&value, cell_number, block_height)
    }

    /// A copy of the column.
    pub fn duplicate(&self) -> (r: HeadCell)
        ensures
            r == *self,
    {
        HeadCell { uuid: self.uuid.clone(), value: self.value.clone(), type_: self.type_.clone() }
    }
}

/// A column read through a reference.
pub fn head_cell_from_ref(value: &RawValue, cell_number: u64, block_height: u64) -> (r: Result<HeadCell, RegistryError>)
    requires
        block_height + cell_number <= u64::MAX,
    ensures
        match r {
            Ok(c) => head_cell_built(c, *value, seed_of(block_height as nat, cell_number as nat)),
            Err(e) => header_of(*value) is None && e == RegistryError::MalformedHeader,
        },
{
    match header_from_ref(value) {
        Some((label, type_)) => {
            let uuid = cell_identifier(block_height, cell_number);
            Ok(HeadCell { uuid, value: label, type_ })
        },
        None => Err(RegistryError::MalformedHeader),
    }
}

impl CellValue {
    /// A copy of the value.
    pub fn duplicate(&self) -> (r: CellValue)
        ensures
            r == *self,
    {
        match self {
            CellValue::String(s) => CellValue::String(s.clone()),
            CellValue::PosInt(u) => CellValue::PosInt(*u),
            CellValue::NegInt(i) => CellValue::NegInt(*i),
            CellValue::Float(b) => CellValue::Float(*b),
            CellValue::Boolean(b) => CellValue::Boolean(*b),
            CellValue::Null => CellValue::Null,
        }
    }
}

impl RowCell {
    /// Reads a row entry, a wrapper object around the cell's value, and stamps
    /// the cell with the identifier of its number.
    pub fn from_value(value: RawValue, cell_number: u64, block_height: u64) -> (r: Result<RowCell, RegistryError>)
        requires
            block_height + cell_number <= u64::MAX,
        ensures
            match r {
                Ok(c) => row_cell_built(c, value, seed_of(block_height as nat, cell_number as nat)),
                Err(e) => row_cell_of(value) == Err::<CellValue, RegistryError>(e),
            },
    {
        row_cell_from_ref(&value, cell_number, block_height)
    }

    /// A copy of the cell.
    pub fn duplicate(&self) -> (r: RowCell)
        ensures
            r == *self,
    {
        RowCell { uuid: self.uuid.clone(), value: self.value.duplicate() }
    }
}

/// A row entry read through a reference.
pub fn row_cell_from_ref(value: &RawValue, cell_number: u64, block_height: u64) -> (r: Result<RowCell, RegistryError>)
    requires
        block_height + cell_number <= u64::MAX,
    ensures
        match r {
            Ok(c) => row_cell_built(c, *value, seed_of(block_height as nat, cell_number as nat)),
            Err(e) => row_cell_of(*value) == Err::<CellValue, RegistryError>(e),
        },
{
    match value {
        RawValue::Object(w) => {
            let uuid = cell_identifier(block_height, cell_number);
            match wrapped_from_entries(w) {
                Ok(cell) => Ok(RowCell { uuid, value: cell }),
                Err(e) => Err(e),
            }
        },
        _ => Err(RegistryError::MalformedRow),
    }
}

impl Registry {
    /// Assembles a registry; its identifier is hashed from `reg:` and its name,
    /// which no column or cell seed can equal.
    pub fn new(name: String, owner: AccountId, columns: Vec<HeadCell>, rows: Vec<Row>) -> (r: Self)
        ensures
            r.uuid@ == registry_id(name@),
            r.name == name,
            r.owner == owner,
            r.columns == columns,
            r.rows == rows,
    {
        let uuid = registry_identifier(&name);
        Registry { uuid, owner, name, columns, rows }
    }

    /// `self` holds what `other` holds: same identifier, owner and name, and
    /// the same columns and rows in the same order.
    pub open spec fn same_as(&self, other: Registry) -> bool {
        &&& self.uuid == other.uuid
        &&& self.owner == other.owner
        &&& self.name == other.name
        &&& self.columns@ == other.columns@
        &&& self.rows@.len() == other.rows@.len()
        &&& forall|i: int| 0 <= i < self.rows@.len() ==> (#[trigger] self.rows@[i])@ == other.rows@[i]@
    }

    /// A copy of the registry.
    pub fn duplicate(&self) -> (r: Registry)
        ensures
            r.same_as(*self),
    {
        let mut columns: Vec<HeadCell> = Vec::new();
        let mut i: usize = 0;
        while i < self.columns.len()
            invariant
                0 <= i <= self.columns@.len(),
                columns@ == self.columns@.subrange(0, i as int),
            decreases self.columns@.len() - i,
        {
            columns.push(self.columns[i].duplicate());
            i = i + 1;
            assert(columns@ =~= self.columns@.subrange(0, i as int));
        }
        assert(columns@ =~= self.columns@);
        let mut rows: Vec<Row> = Vec::new();
        let mut j: usize = 0;
        while j < self.rows.len()
            invariant
                0 <= j <= self.rows@.len(),
                rows@.len() == j,
                forall|k: int| 0 <= k < j ==> (#[trigger] rows@[k])@ == self.rows@[k]@,
            decreases self.rows@.len() - j,
        {
            let src = &self.rows[j];
            let mut row: Row = Vec::new();
            let mut k: usize = 0;
            while k < src.len()
                invariant
                    0 <= k <= src@.len(),
                    row@ == src@.subrange(0, k as int),
                decreases src@.len() - k,
            {
                let entry = (src[k].0.clone(), src[k].1.duplicate());
                row.push(entry);
                k = k + 1;
                assert(row@ =~= src@.subrange(0, k as int));
            }
            assert(row@ =~= src@);
            rows.push(row);
            j = j + 1;
        }
        Registry {
            uuid: self.uuid.clone(),
            owner: self.owner.clone(),
            name: self.name.clone(),
            columns,
            rows,
        }
    }
}

} // verus!
