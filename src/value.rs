use crate::error::RegistryError;
use vstd::prelude::*;

verus! {

/// A number as a JSON reader hands it over: an integer literal that fits in
/// 64 bits keeps its integer form, any other number is a double, held here as
/// its IEEE-754 bit pattern.
#[derive(Clone, Copy, Debug, PartialEq)]
pub enum RawNumber {
    PosInt(u64),
    NegInt(i64),
    Float(u64),
}

/// An input value of open shape. An object lists its entries in the order in
/// which they are visited; as in JSON, its keys are expected to be distinct,
/// and a row built from it keeps one cell per entry, in that order.
#[derive(Debug)]
pub enum RawValue {
    Null,
    Bool(bool),
    Number(RawNumber),
    String(String),
    Array(Vec<RawValue>),
    Object(Vec<(String, RawValue)>),
}

/// The closed union of values that a cell can hold.
#[derive(Clone, Debug, PartialEq)]
pub enum CellValue {
    String(String),
    PosInt(u64),
    /// Always less than zero.
    NegInt(i64),
    /// The bit pattern of a double; always finite.
    Float(u64),
    Boolean(bool),
    Null,
}

/// Whether the double with these bits is finite: its exponent field is not all ones.
pub open spec fn is_finite_bits(bits: u64) -> bool {
    (bits >> 52u64) & 0x7ffu64 != 0x7ffu64
}

/// The cell value of a number: non-negative integers are `PosInt`, negative
/// ones `NegInt`, finite doubles `Float`; a non-finite double is refused.
pub open spec fn cell_of_number(n: RawNumber) -> Result<CellValue, RegistryError> {
    match n {
        RawNumber::PosInt(u) => Ok(CellValue::PosInt(u)),
        RawNumber::NegInt(i) => if i >= 0 {
            Ok(CellValue::PosInt(i as u64))
        } else {
            Ok(CellValue::NegInt(i))
        },
        RawNumber::Float(b) => if is_finite_bits(b) {
            Ok(CellValue::Float(b))
        } else {
            Err(RegistryError::UnsupportedCellValue)
        },
    }
}

/// The cell value of a raw value: scalars map to their variant, arrays and
/// objects are refused.
pub open spec fn cell_of(v: RawValue) -> Result<CellValue, RegistryError> {
    match v {
        RawValue::String(s) => Ok(CellValue::String(s)),
        RawValue::Number(n) => cell_of_number(n),
        RawValue::Bool(b) => Ok(CellValue::Boolean(b)),
        RawValue::Null => Ok(CellValue::Null),
        _ => Err(RegistryError::UnsupportedCellValue),
    }
}

/// The value that a wrapper object gives a cell: every wrapped value must be
/// supported, the last one is kept, and an empty wrapper gives `Null`.
pub open spec fn wrapped_cell(entries: Seq<(String, RawValue)>) -> Result<CellValue, RegistryError> {
    if exists|i: int| 0 <= i < entries.len() && (#[trigger] cell_of(entries[i].1)) is Err {
        Err(RegistryError::UnsupportedCellValue)
    } else if entries.len() == 0 {
        Ok(CellValue::Null)
    } else {
        cell_of(entries.last().1)
    }
}

/// The value stored under `key` in an object's entries: the first entry with that key.
pub open spec fn lookup(entries: Seq<(String, RawValue)>, key: Seq<char>) -> Option<RawValue>
    decreases entries.len(),
{
    if entries.len() == 0 {
        None
    } else if entries[0].0@ == key {
        Some(entries[0].1)
    } else {
        lookup(entries.subrange(1, entries.len() as int), key)
    }
}

/// The label and the declared type of a column: an object whose `value` and
/// `type` entries are both strings.
pub open spec fn header_of(v: RawValue) -> Option<(Seq<char>, Seq<char>)> {
    match v {
        RawValue::Object(es) => match (lookup(es@, "value"@), lookup(es@, "type"@)) {
            (Some(RawValue::String(a)), Some(RawValue::String(b))) => Some((a@, b@)),
            _ => None,
        },
        _ => None,
    }
}

/// The entries of an object, and none of anything else.
pub open spec fn entries_of(v: RawValue) -> Seq<(String, RawValue)> {
    match v {
        RawValue::Object(es) => es@,
        _ => Seq::empty(),
    }
}

impl CellValue {
    /// The empty cell value.
    pub fn new() -> (r: Self)
        ensures
            r == CellValue::Null,
    {
        CellValue::Null
    }

    /// Normalises a raw scalar into a cell value.
    pub fn from_value(value: RawValue) -> (r: Result<CellValue, RegistryError>)
        ensures
            r == cell_of(value),
    {
        cell_from_ref(&value)
    }
}

/// The cell value of a raw value, read through a reference.
pub fn cell_from_ref(v: &RawValue) -> (r: Result<CellValue, RegistryError>)
    ensures
        r == cell_of(*v),
{
    match v {
        RawValue::String(s) => Ok(CellValue::String(s.clone())),
        RawValue::Number(n) => match n {
            RawNumber::PosInt(u) => Ok(CellValue::PosInt(*u)),
            RawNumber::NegInt(i) => {
                if *i >= 0 {
                    Ok(CellValue::PosInt(*i as u64))
                } else {
                    Ok(CellValue::NegInt(*i))
                }
            },
            RawNumber::Float(b) => {
                if (*b >> 52u64) & 0x7ffu64 != 0x7ffu64 {
                    Ok(CellValue::Float(*b))
                } else {
                    Err(RegistryError::UnsupportedCellValue)
                }
            },
        },
        RawValue::Bool(b) => Ok(CellValue::Boolean(*b)),
        RawValue::Null => Ok(CellValue::Null),
        _ => Err(RegistryError::UnsupportedCellValue),
    }
}

/// The value that a wrapper object's entries give a cell.
pub fn wrapped_from_entries(entries: &Vec<(String, RawValue)>) -> (r: Result<CellValue, RegistryError>)
    ensures
        r == wrapped_cell(entries@),
{
    let mut cell = CellValue::Null;
    let mut i: usize = 0;
    while i < entries.len()
        invariant
            0 <= i <= entries@.len(),
            forall|j: int| 0 <= j < i ==> (#[trigger] cell_of(entries@[j].1)) is Ok,
            i == 0 ==> cell == CellValue::Null,
            i > 0 ==> cell_of(entries@[i - 1].1) == Ok::<CellValue, RegistryError>(cell),
        decreases entries@.len() - i,
    {
        match cell_from_ref(&entries[i].1) {
            Ok(c) => {
                cell = c;
            },
            Err(e) => {
                return Err(e);
            },
        }
        i = i + 1;
    }
    Ok(cell)
}

/// The value stored under `key` among an object's entries.
pub fn find_entry<'a>(entries: &'a Vec<(String, RawValue)>, key: &String) -> (r: Option<&'a RawValue>)
    ensures
        match r {
            Some(x) => lookup(entries@, key@) == Some(*x),
            None => lookup(entries@, key@) is None,
        },
{
    let mut i: usize = 0;
    assert(entries@.subrange(0, entries@.len() as int) =~= entries@);
    while i < entries.len()
        invariant
            0 <= i <= entries@.len(),
            lookup(entries@, key@) == lookup(entries@.subrange(i as int, entries@.len() as int), key@),
        decreases entries@.len() - i,
    {
        let ghost rest = entries@.subrange(i as int, entries@.len() as int);
        if entries[i].0 == *key {
            return Some(&entries[i].1);
        }
        assert(rest.subrange(1, rest.len() as int) =~= entries@.subrange(i + 1, entries@.len() as int));
        i = i + 1;
    }
    None
}

/// The label and declared type of a column, or `None` where it is malformed.
pub fn header_from_ref(v: &RawValue) -> (r: Option<(String, String)>)
    ensures
        match r {
            Some(p) => header_of(*v) == Some((p.0@, p.1@)),
            None => header_of(*v) is None,
        },
{
    match v {
        RawValue::Object(es) => {
            let value_key = String::from_str("value");
            let type_key = String::from_str("type");
            let value = find_entry(es, &value_key);
            let type_ = find_entry(es, &type_key);
            match (value, type_) {
                (Some(RawValue::String(a)), Some(RawValue::String(b))) => Some((a.clone(), b.clone())),
                _ => None,
            }
        },
        _ => None,
    }
}

} // verus!
