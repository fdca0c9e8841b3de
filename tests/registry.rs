use near_sdk::AccountId;
use registry_contract::{CellValue, Contract, HeadCell, RawNumber, RawValue, Registry, RegistryError, RowCell};
use std::collections::HashSet;

fn alice() -> AccountId {
    AccountId::try_from("alice.near".to_string()).unwrap()
}

fn text(s: &str) -> RawValue {
    RawValue::String(s.to_string())
}

fn object(entries: Vec<(&str, RawValue)>) -> RawValue {
    RawValue::Object(entries.into_iter().map(|(k, v)| (k.to_string(), v)).collect())
}

fn column(value: &str, type_: &str) -> RawValue {
    object(vec![("value", text(value)), ("type", text(type_))])
}

fn wrap(v: RawValue) -> RawValue {
    object(vec![("value", v)])
}

fn pos(n: u64) -> RawValue {
    RawValue::Number(RawNumber::PosInt(n))
}

fn neg(n: i64) -> RawValue {
    RawValue::Number(RawNumber::NegInt(n))
}

fn float(x: f64) -> RawValue {
    RawValue::Number(RawNumber::Float(x.to_bits()))
}

fn new_store() -> Contract {
    Contract::init(alice(), false).unwrap()
}

fn all_ids(regs: &[Registry]) -> Vec<String> {
    let mut ids = Vec::new();
    for reg in regs {
        for c in &reg.columns {
            ids.push(c.uuid.clone());
        }
        for row in &reg.rows {
            for (_, cell) in row {
                ids.push(cell.uuid.clone());
            }
        }
    }
    ids
}

fn sample_columns() -> Vec<RawValue> {
    vec![column("column1", "string"), column("column2", "number")]
}

fn sample_row(number: RawValue) -> RawValue {
    object(vec![
        ("date", wrap(text("Fri Jul 01 2022"))),
        ("number", wrap(number)),
        ("text", wrap(text("Test"))),
    ])
}

#[test]
fn test_create_registry() {
    let mut contract = new_store();
    contract
        .new_registry(
            alice(),
            "testname".to_string(),
            sample_columns(),
            vec![sample_row(pos(1)), sample_row(neg(-1)), sample_row(float(0.1))],
            0,
        )
        .unwrap();
    contract
        .new_registry(
            alice(),
            "testname2".to_string(),
            sample_columns(),
            vec![sample_row(neg(-1)), sample_row(pos(1)), sample_row(float(0.1))],
            0,
        )
        .unwrap();
    let result = contract.get_all_registries();
    let counter = contract.get_cells_count();
    assert_eq!(result.len(), 2);
    assert_eq!(counter, 22);
    assert_eq!(result[0].name, "testname");
    assert_eq!(result[1].name, "testname2");
    assert_eq!(result[0].rows[2][1].1.value, CellValue::Float(0.1f64.to_bits()));
    assert_eq!(result[1].rows[0][1].1.value, CellValue::NegInt(-1));
    let ids = all_ids(&result);
    let unique: HashSet<&String> = ids.iter().collect();
    assert_eq!(unique.len(), ids.len());
}

#[test]
fn numeric_classification() {
    assert_eq!(CellValue::from_value(pos(5)), Ok(CellValue::PosInt(5)));
    assert_eq!(CellValue::from_value(neg(-5)), Ok(CellValue::NegInt(-5)));
    assert_eq!(CellValue::from_value(neg(7)), Ok(CellValue::PosInt(7)));
    assert_eq!(CellValue::from_value(float(0.1)), Ok(CellValue::Float(0.1f64.to_bits())));
    assert_eq!(CellValue::from_value(RawValue::Bool(true)), Ok(CellValue::Boolean(true)));
    assert_eq!(CellValue::from_value(RawValue::Null), Ok(CellValue::Null));
    assert_eq!(CellValue::from_value(text("a")), Ok(CellValue::String("a".to_string())));
    assert_eq!(
        CellValue::from_value(RawValue::Array(vec![pos(1), pos(2)])),
        Err(RegistryError::UnsupportedCellValue)
    );
    assert_eq!(CellValue::from_value(object(vec![])), Err(RegistryError::UnsupportedCellValue));
    assert_eq!(CellValue::from_value(float(f64::NAN)), Err(RegistryError::UnsupportedCellValue));
    assert_eq!(CellValue::from_value(float(f64::INFINITY)), Err(RegistryError::UnsupportedCellValue));
    assert_eq!(CellValue::new(), CellValue::Null);
}

#[test]
fn row_cell_wrapper_rules() {
    let cell = RowCell::from_value(object(vec![("v", pos(1)), ("w", text("last"))]), 3, 10).unwrap();
    assert_eq!(cell.value, CellValue::String("last".to_string()));
    let empty = RowCell::from_value(object(vec![]), 4, 10).unwrap();
    assert_eq!(empty.value, CellValue::Null);
    assert_ne!(cell.uuid, empty.uuid);
    assert_eq!(RowCell::from_value(pos(1), 0, 0), Err(RegistryError::MalformedRow));
    assert_eq!(
        RowCell::from_value(object(vec![("v", RawValue::Array(vec![])), ("w", pos(1))]), 0, 0),
        Err(RegistryError::UnsupportedCellValue)
    );
}

#[test]
fn identifiers_follow_seed() {
    // Height 10 with number 3 and height 12 with number 1 give the same seed.
    let a = RowCell::from_value(wrap(pos(1)), 3, 10).unwrap();
    let b = RowCell::from_value(wrap(pos(2)), 1, 12).unwrap();
    assert_eq!(a.uuid, b.uuid);
    let h = HeadCell::from_value(column("name", "string"), 3, 10).unwrap();
    assert_eq!(h.uuid, a.uuid);
    assert_eq!(h.value, "name");
    assert_eq!(h.type_, "string");
    assert_eq!(h.uuid.len(), 36);
    assert_ne!(h.uuid, "13");
}

#[test]
fn malformed_headers() {
    assert_eq!(HeadCell::from_value(text("x"), 0, 0), Err(RegistryError::MalformedHeader));
    assert_eq!(
        HeadCell::from_value(object(vec![("value", text("x"))]), 0, 0),
        Err(RegistryError::MalformedHeader)
    );
    assert_eq!(
        HeadCell::from_value(object(vec![("value", pos(1)), ("type", text("t"))]), 0, 0),
        Err(RegistryError::MalformedHeader)
    );
}

#[test]
fn registry_identifier_from_name() {
    let a = Registry::new("people".to_string(), alice(), vec![], vec![]);
    let b = Registry::new("people".to_string(), alice(), vec![], vec![]);
    let c = Registry::new("places".to_string(), alice(), vec![], vec![]);
    assert_eq!(a.uuid, b.uuid);
    assert_ne!(a.uuid, c.uuid);
    assert_ne!(a.uuid, "people");
}

#[test]
fn name_exclusivity() {
    let mut store = new_store();
    store.new_registry(alice(), "t".to_string(), vec![column("a", "string")], vec![], 0).unwrap();
    let before = store.get_cells_count();
    let r = store.new_registry(alice(), "t".to_string(), vec![], vec![object(vec![])], 0);
    assert_eq!(r, Err(RegistryError::DuplicateName));
    assert_eq!(store.get_all_registries().len(), 1);
    assert_eq!(store.get_cells_count(), before);
    assert!(store.is_name_exist(&"t".to_string()));
    assert!(!store.is_name_exist(&"T".to_string()));
}

#[test]
fn atomic_failure() {
    let mut store = new_store();
    store.new_registry(alice(), "first".to_string(), vec![column("a", "string")], vec![], 0).unwrap();
    let before = store.get_all_registries();
    let count = store.get_cells_count();
    let rows = vec![
        object(vec![("x", wrap(pos(1)))]),
        object(vec![("x", wrap(pos(2)))]),
        pos(3),
        object(vec![("x", wrap(pos(4)))]),
        object(vec![("x", wrap(pos(5)))]),
    ];
    let r = store.new_registry(alice(), "second".to_string(), vec![column("x", "number")], rows, 5);
    assert_eq!(r, Err(RegistryError::MalformedRow));
    assert_eq!(store.get_all_registries(), before);
    assert_eq!(store.get_cells_count(), count);
    let r = store.new_registry(
        alice(),
        "second".to_string(),
        vec![column("x", "number")],
        vec![object(vec![("x", wrap(RawValue::Array(vec![])))])],
        5,
    );
    assert_eq!(r, Err(RegistryError::UnsupportedCellValue));
    let r = store.new_registry(alice(), "second".to_string(), vec![text("bad")], vec![pos(1)], 5);
    assert_eq!(r, Err(RegistryError::MalformedHeader));
    assert_eq!(store.get_all_registries(), before);
    assert_eq!(store.get_cells_count(), count);
}

#[test]
fn counter_accounting() {
    let mut store = new_store();
    let before = store.get_cells_count();
    store
        .new_registry(
            alice(),
            "t".to_string(),
            vec![column("colA", "number"), column("colB", "number")],
            vec![
                object(vec![("x", object(vec![("v", pos(1))]))]),
                object(vec![("x", object(vec![("v", pos(2))])), ("y", object(vec![("v", pos(3))]))]),
            ],
            7,
        )
        .unwrap();
    assert_eq!(store.get_cells_count(), before + 5);
}

#[test]
fn end_to_end_scenario() {
    let mut store = new_store();
    store
        .new_registry(
            alice(),
            "people".to_string(),
            vec![column("name", "string")],
            vec![
                object(vec![("name", object(vec![("v", text("Ann"))]))]),
                object(vec![("name", object(vec![("v", text("Bo"))]))]),
            ],
            100,
        )
        .unwrap();
    let regs = store.get_all_registries();
    assert_eq!(regs.len(), 1);
    let reg = &regs[0];
    assert_eq!(reg.name, "people");
    assert_eq!(reg.owner, alice());
    assert_eq!(reg.columns.len(), 1);
    assert_eq!(reg.columns[0].value, "name");
    assert_eq!(reg.rows.len(), 2);
    assert_eq!(reg.rows[0].len(), 1);
    assert_eq!(reg.rows[0][0].0, "name");
    assert_eq!(reg.rows[0][0].1.value, CellValue::String("Ann".to_string()));
    assert_eq!(reg.rows[1][0].1.value, CellValue::String("Bo".to_string()));
    let mut ids = vec![reg.uuid.clone()];
    ids.extend(all_ids(&regs));
    store
        .new_registry(
            alice(),
            "people2".to_string(),
            vec![column("name", "string")],
            vec![object(vec![("name", object(vec![("v", text("Ann"))]))])],
            100,
        )
        .unwrap();
    let regs = store.get_all_registries();
    ids.push(regs[1].uuid.clone());
    let second: Vec<Registry> = vec![regs[1].clone()];
    ids.extend(all_ids(&second));
    let unique: HashSet<&String> = ids.iter().collect();
    assert_eq!(ids.len(), 7);
    assert_eq!(unique.len(), 7);
}

#[test]
fn init_refuses_existing_state() {
    assert_eq!(Contract::init(alice(), true).err(), Some(RegistryError::AlreadyInitialized));
    let store = new_store();
    assert_eq!(store.get_cells_count(), 0);
    assert!(store.get_all_registries().is_empty());
}

#[test]
fn error_messages() {
    assert_eq!(RegistryError::DuplicateName.message(), "Name already exists");
    assert_eq!(RegistryError::AlreadyInitialized.message(), "Already initialized");
}

#[test]
fn identifier_exact_values() {
    let h = HeadCell::from_value(column("name", "string"), 3, 10).unwrap();
    assert_eq!(h.uuid, "61c97311-bb14-5679-99fc-98497a701292");
    let c = RowCell::from_value(wrap(RawValue::Null), 0, 0).unwrap();
    assert_eq!(c.uuid, "bf428e1d-f221-55de-a77f-a61755a4d727");
    let r = Registry::new("people".to_string(), alice(), vec![], vec![]);
    assert_eq!(r.uuid, "3af5cd3e-bd00-57d0-bbc9-f359e65bcf20");
}

#[test]
fn largest_seed() {
    let c = RowCell::from_value(wrap(pos(u64::MAX)), u64::MAX - 1, 1).unwrap();
    assert_eq!(c.value, CellValue::PosInt(u64::MAX));
    assert_eq!(c.uuid.len(), 36);
}

#[test]
fn seeds_do_not_repeat_across_heights() {
    let mut store = new_store();
    let rows = || vec![object(vec![("a", wrap(pos(1))), ("b", wrap(pos(2)))])];
    store.new_registry(alice(), "one".to_string(), vec![column("a", "number")], rows(), 10).unwrap();
    store.new_registry(alice(), "two".to_string(), vec![column("a", "number")], rows(), 11).unwrap();
    store.new_registry(alice(), "three".to_string(), vec![column("a", "number")], rows(), 11).unwrap();
    let ids = all_ids(&store.get_all_registries());
    let unique: HashSet<&String> = ids.iter().collect();
    assert_eq!(ids.len(), 9);
    assert_eq!(unique.len(), 9);
    assert_eq!(store.get_cells_count(), 9);
}

#[test]
fn registry_identifier_differs_from_cells() {
    let mut store = new_store();
    store
        .new_registry(
            alice(),
            "0".to_string(),
            vec![column("a", "string")],
            vec![object(vec![("a", wrap(text("x")))])],
            0,
        )
        .unwrap();
    store.new_registry(alice(), "1".to_string(), vec![], vec![], 0).unwrap();
    let regs = store.get_all_registries();
    let mut ids = vec![regs[0].uuid.clone(), regs[1].uuid.clone()];
    ids.extend(all_ids(&regs));
    let unique: HashSet<&String> = ids.iter().collect();
    assert_eq!(ids.len(), 4);
    assert_eq!(unique.len(), 4);
}
