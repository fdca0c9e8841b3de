use crate::error::RegistryError;
use crate::ident::{registry_id, seed_of};
use crate::registry::{
    head_cell_built, head_cell_from_ref, row_cell_built, row_cell_from_ref, row_cell_of, HeadCell, Registry,
    Row, RowCell,
};
use crate::value::{entries_of, header_from_ref, header_of, wrapped_from_entries, RawValue};
use near_sdk::AccountId;
use vstd::prelude::*;

verus! {

/// The store: its administrator, every registry in creation order, and the
/// number of columns and cells created so far.
pub struct Contract {
    owner: AccountId,
    registries: Vec<Registry>,
    cells_counter: u64,
}

/// No two registries share a name.
pub open spec fn names_unique(regs: Seq<Registry>) -> bool {
    forall|i: int, j: int| 0 <= i < j < regs.len() ==> regs[i].name@ != regs[j].name@
}

/// No two entries of an object share a key.
pub open spec fn keys_distinct(es: Seq<(String, RawValue)>) -> bool {
    forall|i: int, j: int| 0 <= i < j < es.len() ==> es[i].0@ != es[j].0@
}

/// No two cells of a row share a key.
pub open spec fn row_keys_distinct(row: Seq<(String, RowCell)>) -> bool {
    forall|i: int, j: int| 0 <= i < j < row.len() ==> row[i].0@ != row[j].0@
}

/// Every row that is an object has distinct keys.
pub open spec fn rows_keys_distinct(rows: Seq<RawValue>) -> bool {
    forall|r: int| 0 <= r < rows.len() ==> keys_distinct(entries_of(#[trigger] rows[r]))
}

/// The number of cells in stored rows.
pub open spec fn row_cells(rows: Seq<Row>) -> nat
    decreases rows.len(),
{
    if rows.len() == 0 {
        0
    } else {
        row_cells(rows.drop_last()) + rows.last()@.len()
    }
}

/// The number of columns and cells in stored registries.
pub open spec fn total_cells(regs: Seq<Registry>) -> nat
    decreases regs.len(),
{
    if regs.len() == 0 {
        0
    } else {
        total_cells(regs.drop_last()) + regs.last().columns@.len() + row_cells(regs.last().rows@)
    }
}

/// The number of cells that the rows give: one per entry of each row object.
pub open spec fn cell_count(rows: Seq<RawValue>) -> nat
    decreases rows.len(),
{
    if rows.len() == 0 {
        0
    } else {
        cell_count(rows.drop_last()) + entries_of(rows.last()).len()
    }
}

/// The first error among a row's entries, in order.
pub open spec fn entries_error(es: Seq<(String, RawValue)>) -> Option<RegistryError>
    decreases es.len(),
{
    if es.len() == 0 {
        None
    } else {
        match entries_error(es.drop_last()) {
            Some(e) => Some(e),
            None => match row_cell_of(es.last().1) {
                Err(e) => Some(e),
                Ok(_) => None,
            },
        }
    }
}

/// The error that a row gives, if any: it must be an object of wrapper objects.
pub open spec fn row_error(row: RawValue) -> Option<RegistryError> {
    match row {
        RawValue::Object(es) => entries_error(es@),
        _ => Some(RegistryError::MalformedRow),
    }
}

/// The first error among the rows, in order.
pub open spec fn rows_error(rows: Seq<RawValue>) -> Option<RegistryError>
    decreases rows.len(),
{
    if rows.len() == 0 {
        None
    } else {
        match rows_error(rows.drop_last()) {
            Some(e) => Some(e),
            None => row_error(rows.last()),
        }
    }
}

/// Every column is a well-formed descriptor.
pub open spec fn columns_valid(cols: Seq<RawValue>) -> bool {
    forall|i: int| 0 <= i < cols.len() ==> (#[trigger] header_of(cols[i])) is Some
}

/// Why a registry cannot be created, if it cannot: its name is taken, then a
/// column is malformed, then the first failing row decides.
pub open spec fn creation_error(taken: bool, cols: Seq<RawValue>, rows: Seq<RawValue>) -> Option<RegistryError> {
    if taken {
        Some(RegistryError::DuplicateName)
    } else if !columns_valid(cols) {
        Some(RegistryError::MalformedHeader)
    } else {
        rows_error(rows)
    }
}

/// `row` holds one cell per entry of `es`, under the entry's key, numbered
/// from `first` on in entry order.
pub open spec fn row_built(row: Seq<(String, RowCell)>, es: Seq<(String, RawValue)>, height: nat, first: nat) -> bool {
    &&& row.len() == es.len()
    &&& (keys_distinct(es) ==> row_keys_distinct(row))
    &&& forall|k: int|
        0 <= k < es.len() ==> (#[trigger] row[k]).0 == es[k].0 && row_cell_built(
            row[k].1,
            es[k].1,
            seed_of(height, (first + k) as nat),
        )
}

/// `reg` is the registry that the inputs describe: columns numbered from
/// `first` on, left to right, then the cells of each row in turn.
pub open spec fn registry_built(
    reg: Registry,
    owner: AccountId,
    name: String,
    cols: Seq<RawValue>,
    rows: Seq<RawValue>,
    height: nat,
    first: nat,
) -> bool {
    &&& reg.uuid@ == registry_id(name@)
    &&& reg.owner == owner
    &&& reg.name == name
    &&& reg.columns@.len() == cols.len()
    &&& forall|i: int|
        0 <= i < cols.len() ==> head_cell_built(#[trigger] reg.columns@[i], cols[i], seed_of(height, (first + i) as nat))
    &&& reg.rows@.len() == rows.len()
    &&& forall|r: int|
        0 <= r < rows.len() ==> row_built(
            (#[trigger] reg.rows@[r])@,
            entries_of(rows[r]),
            height,
            first + cols.len() + cell_count(rows.take(r)),
        )
}

proof fn lemma_entries_error_prefix(es: Seq<(String, RawValue)>, n: int)
    requires
        0 <= n <= es.len(),
        entries_error(es.take(n)) is Some,
    ensures
        entries_error(es) == entries_error(es.take(n)),
    decreases es.len(),
{
    if n == es.len() {
        assert(es.take(n) =~= es);
    } else {
        assert(es.drop_last().take(n) =~= es.take(n));
        lemma_entries_error_prefix(es.drop_last(), n);
    }
}

proof fn lemma_rows_error_prefix(rows: Seq<RawValue>, n: int)
    requires
        0 <= n <= rows.len(),
        rows_error(rows.take(n)) is Some,
    ensures
        rows_error(rows) == rows_error(rows.take(n)),
    decreases rows.len(),
{
    if n == rows.len() {
        assert(rows.take(n) =~= rows);
    } else {
        assert(rows.drop_last().take(n) =~= rows.take(n));
        lemma_rows_error_prefix(rows.drop_last(), n);
    }
}

proof fn lemma_row_cells(out: Seq<Row>, rows: Seq<RawValue>)
    requires
        out.len() == rows.len(),
        forall|r: int| 0 <= r < rows.len() ==> (#[trigger] out[r])@.len() == entries_of(rows[r]).len(),
    ensures
        row_cells(out) == cell_count(rows),
    decreases rows.len(),
{
    if rows.len() > 0 {
        lemma_row_cells(out.drop_last(), rows.drop_last());
    }
}

proof fn lemma_cell_count_prefix(rows: Seq<RawValue>, n: int)
    requires
        0 <= n <= rows.len(),
    ensures
        cell_count(rows.take(n)) <= cell_count(rows),
    decreases rows.len(),
{
    if n == rows.len() {
        assert(rows.take(n) =~= rows);
    } else {
        assert(rows.drop_last().take(n) =~= rows.take(n));
        lemma_cell_count_prefix(rows.drop_last(), n);
    }
}

/// The error, if any, that a row entry gives.
fn entry_check(v: &RawValue) -> (r: Option<RegistryError>)
    ensures
        match row_cell_of(*v) {
            Err(e) => r == Some(e),
            Ok(_) => r is None,
        },
{
    match v {
        RawValue::Object(w) => match wrapped_from_entries(w) {
            Ok(_) => None,
            Err(e) => Some(e),
        },
        _ => Some(RegistryError::MalformedRow),
    }
}

/// Checks the columns and rows before anything is numbered: the first
/// malformed column, else the first failing row.
fn validate(columns: &Vec<RawValue>, rows: &Vec<RawValue>) -> (r: Option<RegistryError>)
    ensures
        r == (if !columns_valid(columns@) {
            Some(RegistryError::MalformedHeader)
        } else {
            rows_error(rows@)
        }),
{
    let mut i: usize = 0;
    while i < columns.len()
        invariant
            0 <= i <= columns@.len(),
            forall|j: int| 0 <= j < i ==> (#[trigger] header_of(columns@[j])) is Some,
        decreases columns@.len() - i,
    {
        match header_from_ref(&columns[i]) {
            Some(_) => {},
            None => {
                return Some(RegistryError::MalformedHeader);
            },
        }
        i = i + 1;
    }
    let mut r: usize = 0;
    while r < rows.len()
        invariant
            0 <= r <= rows@.len(),
            columns_valid(columns@),
            rows_error(rows@.take(r as int)) is None,
        decreases rows@.len() - r,
    {
        proof {
            assert(rows@.take(r + 1).drop_last() =~= rows@.take(r as int));
        }
        match &rows[r] {
            RawValue::Object(es) => {
                let mut k: usize = 0;
                while k < es.len()
                    invariant
                        0 <= k <= es@.len(),
                        0 <= r < rows@.len(),
                        rows@[r as int] == RawValue::Object(*es),
                        rows@.take(r + 1).drop_last() == rows@.take(r as int),
                        rows_error(rows@.take(r as int)) is None,
                        columns_valid(columns@),
                        entries_error(es@.take(k as int)) is None,
                    decreases es@.len() - k,
                {
                    proof {
                        assert(es@.take(k + 1).drop_last() =~= es@.take(k as int));
                    }
                    match entry_check(&es[k].1) {
                        None => {},
                        Some(e) => {
                            proof {
                                lemma_entries_error_prefix(es@, k + 1);
                                lemma_rows_error_prefix(rows@, r + 1);
                            }
                            return Some(e);
                        },
                    }
                    k = k + 1;
                }
                proof {
                    assert(es@.take(k as int) =~= es@);
                }
            },
            _ => {
                proof {
                    lemma_rows_error_prefix(rows@, r + 1);
                }
                return Some(RegistryError::MalformedRow);
            },
        }
        r = r + 1;
    }
    proof {
        assert(rows@.take(rows@.len() as int) =~= rows@);
    }
    None
}

impl Contract {
    /// The store's invariant: registry names are unique, and the counter is
    /// the number of columns and cells created so far.
    pub open spec fn wf(&self) -> bool {
        &&& names_unique(self.registries_spec())
        &&& self.counter() == total_cells(self.registries_spec())
    }

    /// The administrator of the store.
    pub closed spec fn owner_spec(&self) -> AccountId {
        self.owner
    }

    /// The registries, in creation order.
    pub closed spec fn registries_spec(&self) -> Seq<Registry> {
        self.registries@
    }

    /// The number of columns and cells created so far.
    pub closed spec fn counter(&self) -> nat {
        self.cells_counter as nat
    }

    /// Some stored registry has this name.
    pub open spec fn name_taken(&self, name: Seq<char>) -> bool {
        exists|i: int| 0 <= i < self.registries_spec().len() && (#[trigger] self.registries_spec()[i]).name@ == name
    }

    /// Creates an empty store administered by `owner_id`, unless a store
    /// already exists.
    pub fn init(owner_id: AccountId, state_exists: bool) -> (r: Result<Contract, RegistryError>)
        ensures
            match r {
                Ok(c) => {
                    &&& !state_exists
                    &&& c.owner_spec() == owner_id
                    &&& c.registries_spec().len() == 0
                    &&& c.counter() == 0
                    &&& c.wf()
                },
                Err(e) => state_exists && e == RegistryError::AlreadyInitialized,
            },
    {
        if state_exists {
            return Err(RegistryError::AlreadyInitialized);
        }
        Ok(Contract { owner: owner_id, registries: Vec::new(), cells_counter: 0 })
    }

    /// Creates the registry `name` from column descriptors and row objects and
    /// appends it to the store. Columns are numbered first, left to right, then
    /// the cells of each row in turn, each from the store's counter on; every
    /// number is added to `block_height` to seed the identifier. The counter
    /// grows by one per column and per cell. On any error nothing changes.
    /// Each row object must list distinct keys, as a JSON object does.
    pub fn new_registry(
        &mut self,
        owner_id: AccountId,
        name: String,
        columns: Vec<RawValue>,
        rows: Vec<RawValue>,
        block_height: u64,
    ) -> (r: Result<(), RegistryError>)
        requires
            old(self).wf(),
            rows_keys_distinct(rows@),
            creation_error(old(self).name_taken(name@), columns@, rows@) is None ==> block_height
                + old(self).counter() + columns@.len() + cell_count(rows@) <= u64::MAX,
        ensures
            r is Err <==> creation_error(old(self).name_taken(name@), columns@, rows@) is Some,
            old(self).name_taken(name@) ==> r == Err::<(), RegistryError>(RegistryError::DuplicateName),
            match r {
                Err(e) => {
                    &&& creation_error(old(self).name_taken(name@), columns@, rows@) == Some(e)
                    &&& *final(self) == *old(self)
                },
                Ok(()) => {
                    let regs = final(self).registries_spec();
                    &&& regs.len() == old(self).registries_spec().len() + 1
                    &&& regs == old(self).registries_spec().push(regs.last())
                    &&& registry_built(
                        regs.last(),
                        owner_id,
                        name,
                        columns@,
                        rows@,
                        block_height as nat,
                        old(self).counter(),
                    )
                    &&& final(self).name_taken(name@)
                    &&& final(self).wf()
                    &&& final(self).counter() == old(self).counter() + columns@.len() + cell_count(rows@)
                    &&& final(self).owner_spec() == old(self).owner_spec()
                },
            },
    {
        if self.is_name_exist(&name) {
            return Err(RegistryError::DuplicateName);
        }
        match validate(&columns, &rows) {
            Some(e) => {
                return Err(e);
            },
            None => {},
        }
        let ghost c0 = self.cells_counter as nat;
        let ghost h = block_height as nat;
        let mut counter: u64 = self.cells_counter;
        let mut cols_out: Vec<HeadCell> = Vec::new();
        let mut i: usize = 0;
        while i < columns.len()
            invariant
                0 <= i <= columns@.len(),
                *self == *old(self),
                columns_valid(columns@),
                rows_error(rows@) is None,
                !old(self).name_taken(name@),
                c0 == self.cells_counter,
                h == block_height,
                block_height + c0 + columns@.len() + cell_count(rows@) <= u64::MAX,
                counter == c0 + i,
                cols_out@.len() == i,
                forall|j: int| 0 <= j < i ==> (#[trigger] header_of(columns@[j])) is Some,
                forall|j: int|
                    0 <= j < i ==> head_cell_built(#[trigger] cols_out@[j], columns@[j], seed_of(h, (c0 + j) as nat)),
            decreases columns@.len() - i,
        {
            match head_cell_from_ref(&columns[i], counter, block_height) {
                Ok(c) => {
                    cols_out.push(c);
                },
                Err(e) => {
                    return Err(e);
                },
            }
            counter = counter + 1;
            i = i + 1;
        }
        let ghost ncols = columns@.len();
        let mut rows_out: Vec<Row> = Vec::new();
        let mut r: usize = 0;
        while r < rows.len()
            invariant
                0 <= r <= rows@.len(),
                *self == *old(self),
                rows_error(rows@) is None,
                rows_keys_distinct(rows@),
                !old(self).name_taken(name@),
                c0 == self.cells_counter,
                h == block_height,
                ncols == columns@.len(),
                columns_valid(columns@),
                !self.name_taken(name@),
                block_height + c0 + ncols + cell_count(rows@) <= u64::MAX,
                counter == c0 + ncols + cell_count(rows@.take(r as int)),
                rows_error(rows@.take(r as int)) is None,
                rows_out@.len() == r,
                cols_out@.len() == ncols,
                forall|j: int|
                    0 <= j < ncols ==> head_cell_built(#[trigger] cols_out@[j], columns@[j], seed_of(h, (c0 + j) as nat)),
                forall|q: int|
                    0 <= q < r ==> row_built(
                        (#[trigger] rows_out@[q])@,
                        entries_of(rows@[q]),
                        h,
                        c0 + ncols + cell_count(rows@.take(q)),
                    ),
            decreases rows@.len() - r,
        {
            let ghost base = c0 + ncols + cell_count(rows@.take(r as int));
            proof {
                assert(rows@.take(r + 1).drop_last() =~= rows@.take(r as int));
                lemma_cell_count_prefix(rows@, r + 1);
            }
            match &rows[r] {
                RawValue::Object(es) => {
                    let mut row: Row = Vec::new();
                    let mut k: usize = 0;
                    while k < es.len()
                        invariant
                            0 <= k <= es@.len(),
                            0 <= r < rows@.len(),
                            *self == *old(self),
                            rows_error(rows@) is None,
                            keys_distinct(es@),
                            !old(self).name_taken(name@),
                            columns_valid(columns@),
                            rows_error(rows@.take(r as int)) is None,
                            rows@.take(r + 1).drop_last() == rows@.take(r as int),
                            h == block_height,
                            rows@[r as int] == RawValue::Object(*es),
                            base + es@.len() + block_height <= u64::MAX,
                            counter == base + k,
                            entries_error(es@.take(k as int)) is None,
                            row_built(row@, es@.take(k as int), h, base),
                        decreases es@.len() - k,
                    {
                        proof {
                            assert(es@.take(k + 1).drop_last() =~= es@.take(k as int));
                        }
                        match row_cell_from_ref(&es[k].1, counter, block_height) {
                            Ok(c) => {
                                row.push((es[k].0.clone(), c));
                            },
                            Err(e) => {
                                proof {
                                    lemma_entries_error_prefix(es@, k + 1);
                                    lemma_rows_error_prefix(rows@, r + 1);
                                }
                                return Err(e);
                            },
                        }
                        counter = counter + 1;
                        k = k + 1;
                        assert(row_built(row@, es@.take(k as int), h, base));
                    }
                    proof {
                        assert(es@.take(k as int) =~= es@);
                    }
                    rows_out.push(row);
                },
                _ => {
                    proof {
                        lemma_rows_error_prefix(rows@, r + 1);
                    }
                    return Err(RegistryError::MalformedRow);
                },
            }
            r = r + 1;
        }
        proof {
            assert(rows@.take(rows@.len() as int) =~= rows@);
        }
        let ghost old_regs = self.registries@;
        let reg = Registry::new(name, owner_id, cols_out, rows_out);
        self.registries.push(reg);
        self.cells_counter = counter;
        proof {
            assert(self.registries@.last().name@ == name@);
            assert(self.registries@[old_regs.len() as int] == self.registries@.last());
            assert(self.registries@.drop_last() =~= old_regs);
            lemma_row_cells(self.registries@.last().rows@, rows@);
        }
        Ok(())
    }

    /// Whether a registry of this name is stored.
    pub fn is_name_exist(&self, name: &String) -> (r: bool)
        ensures
            r == self.name_taken(name@),
    {
        let mut i: usize = 0;
        while i < self.registries.len()
            invariant
                0 <= i <= self.registries@.len(),
                forall|j: int| 0 <= j < i ==> (#[trigger] self.registries@[j]).name@ != name@,
            decreases self.registries@.len() - i,
        {
            if self.registries[i].name == *name {
                assert(self.registries_spec()[i as int].name@ == name@);
                return true;
            }
            i = i + 1;
        }
        false
    }

    /// Copies of all registries, in creation order.
    pub fn get_all_registries(&self) -> (r: Vec<Registry>)
        ensures
            r@.len() == self.registries_spec().len(),
            forall|i: int| 0 <= i < r@.len() ==> (#[trigger] r@[i]).same_as(self.registries_spec()[i]),
    {
        let mut out: Vec<Registry> = Vec::new();
        let mut i: usize = 0;
        while i < self.registries.len()
            invariant
                0 <= i <= self.registries@.len(),
                out@.len() == i,
                forall|j: int| 0 <= j < i ==> (#[trigger] out@[j]).same_as(self.registries@[j]),
            decreases self.registries@.len() - i,
        {
            out.push(self.registries[i].duplicate());
            i = i + 1;
        }
        out
    }

    /// The number of columns and cells created so far.
    pub fn get_cells_count(&self) -> (r: u64)
        ensures
            r == self.counter(),
    {
        self.cells_counter
    }
}

} // verus!
