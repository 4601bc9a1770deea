use vstd::prelude::*;
use std::marker::PhantomData;
use vstd::std_specs::convert::FromSpec;
use crate::model::{Inventory, Model};
use crate::repo::{add_all, views, Repo};

verus! {

/// A source of records that can be folded into a fresh repository.
pub trait DataStore<M: Model>: Sized + Clone {
    /// The records the source holds, in the order it produces them.
    fn into_models(self) -> Vec<M>;

    /// A new repository holding everything the source produces.
    fn into_repo(self) -> (r: Repo<M>)
        ensures
            r.wf(),
            exists|vs: Seq<M::V>| r@ == add_all::<M>(Seq::empty(), vs),
    {
        let models = self.into_models();
        let mut repo = Repo::new();
        repo.add_models(models);
        repo
    }
}

/// The rows of `rs` that could be read, in order; unreadable rows are `None`.
pub open spec fn readable<T>(rs: Seq<Option<T>>) -> Seq<T>
    decreases rs.len(),
{
    if rs.len() == 0 {
        Seq::empty()
    } else {
        let rest = readable(rs.drop_last());
        match rs.last() {
            Some(v) => rest.push(v),
            None => rest,
        }
    }
}

/// A source that reads rows of type `Row` from a delimited file and turns
/// each into a `Data` record.
#[derive(Debug)]
pub struct CsvStore<Row: Clone, Data: Clone> {
    path: String,
    row: PhantomData<Row>,
    data: PhantomData<Data>,
}

impl<Row: Clone, Data: Clone> Clone for CsvStore<Row, Data> {
    fn clone(&self) -> Self {
        CsvStore { path: self.path.clone(), row: PhantomData, data: PhantomData }
    }
}

impl<Row: Clone, Data: Clone> View for CsvStore<Row, Data> {
    type V = Seq<char>;

    closed spec fn view(&self) -> Seq<char> {
        self.path@
    }
}

impl<Row: Clone, Data: Clone> CsvStore<Row, Data> {
    pub fn from_path(path: &str) -> (r: Self)
        ensures
            r@ == path@,
    {
        CsvStore { path: path.to_owned(), row: PhantomData, data: PhantomData }
    }

    /// The location of the file the rows are read from.
    pub fn path(&self) -> (r: &str)
        ensures
            r@ == self@,
    {
        self.path.as_str()
    }
}

impl<Row: Clone, Data: Clone + From<Row>> CsvStore<Row, Data> {
    /// The records converted from every readable row, in order; a row that
    /// could not be read (`None`) is skipped and does not stop the rest.
    pub fn models_from_rows(rows: Vec<Option<Row>>) -> (r: Vec<Data>)
        ensures
            r@.len() == readable(rows@).len(),
            <Data as FromSpec<Row>>::obeys_from_spec() ==> r@ == readable(rows@).map_values(
                |row: Row| <Data as FromSpec<Row>>::from_spec(row),
            ),
    {
        let ghost all = rows@;
        let mut rest = rows;
        let total: usize = rest.len();
        let mut out: Vec<Data> = Vec::new();
        let mut k: usize = 0;
        while rest.len() > 0
            invariant
                all.len() == total,
                k + rest@.len() == total,
                rest@ == all.subrange(k as int, total as int),
                out@.len() == readable(all.take(k as int)).len(),
                <Data as FromSpec<Row>>::obeys_from_spec() ==> out@ == readable(
                    all.take(k as int),
                ).map_values(|row: Row| <Data as FromSpec<Row>>::from_spec(row)),
            decreases rest@.len(),
        {
            let item = rest.remove(0);
            let ghost prev = out@;
            proof {
                assert(item == all[k as int]);
                assert(all.take(k + 1).drop_last() =~= all.take(k as int));
                assert(rest@ =~= all.subrange(k + 1, total as int));
            }
            match item {
                Some(row) => {
                    out.push(Data::from(row));
                    proof {
                        if <Data as FromSpec<Row>>::obeys_from_spec() {
                            assert(out@ =~= readable(all.take(k + 1)).map_values(
                                |row: Row| <Data as FromSpec<Row>>::from_spec(row),
                            ));
                        }
                    }
                },
                None => {},
            }
            k = k + 1;
        }
        assert(all.take(k as int) =~= all);
        out
    }
}

/// One row of an inventory file, as read.
#[derive(Debug, Clone)]
pub struct InventoryRow {
    pub id: String,
    pub name: String,
    pub quantity: Option<usize>,
    pub note: Option<String>,
}

impl From<InventoryRow> for Inventory {
    fn from(row: InventoryRow) -> Self {
        Inventory { id: row.id, name: row.name, quantity: row.quantity, note: row.note }
    }
}

impl vstd::std_specs::convert::FromSpecImpl<InventoryRow> for Inventory {
    open spec fn obeys_from_spec() -> bool {
        true
    }

    open spec fn from_spec(row: InventoryRow) -> Inventory {
        Inventory { id: row.id, name: row.name, quantity: row.quantity, note: row.note }
    }
}

/// A delimited inventory file.
pub type InventoryCsv = CsvStore<InventoryRow, Inventory>;

} // verus!
