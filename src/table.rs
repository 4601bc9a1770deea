use vstd::prelude::*;
use crate::model::{Inventory, InventoryView, Model};

verus! {

/// The text of each cell of a row.
pub open spec fn texts(cells: Seq<String>) -> Seq<Seq<char>> {
    cells.map_values(|c: String| c@)
}

/// A record that can be shown as one row of a table.
pub trait GuiTableModel: Model {
    /// The column titles.
    spec fn header_spec() -> Seq<Seq<char>>;

    /// The cells that show a record.
    spec fn row_spec(v: Self::V) -> Seq<Seq<char>>;

    fn header() -> (r: Vec<String>)
        ensures
            texts(r@) == Self::header_spec(),
    ;

    fn row(&self) -> (r: Vec<String>)
        ensures
            texts(r@) == Self::row_spec(self@),
    ;
}

/// The character of a decimal digit.
pub open spec fn digit_char(d: nat) -> char {
    seq!['0', '1', '2', '3', '4', '5', '6', '7', '8', '9'][d as int]
}

/// The decimal numeral of `n`, without leading zeros.
pub open spec fn decimal(n: nat) -> Seq<char>
    decreases n,
{
    if n < 10 {
        seq![digit_char(n)]
    } else {
        decimal(n / 10).push(digit_char(n % 10))
    }
}

/// Relies on `ToString` for `usize`: the decimal numeral of the value.
#[verifier::external_body]
fn decimal_string(n: usize) -> (r: String)
    ensures
        r@ == decimal(n as nat),
{
    n.to_string()
}

/// The text of a cell that may be empty.
pub open spec fn or_empty(s: Option<Seq<char>>) -> Seq<char> {
    match s {
        Some(t) => t,
        None => Seq::empty(),
    }
}

impl GuiTableModel for Inventory {
    open spec fn header_spec() -> Seq<Seq<char>> {
        seq![
            seq!['I', 'D'],
            seq!['N', 'a', 'm', 'e'],
            seq!['Q', 'u', 'a', 'n', 't', 'i', 't', 'y'],
            seq!['N', 'o', 't', 'e'],
        ]
    }

    open spec fn row_spec(v: InventoryView) -> Seq<Seq<char>> {
        seq![
            v.id,
            v.name,
            match v.quantity {
                Some(q) => decimal(q as nat),
                None => Seq::empty(),
            },
            or_empty(v.note),
        ]
    }

    fn header() -> (r: Vec<String>) {
        let id = "ID".to_owned();
        let name = "Name".to_owned();
        let quantity = "Quantity".to_owned();
        let note = "Note".to_owned();
        proof {
            reveal_strlit("ID");
            reveal_strlit("Name");
            reveal_strlit("Quantity");
            reveal_strlit("Note");
            assert(id@ =~= seq!['I', 'D']);
            assert(name@ =~= seq!['N', 'a', 'm', 'e']);
            assert(quantity@ =~= seq!['Q', 'u', 'a', 'n', 't', 'i', 't', 'y']);
            assert(note@ =~= seq!['N', 'o', 't', 'e']);
        }
        let r = vec![id, name, quantity, note];
        assert(texts(r@) =~= Self::header_spec());
        r
    }

    fn row(&self) -> (r: Vec<String>) {
        let quantity = match self.quantity {
            Some(q) => decimal_string(q),
            None => String::new(),
        };
        let note = match &self.note {
            Some(n) => n.clone(),
            None => String::new(),
        };
        let r = vec![self.id.clone(), self.name.clone(), quantity, note];
        assert(texts(r@) =~= Self::row_spec(self@));
        r
    }
}

} // verus!
