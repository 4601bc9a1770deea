use data_repo::model::{text_occurs, Inventory, Model};
use data_repo::repo::Repo;
use data_repo::store::{CsvStore, DataStore, InventoryCsv, InventoryRow};
use data_repo::table::GuiTableModel;

fn item(id: &str, name: &str, quantity: Option<usize>, note: Option<&str>) -> Inventory {
    Inventory {
        id: id.to_owned(),
        name: name.to_owned(),
        quantity,
        note: note.map(|n| n.to_owned()),
    }
}

fn row(id: &str, name: &str, quantity: Option<usize>, note: Option<&str>) -> InventoryRow {
    InventoryRow {
        id: id.to_owned(),
        name: name.to_owned(),
        quantity,
        note: note.map(|n| n.to_owned()),
    }
}

#[derive(Clone)]
struct RowSource {
    rows: Vec<Option<InventoryRow>>,
}

impl DataStore<Inventory> for RowSource {
    fn into_models(self) -> Vec<Inventory> {
        InventoryCsv::models_from_rows(self.rows)
    }
}

fn ids(repo: &Repo<Inventory>) -> Vec<String> {
    let mut v: Vec<String> = repo.items().iter().map(|m| m.id.clone()).collect();
    v.sort();
    v
}

#[test]
fn identities_stay_unique() {
    let mut repo = Repo::new();
    repo.add_model(item("a", "Apple", Some(1), None));
    repo.add_model(item("b", "Bolt", Some(2), None));
    repo.add_model(item("a", "Apple", Some(4), None));
    repo.add_model(item("c", "Cog", None, None));
    repo.add_model(item("b", "Bolt", None, Some("x")));
    assert_eq!(ids(&repo), vec!["a", "b", "c"]);
    assert_eq!(repo.items().len(), 3);
}

#[test]
fn merge_adds_quantities() {
    let mut repo = Repo::new();
    repo.add_model(item("k", "Widget", Some(5), None));
    repo.add_model(item("k", "Widget", Some(3), None));
    assert_eq!(repo.items().len(), 1);
    assert_eq!(repo.get(&"k".to_owned()).unwrap().quantity, Some(8));
}

#[test]
fn merge_puts_incoming_note_first() {
    let mut repo = Repo::new();
    repo.add_model(item("k", "Widget", None, Some("foo")));
    repo.add_model(item("k", "Widget", None, Some("bar")));
    assert_eq!(repo.get(&"k".to_owned()).unwrap().note.as_deref(), Some("barfoo"));
}

#[test]
fn merge_into_missing_fields() {
    let mut repo = Repo::new();
    repo.add_model(item("k", "Widget", None, None));
    repo.add_model(item("k", "Other", Some(3), Some("n")));
    let stored = repo.get(&"k".to_owned()).unwrap();
    assert_eq!(stored.quantity, Some(3));
    assert_eq!(stored.note.as_deref(), Some("n"));
    assert_eq!(stored.name, "Widget");
}

#[test]
fn merge_keeps_fields_the_incoming_lacks() {
    let mut repo = Repo::new();
    repo.add_model(item("k", "Widget", Some(7), Some("keep")));
    repo.add_model(item("k", "Widget", None, None));
    let stored = repo.get(&"k".to_owned()).unwrap();
    assert_eq!(stored.quantity, Some(7));
    assert_eq!(stored.note.as_deref(), Some("keep"));
}

#[test]
fn quantity_sum_stops_at_the_largest_value() {
    let mut repo = Repo::new();
    repo.add_model(item("k", "Widget", Some(usize::MAX), None));
    repo.add_model(item("k", "Widget", Some(1), None));
    assert_eq!(repo.get(&"k".to_owned()).unwrap().quantity, Some(usize::MAX));
}

#[test]
fn adding_the_same_record_twice_keeps_one() {
    let mut once = Repo::new();
    let a = item("k", "Widget", None, None);
    once.add_model(a.clone());
    let mut twice = Repo::new();
    twice.add_model(a.clone());
    twice.add_model(a.clone());
    assert_eq!(twice.items().len(), 1);
    let x = once.get(&"k".to_owned()).unwrap();
    let y = twice.get(&"k".to_owned()).unwrap();
    assert_eq!((&x.id, &x.name, x.quantity, &x.note), (&y.id, &y.name, y.quantity, &y.note));
}

#[test]
fn search_ignores_case() {
    let mut repo = Repo::new();
    repo.add_model(item("w", "Widget", Some(1), None));
    let upper = repo.text_search("WIDGET");
    assert_eq!(upper.len(), 1);
    assert_eq!(upper[0].id, "w");
    let lower = repo.text_search("widget");
    assert_eq!(lower.len(), 1);
    assert_eq!(lower[0].id, "w");
    assert!(repo.text_search("gadget").is_empty());
}

#[test]
fn search_matches_part_of_a_name() {
    let mut repo = Repo::new();
    repo.add_model(item("a", "Blue Widget", None, None));
    repo.add_model(item("b", "Gadget", None, None));
    repo.add_model(item("c", "widgetry", None, None));
    let mut found: Vec<String> = repo.text_search("Widg").iter().map(|m| m.id.clone()).collect();
    found.sort();
    assert_eq!(found, vec!["a", "c"]);
    assert_eq!(repo.text_search("").len(), 3);
}

#[test]
fn search_on_empty_repository() {
    let repo: Repo<Inventory> = Repo::new();
    assert!(repo.text_search("anything").is_empty());
}

#[test]
fn normalizing_folds_case() {
    assert_eq!(Inventory::normalize_search_term("WiDGet"), "widget");
    let w = item("w", "Widget", None, None);
    assert!(w.matches_text_search("idg"));
    assert!(!w.matches_text_search("IDG"));
}

#[test]
fn unreadable_row_is_skipped() {
    let source = RowSource {
        rows: vec![
            Some(row("1", "Apple", Some(1), None)),
            None,
            Some(row("3", "Cog", None, Some("n"))),
        ],
    };
    let repo = source.into_repo();
    assert_eq!(ids(&repo), vec!["1", "3"]);
    assert_eq!(repo.get(&"3".to_owned()).unwrap().note.as_deref(), Some("n"));
    assert!(repo.get(&"2".to_owned()).is_none());
}

#[test]
fn rows_convert_in_order() {
    let models = InventoryCsv::models_from_rows(vec![
        None,
        Some(row("b", "Bolt", Some(2), None)),
        Some(row("a", "Apple", None, Some("x"))),
        None,
    ]);
    assert_eq!(models.len(), 2);
    assert_eq!(models[0].id, "b");
    assert_eq!(models[0].quantity, Some(2));
    assert_eq!(models[1].id, "a");
    assert_eq!(models[1].note.as_deref(), Some("x"));
}

#[test]
fn load_merges_duplicates_in_order() {
    let source = RowSource {
        rows: vec![
            Some(row("k", "Widget", Some(1), Some("a"))),
            Some(row("k", "Widget", Some(2), Some("b"))),
        ],
    };
    let mut repo = Repo::new();
    repo.load(source.clone());
    let stored = repo.get(&"k".to_owned()).unwrap();
    assert_eq!(stored.quantity, Some(3));
    assert_eq!(stored.note.as_deref(), Some("ba"));
    repo.load(source);
    assert_eq!(repo.get(&"k".to_owned()).unwrap().quantity, Some(6));
}

#[test]
fn iterating_twice_gives_the_same_records() {
    let mut repo = Repo::with_capacity(8);
    repo.add_model(item("a", "Apple", Some(1), None));
    repo.add_model(item("b", "Bolt", None, Some("n")));
    let first: Vec<String> = repo.items().iter().map(|m| m.id.clone()).collect();
    let second: Vec<String> = repo.items().iter().map(|m| m.id.clone()).collect();
    let mut f = first.clone();
    let mut s = second.clone();
    f.sort();
    s.sort();
    assert_eq!(f, s);
    assert_eq!(f.len(), 2);
}

#[test]
fn get_absent_is_none() {
    let mut repo: Repo<Inventory> = Repo::new();
    assert!(repo.get(&"x".to_owned()).is_none());
    assert!(repo.get_mut(&"x".to_owned()).is_none());
}

#[test]
fn get_mut_changes_the_stored_record() {
    let mut repo = Repo::new();
    repo.add_model(item("k", "Widget", Some(1), None));
    if let Some(m) = repo.get_mut(&"k".to_owned()) {
        m.quantity = Some(9);
    }
    assert_eq!(repo.get(&"k".to_owned()).unwrap().quantity, Some(9));
}

#[test]
fn table_header_and_rows() {
    assert_eq!(Inventory::header(), vec!["ID", "Name", "Quantity", "Note"]);
    assert_eq!(item("k", "Widget", Some(42), Some("n")).row(), vec!["k", "Widget", "42", "n"]);
    assert_eq!(item("k", "Widget", None, None).row(), vec!["k", "Widget", "", ""]);
    assert_eq!(item("z", "Z", Some(0), None).row()[2], "0");
}

#[test]
fn store_keeps_its_path() {
    let store: CsvStore<InventoryRow, Inventory> = CsvStore::from_path("data/stock.csv");
    assert_eq!(store.path(), "data/stock.csv");
    assert_eq!(store.clone().path(), "data/stock.csv");
}

#[test]
fn occurrence_is_found_anywhere() {
    assert!(text_occurs("widget", "wid"));
    assert!(text_occurs("widget", "dge"));
    assert!(text_occurs("widget", "get"));
    assert!(text_occurs("widget", "widget"));
    assert!(text_occurs("widget", ""));
    assert!(text_occurs("", ""));
}

#[test]
fn occurrence_is_exact() {
    assert!(!text_occurs("widget", "widgets"));
    assert!(!text_occurs("widget", "wdg"));
    assert!(!text_occurs("widget", "Wid"));
    assert!(!text_occurs("", "a"));
}

#[test]
fn occurrence_counts_characters_not_bytes() {
    assert!(text_occurs("crème brûlée", "brû"));
    assert!(text_occurs("crème brûlée", "ée"));
    assert!(!text_occurs("crème brûlée", "bru"));
}

#[test]
fn search_folds_non_ascii_case() {
    let mut repo = Repo::new();
    repo.add_model(item("e", "ÉCLAIR", None, None));
    assert_eq!(repo.text_search("éclair").len(), 1);
    assert_eq!(repo.text_search("Éclair").len(), 1);
}
