use vstd::prelude::*;
use crate::repo::{add_spec, lemma_add_then_merge, lookup, unique_keys, has_key};

verus! {

/// A record that can be kept in a repository.
///
/// Contracts speak of a record through its view; the identity, the search
/// predicate, the merge policy and the term normalizer are stated over views.
pub trait Model: Sized + View {
    /// The identity that keys the record.
    type ID: View;

    /// The identity of a record, as a mathematical value.
    spec fn key(v: Self::V) -> <Self::ID as View>::V;

    /// Whether a record matches an already normalized search term.
    spec fn matches(v: Self::V, term: Seq<char>) -> bool;

    /// The record that results from absorbing `other` into `v`.
    spec fn merged(v: Self::V, other: Self::V) -> Self::V;

    /// The canonical form of a search term.
    spec fn normalized(term: Seq<char>) -> Seq<char>;

    /// Merging never changes the identity of the absorbing record.
    proof fn lemma_merge_keeps_key(v: Self::V, other: Self::V)
        ensures
            Self::key(Self::merged(v, other)) == Self::key(v),
    ;

    fn id(&self) -> (r: &Self::ID)
        ensures
            r@ == Self::key(self@),
    ;

    /// Whether this record's identity equals `id`.
    fn has_id(&self, id: &Self::ID) -> (r: bool)
        ensures
            r == (Self::key(self@) == id@),
    ;

    fn matches_text_search(&self, text: &str) -> (r: bool)
        ensures
            r == Self::matches(self@, text@),
    ;

    fn merge_with_other(&mut self, other: Self)
        ensures
            final(self)@ == Self::merged(old(self)@, other@),
    ;

    fn normalize_search_term(term: &str) -> (r: String)
        ensures
            r@ == Self::normalized(term@),
    ;
}

/// The lower-case form of a string, as `str::to_lowercase` computes it.
pub uninterp spec fn lower_of(s: Seq<char>) -> Seq<char>;

/// Relies on `str::to_lowercase`: the result depends on the characters alone.
#[verifier::external_body]
fn lowercase(s: &str) -> (r: String)
    ensures
        r@ == lower_of(s@),
{
    s.to_lowercase()
}

/// Whether `needle` occurs as a contiguous run of characters in `hay`.
pub open spec fn occurs_in(needle: Seq<char>, hay: Seq<char>) -> bool {
    exists|i: int|
        0 <= i && i + needle.len() <= hay.len() && #[trigger] hay.subrange(i, i + needle.len())
            == needle
}

/// Whether `needle` occurs in `hay`, compared character by character.
pub fn text_occurs(hay: &str, needle: &str) -> (r: bool)
    ensures
        r == occurs_in(needle@, hay@),
{
    let n = hay.unicode_len();
    let m = needle.unicode_len();
    if m > n {
        return false;
    }
    let mut i: usize = 0;
    while i <= n - m
        invariant
            n == hay@.len(),
            m == needle@.len(),
            m <= n,
            i <= n - m + 1,
            forall|p: int| 0 <= p < i ==> #[trigger] hay@.subrange(p, p + m) != needle@,
        decreases n - m + 1 - i,
    {
        let mut j: usize = 0;
        let mut same = true;
        while j < m
            invariant_except_break
                same,
            invariant
                n == hay@.len(),
                m == needle@.len(),
                i + m <= n,
                j <= m,
                forall|q: int| 0 <= q < j ==> hay@[i + q] == needle@[q],
            ensures
                same ==> j == m,
                !same ==> j < m && hay@[i + j] != needle@[j as int],
            decreases m - j,
        {
            if hay.get_char(i + j) != needle.get_char(j) {
                same = false;
                break;
            }
            j = j + 1;
        }
        if same && j == m {
            assert(hay@.subrange(i as int, i + m) =~= needle@);
            return true;
        }
        assert(!same);
        assert(hay@.subrange(i as int, i + m)[j as int] != needle@[j as int]);
        i = i + 1;
    }
    false
}

/// A stock record: a product with an optional quantity and an optional note.
#[derive(Debug, Clone)]
pub struct Inventory {
    pub id: String,
    pub name: String,
    pub quantity: Option<usize>,
    pub note: Option<String>,
}

/// The mathematical form of an `Inventory` record.
pub struct InventoryView {
    pub id: Seq<char>,
    pub name: Seq<char>,
    pub quantity: Option<usize>,
    pub note: Option<Seq<char>>,
}

impl View for Inventory {
    type V = InventoryView;

    open spec fn view(&self) -> InventoryView {
        InventoryView {
            id: self.id@,
            name: self.name@,
            quantity: self.quantity,
            note: match self.note {
                Some(n) => Some(n@),
                None => None,
            },
        }
    }
}

/// Quantities add up; the sum stops at the largest `usize`.
pub open spec fn add_quantity(a: usize, b: usize) -> usize {
    if a + b > usize::MAX {
        usize::MAX
    } else {
        (a + b) as usize
    }
}

/// The quantity after absorbing `incoming` into `existing`.
pub open spec fn merged_quantity(existing: Option<usize>, incoming: Option<usize>) -> Option<usize> {
    match incoming {
        Some(a) => match existing {
            Some(q) => Some(add_quantity(q, a)),
            None => Some(a),
        },
        None => existing,
    }
}

/// The note after absorbing `incoming` into `existing`: the incoming text
/// comes first, the existing text after it.
pub open spec fn merged_note(existing: Option<Seq<char>>, incoming: Option<Seq<char>>) -> Option<
    Seq<char>,
> {
    match incoming {
        Some(n) => match existing {
            Some(e) => Some(n + e),
            None => Some(n),
        },
        None => existing,
    }
}

impl Model for Inventory {
    type ID = String;

    open spec fn key(v: InventoryView) -> Seq<char> {
        v.id
    }

    open spec fn matches(v: InventoryView, term: Seq<char>) -> bool {
        occurs_in(term, lower_of(v.name))
    }

    open spec fn merged(v: InventoryView, other: InventoryView) -> InventoryView {
        InventoryView {
            quantity: merged_quantity(v.quantity, other.quantity),
            note: merged_note(v.note, other.note),
            ..v
        }
    }

    open spec fn normalized(term: Seq<char>) -> Seq<char> {
        lower_of(term)
    }

    proof fn lemma_merge_keeps_key(v: InventoryView, other: InventoryView) {
    }

    fn id(&self) -> (r: &String) {
        &self.id
    }

    fn has_id(&self, id: &String) -> (r: bool) {
        self.id == *id
    }

    fn matches_text_search(&self, text: &str) -> (r: bool) {
        let name = lowercase(self.name.as_str());
        text_occurs(name.as_str(), text)
    }

    fn merge_with_other(&mut self, other: Self) {
        if let Some(amount) = other.quantity {
            let current: usize = match self.quantity {
                Some(q) => q,
                None => 0,
            };
            self.quantity = Some(current.saturating_add(amount));
        }
        if let Some(incoming) = other.note {
            let mut note = incoming;
            match self.note.take() {
                Some(existing) => note.append(existing.as_str()),
                None => {},
            }
            self.note = Some(note);
        }
    }

    fn normalize_search_term(term: &str) -> (r: String) {
        lowercase(term)
    }
}

/// Stocking a product and then stocking it again under the same identity
/// keeps one record whose quantity is the sum of the two (while it fits in a
/// `usize`) and whose note is the later note followed by the earlier one.
pub proof fn lemma_restock(s: Seq<InventoryView>, first: InventoryView, second: InventoryView)
    requires
        unique_keys::<Inventory>(s),
        !has_key::<Inventory>(s, first.id),
        second.id == first.id,
    ensures
        ({
            let stored = lookup::<Inventory>(
                add_spec::<Inventory>(add_spec::<Inventory>(s, first), second),
                first.id,
            );
            &&& stored is Some
            &&& stored->0.id == first.id
            &&& stored->0.name == first.name
            &&& (first.quantity is Some && second.quantity is Some && first.quantity->0
                + second.quantity->0 <= usize::MAX ==> stored->0.quantity == Some(
                (first.quantity->0 + second.quantity->0) as usize,
            ))
            &&& (first.note is Some && second.note is Some ==> stored->0.note == Some(
                second.note->0 + first.note->0,
            ))
        }),
{
    lemma_add_then_merge::<Inventory>(s, first, second);
}

} // verus!
