use vstd::prelude::*;
use crate::database::Database;
use crate::storage::{lemma_position, position, TableView};

verus! {

/// Whether `a` stands before `b`, or equals it, in the order of texts: character by
/// character by code point, a text before each of its extensions.
pub open spec fn text_before(a: Seq<char>, b: Seq<char>) -> bool
    decreases a.len(),
{
    if a.len() == 0 {
        true
    } else if b.len() == 0 {
        false
    } else if a[0] != b[0] {
        (a[0] as u32) < (b[0] as u32)
    } else {
        text_before(a.subrange(1, a.len() as int), b.subrange(1, b.len() as int))
    }
}

/// Calls `sort` of the standard library on a vector of strings. Trusted: the vector holds
/// afterwards the same strings, each as often as before, in ascending order; strings are
/// ordered by their bytes, which orders them by code point.
#[verifier::external_body]
pub(crate) fn sort_names(names: &mut Vec<String>)
    ensures
        final(names).deep_view().to_multiset() == old(names).deep_view().to_multiset(),
        forall|i: int, j: int|
            0 <= i < j < final(names).len() ==> text_before(
                #[trigger] final(names).deep_view()[i],
                #[trigger] final(names).deep_view()[j],
            ),
{
    names.sort();
}

/// One line of a listing: a table's name, and how many rows and columns it has.
#[derive(Debug, PartialEq, Eq)]
pub struct TableSummary {
    pub name: String,
    pub row_count: usize,
    pub column_count: usize,
}

/// The mathematical value of a [`TableSummary`].
pub struct SummaryView {
    pub name: Seq<char>,
    pub row_count: nat,
    pub column_count: nat,
}

impl DeepView for TableSummary {
    type V = SummaryView;

    open spec fn deep_view(&self) -> SummaryView {
        SummaryView {
            name: self.name@,
            row_count: self.row_count as nat,
            column_count: self.column_count as nat,
        }
    }
}

/// The line that describes the table `name` of `db`.
pub open spec fn summary_of(db: Map<Seq<char>, TableView>, name: Seq<char>) -> SummaryView {
    SummaryView { name, row_count: db[name].row_count, column_count: db[name].columns.len() }
}

/// Whether `lines` describes every table of `db` once, in ascending order of the names.
pub open spec fn is_listing(db: Map<Seq<char>, TableView>, lines: Seq<SummaryView>) -> bool {
    &&& forall|i: int|
        0 <= i < lines.len() ==> db.contains_key((#[trigger] lines[i]).name) && lines[i]
            == summary_of(db, lines[i].name)
    &&& forall|i: int, j: int|
        0 <= i < j < lines.len() ==> (#[trigger] lines[i]).name != (#[trigger] lines[j]).name
            && text_before(lines[i].name, lines[j].name)
    &&& forall|n: Seq<char>|
        db.contains_key(n) ==> exists|i: int| 0 <= i < lines.len() && (#[trigger] lines[i]).name == n
}

impl Database {
    /// Describes every table, in ascending order of the names.
    pub fn describe_tables(&self) -> (listing: Vec<TableSummary>)
        requires
            self.wf(),
        ensures
            is_listing(self.deep_view(), listing.deep_view()),
    {
        let ghost names = self.names.deep_view();
        let mut sorted: Vec<String> = Vec::new();
        let mut k: usize = 0;
        while k < self.names.len()
            invariant
                k <= self.names.len(),
                sorted.len() == k,
                forall|i: int| 0 <= i < k ==> #[trigger] sorted.deep_view()[i] == self.names.deep_view()[i],
            decreases self.names.len() - k,
        {
            let ghost seen = sorted.deep_view();
            let name = self.names[k].clone();
            sorted.push(name);
            assert(sorted.deep_view() =~= seen.push(name@));
            k += 1;
        }
        assert(sorted.deep_view() =~= names);
        sort_names(&mut sorted);
        let ghost order = sorted.deep_view();
        proof {
            names.to_multiset_ensures();
            order.to_multiset_ensures();
            assert(names.no_duplicates());
            names.lemma_multiset_has_no_duplicates();
            order.lemma_multiset_has_no_duplicates_conv();
            assert forall|i: int| 0 <= i < order.len() implies position(names, #[trigger] order[i], 0)
                < names.len() by {
                assert(order.contains(order[i]));
                assert(order.to_multiset().count(order[i]) > 0);
                assert(names.to_multiset().count(order[i]) > 0);
                assert(names.contains(order[i]));
                lemma_position(names, order[i], 0);
            }
        }
        let mut listing: Vec<TableSummary> = Vec::new();
        let mut k: usize = 0;
        while k < sorted.len()
            invariant
                self.wf(),
                names == self.names.deep_view(),
                order == sorted.deep_view(),
                k <= sorted.len(),
                listing.len() == k,
                forall|i: int| 0 <= i < order.len() ==> position(names, #[trigger] order[i], 0) < names.len(),
                forall|i: int|
                    0 <= i < k ==> #[trigger] listing.deep_view()[i] == summary_of(
                        self.deep_view(),
                        order[i],
                    ),
            decreases sorted.len() - k,
        {
            let ghost seen = listing.deep_view();
            assert(position(names, order[k as int], 0) < names.len());
            let i = self.find(&sorted[k]);
            let line = TableSummary {
                name: sorted[k].clone(),
                row_count: self.tables[i].row_count,
                column_count: self.tables[i].columns.len(),
            };
            listing.push(line);
            assert(listing.deep_view() =~= seen.push(line.deep_view()));
            k += 1;
        }
        proof {
            let db = self.deep_view();
            let lines = listing.deep_view();
            assert forall|n: Seq<char>| db.contains_key(n) implies exists|i: int|
                0 <= i < lines.len() && (#[trigger] lines[i]).name == n by {
                lemma_position(names, n, 0);
                assert(names[position(names, n, 0)] == n);
                assert(names.contains(n));
                assert(names.to_multiset().count(n) > 0);
                assert(order.to_multiset().count(n) > 0);
                assert(order.contains(n));
                let i = choose|i: int| 0 <= i < order.len() && order[i] == n;
                assert(lines[i].name == n);
            }
            assert forall|i: int, j: int| 0 <= i < j < lines.len() implies (#[trigger] lines[i]).name
                != (#[trigger] lines[j]).name && text_before(lines[i].name, lines[j].name) by {
                assert(order[i] != order[j]);
                assert(text_before(order[i], order[j]));
            }
        }
        listing
    }
}

} // verus!
