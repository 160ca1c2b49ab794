//! The shell's uniform tabular value: an ordered header and rows of text
//! cells. Directory listings and process results are all produced through
//! this type, and the scripting runtime indexes it by row number or by
//! column name.

use vstd::prelude::*;
use crate::text::str_eq;

verus! {

/// A tagged tabular value: a header of column names and a list of rows,
/// each row one text cell per column.
#[derive(Debug)]
pub struct TableRes {
    pub header: Vec<String>,
    pub entries: Vec<Vec<String>>,
}

/// What integer indexing selects: the single cell of a one-column table,
/// or a projected table otherwise.
#[derive(Debug)]
pub enum Indexed {
    Scalar(String),
    Table(TableRes),
}

/// First position of `name` in `header` at or after `i`, if any.
pub open spec fn col_index_from(header: Seq<Seq<char>>, name: Seq<char>, i: int) -> Option<int>
    decreases header.len() - i,
{
    if i < 0 || i >= header.len() {
        None
    } else if header[i] == name {
        Some(i)
    } else {
        col_index_from(header, name, i + 1)
    }
}

/// First position of `name` in `header`, if any.
pub open spec fn col_index(header: Seq<Seq<char>>, name: Seq<char>) -> Option<int> {
    col_index_from(header, name, 0)
}

/// A found position lies in range and carries the name; a miss means the
/// name is nowhere at or after `i`.
pub proof fn lemma_col_index_from(header: Seq<Seq<char>>, name: Seq<char>, i: int)
    requires
        0 <= i <= header.len(),
    ensures
        match col_index_from(header, name, i) {
            Some(j) => i <= j < header.len() && header[j] == name,
            None => forall|k: int| i <= k < header.len() ==> header[k] != name,
        },
    decreases header.len() - i,
{
    if i < header.len() && header[i] != name {
        lemma_col_index_from(header, name, i + 1);
    }
}

impl TableRes {
    /// The header as a sequence of column names.
    pub open spec fn header_view(self) -> Seq<Seq<char>> {
        self.header.deep_view()
    }

    /// The rows as a sequence of rows of cells.
    pub open spec fn rows_view(self) -> Seq<Seq<Seq<char>>> {
        self.entries.deep_view()
    }

    /// Every row is exactly as wide as the header.
    pub open spec fn well_formed(self) -> bool {
        forall|i: int|
            0 <= i < self.rows_view().len() ==> (#[trigger] self.rows_view()[i]).len()
                == self.header_view().len()
    }

    /// Whether the 1-based row number `i` selects a row.
    pub open spec fn row_in_range(self, i: i64) -> bool {
        1 <= i && i <= self.rows_view().len()
    }

    /// Row count, the table's size.
    pub fn len(&self) -> (n: usize)
        ensures
            n == self.rows_view().len(),
    {
        self.entries.len()
    }

    /// Select by 1-based row number: the single cell of a one-column table,
    /// a one-row projection otherwise, and a rowless table with the same
    /// header when `i` is out of range — never an error.
    pub fn by_row(&self, i: i64) -> (r: Indexed)
        requires
            self.well_formed(),
        ensures
            (self.row_in_range(i) && self.header_view().len() == 1) ==> (r matches
                Indexed::Scalar(s) && s@ == self.rows_view()[i - 1][0]),
            (self.row_in_range(i) && self.header_view().len() != 1) ==> (r matches
                Indexed::Table(t) && t.header_view() == self.header_view() && t.rows_view()
                =~= seq![self.rows_view()[i - 1]] && t.well_formed()),
            !self.row_in_range(i) ==> (r matches Indexed::Table(t) && t.header_view()
                == self.header_view() && t.rows_view().len() == 0 && t.well_formed()),
    {
        let in_range = i >= 1 && i as u64 <= self.entries.len() as u64;
        proof {
            assert(in_range ==> self.row_in_range(i));
            assert(!in_range ==> !self.row_in_range(i));
        }
        if in_range && self.header.len() == 1 {
            let idx = (i - 1) as usize;
            proof {
                assert(self.rows_view()[idx as int].len() == self.header_view().len());
                assert(self.rows_view()[idx as int][0] == self.entries@[idx as int]@[0]@);
            }
            Indexed::Scalar(self.entries[idx][0].clone())
        } else if in_range {
            let idx = (i - 1) as usize;
            let row = clone_strings(&self.entries[idx]);
            let t = TableRes { header: clone_strings(&self.header), entries: vec![row] };
            proof {
                assert(t.rows_view() =~= seq![self.rows_view()[i - 1]]);
            }
            Indexed::Table(t)
        } else {
            let t = TableRes { header: clone_strings(&self.header), entries: Vec::new() };
            proof {
                assert(t.rows_view() =~= Seq::<Seq<Seq<char>>>::empty());
            }
            Indexed::Table(t)
        }
    }

    /// Position of the first column named `name`, if any.
    fn find_col(&self, name: &str) -> (r: Option<usize>)
        ensures
            match col_index(self.header_view(), name@) {
                Some(c) => r matches Some(u) && u as int == c,
                None => r is None,
            },
    {
        let mut j: usize = 0;
        while j < self.header.len()
            invariant
                j <= self.header@.len(),
                col_index(self.header_view(), name@) == col_index_from(
                    self.header_view(),
                    name@,
                    j as int,
                ),
            decreases self.header@.len() - j,
        {
            if str_eq(self.header[j].as_str(), name) {
                return Some(j);
            }
            j = j + 1;
        }
        None
    }

    /// Select by column name: that column's cells in row order, and an
    /// empty sequence when no column carries the name.
    pub fn by_column(&self, name: &str) -> (r: Vec<String>)
        requires
            self.well_formed(),
        ensures
            col_index(self.header_view(), name@) matches Some(j) ==> r.deep_view() =~= Seq::new(
                self.rows_view().len(),
                |k: int| self.rows_view()[k][j],
            ),
            col_index(self.header_view(), name@) is None ==> r@.len() == 0,
    {
        proof {
            lemma_col_index_from(self.header_view(), name@, 0);
        }
        let found = self.find_col(name);
        match found {
            None => Vec::new(),
            Some(c) => {
                let mut out: Vec<String> = Vec::new();
                let mut k: usize = 0;
                while k < self.entries.len()
                    invariant
                        k <= self.entries@.len(),
                        self.well_formed(),
                        c < self.header_view().len(),
                        out@.len() == k,
                        forall|m: int|
                            0 <= m < k ==> (#[trigger] out@[m])@ == self.entries@[m]@[c as int]@,
                    decreases self.entries@.len() - k,
                {
                    proof {
                        assert(self.rows_view()[k as int].len() == self.header_view().len());
                        assert(self.rows_view()[k as int] == self.entries@[k as int].deep_view());
                    }
                    out.push(self.entries[k][c].clone());
                    k = k + 1;
                }
                proof {
                    assert forall|m: int| 0 <= m < out@.len() implies out.deep_view()[m]
                        == self.rows_view()[m][c as int] by {
                        assert(out.deep_view()[m] == out@[m]@);
                        assert(self.rows_view()[m] == self.entries@[m].deep_view());
                        assert(self.rows_view()[m][c as int] == self.entries@[m]@[c as int]@);
                    }
                    assert(out.deep_view() =~= Seq::new(
                        self.rows_view().len(),
                        |m: int| self.rows_view()[m][c as int],
                    ));
                }
                out
            },
        }
    }
}

impl Default for TableRes {
    /// The empty table: no columns, no rows.
    fn default() -> (r: Self)
        ensures
            r.header_view().len() == 0,
            r.rows_view().len() == 0,
            r.well_formed(),
    {
        TableRes { header: Vec::new(), entries: Vec::new() }
    }
}

/// A copy of a row of cells, cell for cell.
pub fn clone_strings(v: &Vec<String>) -> (r: Vec<String>)
    ensures
        r.deep_view() =~= v.deep_view(),
        r@.len() == v@.len(),
{
    let mut r: Vec<String> = Vec::new();
    let mut i: usize = 0;
    while i < v.len()
        invariant
            i <= v@.len(),
            r@.len() == i,
            forall|k: int| 0 <= k < i ==> r.deep_view()[k] == v.deep_view()[k],
        decreases v@.len() - i,
    {
        r.push(v[i].clone());
        i = i + 1;
    }
    proof {
        assert(r.deep_view() =~= v.deep_view());
    }
    r
}

} // verus!
