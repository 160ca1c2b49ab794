//! Directory listing and working-directory rules. The host enumerates a
//! directory and classifies each entry; this module turns those plain
//! entries into the listing table — files, then directories, then symbolic
//! links, each group ordered by name — and decides where a directory
//! change goes.

use vstd::prelude::*;
use crate::table::TableRes;
use vstd::relations::total_ordering;
use vstd::seq_lib::lemma_sorted_unique;
use vstd::string::StrSliceExecFns;

verus! {

/// What a directory entry is.
#[derive(Clone, Copy, Debug, PartialEq, Eq, Structural)]
pub enum EntryKind {
    File,
    Dir,
    Sym,
}

/// The order of the listing's groups: files, then directories, then
/// symbolic links.
pub open spec fn rank(k: EntryKind) -> int {
    match k {
        EntryKind::File => 0,
        EntryKind::Dir => 1,
        EntryKind::Sym => 2,
    }
}

/// The text that names an entry's kind in the listing.
pub open spec fn label(k: EntryKind) -> Seq<char> {
    match k {
        EntryKind::File => "file"@,
        EntryKind::Dir => "dir"@,
        EntryKind::Sym => "sym"@,
    }
}

/// Lexicographic order on character sequences, by code point.
pub open spec fn lex_le(a: Seq<char>, b: Seq<char>) -> bool
    decreases a.len(),
{
    if a.len() == 0 {
        true
    } else if b.len() == 0 {
        false
    } else if a[0] == b[0] {
        lex_le(a.drop_first(), b.drop_first())
    } else {
        (a[0] as u32) < (b[0] as u32)
    }
}

pub proof fn lemma_lex_le_refl(a: Seq<char>)
    ensures
        lex_le(a, a),
    decreases a.len(),
{
    if a.len() > 0 {
        lemma_lex_le_refl(a.drop_first());
    }
}

pub proof fn lemma_lex_le_total(a: Seq<char>, b: Seq<char>)
    ensures
        lex_le(a, b) || lex_le(b, a),
    decreases a.len(),
{
    if a.len() > 0 && b.len() > 0 && a[0] == b[0] {
        lemma_lex_le_total(a.drop_first(), b.drop_first());
    } else if a.len() > 0 && b.len() > 0 {
        vstd::utf8::char_u32_cast(a[0], a[0] as u32);
        vstd::utf8::char_u32_cast(b[0], b[0] as u32);
        assert((a[0] as u32) != (b[0] as u32));
    }
}

pub proof fn lemma_lex_le_antisym(a: Seq<char>, b: Seq<char>)
    requires
        lex_le(a, b),
        lex_le(b, a),
    ensures
        a == b,
    decreases a.len(),
{
    if a.len() > 0 && b.len() > 0 && a[0] == b[0] {
        lemma_lex_le_antisym(a.drop_first(), b.drop_first());
        assert(forall|k: int| 1 <= k < a.len() ==> #[trigger] a[k] == a.drop_first()[k - 1]);
        assert(forall|k: int| 1 <= k < b.len() ==> #[trigger] b[k] == b.drop_first()[k - 1]);
        assert(a =~= b);
    } else if a.len() == 0 {
        assert(b.len() == 0);
        assert(a =~= b);
    } else if b.len() == 0 {
        assert(false);
    } else {
        assert((a[0] as u32) < (b[0] as u32));
        assert((b[0] as u32) < (a[0] as u32));
        assert(false);
    }
}

pub proof fn lemma_lex_le_trans(a: Seq<char>, b: Seq<char>, c: Seq<char>)
    requires
        lex_le(a, b),
        lex_le(b, c),
    ensures
        lex_le(a, c),
    decreases a.len(),
{
    if a.len() > 0 && b.len() > 0 && c.len() > 0 && a[0] == b[0] && b[0] == c[0] {
        lemma_lex_le_trans(a.drop_first(), b.drop_first(), c.drop_first());
    }
}

/// Order on entries: by group, then by name within the group.
pub open spec fn entry_le(a: (EntryKind, Seq<char>), b: (EntryKind, Seq<char>)) -> bool {
    rank(a.0) < rank(b.0) || (rank(a.0) == rank(b.0) && lex_le(a.1, b.1))
}

/// The entry order as a relation value.
pub open spec fn entry_order() -> spec_fn((EntryKind, Seq<char>), (EntryKind, Seq<char>)) -> bool {
    |a: (EntryKind, Seq<char>), b: (EntryKind, Seq<char>)| entry_le(a, b)
}

/// The entry order is a total ordering.
pub proof fn lemma_entry_order_total()
    ensures
        total_ordering(entry_order()),
{
    let r = entry_order();
    assert forall|x: (EntryKind, Seq<char>)| #[trigger] r(x, x) by {
        lemma_lex_le_refl(x.1);
    }
    assert forall|x: (EntryKind, Seq<char>), y: (EntryKind, Seq<char>)|
        #[trigger] r(x, y) && #[trigger] r(y, x) implies x == y by {
        assert(rank(x.0) == rank(y.0));
        assert(x.0 == y.0);
        lemma_lex_le_antisym(x.1, y.1);
    }
    assert forall|x: (EntryKind, Seq<char>), y: (EntryKind, Seq<char>), z: (EntryKind, Seq<char>)|
        #[trigger] r(x, y) && #[trigger] r(y, z) implies r(x, z) by {
        if rank(x.0) == rank(y.0) && rank(y.0) == rank(z.0) {
            lemma_lex_le_trans(x.1, y.1, z.1);
        }
    }
    assert forall|x: (EntryKind, Seq<char>), y: (EntryKind, Seq<char>)| #[trigger] r(x, y)
        || #[trigger] r(y, x) by {
        if rank(x.0) == rank(y.0) {
            lemma_lex_le_total(x.1, y.1);
        }
    }
}

pub proof fn lemma_entry_le_total(a: (EntryKind, Seq<char>), b: (EntryKind, Seq<char>))
    ensures
        entry_le(a, b) || entry_le(b, a),
{
    if rank(a.0) == rank(b.0) {
        lemma_lex_le_total(a.1, b.1);
    }
}

pub proof fn lemma_entry_le_trans(
    a: (EntryKind, Seq<char>),
    b: (EntryKind, Seq<char>),
    c: (EntryKind, Seq<char>),
)
    requires
        entry_le(a, b),
        entry_le(b, c),
    ensures
        entry_le(a, c),
{
    if rank(a.0) == rank(b.0) && rank(b.0) == rank(c.0) {
        lemma_lex_le_trans(a.1, b.1, c.1);
    }
}

/// Entries as kind and characters.
pub open spec fn entries_view(s: Seq<(EntryKind, String)>) -> Seq<(EntryKind, Seq<char>)> {
    s.map_values(|e: (EntryKind, String)| (e.0, e.1@))
}

/// Pairwise sortedness under the entry order.
pub open spec fn entries_sorted(s: Seq<(EntryKind, Seq<char>)>) -> bool {
    forall|i: int, j: int| 0 <= i < j < s.len() ==> entry_le(s[i], s[j])
}

/// The listing row an entry becomes: its kind's label, then its name.
pub open spec fn row_of(e: (EntryKind, Seq<char>)) -> Seq<Seq<char>> {
    seq![label(e.0), e.1]
}

/// The rows of the listing table for the given entries: the entries in
/// sorted order, each as a (label, name) row.
pub open spec fn ls_rows(entries: Seq<(EntryKind, Seq<char>)>) -> Seq<Seq<Seq<char>>> {
    entries.sort_by(entry_order()).map_values(|e: (EntryKind, Seq<char>)| row_of(e))
}

/// The entry order, decided on values.
fn entry_le_exec(a: &(EntryKind, String), b: &(EntryKind, String)) -> (r: bool)
    ensures
        r == entry_le((a.0, a.1@), (b.0, b.1@)),
{
    let ra = rank_of(a.0);
    let rb = rank_of(b.0);
    if ra < rb {
        true
    } else if rb < ra {
        false
    } else {
        lex_le_exec(a.1.as_str(), b.1.as_str())
    }
}

/// The group number of an entry's kind.
fn rank_of(k: EntryKind) -> (r: u8)
    ensures
        r as int == rank(k),
{
    match k {
        EntryKind::File => 0,
        EntryKind::Dir => 1,
        EntryKind::Sym => 2,
    }
}

/// Lexicographic order, decided character by character.
fn lex_le_exec(a: &str, b: &str) -> (r: bool)
    ensures
        r == lex_le(a@, b@),
{
    let na = a.unicode_len();
    let nb = b.unicode_len();
    let mut i: usize = 0;
    proof {
        assert(a@.skip(0) =~= a@);
        assert(b@.skip(0) =~= b@);
    }
    loop
        invariant
            i <= na,
            i <= nb,
            na == a@.len(),
            nb == b@.len(),
            lex_le(a@, b@) == lex_le(a@.skip(i as int), b@.skip(i as int)),
            lex_le(b@, a@) == lex_le(b@.skip(i as int), a@.skip(i as int)),
        decreases na - i,
    {
        if i >= na {
            return true;
        }
        if i >= nb {
            return false;
        }
        let ca = a.get_char(i);
        let cb = b.get_char(i);
        if ca != cb {
            return (ca as u32) < (cb as u32);
        }
        i = i + 1;
        proof {
            assert(a@.skip(i - 1).drop_first() =~= a@.skip(i as int));
            assert(b@.skip(i - 1).drop_first() =~= b@.skip(i as int));
        }
    }
}

/// The position before the first element that does not precede `x`, in a
/// vector sorted under the entry order.
fn insert_pos(out: &Vec<(EntryKind, String)>, x: &(EntryKind, String)) -> (p: usize)
    ensures
        p <= out@.len(),
        forall|q: int| 0 <= q < p ==> entry_le(#[trigger] entries_view(out@)[q], (x.0, x.1@)),
        p < out@.len() ==> !entry_le(entries_view(out@)[p as int], (x.0, x.1@)),
{
    let mut p: usize = 0;
    while p < out.len()
        invariant
            p <= out@.len(),
            forall|q: int| 0 <= q < p ==> entry_le(#[trigger] entries_view(out@)[q], (x.0, x.1@)),
        decreases out@.len() - p,
    {
        let keep_going = entry_le_exec(&out[p], x);
        proof {
            assert(entries_view(out@)[p as int] == (out@[p as int].0, out@[p as int].1@));
        }
        if !keep_going {
            return p;
        }
        p = p + 1;
    }
    p
}

/// Sort entries by group, then by name: the result holds the same entries
/// and is sorted under the entry order.
pub fn sort_entries(v: &Vec<(EntryKind, String)>) -> (r: Vec<(EntryKind, String)>)
    ensures
        entries_view(r@).to_multiset() == entries_view(v@).to_multiset(),
        entries_sorted(entries_view(r@)),
{
    broadcast use vstd::seq_lib::group_to_multiset_ensures;
    broadcast use vstd::multiset::group_multiset_axioms;

    let mut out: Vec<(EntryKind, String)> = Vec::new();
    let mut i: usize = 0;
    while i < v.len()
        invariant
            i <= v@.len(),
            entries_view(out@).to_multiset() == entries_view(v@.subrange(0, i as int)).to_multiset(),
            entries_sorted(entries_view(out@)),
        decreases v@.len() - i,
    {
        let x = (v[i].0, v[i].1.clone());
        let ghost xv = (x.0, x.1@);
        let ghost pre_out = entries_view(out@);
        let p = insert_pos(&out, &x);
        proof {
            if p < out@.len() {
                assert(!entry_le(pre_out[p as int], xv));
                lemma_entry_le_total(pre_out[p as int], xv);
                assert(entry_le(xv, pre_out[p as int]));
                assert forall|q: int| p <= q < pre_out.len() implies entry_le(
                    xv,
                    #[trigger] pre_out[q],
                ) by {
                    if q > p {
                        lemma_entry_le_trans(xv, pre_out[p as int], pre_out[q]);
                    }
                }
            }
        }
        out.insert(p, x);
        i = i + 1;
        proof {
            let now = entries_view(out@);
            assert(now =~= pre_out.insert(p as int, xv));
            assert(entries_sorted(now)) by {
                assert(forall|q: int| 0 <= q < p ==> #[trigger] now[q] == pre_out[q]);
                assert(now[p as int] == xv);
                assert(forall|q: int| p < q < now.len() ==> #[trigger] now[q] == pre_out[q - 1]);
                assert forall|q1: int, q2: int| 0 <= q1 < q2 < now.len() implies entry_le(
                    now[q1],
                    now[q2],
                ) by {
                    if q1 < p && q2 == p {
                        assert(entry_le(pre_out[q1], xv));
                    } else if q1 == p && q2 > p {
                        assert(entry_le(xv, pre_out[q2 - 1]));
                    } else if q1 < p && q2 > p {
                        lemma_entry_le_trans(pre_out[q1], xv, pre_out[q2 - 1]);
                    } else if q2 < p {
                        assert(entry_le(pre_out[q1], pre_out[q2]));
                    } else {
                        assert(entry_le(pre_out[q1 - 1], pre_out[q2 - 1]));
                    }
                }
            }
            assert(now.to_multiset() == pre_out.to_multiset().insert(xv)) by {
                now.to_multiset_ensures();
                assert(now[p as int] == xv);
                assert(now.remove(p as int) =~= pre_out);
                assert(now.remove(p as int).to_multiset() =~= now.to_multiset().remove(xv));
                assert(now.contains(xv));
                assert(now.to_multiset().count(xv) > 0);
                assert(now.to_multiset() =~= now.to_multiset().remove(xv).insert(xv));
            }
            assert(entries_view(v@.subrange(0, i as int)).to_multiset() == entries_view(
                v@.subrange(0, i - 1),
            ).to_multiset().insert(xv)) by {
                let pfx = entries_view(v@.subrange(0, i as int));
                let prev_pfx = entries_view(v@.subrange(0, i - 1));
                assert(pfx =~= prev_pfx.push(xv));
                prev_pfx.to_multiset_ensures();
                assert(prev_pfx.push(xv).to_multiset() =~= prev_pfx.to_multiset().insert(xv));
            }
        }
    }
    proof {
        assert(v@.subrange(0, v@.len() as int) =~= v@);
    }
    out
}

/// The listing table for the given directory entries: columns `type` and
/// `name`, one row per entry, files then directories then symbolic links,
/// by name within each group.
pub fn ls_table(entries: &Vec<(EntryKind, String)>) -> (r: TableRes)
    ensures
        r.header_view() =~= seq!["type"@, "name"@],
        r.well_formed(),
        r.rows_view() =~= ls_rows(entries_view(entries@)),
{
    let sorted = sort_entries(entries);
    let mut rows: Vec<Vec<String>> = Vec::new();
    let mut i: usize = 0;
    while i < sorted.len()
        invariant
            i <= sorted@.len(),
            rows@.len() == i,
            forall|k: int|
                0 <= k < i ==> (#[trigger] rows@[k]).deep_view() == row_of(
                    entries_view(sorted@)[k],
                ),
            entries_view(sorted@).to_multiset() == entries_view(entries@).to_multiset(),
            entries_sorted(entries_view(sorted@)),
        decreases sorted@.len() - i,
    {
        let mut row: Vec<String> = Vec::new();
        row.push(kind_label(sorted[i].0));
        row.push(sorted[i].1.clone());
        rows.push(row);
        i = i + 1;
        proof {
            assert(entries_view(sorted@)[i - 1] == (sorted@[i - 1].0, sorted@[i - 1].1@));
            assert(rows@[i - 1]@.len() == 2);
            assert(rows@[i - 1].deep_view()[0] == rows@[i - 1]@[0]@);
            assert(rows@[i - 1].deep_view()[1] == rows@[i - 1]@[1]@);
            assert(rows@[i - 1].deep_view() =~= row_of(entries_view(sorted@)[i - 1]));
        }
    }
    let mut header: Vec<String> = Vec::new();
    header.push("type".to_owned());
    header.push("name".to_owned());
    let r = TableRes { header, entries: rows };
    proof {
        lemma_entry_order_total();
        let order = entry_order();
        let sv = entries_view(sorted@);
        let target = entries_view(entries@).sort_by(order);
        assert(vstd::relations::sorted_by(sv, order)) by {
            assert forall|a: int, b: int| 0 <= a < b < sv.len() implies #[trigger] order(
                sv[a],
                sv[b],
            ) by {
                assert(entry_le(sv[a], sv[b]));
            }
        }
        entries_view(entries@).lemma_sort_by_ensures(order);
        lemma_sorted_unique(sv, target, order);
        assert(sv == target);
        assert(r.header_view() =~= seq!["type"@, "name"@]);
        assert(forall|k: int|
            0 <= k < r.entries@.len() ==> #[trigger] r.rows_view()[k] == r.entries@[k].deep_view());
        assert(r.rows_view() =~= ls_rows(entries_view(entries@)));
        assert forall|k: int| 0 <= k < r.rows_view().len() implies (#[trigger] r.rows_view()[k]).len()
            == r.header_view().len() by {
            assert(r.rows_view()[k] == row_of(sv[k]));
        }
    }
    r
}

/// The label an entry's kind shows in the listing.
pub fn kind_label(k: EntryKind) -> (r: String)
    ensures
        r@ == label(k),
{
    match k {
        EntryKind::File => "file".to_owned(),
        EntryKind::Dir => "dir".to_owned(),
        EntryKind::Sym => "sym".to_owned(),
    }
}

/// The path a listing actually reads: an empty path means the current
/// directory.
pub open spec fn normalized_ls_path(dir: Seq<char>) -> Seq<char> {
    if dir.len() == 0 {
        "."@
    } else {
        dir
    }
}

/// Normalize the listing path: empty means the current directory.
pub fn ls_path(dir: &str) -> (r: String)
    ensures
        r@ == normalized_ls_path(dir@),
{
    if dir.unicode_len() == 0 {
        ".".to_owned()
    } else {
        dir.to_owned()
    }
}

/// Listing an empty path and listing "." read the same directory, so with
/// the same entries on disk the two listing tables are identical.
pub proof fn lemma_ls_empty_path_is_dot()
    ensures
        normalized_ls_path(""@) == normalized_ls_path("."@),
{
    reveal_strlit("");
    reveal_strlit(".");
}

/// Where a directory change goes: a given path as it stands; an empty path
/// to the home directory, or to the current directory when no home is
/// known.
pub fn cd_target(dir: &str, home: Option<String>, cwd: Option<String>) -> (r: Option<String>)
    ensures
        dir@.len() > 0 ==> (r matches Some(p) && p@ == dir@),
        (dir@.len() == 0 && home is Some) ==> (r matches Some(p) && p@ == home.unwrap()@),
        (dir@.len() == 0 && home is None) ==> r == cwd,
{
    if dir.unicode_len() > 0 {
        Some(dir.to_owned())
    } else {
        match home {
            Some(h) => Some(h),
            None => cwd,
        }
    }
}

/// The one-row, one-column table a directory change returns: the new
/// working directory under the column `dir`.
pub fn cd_table(path: String) -> (r: TableRes)
    ensures
        r.header_view() =~= seq!["dir"@],
        r.rows_view() =~= seq![seq![path@]],
        r.well_formed(),
{
    let mut header: Vec<String> = Vec::new();
    header.push("dir".to_owned());
    let mut row: Vec<String> = Vec::new();
    row.push(path);
    let mut rows: Vec<Vec<String>> = Vec::new();
    rows.push(row);
    let r = TableRes { header, entries: rows };
    proof {
        assert(r.header_view() =~= seq!["dir"@]);
        assert(r.entries@[0]@[0] == path);
        assert(r.rows_view()[0] == r.entries@[0].deep_view());
        assert(r.entries@[0].deep_view() =~= seq![path@]);
        assert(r.rows_view() =~= seq![seq![path@]]);
    }
    r
}

} // verus!
