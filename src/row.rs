use vstd::prelude::*;
use crate::value::{Cell, Value, ValueModel, coerce, coerced, is_nan_bits, utf8_lossy};

verus! {

/// The name of each entry of a row, in order.
pub open spec fn entry_keys(s: Seq<(String, Value)>) -> Seq<Seq<char>> {
    s.map_values(|e: (String, Value)| e.0@)
}

/// The mapping that a sequence of entries stands for: a later entry with the
/// same name overwrites an earlier one.
pub open spec fn entries_map(s: Seq<(String, Value)>) -> Map<Seq<char>, ValueModel>
    decreases s.len(),
{
    if s.len() == 0 {
        Map::empty()
    } else {
        entries_map(s.drop_last()).insert(s.last().0@, s.last().1@)
    }
}

/// The views of a sequence of column names.
pub open spec fn name_views(names: Seq<String>) -> Seq<Seq<char>> {
    names.map_values(|s: String| s@)
}

/// The row made of `cells` under `names`, position by position: each cell is
/// coerced, and a later column with a name already seen overwrites the value.
pub open spec fn row_map(names: Seq<Seq<char>>, cells: Seq<Cell>) -> Map<Seq<char>, ValueModel>
    decreases names.len(),
{
    if names.len() == 0 {
        Map::empty()
    } else {
        row_map(names.drop_last(), cells.drop_last()).insert(
            names.last(),
            coerced(cells[names.len() - 1]),
        )
    }
}

/// Each name once, in the order in which it first appears.
pub open spec fn first_occurrences(names: Seq<Seq<char>>) -> Seq<Seq<char>>
    decreases names.len(),
{
    if names.len() == 0 {
        Seq::empty()
    } else {
        let p = first_occurrences(names.drop_last());
        if p.contains(names.last()) {
            p
        } else {
            p.push(names.last())
        }
    }
}

/// One materialized result row: an ordered mapping from column name to value.
pub struct ResultRow {
    entries: Vec<(String, Value)>,
}

impl View for ResultRow {
    type V = Map<Seq<char>, ValueModel>;

    closed spec fn view(&self) -> Map<Seq<char>, ValueModel> {
        entries_map(self.entries@)
    }
}

proof fn lemma_entries_map_dom(s: Seq<(String, Value)>, k: Seq<char>)
    ensures
        entries_map(s).dom().contains(k) == entry_keys(s).contains(k),
    decreases s.len(),
{
    if s.len() > 0 {
        lemma_entries_map_dom(s.drop_last(), k);
        assert(entry_keys(s.drop_last()) =~= entry_keys(s).drop_last());
        if entry_keys(s).contains(k) {
            let j = choose|j: int| 0 <= j < entry_keys(s).len() && entry_keys(s)[j] == k;
            if j < s.len() - 1 {
                assert(entry_keys(s.drop_last())[j] == k);
            }
        }
        if entry_keys(s.drop_last()).contains(k) {
            let j = choose|j: int|
                0 <= j < entry_keys(s.drop_last()).len() && entry_keys(s.drop_last())[j] == k;
            assert(entry_keys(s)[j] == k);
        }
        if k == s.last().0@ {
            assert(entry_keys(s)[s.len() - 1] == k);
        }
    }
}

proof fn lemma_entries_map_lookup(s: Seq<(String, Value)>, j: int)
    requires
        entry_keys(s).no_duplicates(),
        0 <= j < s.len(),
    ensures
        entries_map(s)[s[j].0@] == s[j].1@,
    decreases s.len(),
{
    if j < s.len() - 1 {
        let d = s.drop_last();
        assert(entry_keys(d) =~= entry_keys(s).drop_last());
        assert(entry_keys(s)[j] != entry_keys(s)[s.len() - 1]);
        lemma_entries_map_lookup(d, j);
    }
}

proof fn lemma_entries_map_update(s: Seq<(String, Value)>, j: int, e: (String, Value))
    requires
        entry_keys(s).no_duplicates(),
        0 <= j < s.len(),
        e.0@ == s[j].0@,
    ensures
        entries_map(s.update(j, e)) == entries_map(s).insert(e.0@, e.1@),
        entry_keys(s.update(j, e)) == entry_keys(s),
    decreases s.len(),
{
    let u = s.update(j, e);
    assert(entry_keys(u) =~= entry_keys(s));
    if j == s.len() - 1 {
        assert(u.drop_last() =~= s.drop_last());
        assert(entries_map(u) =~= entries_map(s).insert(e.0@, e.1@));
    } else {
        let d = s.drop_last();
        assert(entry_keys(d) =~= entry_keys(s).drop_last());
        lemma_entries_map_update(d, j, e);
        assert(u.drop_last() =~= d.update(j, e));
        assert(entry_keys(s)[j] != entry_keys(s)[s.len() - 1]);
        assert(entries_map(u) =~= entries_map(s).insert(e.0@, e.1@));
    }
}

impl ResultRow {
    /// The column names of this row, each once, in order.
    pub closed spec fn keys(&self) -> Seq<Seq<char>> {
        entry_keys(self.entries@)
    }

    /// No name appears twice among the entries.
    pub closed spec fn wf(&self) -> bool {
        self.keys().no_duplicates()
    }

    /// A row with no columns.
    pub fn new() -> (r: ResultRow)
        ensures
            r.wf(),
            r@ == Map::<Seq<char>, ValueModel>::empty(),
            r.keys() == Seq::<Seq<char>>::empty(),
    {
        let r = ResultRow { entries: Vec::new() };
        assert(r.keys() =~= Seq::<Seq<char>>::empty());
        r
    }

    /// The number of distinct column names in this row.
    pub fn len(&self) -> (r: usize)
        ensures
            r == self.keys().len(),
    {
        self.entries.len()
    }

    /// The entries of this row, in the order of the names' first appearance.
    pub fn entries(&self) -> (r: &Vec<(String, Value)>)
        ensures
            entry_keys(r@) == self.keys(),
            entries_map(r@) == self@,
    {
        &self.entries
    }

    /// The position of `key` among the entries, if it is there.
    fn position(&self, key: &String) -> (r: Option<usize>)
        ensures
            r is None ==> !self.keys().contains(key@),
            r is Some ==> r->Some_0 < self.keys().len() && self.keys()[r->Some_0 as int] == key@,
    {
        let mut j: usize = 0;
        while j < self.entries.len()
            invariant
                j <= self.entries@.len(),
                forall|i: int| 0 <= i < j ==> self.keys()[i] != key@,
            decreases self.entries@.len() - j,
        {
            if self.entries[j].0 == *key {
                return Some(j);
            }
            j = j + 1;
        }
        None
    }

    /// The value under `key`, if the row has that column.
    pub fn get(&self, key: &String) -> (r: Option<&Value>)
        requires
            self.wf(),
        ensures
            (r is Some) == self@.dom().contains(key@),
            r is Some ==> r->Some_0@ == self@[key@],
    {
        proof {
            lemma_entries_map_dom(self.entries@, key@);
        }
        match self.position(key) {
            Some(j) => {
                proof {
                    lemma_entries_map_lookup(self.entries@, j as int);
                }
                Some(&self.entries[j].1)
            },
            None => None,
        }
    }

    /// Sets the value of column `key`, overwriting an earlier value; a new
    /// name goes after the others.
    pub fn insert(&mut self, key: String, value: Value)
        requires
            old(self).wf(),
        ensures
            final(self).wf(),
            final(self)@ == old(self)@.insert(key@, value@),
            final(self).keys() == (if old(self).keys().contains(key@) {
                old(self).keys()
            } else {
                old(self).keys().push(key@)
            }),
    {
        match self.position(&key) {
            Some(j) => {
                proof {
                    lemma_entries_map_update(self.entries@, j as int, (key, value));
                }
                self.entries.set(j, (key, value));
            },
            None => {
                let ghost k = key@;
                let ghost v = value@;
                let ghost before = self.entries@;
                self.entries.push((key, value));
                proof {
                    assert(self.entries@.drop_last() =~= before);
                    assert(entry_keys(self.entries@) =~= entry_keys(before).push(k));
                }
            },
        }
    }
}

/// Builds the row of one result line from the statement's column names and
/// the line's cells, coercing each cell.
pub fn materialize_row(names: &Vec<String>, cells: &Vec<Cell>) -> (r: ResultRow)
    requires
        names@.len() == cells@.len(),
    ensures
        r.wf(),
        r@ == row_map(name_views(names@), cells@),
        r.keys() == first_occurrences(name_views(names@)),
{
    let mut row = ResultRow::new();
    let mut i: usize = 0;
    proof {
        assert(name_views(names@).subrange(0, 0) =~= Seq::<Seq<char>>::empty());
    }
    while i < names.len()
        invariant
            names@.len() == cells@.len(),
            i <= names@.len(),
            row.wf(),
            row@ == row_map(name_views(names@).subrange(0, i as int), cells@.subrange(0, i as int)),
            row.keys() == first_occurrences(name_views(names@).subrange(0, i as int)),
        decreases names@.len() - i,
    {
        let v = coerce(&cells[i]);
        row.insert(names[i].clone(), v);
        proof {
            let nv = name_views(names@);
            assert(nv.subrange(0, i + 1).drop_last() =~= nv.subrange(0, i as int));
            assert(cells@.subrange(0, i + 1).drop_last() =~= cells@.subrange(0, i as int));
        }
        i = i + 1;
    }
    proof {
        assert(name_views(names@).subrange(0, i as int) =~= name_views(names@));
        assert(cells@.subrange(0, i as int) =~= cells@);
    }
    row
}

/// Under a column whose name no later column repeats, a row holds the
/// coercion of that column's cell.
pub proof fn lemma_row_value_is_coerced_cell(names: Seq<Seq<char>>, cells: Seq<Cell>, i: int)
    requires
        names.len() == cells.len(),
        0 <= i < names.len(),
        forall|j: int| i < j < names.len() ==> names[j] != names[i],
    ensures
        row_map(names, cells).dom().contains(names[i]),
        row_map(names, cells)[names[i]] == coerced(cells[i]),
    decreases names.len(),
{
    if i < names.len() - 1 {
        lemma_row_value_is_coerced_cell(names.drop_last(), cells.drop_last(), i);
    }
}

/// A NaN cell reads back as `Null` in its row: not an error, not a number.
pub proof fn lemma_nan_cell_reads_null(names: Seq<Seq<char>>, cells: Seq<Cell>, i: int)
    requires
        names.len() == cells.len(),
        0 <= i < names.len(),
        forall|j: int| i < j < names.len() ==> names[j] != names[i],
        cells[i] is Real,
        is_nan_bits(cells[i]->Real_0),
    ensures
        row_map(names, cells)[names[i]] == ValueModel::Null,
{
    lemma_row_value_is_coerced_cell(names, cells, i);
}

/// A line holding NULL, 42, 3.5, a text and a blob under five distinct
/// column names reads back as `Null`, `Integer(42)`, `Float(3.5)`, the
/// decoded text and the blob placeholder.
pub proof fn lemma_round_trip_row(names: Seq<Seq<char>>, cells: Seq<Cell>)
    requires
        names.len() == 5,
        names.no_duplicates(),
        cells.len() == 5,
        cells[0] is Null,
        cells[1] == Cell::Integer(42),
        cells[2] == Cell::Real(0x400c_0000_0000_0000u64),
        cells[3] is Text,
        cells[4] is Blob,
    ensures
        row_map(names, cells) == map![
            names[0] => ValueModel::Null,
            names[1] => ValueModel::Integer(42),
            names[2] => ValueModel::Float(0x400c_0000_0000_0000u64),
            names[3] => ValueModel::Text(utf8_lossy(cells[3]->Text_0@)),
            names[4] => ValueModel::BlobPlaceholder,
        ],
{
    assert(((0x400c_0000_0000_0000u64 >> 52u64) & 0x7ffu64) == 0x400u64) by (bit_vector);
    let m = row_map(names, cells);
    let expected = map![
        names[0] => ValueModel::Null,
        names[1] => ValueModel::Integer(42),
        names[2] => ValueModel::Float(0x400c_0000_0000_0000u64),
        names[3] => ValueModel::Text(utf8_lossy(cells[3]->Text_0@)),
        names[4] => ValueModel::BlobPlaceholder,
    ];
    lemma_row_value_is_coerced_cell(names, cells, 0);
    lemma_row_value_is_coerced_cell(names, cells, 1);
    lemma_row_value_is_coerced_cell(names, cells, 2);
    lemma_row_value_is_coerced_cell(names, cells, 3);
    lemma_row_value_is_coerced_cell(names, cells, 4);
    lemma_row_map_dom(names, cells);
    assert(m =~= expected);
}

proof fn lemma_row_map_dom(names: Seq<Seq<char>>, cells: Seq<Cell>)
    requires
        names.len() == cells.len(),
    ensures
        forall|k: Seq<char>| #[trigger] row_map(names, cells).dom().contains(k) ==> names.contains(k),
    decreases names.len(),
{
    if names.len() > 0 {
        lemma_row_map_dom(names.drop_last(), cells.drop_last());
        assert forall|k: Seq<char>| #[trigger] row_map(names, cells).dom().contains(k) implies names.contains(k) by {
            if k == names.last() {
                assert(names[names.len() - 1] == k);
            } else {
                assert(row_map(names.drop_last(), cells.drop_last()).dom().contains(k));
                assert(names.drop_last().contains(k));
                let j = choose|j: int| 0 <= j < names.drop_last().len() && names.drop_last()[j] == k;
                assert(names[j] == k);
            }
        }
    }
}

} // verus!
