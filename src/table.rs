//! The table the editor works on: named columns over rows of cell text.
//! Row and column indices here are 0-based.

use vstd::prelude::*;
use vstd::pervasive::VecAdditionalExecFns;
use crate::names::{
    contains_name, first_free_generic_name, generic_name_for, is_generic_name,
    lemma_generic_name_exists, lemma_generic_name_unique,
};

verus! {

broadcast use vstd::seq_lib::group_seq_properties;

/// What a table holds: its column names, and its rows as cell texts.
pub struct TableModel {
    pub columns: Seq<Seq<char>>,
    pub rows: Seq<Seq<Seq<char>>>,
}

/// A row of `n` empty cells.
pub open spec fn blank_row(n: nat) -> Seq<Seq<char>> {
    Seq::new(n, |i: int| Seq::<char>::empty())
}

/// `row` padded with empty cells up to `n` cells.
pub open spec fn widened(row: Seq<Seq<char>>, n: nat) -> Seq<Seq<char>> {
    row + blank_row((n - row.len()) as nat)
}

impl TableModel {
    /// Column names are distinct and every row has one cell per column.
    pub open spec fn wf(self) -> bool {
        &&& self.columns.no_duplicates()
        &&& forall|y: int| 0 <= y < self.rows.len() ==> #[trigger] self.rows[y].len() == self.columns.len()
    }

    pub open spec fn column_count(self) -> nat {
        self.columns.len()
    }

    pub open spec fn row_count(self) -> nat {
        self.rows.len()
    }

    /// The text of the cell in column `x` of row `y`.
    pub open spec fn cell(self, x: int, y: int) -> Seq<char> {
        self.rows[y][x]
    }

    /// Whether column `x` and row `y` lie inside the table.
    pub open spec fn has_cell(self, x: int, y: int) -> bool {
        0 <= x < self.columns.len() && 0 <= y < self.rows.len()
    }

    /// This table with column `name`, holding empty cells, inserted at `at`.
    pub open spec fn with_column_at(self, at: int, name: Seq<char>) -> TableModel {
        TableModel {
            columns: self.columns.insert(at, name),
            rows: Seq::new(self.rows.len(), |y: int| self.rows[y].insert(at, Seq::<char>::empty())),
        }
    }

    /// Whether a column other than `x` is named `name`.
    pub open spec fn name_taken_by_other(self, x: int, name: Seq<char>) -> bool {
        exists|j: int| 0 <= j < self.columns.len() && j != x && self.columns[j] == name
    }

    /// This table with column `x` renamed to `name`.
    pub open spec fn with_column_name(self, x: int, name: Seq<char>) -> TableModel {
        TableModel { columns: self.columns.update(x, name), rows: self.rows }
    }

    /// This table with column `x` removed.
    pub open spec fn without_column(self, x: int) -> TableModel {
        TableModel {
            columns: self.columns.remove(x),
            rows: Seq::new(self.rows.len(), |y: int| self.rows[y].remove(x)),
        }
    }

    /// This table with the cell at column `x`, row `y` set to `value`.
    pub open spec fn with_cell(self, x: int, y: int, value: Seq<char>) -> TableModel {
        TableModel { columns: self.columns, rows: self.rows.update(y, self.rows[y].update(x, value)) }
    }

    /// This table with the rows of `src` inserted before row `at`.
    pub open spec fn with_rows_at(self, at: int, src: TableModel) -> TableModel {
        TableModel {
            columns: self.columns,
            rows: self.rows.subrange(0, at) + src.rows + self.rows.subrange(at, self.rows.len() as int),
        }
    }

    /// This table with the columns of `src` inserted before column `at`, row
    /// by row.
    pub open spec fn with_columns_at(self, at: int, src: TableModel) -> TableModel {
        TableModel {
            columns: self.columns.subrange(0, at) + src.columns + self.columns.subrange(
                at,
                self.columns.len() as int,
            ),
            rows: Seq::new(
                self.rows.len(),
                |y: int|
                    self.rows[y].subrange(0, at) + src.rows[y] + self.rows[y].subrange(
                        at,
                        self.rows[y].len() as int,
                    ),
            ),
        }
    }

    /// The rectangle of columns `[x0, x1)` and rows `[y0, y1)` of this table.
    pub open spec fn select(self, x0: int, x1: int, y0: int, y1: int) -> TableModel {
        TableModel {
            columns: self.columns.subrange(x0, x1),
            rows: Seq::new((y1 - y0) as nat, |y: int| self.rows[y0 + y].subrange(x0, x1)),
        }
    }
}

/// `after` is `before` grown to at least `c` columns and `r` rows: columns
/// that were missing are appended under generic names, each the first free
/// `Column n` from its own 1-based position on; old rows are padded with
/// empty cells and missing rows are appended empty. Nothing shrinks.
pub open spec fn is_extension(before: TableModel, c: nat, r: nat, after: TableModel) -> bool {
    let cc = if c > before.columns.len() { c } else { before.columns.len() };
    let rc = if r > before.rows.len() { r } else { before.rows.len() };
    &&& after.columns.len() == cc
    &&& after.rows.len() == rc
    &&& after.columns.subrange(0, before.columns.len() as int) == before.columns
    &&& forall|i: int|
        before.columns.len() <= i < cc ==> is_generic_name(
            after.columns.subrange(0, i),
            (i + 1) as nat,
            #[trigger] after.columns[i],
        )
    &&& forall|y: int| 0 <= y < before.rows.len() ==> #[trigger] after.rows[y] == widened(before.rows[y], cc)
    &&& forall|y: int| before.rows.len() <= y < rc ==> #[trigger] after.rows[y] == blank_row(cc)
}

/// The table `before` grown to at least `c` columns and `r` rows (see
/// `is_extension`).
pub open spec fn extended(before: TableModel, c: nat, r: nat) -> TableModel {
    choose|after: TableModel| is_extension(before, c, r, after)
}

proof fn lemma_extension_prefix(
    before: TableModel,
    c: nat,
    r: nat,
    u1: TableModel,
    u2: TableModel,
    i: int,
)
    requires
        is_extension(before, c, r, u1),
        is_extension(before, c, r, u2),
        before.columns.len() <= i <= u1.columns.len(),
    ensures
        u1.columns.subrange(0, i) == u2.columns.subrange(0, i),
    decreases i,
{
    let n = before.columns.len() as int;
    if i == n {
        assert(u1.columns.subrange(0, i) == before.columns);
        assert(u2.columns.subrange(0, i) == before.columns);
    } else {
        lemma_extension_prefix(before, c, r, u1, u2, i - 1);
        let p = u1.columns.subrange(0, i - 1);
        assert(is_generic_name(p, i as nat, u1.columns[i - 1]));
        assert(is_generic_name(p, i as nat, u2.columns[i - 1]));
        lemma_generic_name_unique(p, i as nat, u1.columns[i - 1]);
        lemma_generic_name_unique(p, i as nat, u2.columns[i - 1]);
        assert(u1.columns.subrange(0, i) =~= p.push(u1.columns[i - 1]));
        assert(u2.columns.subrange(0, i) =~= p.push(u2.columns[i - 1]));
    }
}

/// The extension of a table to given extents is determined by them.
pub proof fn lemma_extension_unique(before: TableModel, c: nat, r: nat, after: TableModel)
    requires
        is_extension(before, c, r, after),
    ensures
        extended(before, c, r) == after,
{
    let other = extended(before, c, r);
    lemma_extension_prefix(before, c, r, after, other, after.columns.len() as int);
    assert(after.columns.subrange(0, after.columns.len() as int) =~= after.columns);
    assert(other.columns.subrange(0, other.columns.len() as int) =~= other.columns);
    assert(after.columns =~= other.columns);
    assert(after.rows =~= other.rows);
}

/// A store operation that the table refuses.
#[derive(Clone, Copy, Debug, PartialEq, Eq, Structural)]
pub enum TableError {
    /// The column name is already taken by another column.
    NameCollision,
}

impl TableError {
    /// A message for the status line.
    pub fn message(&self) -> (r: String)
        ensures
            *self == TableError::NameCollision ==> r@ == "Column name already exists"@,
    {
        match self {
            TableError::NameCollision => "Column name already exists".to_owned(),
        }
    }
}

proof fn lemma_deep_push<T: DeepView>(a: Seq<T>, x: T)
    ensures
        Seq::new(a.push(x).len(), |i: int| a.push(x)[i].deep_view()) =~= Seq::new(
            a.len(),
            |i: int| a[i].deep_view(),
        ).push(x.deep_view()),
{
}

proof fn lemma_deep_insert<T: DeepView>(a: Seq<T>, at: int, x: T)
    requires
        0 <= at <= a.len(),
    ensures
        Seq::new(a.insert(at, x).len(), |i: int| a.insert(at, x)[i].deep_view()) =~= Seq::new(
            a.len(),
            |i: int| a[i].deep_view(),
        ).insert(at, x.deep_view()),
{
}

proof fn lemma_deep_remove<T: DeepView>(a: Seq<T>, at: int)
    requires
        0 <= at < a.len(),
    ensures
        Seq::new(a.remove(at).len(), |i: int| a.remove(at)[i].deep_view()) =~= Seq::new(
            a.len(),
            |i: int| a[i].deep_view(),
        ).remove(at),
{
}

proof fn lemma_deep_update<T: DeepView>(a: Seq<T>, at: int, x: T)
    requires
        0 <= at < a.len(),
    ensures
        Seq::new(a.update(at, x).len(), |i: int| a.update(at, x)[i].deep_view()) =~= Seq::new(
            a.len(),
            |i: int| a[i].deep_view(),
        ).update(at, x.deep_view()),
{
}

/// A copy of a row of strings.
pub fn copy_strings(v: &Vec<String>) -> (r: Vec<String>)
    ensures
        r.deep_view() == v.deep_view(),
{
    let mut r: Vec<String> = Vec::new();
    let mut i: usize = 0;
    while i < v.len()
        invariant
            i <= v.len(),
            r@.len() == i,
            r.deep_view() == v.deep_view().subrange(0, i as int),
        decreases v.len() - i,
    {
        let c = v[i].clone();
        let ghost before = r@;
        r.push(c);
        proof {
            assert(r@ == before.push(c));
            assert forall|j: int| 0 <= j < i + 1 implies r.deep_view()[j] == v.deep_view()[j] by {
                if j < i {
                    assert(before[j]@ == v.deep_view().subrange(0, i as int)[j]);
                }
            }
            assert(r.deep_view() =~= v.deep_view().subrange(0, i + 1));
        }
        i += 1;
    }
    assert(v.deep_view().subrange(0, v.len() as int) =~= v.deep_view());
    r
}

/// Appends copies of the strings of `src` to `dst`.
pub fn append_strings(dst: &mut Vec<String>, src: &Vec<String>)
    ensures
        final(dst)@.len() == old(dst)@.len() + src@.len(),
        final(dst).deep_view() == old(dst).deep_view() + src.deep_view(),
{
    let ghost start = dst.deep_view();
    let mut i: usize = 0;
    while i < src.len()
        invariant
            i <= src@.len(),
            dst@.len() == old(dst)@.len() + i,
            start == old(dst).deep_view(),
            dst.deep_view() =~= start + src.deep_view().subrange(0, i as int),
        decreases src.len() - i,
    {
        let c = src[i].clone();
        proof {
            lemma_deep_push(dst@, c);
        }
        dst.push(c);
        i += 1;
    }
    assert(src.deep_view().subrange(0, src@.len() as int) =~= src.deep_view());
}

/// `n` empty strings.
fn blank_strings(n: usize) -> (r: Vec<String>)
    ensures
        r@.len() == n,
        r.deep_view() == blank_row(n as nat),
{
    let mut r: Vec<String> = Vec::new();
    let mut i: usize = 0;
    while i < n
        invariant
            i <= n,
            r@.len() == i,
            r.deep_view() == blank_row(i as nat),
        decreases n - i,
    {
        let ghost before = r@;
        r.push(String::new());
        proof {
            assert forall|j: int| 0 <= j < i + 1 implies r.deep_view()[j] == blank_row((i + 1) as nat)[j] by {
                if j < i {
                    assert(before[j]@ == blank_row(i as nat)[j]);
                }
            }
            assert(r.deep_view() =~= blank_row((i + 1) as nat));
        }
        i += 1;
    }
    r
}

/// A table of named columns over rows of cell text.
pub struct Table {
    columns: Vec<String>,
    rows: Vec<Vec<String>>,
}

impl View for Table {
    type V = TableModel;

    closed spec fn view(&self) -> TableModel {
        TableModel { columns: self.columns.deep_view(), rows: self.rows.deep_view() }
    }
}

impl Table {
    /// A table with no columns and no rows.
    pub fn new() -> (t: Table)
        ensures
            t@.columns == Seq::<Seq<char>>::empty(),
            t@.rows == Seq::<Seq<Seq<char>>>::empty(),
            t@.wf(),
    {
        let t = Table { columns: Vec::new(), rows: Vec::new() };
        assert(t@.columns =~= Seq::<Seq<char>>::empty());
        assert(t@.rows =~= Seq::<Seq<Seq<char>>>::empty());
        t
    }

    pub fn column_count(&self) -> (n: usize)
        ensures
            n == self@.column_count(),
    {
        self.columns.len()
    }

    pub fn row_count(&self) -> (n: usize)
        ensures
            n == self@.row_count(),
    {
        self.rows.len()
    }

    /// Whether column `x` and row `y` (0-based) lie inside the table.
    pub fn cell_exists(&self, x: usize, y: usize) -> (r: bool)
        ensures
            r == self@.has_cell(x as int, y as int),
    {
        x < self.columns.len() && y < self.rows.len()
    }

    /// The name of column `x`.
    pub fn column_name(&self, x: usize) -> (r: String)
        requires
            x < self@.column_count(),
        ensures
            r@ == self@.columns[x as int],
    {
        self.columns[x].clone()
    }

    /// All column names, in order.
    pub fn column_names(&self) -> (r: Vec<String>)
        ensures
            r.deep_view() == self@.columns,
    {
        copy_strings(&self.columns)
    }

    /// The text of the cell at column `x`, row `y`.
    pub fn cell(&self, x: usize, y: usize) -> (r: String)
        requires
            self@.wf(),
            self@.has_cell(x as int, y as int),
        ensures
            r@ == self@.cell(x as int, y as int),
    {
        assert(self.rows[y as int].deep_view() == self@.rows[y as int]);
        self.rows[y][x].clone()
    }

    /// The cells of row `y`.
    pub fn row(&self, y: usize) -> (r: Vec<String>)
        requires
            y < self@.row_count(),
        ensures
            r.deep_view() == self@.rows[y as int],
    {
        copy_strings(&self.rows[y])
    }
}

impl Table {
    /// Appends column `name`, with an empty cell in every row; the name must
    /// be new.
    fn push_column(&mut self, name: String)
        requires
            old(self)@.wf(),
            !old(self)@.columns.contains(name@),
        ensures
            final(self)@ == old(self)@.with_column_at(old(self)@.columns.len() as int, name@),
            final(self)@.wf(),
    {
        let at = self.columns.len();
        self.insert_column_unchecked(at, name);
    }

    fn insert_column_unchecked(&mut self, at: usize, name: String)
        requires
            old(self)@.wf(),
            at <= old(self)@.columns.len(),
            !old(self)@.columns.contains(name@),
        ensures
            final(self)@ == old(self)@.with_column_at(at as int, name@),
            final(self)@.wf(),
    {
        let ghost m = self@;
        let ghost target = m.with_column_at(at as int, name@);
        let mut new_rows: Vec<Vec<String>> = Vec::new();
        let mut y: usize = 0;
        while y < self.rows.len()
            invariant
                m == self@,
                m.wf(),
                at <= m.columns.len(),
                target == m.with_column_at(at as int, name@),
                y <= self.rows.len(),
                new_rows@.len() == y,
                new_rows.deep_view() =~= target.rows.subrange(0, y as int),
            decreases self.rows.len() - y,
        {
            let mut row = copy_strings(&self.rows[y]);
            let e = String::new();
            proof {
                assert(row.deep_view() == m.rows[y as int]);
                assert(m.rows[y as int].len() == m.columns.len());
                assert(row@.len() == row.deep_view().len());
                lemma_deep_insert(row@, at as int, e);
            }
            row.insert(at, e);
            proof {
                lemma_deep_push(new_rows@, row);
            }
            new_rows.push(row);
            y += 1;
        }
        proof {
            lemma_deep_insert(self.columns@, at as int, name);
        }
        self.columns.insert(at, name);
        self.rows = new_rows;
        proof {
            assert(target.rows.subrange(0, target.rows.len() as int) =~= target.rows);
            assert(self@.columns =~= target.columns);
            assert(self@.rows =~= target.rows);
            assert forall|i: int, j: int|
                0 <= i < j < target.columns.len() implies target.columns[i] != target.columns[j] by {
                if i < at && j > at {
                    assert(target.columns[j] == m.columns[j - 1]);
                } else if i > at {
                    assert(target.columns[i] == m.columns[i - 1]);
                    assert(target.columns[j] == m.columns[j - 1]);
                }
            }
        }
    }

    /// Inserts column `name`, with empty cells, before column `at`; refused
    /// when the name is already taken.
    pub fn insert_column_at(&mut self, at: usize, name: String) -> (r: Result<(), TableError>)
        requires
            old(self)@.wf(),
            at <= old(self)@.column_count(),
        ensures
            final(self)@.wf(),
            old(self)@.columns.contains(name@) ==> r == Err::<(), TableError>(
                TableError::NameCollision,
            ) && final(self)@ == old(self)@,
            !old(self)@.columns.contains(name@) ==> r is Ok && final(self)@ == old(self)@.with_column_at(
                at as int,
                name@,
            ),
    {
        if contains_name(&self.columns, &name) {
            return Err(TableError::NameCollision);
        }
        self.insert_column_unchecked(at, name);
        Ok(())
    }

    /// Appends column `name`, with empty cells; refused when the name is
    /// already taken.
    pub fn create_column(&mut self, name: String) -> (r: Result<(), TableError>)
        requires
            old(self)@.wf(),
        ensures
            final(self)@.wf(),
            old(self)@.columns.contains(name@) ==> r == Err::<(), TableError>(
                TableError::NameCollision,
            ) && final(self)@ == old(self)@,
            !old(self)@.columns.contains(name@) ==> r is Ok && final(self)@ == old(self)@.with_column_at(
                old(self)@.columns.len() as int,
                name@,
            ),
    {
        let at = self.columns.len();
        self.insert_column_at(at, name)
    }

    /// Renames column `x` to `name`; refused when another column has that
    /// name.
    pub fn rename_column(&mut self, x: usize, name: String) -> (r: Result<(), TableError>)
        requires
            old(self)@.wf(),
            x < old(self)@.column_count(),
        ensures
            final(self)@.wf(),
            old(self)@.name_taken_by_other(x as int, name@) ==> r == Err::<(), TableError>(
                TableError::NameCollision,
            ) && final(self)@ == old(self)@,
            !old(self)@.name_taken_by_other(x as int, name@) ==> r is Ok && final(self)@ == old(
                self,
            )@.with_column_name(x as int, name@),
    {
        let mut j: usize = 0;
        while j < self.columns.len()
            invariant
                self@ == old(self)@,
                self@.wf(),
                x < self.columns@.len(),
                j <= self.columns@.len(),
                forall|k: int| 0 <= k < j && k != x ==> self@.columns[k] != name@,
            decreases self.columns.len() - j,
        {
            if j != x && self.columns[j] == name {
                assert(self@.columns[j as int] == name@);
                return Err(TableError::NameCollision);
            }
            j += 1;
        }
        let ghost m = self@;
        proof {
            lemma_deep_update(self.columns@, x as int, name);
        }
        self.columns.set(x, name);
        proof {
            assert(self@.columns =~= m.columns.update(x as int, name@));
            assert(self@ == m.with_column_name(x as int, name@));
            assert forall|i: int, k: int|
                0 <= i < k < self@.columns.len() implies self@.columns[i] != self@.columns[k] by {
                if i != x && k != x {
                    assert(m.columns[i] != m.columns[k]);
                }
            }
        }
        Ok(())
    }

    /// Sets the cell at column `x`, row `y` to `value`.
    pub fn set_cell(&mut self, x: usize, y: usize, value: String)
        requires
            old(self)@.wf(),
            old(self)@.has_cell(x as int, y as int),
        ensures
            final(self)@ == old(self)@.with_cell(x as int, y as int, value@),
            final(self)@.wf(),
    {
        let ghost m = self@;
        let mut row: Vec<String> = Vec::new();
        self.rows.set_and_swap(y, &mut row);
        assert(row.deep_view() == m.rows[y as int]);
        assert(m.rows[y as int].len() == m.columns.len());
        proof {
            lemma_deep_update(row@, x as int, value);
        }
        row.set(x, value);
        let ghost mid = self.rows@;
        proof {
            lemma_deep_update(mid, y as int, row);
        }
        self.rows.set(y, row);
        proof {
            assert(self@.rows =~= m.rows.update(y as int, m.rows[y as int].update(x as int, value@)));
        }
    }

    /// Appends a row; it must have one cell per column.
    pub fn push_row(&mut self, row: Vec<String>)
        requires
            old(self)@.wf(),
            row@.len() == old(self)@.column_count(),
        ensures
            final(self)@ == (TableModel {
                columns: old(self)@.columns,
                rows: old(self)@.rows.push(row.deep_view()),
            }),
            final(self)@.wf(),
    {
        proof {
            lemma_deep_push(self.rows@, row);
        }
        self.rows.push(row);
    }

    /// Inserts a row of empty cells before row `y`.
    pub fn insert_empty_row_at(&mut self, y: usize)
        requires
            old(self)@.wf(),
            y <= old(self)@.row_count(),
        ensures
            final(self)@ == (TableModel {
                columns: old(self)@.columns,
                rows: old(self)@.rows.insert(y as int, blank_row(old(self)@.column_count())),
            }),
            final(self)@.wf(),
    {
        let row = blank_strings(self.columns.len());
        proof {
            lemma_deep_insert(self.rows@, y as int, row);
        }
        self.rows.insert(y, row);
    }

    /// Removes row `y`.
    pub fn delete_row_at(&mut self, y: usize)
        requires
            old(self)@.wf(),
            y < old(self)@.row_count(),
        ensures
            final(self)@ == (TableModel {
                columns: old(self)@.columns,
                rows: old(self)@.rows.remove(y as int),
            }),
            final(self)@.wf(),
    {
        proof {
            lemma_deep_remove(self.rows@, y as int);
        }
        self.rows.remove(y);
    }

    /// Removes column `x` and its cells.
    pub fn delete_column(&mut self, x: usize)
        requires
            old(self)@.wf(),
            x < old(self)@.column_count(),
        ensures
            final(self)@ == old(self)@.without_column(x as int),
            final(self)@.wf(),
    {
        let ghost m = self@;
        let ghost target = m.without_column(x as int);
        let mut new_rows: Vec<Vec<String>> = Vec::new();
        let mut y: usize = 0;
        while y < self.rows.len()
            invariant
                m == self@,
                m.wf(),
                x < m.columns.len(),
                target == m.without_column(x as int),
                y <= self.rows.len(),
                new_rows@.len() == y,
                new_rows.deep_view() =~= target.rows.subrange(0, y as int),
            decreases self.rows.len() - y,
        {
            let mut row = copy_strings(&self.rows[y]);
            proof {
                assert(row.deep_view() == m.rows[y as int]);
                assert(m.rows[y as int].len() == m.columns.len());
                assert(row@.len() == row.deep_view().len());
                lemma_deep_remove(row@, x as int);
            }
            row.remove(x);
            proof {
                lemma_deep_push(new_rows@, row);
            }
            new_rows.push(row);
            y += 1;
        }
        proof {
            lemma_deep_remove(self.columns@, x as int);
        }
        self.columns.remove(x);
        self.rows = new_rows;
        proof {
            assert(target.rows.subrange(0, target.rows.len() as int) =~= target.rows);
            assert(self@.columns =~= target.columns);
            assert(self@.rows =~= target.rows);
            assert forall|i: int, j: int|
                0 <= i < j < target.columns.len() implies target.columns[i] != target.columns[j] by {
                if i < x && j >= x {
                    assert(target.columns[j] == m.columns[j + 1]);
                } else if i >= x {
                    assert(target.columns[i] == m.columns[i + 1]);
                    assert(target.columns[j] == m.columns[j + 1]);
                }
            }
        }
    }

    /// Inserts the rows of `src` before row `at`; both tables have the same
    /// number of columns.
    pub fn insert_rows_at(&mut self, src: &Table, at: usize)
        requires
            old(self)@.wf(),
            src@.wf(),
            src@.column_count() == old(self)@.column_count(),
            at <= old(self)@.row_count(),
        ensures
            final(self)@ == old(self)@.with_rows_at(at as int, src@),
            final(self)@.wf(),
    {
        let ghost m = self@;
        let mut k: usize = 0;
        while k < src.rows.len()
            invariant
                m.wf(),
                src@.wf(),
                src@.columns.len() == m.columns.len(),
                self@.columns == m.columns,
                at <= m.rows.len(),
                k <= src@.rows.len(),
                self.rows@.len() == m.rows.len() + k,
                self@.rows =~= m.rows.subrange(0, at as int) + src@.rows.subrange(0, k as int)
                    + m.rows.subrange(at as int, m.rows.len() as int),
                self@.wf(),
            decreases src.rows.len() - k,
        {
            let row = copy_strings(&src.rows[k]);
            let n = self.rows.len();
            assert(at + k <= n);
            assert(row.deep_view() == src@.rows[k as int]);
            assert(src@.rows[k as int].len() == src@.columns.len());
            proof {
                lemma_deep_insert(self.rows@, at + k, row);
            }
            self.rows.insert(at + k, row);
            k += 1;
        }
        assert(src@.rows.subrange(0, src@.rows.len() as int) =~= src@.rows);
    }

    /// Whether a column of `src` has a name that this table already uses.
    pub fn shares_column_name(&self, src: &Table) -> (r: bool)
        ensures
            r == exists|i: int| 0 <= i < src@.columns.len() && self@.columns.contains(#[trigger] src@.columns[i]),
    {
        let mut i: usize = 0;
        while i < src.columns.len()
            invariant
                i <= src.columns@.len(),
                forall|k: int| 0 <= k < i ==> !self@.columns.contains(#[trigger] src@.columns[k]),
            decreases src.columns.len() - i,
        {
            if contains_name(&self.columns, &src.columns[i]) {
                assert(self@.columns.contains(src@.columns[i as int]));
                return true;
            }
            i += 1;
        }
        false
    }

    /// Inserts the columns of `src` before column `at`, row by row; both
    /// tables have the same number of rows. Refused when a name of `src` is
    /// already taken here.
    pub fn insert_columns_at(&mut self, src: &Table, at: usize) -> (r: Result<(), TableError>)
        requires
            old(self)@.wf(),
            src@.wf(),
            src@.row_count() == old(self)@.row_count(),
            at <= old(self)@.column_count(),
        ensures
            final(self)@.wf(),
            (exists|i: int| 0 <= i < src@.columns.len() && old(self)@.columns.contains(#[trigger] src@.columns[i]))
                ==> r == Err::<(), TableError>(TableError::NameCollision) && final(self)@ == old(self)@,
            !(exists|i: int| 0 <= i < src@.columns.len() && old(self)@.columns.contains(#[trigger] src@.columns[i]))
                ==> r is Ok && final(self)@ == old(self)@.with_columns_at(at as int, src@),
    {
        if self.shares_column_name(src) {
            return Err(TableError::NameCollision);
        }
        let ghost m = self@;
        let ghost target = m.with_columns_at(at as int, src@);
        let mut new_rows: Vec<Vec<String>> = Vec::new();
        let mut y: usize = 0;
        while y < self.rows.len()
            invariant
                m == self@,
                m.wf(),
                src@.wf(),
                src@.rows.len() == m.rows.len(),
                at <= m.columns.len(),
                target == m.with_columns_at(at as int, src@),
                y <= self.rows.len(),
                new_rows@.len() == y,
                new_rows.deep_view() =~= target.rows.subrange(0, y as int),
            decreases self.rows.len() - y,
        {
            let mut row: Vec<String> = Vec::new();
            let ghost line = m.rows[y as int];
            let ghost extra = src@.rows[y as int];
            assert(line.len() == m.columns.len());
            let mut x: usize = 0;
            while x < at
                invariant
                    line == self.rows@[y as int].deep_view(),
                    at <= line.len(),
                    y < self.rows@.len(),
                    x <= at,
                    row@.len() == x,
                    row.deep_view() =~= line.subrange(0, x as int),
                decreases at - x,
            {
                let c = self.rows[y][x].clone();
                proof {
                    lemma_deep_push(row@, c);
                }
                row.push(c);
                x += 1;
            }
            let mut k: usize = 0;
            while k < src.rows[y].len()
                invariant
                    extra == src.rows@[y as int].deep_view(),
                    y < src.rows@.len(),
                    k <= extra.len(),
                    row@.len() == at + k,
                    row.deep_view() =~= line.subrange(0, at as int) + extra.subrange(0, k as int),
                decreases extra.len() - k,
            {
                let c = src.rows[y][k].clone();
                proof {
                    lemma_deep_push(row@, c);
                }
                row.push(c);
                k += 1;
            }
            let mut x: usize = at;
            while x < self.rows[y].len()
                invariant
                    line == self.rows@[y as int].deep_view(),
                    y < self.rows@.len(),
                    at <= x <= line.len(),
                    row@.len() == x + extra.len(),
                    row.deep_view() =~= line.subrange(0, at as int) + extra + line.subrange(at as int, x as int),
                decreases line.len() - x,
            {
                let c = self.rows[y][x].clone();
                proof {
                    lemma_deep_push(row@, c);
                    assert(extra.subrange(0, extra.len() as int) =~= extra);
                }
                row.push(c);
                x += 1;
            }
            proof {
                assert(extra.subrange(0, extra.len() as int) =~= extra);
                assert(row.deep_view() =~= target.rows[y as int]);
                lemma_deep_push(new_rows@, row);
            }
            new_rows.push(row);
            y += 1;
        }
        let mut columns: Vec<String> = Vec::new();
        let mut x: usize = 0;
        while x < at
            invariant
                m == self@,
                at <= m.columns.len(),
                x <= at,
                columns@.len() == x,
                columns.deep_view() =~= m.columns.subrange(0, x as int),
            decreases at - x,
        {
            let c = self.columns[x].clone();
            proof {
                lemma_deep_push(columns@, c);
            }
            columns.push(c);
            x += 1;
        }
        let mut k: usize = 0;
        while k < src.columns.len()
            invariant
                m == self@,
                at <= m.columns.len(),
                k <= src@.columns.len(),
                columns@.len() == at + k,
                columns.deep_view() =~= m.columns.subrange(0, at as int) + src@.columns.subrange(0, k as int),
            decreases src.columns.len() - k,
        {
            let c = src.columns[k].clone();
            proof {
                lemma_deep_push(columns@, c);
            }
            columns.push(c);
            k += 1;
        }
        assert(src@.columns.subrange(0, src@.columns.len() as int) =~= src@.columns);
        let mut x: usize = at;
        while x < self.columns.len()
            invariant
                m == self@,
                at <= x <= m.columns.len(),
                columns@.len() == x + src@.columns.len(),
                columns.deep_view() =~= m.columns.subrange(0, at as int) + src@.columns + m.columns.subrange(at as int, x as int),
            decreases m.columns.len() - x,
        {
            let c = self.columns[x].clone();
            proof {
                lemma_deep_push(columns@, c);
            }
            columns.push(c);
            x += 1;
        }
        self.columns = columns;
        self.rows = new_rows;
        proof {
            assert(target.rows.subrange(0, target.rows.len() as int) =~= target.rows);
            assert(self@.rows =~= target.rows);
            assert(self@.columns =~= target.columns);
            let cs = target.columns;
            let sl = src@.columns.len();
            assert forall|i: int, j: int| 0 <= i < j < cs.len() implies cs[i] != cs[j] by {
                let ci = if i < at { m.columns[i] } else if i < at + sl { src@.columns[i - at] } else { m.columns[i - sl] };
                let cj = if j < at { m.columns[j] } else if j < at + sl { src@.columns[j - at] } else { m.columns[j - sl] };
                assert(cs[i] == ci);
                assert(cs[j] == cj);
                if at <= i < at + sl && !(at <= j < at + sl) {
                    assert(!m.columns.contains(src@.columns[i - at]));
                } else if at <= j < at + sl && !(at <= i < at + sl) {
                    assert(!m.columns.contains(src@.columns[j - at]));
                }
            }
            assert forall|q: int| 0 <= q < target.rows.len() implies #[trigger] target.rows[q].len()
                == target.columns.len() by {
                assert(m.rows[q].len() == m.columns.len());
                assert(src@.rows[q].len() == src@.columns.len());
            }
        }
        Ok(())
    }

    /// The rectangle of columns `[x0, x1)` and rows `[y0, y1)`, as a table of
    /// its own.
    pub fn select(&self, x0: usize, x1: usize, y0: usize, y1: usize) -> (r: Table)
        requires
            self@.wf(),
            x0 <= x1 <= self@.column_count(),
            y0 <= y1 <= self@.row_count(),
        ensures
            r@ == self@.select(x0 as int, x1 as int, y0 as int, y1 as int),
            r@.wf(),
    {
        let ghost target = self@.select(x0 as int, x1 as int, y0 as int, y1 as int);
        let mut columns: Vec<String> = Vec::new();
        let mut x: usize = x0;
        while x < x1
            invariant
                x0 <= x <= x1,
                x1 <= self@.columns.len(),
                columns@.len() == x - x0,
                columns.deep_view() =~= self@.columns.subrange(x0 as int, x as int),
            decreases x1 - x,
        {
            let c = self.columns[x].clone();
            proof {
                lemma_deep_push(columns@, c);
            }
            columns.push(c);
            x += 1;
        }
        let mut rows: Vec<Vec<String>> = Vec::new();
        let mut y: usize = y0;
        while y < y1
            invariant
                self@.wf(),
                x0 <= x1 <= self@.columns.len(),
                y0 <= y <= y1,
                y1 <= self@.rows.len(),
                target == self@.select(x0 as int, x1 as int, y0 as int, y1 as int),
                rows@.len() == y - y0,
                rows.deep_view() =~= target.rows.subrange(0, y - y0),
            decreases y1 - y,
        {
            let mut row: Vec<String> = Vec::new();
            let mut x: usize = x0;
            assert(self@.rows[y as int].len() == self@.columns.len());
            while x < x1
                invariant
                    x0 <= x <= x1,
                    x1 <= self.rows@[y as int]@.len(),
                    y < self.rows@.len(),
                    row@.len() == x - x0,
                    row.deep_view() =~= self@.rows[y as int].subrange(x0 as int, x as int),
                decreases x1 - x,
            {
                let c = self.rows[y][x].clone();
                proof {
                    lemma_deep_push(row@, c);
                }
                row.push(c);
                x += 1;
            }
            proof {
                lemma_deep_push(rows@, row);
            }
            rows.push(row);
            y += 1;
        }
        let r = Table { columns, rows };
        proof {
            assert(r@.columns =~= target.columns);
            assert(target.rows.subrange(0, (y1 - y0) as int) =~= target.rows);
            assert(r@.rows =~= target.rows);
            assert forall|i: int, j: int|
                0 <= i < j < target.columns.len() implies target.columns[i] != target.columns[j] by {
                assert(self@.columns[x0 + i] != self@.columns[x0 + j]);
            }
        }
        r
    }

    /// Renames all columns at once; the new names are distinct.
    pub fn set_column_names(&mut self, names: Vec<String>)
        requires
            old(self)@.wf(),
            names@.len() == old(self)@.column_count(),
            names.deep_view().no_duplicates(),
        ensures
            final(self)@ == (TableModel { columns: names.deep_view(), rows: old(self)@.rows }),
            final(self)@.wf(),
    {
        self.columns = names;
    }

    /// The first free generic name `Column n` with `n >= start`.
    pub fn generate_column_name(&self, start: usize) -> (r: String)
        ensures
            is_generic_name(self@.columns, start as nat, r@),
            r@ == generic_name_for(self@.columns, start as nat),
            !self@.columns.contains(r@),
    {
        first_free_generic_name(&self.columns, start)
    }
}

/// Grows `table` to at least `new_column_count` columns and `new_row_count`
/// rows: missing columns get generic names, old rows are padded with empty
/// cells, missing rows are appended empty. Nothing shrinks.
pub fn extend_table(table: &mut Table, new_column_count: usize, new_row_count: usize)
    requires
        old(table)@.wf(),
    ensures
        is_extension(old(table)@, new_column_count as nat, new_row_count as nat, final(table)@),
        final(table)@ == extended(old(table)@, new_column_count as nat, new_row_count as nat),
        final(table)@.wf(),
{
    let ghost m = table@;
    let old_row_count = table.row_count();
    let old_column_count = table.column_count();
    let mut idx: usize = old_column_count;
    while idx < new_column_count
        invariant
            table@.wf(),
            m.wf(),
            old_column_count == m.columns.len(),
            old_row_count == m.rows.len(),
            old_column_count <= idx,
            idx <= (if new_column_count > old_column_count { new_column_count } else { old_column_count }),
            idx == table@.columns.len(),
            table@.rows.len() == old_row_count,
            table@.columns.subrange(0, old_column_count as int) == m.columns,
            forall|i: int|
                old_column_count <= i < idx ==> is_generic_name(
                    table@.columns.subrange(0, i),
                    (i + 1) as nat,
                    #[trigger] table@.columns[i],
                ),
            forall|y: int| 0 <= y < old_row_count ==> #[trigger] table@.rows[y] == widened(m.rows[y], idx as nat),
        decreases new_column_count - idx,
    {
        let ghost before = table@;
        let name = table.generate_column_name(idx + 1);
        table.push_column(name);
        proof {
            let after = table@;
            assert(after.columns == before.columns.push(name@));
            assert(after.columns.subrange(0, old_column_count as int) =~= m.columns);
            assert forall|i: int|
                old_column_count <= i < idx + 1 implies is_generic_name(
                    after.columns.subrange(0, i),
                    (i + 1) as nat,
                    #[trigger] after.columns[i],
                ) by {
                assert(after.columns.subrange(0, i) =~= before.columns.subrange(0, i));
                if i == idx {
                    assert(before.columns.subrange(0, i) =~= before.columns);
                }
            }
            assert forall|y: int| 0 <= y < old_row_count implies #[trigger] after.rows[y] == widened(
                m.rows[y],
                (idx + 1) as nat,
            ) by {
                assert(m.rows[y].len() == m.columns.len());
                assert(after.rows[y] == before.rows[y].insert(idx as int, Seq::<char>::empty()));
                assert(widened(m.rows[y], (idx + 1) as nat) =~= widened(m.rows[y], idx as nat).push(
                    Seq::<char>::empty(),
                ));
            }
        }
        idx += 1;
    }
    let column_count = table.column_count();
    let mut y: usize = old_row_count;
    while y < new_row_count
        invariant
            table@.wf(),
            m.wf(),
            old_row_count == m.rows.len(),
            old_column_count == m.columns.len(),
            column_count == table@.columns.len(),
            column_count == (if new_column_count > old_column_count { new_column_count } else { old_column_count }),
            old_row_count <= y,
            y <= (if new_row_count > old_row_count { new_row_count } else { old_row_count }),
            y == table@.rows.len(),
            table@.columns.subrange(0, old_column_count as int) == m.columns,
            forall|i: int|
                old_column_count <= i < column_count ==> is_generic_name(
                    table@.columns.subrange(0, i),
                    (i + 1) as nat,
                    #[trigger] table@.columns[i],
                ),
            forall|k: int| 0 <= k < old_row_count ==> #[trigger] table@.rows[k] == widened(m.rows[k], column_count as nat),
            forall|k: int| old_row_count <= k < y ==> #[trigger] table@.rows[k] == blank_row(column_count as nat),
        decreases new_row_count - y,
    {
        let row = blank_strings(column_count);
        table.push_row(row);
        y += 1;
    }
    proof {
        lemma_extension_unique(m, new_column_count as nat, new_row_count as nat, table@);
    }
}

/// Extending a table twice, the second time to no larger extents, changes
/// nothing after the first time.
pub proof fn lemma_extend_idempotent(
    t0: TableModel,
    c: nat,
    r: nat,
    t1: TableModel,
    c2: nat,
    r2: nat,
    t2: TableModel,
)
    requires
        t0.wf(),
        is_extension(t0, c, r, t1),
        t1.wf(),
        is_extension(t1, c2, r2, t2),
        c2 <= c,
        r2 <= r,
    ensures
        t2 == t1,
        t2.column_count() == t1.column_count(),
        t2.row_count() == t1.row_count(),
{
    assert(t2.columns.len() == t1.columns.len());
    assert(t2.columns =~= t1.columns) by {
        assert(t2.columns.subrange(0, t1.columns.len() as int) == t1.columns);
        assert(t2.columns.subrange(0, t1.columns.len() as int) =~= t2.columns);
    }
    assert forall|y: int| 0 <= y < t2.rows.len() implies t2.rows[y] == t1.rows[y] by {
        assert(t1.rows[y].len() == t1.columns.len());
        assert(widened(t1.rows[y], t1.columns.len()) =~= t1.rows[y]);
    }
    assert(t2.rows =~= t1.rows);
}

/// An extension of a well-formed table is well formed.
pub proof fn lemma_extension_wf(before: TableModel, c: nat, r: nat, after: TableModel)
    requires
        before.wf(),
        is_extension(before, c, r, after),
    ensures
        after.wf(),
{
    let n = before.columns.len() as int;
    assert forall|i: int, j: int|
        0 <= i < j < after.columns.len() implies after.columns[i] != after.columns[j] by {
        if j < n {
            assert(after.columns[i] == after.columns.subrange(0, n)[i]);
            assert(after.columns[j] == after.columns.subrange(0, n)[j]);
        } else {
            assert(is_generic_name(after.columns.subrange(0, j), (j + 1) as nat, after.columns[j]));
            assert(after.columns.subrange(0, j)[i] == after.columns[i]);
        }
    }
    assert forall|y: int| 0 <= y < after.rows.len() implies #[trigger] after.rows[y].len()
        == after.columns.len() by {
        if y < before.rows.len() {
            assert(before.rows[y].len() == before.columns.len());
        }
    }
}

proof fn lemma_extension_witness(before: TableModel, c: nat, r: nat)
    requires
        before.wf(),
    ensures
        exists|after: TableModel| is_extension(before, c, r, after),
    decreases c - before.columns.len(),
{
    let cc = before.columns.len();
    let rc = before.rows.len();
    if c <= cc {
        let total = if r > rc { r } else { rc };
        let after = TableModel {
            columns: before.columns,
            rows: Seq::new(total, |y: int| if y < rc { before.rows[y] } else { blank_row(cc) }),
        };
        assert(after.columns.subrange(0, cc as int) =~= before.columns);
        assert forall|y: int| 0 <= y < rc implies #[trigger] after.rows[y] == widened(before.rows[y], cc) by {
            assert(before.rows[y].len() == cc);
            assert(widened(before.rows[y], cc) =~= before.rows[y]);
        }
        assert(is_extension(before, c, r, after));
    } else {
        let g = generic_name_for(before.columns, cc + 1);
        lemma_generic_name_exists(before.columns, cc + 1);
        let next = before.with_column_at(cc as int, g);
        assert(next.columns =~= before.columns.push(g));
        assert forall|i: int, j: int|
            0 <= i < j < next.columns.len() implies next.columns[i] != next.columns[j] by {
            if j == cc {
                assert(before.columns.contains(next.columns[i]));
            }
        }
        assert forall|y: int| 0 <= y < next.rows.len() implies #[trigger] next.rows[y].len()
            == next.columns.len() by {
            assert(before.rows[y].len() == cc);
        }
        lemma_extension_witness(next, c, r);
        let after = choose|after: TableModel| is_extension(next, c, r, after);
        assert(after.columns.subrange(0, cc as int) =~= after.columns.subrange(0, cc + 1int).subrange(0, cc as int));
        assert(before.columns =~= next.columns.subrange(0, cc as int));
        assert forall|i: int|
            cc <= i < c implies is_generic_name(
                after.columns.subrange(0, i),
                (i + 1) as nat,
                #[trigger] after.columns[i],
            ) by {
            if i == cc {
                assert(after.columns.subrange(0, i) =~= before.columns);
                assert(after.columns[i] == next.columns[i]);
            }
        }
        assert forall|y: int| 0 <= y < rc implies #[trigger] after.rows[y] == widened(before.rows[y], c) by {
            assert(before.rows[y].len() == cc);
            assert(next.rows[y] =~= before.rows[y].push(Seq::<char>::empty()));
            assert(widened(next.rows[y], c) =~= widened(before.rows[y], c));
        }
        assert(is_extension(before, c, r, after));
    }
}

/// Every well-formed table has its extension to any extents, and it is
/// well formed.
pub proof fn lemma_extension_exists(before: TableModel, c: nat, r: nat)
    requires
        before.wf(),
    ensures
        is_extension(before, c, r, extended(before, c, r)),
        extended(before, c, r).wf(),
{
    lemma_extension_witness(before, c, r);
    lemma_extension_wf(before, c, r, extended(before, c, r));
}

} // verus!
