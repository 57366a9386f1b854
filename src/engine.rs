//! Edit entry and commit, and the yank/paste range engine, over the table
//! and the clipboard table.

use vstd::prelude::*;
use crate::command::Command;
use crate::editor::Editor;
use crate::mode::Mode;
use crate::names::{
    contains_name, copy_name_of, generate_nice_copy_name, generic_name_for, lemma_copy_name_exists,
};
use crate::pos::Pos;
use crate::pos::clamp_index;
use crate::table::{
    append_strings, copy_strings, extend_table, extended, lemma_extension_exists, Table, TableError,
    TableModel,
};
use crate::text::string_from_chars;

verus! {

broadcast use vstd::seq_lib::group_seq_properties;

/// A half-open rectangle `[start_x, end_x) x [start_y, end_y)` in 1-based
/// coordinates; `start_y == 0` with `end_y == 1` means the column name at
/// `start_x` rather than a cell.
#[derive(Clone, Copy, Debug, PartialEq, Eq, Structural)]
pub struct Rect {
    pub start_x: usize,
    pub start_y: usize,
    pub end_x: usize,
    pub end_y: usize,
}

impl Rect {
    /// Columns start at 1, the ends do not precede the starts, and a range
    /// that touches the header band is the header alone.
    pub open spec fn wf(&self) -> bool {
        &&& 1 <= self.start_x <= self.end_x
        &&& self.start_y <= self.end_y
        &&& self.start_y == 0 ==> self.end_y == 1
    }
}

/// The name of 1-based column `x`: its own name if it exists, else the
/// generic name it would get.
pub open spec fn header_name(t: TableModel, x: nat) -> Seq<char> {
    if 1 <= x <= t.columns.len() {
        t.columns[x - 1]
    } else {
        generic_name_for(t.columns, x)
    }
}

/// The name of 1-based column `x`, or the generic name it would get if it
/// does not exist yet; nothing is created.
pub fn resolve_header_name(table: &Table, x: usize) -> (r: String)
    requires
        x >= 1,
    ensures
        r@ == header_name(table@, x as nat),
{
    if x <= table.column_count() {
        table.column_name(x - 1)
    } else {
        table.generate_column_name(x)
    }
}

/// The column names of `t`, followed by the generic names that columns
/// up to 0-based index `x` would get.
pub open spec fn names_extended(t: TableModel, x: nat) -> Seq<Seq<char>> {
    if x < t.columns.len() {
        t.columns
    } else {
        t.columns + Seq::new(
            (x + 1 - t.columns.len()) as nat,
            |k: int| generic_name_for(t.columns, (t.columns.len() + k + 1) as nat),
        )
    }
}

/// The column names, padded with the generic names that the columns up to
/// 0-based index `x` would get.
pub fn get_column_names_extended(table: &Table, x: usize) -> (r: Vec<String>)
    requires
        x < usize::MAX,
    ensures
        r.deep_view() == names_extended(table@, x as nat),
{
    let mut names = table.column_names();
    let n = names.len();
    let ghost target = names_extended(table@, x as nat);
    let mut idx: usize = n;
    while idx <= x
        invariant
            x < usize::MAX,
            n == table@.columns.len(),
            n <= idx,
            idx <= x + 1 || idx == n,
            names@.len() == idx,
            target == names_extended(table@, x as nat),
            names.deep_view() =~= table@.columns + Seq::new(
                (idx - n) as nat,
                |k: int| generic_name_for(table@.columns, (n + k + 1) as nat),
            ),
        decreases x + 1 - idx,
    {
        let name = table.generate_column_name(idx + 1);
        let ghost before = names@;
        let ghost before_deep = names.deep_view();
        let ghost v = name@;
        names.push(name);
        proof {
            assert(names@ == before.push(name));
            assert(names.deep_view() =~= before_deep.push(v));
        }
        idx += 1;
    }
    proof {
        if x < n {
            assert(names.deep_view() =~= table@.columns);
        } else {
            assert(names.deep_view() =~= target);
        }
    }
    names
}

/// The text that editing at `c` starts from: the column name on the header
/// band, else the cell's text, or nothing outside the table.
pub open spec fn seed_text(t: TableModel, c: Pos) -> Seq<char> {
    if c.y == 0 {
        header_name(t, c.x as nat)
    } else if t.has_cell(c.x - 1, c.y - 1) {
        t.cell(c.x - 1, c.y - 1)
    } else {
        Seq::empty()
    }
}

/// Where the caret starts in a text of `len` characters: a non-negative
/// `offset` is the caret itself, and `-k` stands `k - 1` characters before
/// the end (so `-1` is the end); either is kept within the text.
pub open spec fn entry_caret(len: nat, offset: int) -> nat {
    if offset >= 0 {
        if offset < len {
            offset as nat
        } else {
            len
        }
    } else if len + 1 + offset < 0 {
        0
    } else {
        (len + 1 + offset) as nat
    }
}

/// Seeds the editor for editing at the cursor (see `seed_text` and
/// `entry_caret`).
pub fn editor_enter(table: &Table, cursor: &Pos, editor: &mut Editor, cursor_x: i32)
    requires
        table@.wf(),
        cursor.wf(),
    ensures
        final(editor).wf(),
        final(editor).line@ == seed_text(table@, *cursor),
        final(editor).cur_x == entry_caret(seed_text(table@, *cursor).len(), cursor_x as int),
{
    let old_text = if cursor.y == 0 {
        resolve_header_name(table, cursor.x)
    } else if table.cell_exists(cursor.x - 1, cursor.y - 1) {
        table.cell(cursor.x - 1, cursor.y - 1)
    } else {
        String::new()
    };
    if cursor_x >= 0 {
        editor.insert_at(old_text.as_str(), cursor_x as usize);
    } else {
        let len = old_text.as_str().unicode_len();
        let p: i128 = len as i128 + 1 + cursor_x as i128;
        let caret: usize = if p < 0 {
            0
        } else {
            p as usize
        };
        editor.insert_at(old_text.as_str(), caret);
    }
}

/// What committing `text` at `c` does to `t`, and whether the table accepts
/// it. A commit on a data row, or of a non-empty column name, first grows
/// the table to cover `c`. On the header
/// band an existing column is renamed to the text, refused when another
/// column has that name; elsewhere an existing cell is set to the text.
pub open spec fn commit_edit(t: TableModel, c: Pos, text: Seq<char>) -> (TableModel, bool) {
    let t1 = if c.y > 0 || text.len() > 0 {
        extended(t, c.x as nat, c.y as nat)
    } else {
        t
    };
    if c.y == 0 {
        if 1 <= c.x <= t1.columns.len() && t1.columns[c.x - 1] != text {
            if t1.name_taken_by_other(c.x - 1, text) {
                (t1, false)
            } else {
                (t1.with_column_name(c.x - 1, text), true)
            }
        } else {
            (t1, true)
        }
    } else if t1.has_cell(c.x - 1, c.y - 1) {
        (t1.with_cell(c.x - 1, c.y - 1, text), true)
    } else {
        (t1, true)
    }
}

/// Writes the editor's text back at the cursor (see `commit_edit`), empties
/// the editor and returns to navigation, also when the table refuses.
pub fn editor_exit(table: &mut Table, mode: &mut Mode, cursor: &Pos, editor: &mut Editor) -> (r:
    Result<(), TableError>)
    requires
        old(table)@.wf(),
        cursor.wf(),
    ensures
        final(table)@.wf(),
        final(table)@ == commit_edit(old(table)@, *cursor, old(editor).line@).0,
        r is Ok <==> commit_edit(old(table)@, *cursor, old(editor).line@).1,
        r is Err ==> r == Err::<(), TableError>(TableError::NameCollision),
        final(editor).line@ == Seq::<char>::empty(),
        final(editor).cur_x == 0,
        *final(mode) == Mode::Normal,
        cursor.y > 0 ==> {
            &&& final(table)@.has_cell(cursor.x - 1, cursor.y - 1)
            &&& final(table)@.column_count() >= cursor.x
            &&& final(table)@.row_count() >= cursor.y
            &&& final(table)@.cell(cursor.x - 1, cursor.y - 1) == old(editor).line@
        },
{
    proof {
        if cursor.y > 0 {
            lemma_commit_covers_cell(old(table)@, *cursor, old(editor).line@);
        }
    }
    let new_line = editor.get_line();
    if cursor.y > 0 || editor.len_utf8() > 0 {
        extend_table(table, cursor.x, cursor.y);
    }
    editor.clear();
    *mode = Mode::Normal;
    if cursor.y == 0 {
        if cursor.x <= table.column_count() {
            let old_column_name = table.column_name(cursor.x - 1);
            if old_column_name != new_line {
                return table.rename_column(cursor.x - 1, new_line);
            }
        }
    } else if table.cell_exists(cursor.x - 1, cursor.y - 1) {
        table.set_cell(cursor.x - 1, cursor.y - 1, new_line);
    }
    Ok(())
}

/// Committing any text at a data row leaves the table covering that cell,
/// with the text in it.
pub proof fn lemma_commit_covers_cell(t: TableModel, c: Pos, text: Seq<char>)
    requires
        t.wf(),
        c.wf(),
        c.y > 0,
    ensures
        ({
            let (t1, ok) = commit_edit(t, c, text);
            &&& ok
            &&& t1.has_cell(c.x - 1, c.y - 1)
            &&& t1.columns.len() >= c.x
            &&& t1.rows.len() >= c.y
            &&& t1.cell(c.x - 1, c.y - 1) == text
        }),
{
    lemma_extension_exists(t, c.x as nat, c.y as nat);
    let t1 = extended(t, c.x as nat, c.y as nat);
    assert(t1.rows[c.y - 1].len() == t1.columns.len());
}

/// `v` capped at `hi`.
pub open spec fn capped(v: int, hi: int) -> int {
    if v < hi {
        v
    } else {
        hi
    }
}

/// The clipboard table that yanking `r` from `t` stages: for the header, a
/// single column and a single row that both hold the column name; else the
/// rectangle, cut to what exists of the table.
pub open spec fn yanked(t: TableModel, r: Rect) -> TableModel {
    if r.start_y == 0 {
        let h = header_name(t, r.start_x as nat);
        TableModel { columns: seq![h], rows: seq![seq![h]] }
    } else {
        t.select(
            capped(r.start_x - 1, t.columns.len() as int),
            capped(r.end_x - 1, t.columns.len() as int),
            capped(r.start_y - 1, t.rows.len() as int),
            capped(r.end_y - 1, t.rows.len() as int),
        )
    }
}

fn cap(v: usize, hi: usize) -> (r: usize)
    ensures
        r == capped(v as int, hi as int),
{
    if v < hi {
        v
    } else {
        hi
    }
}

/// Replaces the clipboard table with what `r` selects of `table` (see
/// `yanked`).
pub fn yank(r: Rect, table: &Table, clipboard: &mut Table)
    requires
        table@.wf(),
        r.wf(),
    ensures
        final(clipboard)@ == yanked(table@, r),
        final(clipboard)@.wf(),
{
    if r.start_y == 0 {
        let column_name = resolve_header_name(table, r.start_x);
        let mut staged = Table::new();
        let created = staged.create_column(column_name.clone());
        assert(created is Ok);
        let ghost h = column_name@;
        let ghost empty_rows = staged@.rows;
        assert(empty_rows =~= Seq::<Seq<Seq<char>>>::empty());
        let mut row: Vec<String> = Vec::new();
        row.push(column_name);
        assert(row.deep_view() =~= seq![h]);
        staged.push_row(row);
        proof {
            assert(staged@.columns =~= seq![h]);
            assert(staged@.rows =~= seq![seq![h]]);
        }
        *clipboard = staged;
    } else {
        let cc = table.column_count();
        let rc = table.row_count();
        *clipboard = table.select(
            cap(r.start_x - 1, cc),
            cap(r.end_x - 1, cc),
            cap(r.start_y - 1, rc),
            cap(r.end_y - 1, rc),
        );
    }
}

/// The cells of a row joined by tabs.
pub open spec fn row_text(row: Seq<Seq<char>>) -> Seq<char>
    decreases row.len(),
{
    if row.len() == 0 {
        Seq::empty()
    } else if row.len() == 1 {
        row[0]
    } else {
        row_text(row.drop_last()) + seq!['\t'] + row.last()
    }
}

/// The rows joined by line feeds, each as `row_text`.
pub open spec fn rows_text(rows: Seq<Seq<Seq<char>>>) -> Seq<char>
    decreases rows.len(),
{
    if rows.len() == 0 {
        Seq::empty()
    } else if rows.len() == 1 {
        row_text(rows[0])
    } else {
        rows_text(rows.drop_last()) + seq!['\n'] + row_text(rows.last())
    }
}

fn push_string(out: &mut Vec<char>, s: &String)
    ensures
        final(out)@ == old(out)@ + s@,
{
    let chars = crate::text::chars_of(s.as_str());
    let mut i: usize = 0;
    while i < chars.len()
        invariant
            i <= chars@.len(),
            out@ == old(out)@ + chars@.subrange(0, i as int),
        decreases chars.len() - i,
    {
        out.push(chars[i]);
        i += 1;
    }
    assert(chars@.subrange(0, chars@.len() as int) =~= s@);
}

/// The clipboard table as text for the system clipboard: cells separated by
/// tabs, rows by line feeds.
pub fn clipboard_text(clipboard: &Table) -> (r: String)
    requires
        clipboard@.wf(),
    ensures
        r@ == rows_text(clipboard@.rows),
{
    let mut out: Vec<char> = Vec::new();
    let mut y: usize = 0;
    let rc = clipboard.row_count();
    while y < rc
        invariant
            rc == clipboard@.rows.len(),
            y <= rc,
            out@ == rows_text(clipboard@.rows.subrange(0, y as int)),
        decreases rc - y,
    {
        let row = clipboard.row(y);
        let ghost before = out@;
        if y > 0 {
            out.push('\n');
        }
        let ghost start = out@;
        let mut x: usize = 0;
        while x < row.len()
            invariant
                x <= row@.len(),
                out@ == start + row_text(row.deep_view().subrange(0, x as int)),
            decreases row.len() - x,
        {
            let ghost b = out@;
            if x > 0 {
                out.push('\t');
            }
            push_string(&mut out, &row[x]);
            proof {
                let sub = row.deep_view().subrange(0, x + 1);
                assert(sub.drop_last() =~= row.deep_view().subrange(0, x as int));
                assert(sub.last() == row[x as int]@);
                if x == 0 {
                    assert(row_text(row.deep_view().subrange(0, 0)) =~= Seq::<char>::empty());
                    assert(out@ =~= start + row_text(sub));
                } else {
                    assert(out@ =~= start + row_text(sub));
                }
            }
            x += 1;
        }
        proof {
            assert(row.deep_view().subrange(0, row@.len() as int) =~= row.deep_view());
            let sub = clipboard@.rows.subrange(0, y + 1);
            assert(sub.drop_last() =~= clipboard@.rows.subrange(0, y as int));
            assert(sub.last() == clipboard@.rows[y as int]);
            if y == 0 {
                assert(before =~= Seq::<char>::empty());
                assert(out@ =~= rows_text(sub));
            } else {
                assert(out@ =~= rows_text(sub));
            }
        }
        y += 1;
    }
    assert(clipboard@.rows.subrange(0, rc as int) =~= clipboard@.rows);
    string_from_chars(&out)
}

/// Whether the clipboard table holds at least one cell.
pub open spec fn has_any_cell(c: TableModel) -> bool {
    c.columns.len() > 0 && c.rows.len() > 0
}

/// A paste at the header band that renames a column: always for Replace,
/// and for Before and After when the clipboard holds a single cell.
pub open spec fn pastes_header(c: TableModel, pos: Pos, command: Command) -> bool {
    pos.y == 0 && (command == Command::PasteReplace || (c.columns.len() == 1 && c.rows.len() == 1))
}

/// A paste that inserts columns: Before or After, not a rename, with the
/// cursor on the header band, or with a single clipboard column of several
/// rows going into a table of more than one column.
pub open spec fn pastes_columns(t: TableModel, c: TableModel, pos: Pos, command: Command) -> bool {
    &&& command != Command::PasteReplace
    &&& !pastes_header(c, pos, command)
    &&& (pos.y == 0 || (t.columns.len() > 1 && c.columns.len() == 1 && c.rows.len() > 1))
}

/// One for After, zero otherwise.
pub open spec fn after_offset(command: Command) -> int {
    if command == Command::PasteAfter {
        1
    } else {
        0
    }
}

/// Column `x` (1-based) of `t`, created if missing, renamed to `v`, or to
/// the copy name of `v` that avoids all column names when `v` is taken.
pub open spec fn renamed_header(t: TableModel, x: nat, v: Seq<char>) -> TableModel {
    let t1 = extended(t, x, 0);
    let name = if t1.columns.contains(v) {
        copy_name_of(v, t1.columns)
    } else {
        v
    };
    t1.with_column_name(x - 1, name)
}

/// `t` grown to cover `pos`, with the cell there set to `v`.
pub open spec fn replaced_cell(t: TableModel, pos: Pos, v: Seq<char>) -> TableModel {
    extended(t, pos.x as nat, pos.y as nat).with_cell(pos.x - 1, pos.y - 1, v)
}

/// The names the first `n` clipboard columns take when pasted beside
/// `table`: a name that `table` already uses becomes its copy name avoiding
/// the clipboard's names, the table's, and the names chosen before it.
pub open spec fn fresh_column_names(clip: Seq<Seq<char>>, table: Seq<Seq<char>>, n: nat) -> Seq<
    Seq<char>,
>
    decreases n,
{
    if n == 0 {
        Seq::empty()
    } else {
        let prev = fresh_column_names(clip, table, (n - 1) as nat);
        let name = clip[n - 1];
        prev.push(
            if table.contains(name) {
                copy_name_of(name, clip + table + prev)
            } else {
                name
            },
        )
    }
}

/// Row insertion: the table, grown to the insertion row if the cursor lies
/// below it, and both tables grown to the same columns; the clipboard's rows
/// go in before row `y - 1`, or `y` for After.
pub open spec fn rows_pasted(t: TableModel, c: TableModel, pos: Pos, command: Command) -> (
    TableModel,
    TableModel,
) {
    let at = pos.y - 1 + after_offset(command);
    let t1 = if pos.y > t.rows.len() {
        extended(t, 0, at as nat)
    } else {
        t
    };
    let t2 = extended(t1, c.columns.len(), 0);
    let c1 = extended(c, t.columns.len(), 0);
    (t2.with_rows_at(at, c1), c1)
}

/// Column insertion: both tables grown to the same rows (the table also to
/// the insertion column), clipboard columns renamed by
/// `fresh_column_names`, and inserted before column `x - 1`, or `x` for
/// After.
pub open spec fn columns_pasted(t: TableModel, c: TableModel, pos: Pos, command: Command) -> (
    TableModel,
    TableModel,
) {
    let at = pos.x - 1 + after_offset(command);
    let t1 = extended(t, at as nat, c.rows.len());
    let c1 = extended(c, 0, t.rows.len());
    let c2 = TableModel {
        columns: fresh_column_names(c1.columns, t1.columns, c1.columns.len()),
        rows: c1.rows,
    };
    (t1.with_columns_at(at, c2), c2)
}

/// The table, clipboard table and cursor after pasting with `command`. A
/// clipboard without a cell changes nothing where a cell is needed (a
/// header rename, Replace). Replace on a data row overwrites one cell with
/// the clipboard's first cell; row and column insertion run for any
/// clipboard, also one without rows or without columns; After moves the
/// cursor one step along the inserted axis.
pub open spec fn paste_result(t: TableModel, c: TableModel, pos: Pos, command: Command) -> (
    TableModel,
    TableModel,
    Pos,
) {
    if pastes_header(c, pos, command) {
        if has_any_cell(c) {
            (renamed_header(t, pos.x as nat, c.cell(0, 0)), c, pos)
        } else {
            (t, c, pos)
        }
    } else if command == Command::PasteReplace {
        if has_any_cell(c) {
            (replaced_cell(t, pos, c.cell(0, 0)), c, pos)
        } else {
            (t, c, pos)
        }
    } else if pastes_columns(t, c, pos, command) {
        let (t2, c2) = columns_pasted(t, c, pos, command);
        (
            t2,
            c2,
            if command == Command::PasteAfter {
                Pos { x: clamp_index(pos.x + 1, 1), y: pos.y }
            } else {
                pos
            },
        )
    } else {
        let (t2, c2) = rows_pasted(t, c, pos, command);
        (
            t2,
            c2,
            if command == Command::PasteAfter {
                Pos { x: pos.x, y: clamp_index(pos.y + 1, 0) }
            } else {
                pos
            },
        )
    }
}

fn paste_header(table: &mut Table, x: usize, value: String)
    requires
        old(table)@.wf(),
        x >= 1,
    ensures
        final(table)@ == renamed_header(old(table)@, x as nat, value@),
        final(table)@.wf(),
{
    extend_table(table, x, 0);
    let names = table.column_names();
    let name = if contains_name(&names, &value) {
        generate_nice_copy_name(value.as_str(), names)
    } else {
        value
    };
    let r = table.rename_column(x - 1, name);
    assert(r is Ok);
}

fn paste_rows(table: &mut Table, clipboard: &mut Table, pos: Pos, command: Command)
    requires
        old(table)@.wf(),
        old(clipboard)@.wf(),
        pos.y >= 1,
    ensures
        (final(table)@, final(clipboard)@) == rows_pasted(old(table)@, old(clipboard)@, pos, command),
        final(table)@.wf(),
        final(clipboard)@.wf(),
{
    let after: usize = if command == Command::PasteAfter {
        1
    } else {
        0
    };
    let at = pos.y - 1 + after;
    let table_column_count = table.column_count();
    let clipboard_column_count = clipboard.column_count();
    if pos.y > table.row_count() {
        extend_table(table, 0, at);
    }
    extend_table(table, clipboard_column_count, 0);
    extend_table(clipboard, table_column_count, 0);
    table.insert_rows_at(clipboard, at);
}

fn paste_columns(table: &mut Table, clipboard: &mut Table, pos: Pos, command: Command)
    requires
        old(table)@.wf(),
        old(clipboard)@.wf(),
        pos.x >= 1,
    ensures
        (final(table)@, final(clipboard)@) == columns_pasted(old(table)@, old(clipboard)@, pos, command),
        final(table)@.wf(),
        final(clipboard)@.wf(),
{
    let after: usize = if command == Command::PasteAfter {
        1
    } else {
        0
    };
    let at = pos.x - 1 + after;
    let table_row_count = table.row_count();
    let clipboard_row_count = clipboard.row_count();
    extend_table(table, at, clipboard_row_count);
    extend_table(clipboard, 0, table_row_count);
    let table_columns = table.column_names();
    let clipboard_columns = clipboard.column_names();
    let ghost tc = table_columns.deep_view();
    let ghost cc = clipboard_columns.deep_view();
    let mut new_names: Vec<String> = Vec::new();
    let mut i: usize = 0;
    while i < clipboard_columns.len()
        invariant
            tc == table_columns.deep_view(),
            cc == clipboard_columns.deep_view(),
            cc.no_duplicates(),
            i <= cc.len(),
            new_names@.len() == i,
            new_names.deep_view() == fresh_column_names(cc, tc, i as nat),
            new_names.deep_view().no_duplicates(),
            forall|k: int| 0 <= k < i ==> !tc.contains(#[trigger] new_names.deep_view()[k]),
            forall|k: int|
                0 <= k < i ==> #[trigger] new_names.deep_view()[k] == cc[k] || !cc.contains(
                    new_names.deep_view()[k],
                ),
        decreases clipboard_columns.len() - i,
    {
        let ghost prev = new_names.deep_view();
        let fresh = if contains_name(&table_columns, &clipboard_columns[i]) {
            let mut check = copy_strings(&clipboard_columns);
            append_strings(&mut check, &table_columns);
            append_strings(&mut check, &new_names);
            generate_nice_copy_name(clipboard_columns[i].as_str(), check)
        } else {
            clipboard_columns[i].clone()
        };
        proof {
            assert(fresh_column_names(cc, tc, (i + 1) as nat) == prev.push(fresh@));
            if !tc.contains(cc[i as int]) {
                assert forall|k: int| 0 <= k < i implies prev[k] != fresh@ by {
                    if prev[k] == cc[k] {
                        assert(cc[k] != cc[i as int]);
                    }
                }
            } else {
                assert forall|k: int| 0 <= k < i implies prev[k] != fresh@ by {
                    assert((cc + tc + prev)[cc.len() + tc.len() + k] == prev[k]);
                }
                assert forall|k: int| 0 <= k < tc.len() implies tc[k] != fresh@ by {
                    assert((cc + tc + prev)[cc.len() + k] == tc[k]);
                }
                assert forall|k: int| 0 <= k < cc.len() implies cc[k] != fresh@ by {
                    assert((cc + tc + prev)[k] == cc[k]);
                }
            }
        }
        let ghost fv = fresh@;
        new_names.push(fresh);
        proof {
            assert(new_names.deep_view() =~= prev.push(fv));
        }
        i += 1;
    }
    clipboard.set_column_names(new_names);
    let r = table.insert_columns_at(clipboard, at);
    assert(r is Ok);
}

/// Pastes the clipboard table at the cursor (see `paste_result`).
pub fn paste(table: &mut Table, clipboard: &mut Table, cursor: &mut Pos, command: Command)
    requires
        old(table)@.wf(),
        old(clipboard)@.wf(),
        old(cursor).wf(),
    ensures
        (final(table)@, final(clipboard)@, *final(cursor)) == paste_result(
            old(table)@,
            old(clipboard)@,
            *old(cursor),
            command,
        ),
        final(table)@.wf(),
        final(table)@.columns.no_duplicates(),
        final(clipboard)@.wf(),
        final(cursor).wf(),
{
    let clip_rows_num = clipboard.row_count();
    let clip_cols_num = clipboard.column_count();
    let replace = command == Command::PasteReplace;
    let after = command == Command::PasteAfter;
    if cursor.y == 0 && (replace || (clip_cols_num == 1 && clip_rows_num == 1)) {
        if clip_rows_num > 0 && clip_cols_num > 0 {
            let value = clipboard.cell(0, 0);
            paste_header(table, cursor.x, value);
        }
    } else if replace {
        if clip_rows_num > 0 && clip_cols_num > 0 {
            let value = clipboard.cell(0, 0);
            extend_table(table, cursor.x, cursor.y);
            table.set_cell(cursor.x - 1, cursor.y - 1, value);
        }
    } else if cursor.y == 0 || (table.column_count() > 1 && clip_cols_num == 1 && clip_rows_num > 1) {
        paste_columns(table, clipboard, *cursor, command);
        if after && cursor.x < usize::MAX {
            cursor.x += 1;
        }
    } else {
        paste_rows(table, clipboard, *cursor, command);
        if after && cursor.y < usize::MAX {
            cursor.y += 1;
        }
    }
}

/// Yanking an existing cell and pasting it with Replace on a data row of any
/// table, such as the source changed since the yank, writes the yanked
/// text there.
pub proof fn lemma_yank_replace_round_trip(src: TableModel, x: usize, y: usize, dst: TableModel, pos: Pos)
    requires
        src.wf(),
        dst.wf(),
        1 <= x < usize::MAX,
        1 <= y < usize::MAX,
        src.has_cell(x - 1, y - 1),
        pos.wf(),
        pos.y >= 1,
    ensures
        ({
            let clip = yanked(src, Rect { start_x: x, end_x: (x + 1) as usize, start_y: y, end_y: (y + 1) as usize });
            let (t2, clip2, cursor2) = paste_result(dst, clip, pos, Command::PasteReplace);
            &&& t2.has_cell(pos.x - 1, pos.y - 1)
            &&& t2.cell(pos.x - 1, pos.y - 1) == src.cell(x - 1, y - 1)
        }),
{
    let clip = yanked(src, Rect { start_x: x, end_x: (x + 1) as usize, start_y: y, end_y: (y + 1) as usize });
    assert(src.rows[y - 1].len() == src.columns.len());
    assert(clip.columns.len() == 1);
    assert(clip.rows.len() == 1);
    assert(clip.cell(0, 0) == src.cell(x - 1, y - 1));
    lemma_extension_exists(dst, pos.x as nat, pos.y as nat);
    let t1 = extended(dst, pos.x as nat, pos.y as nat);
    assert(t1.rows[pos.y - 1].len() == t1.columns.len());
}

/// A header-renaming paste leaves the column names distinct, and the
/// renamed column carries the pasted name, or its copy name when the name
/// was taken.
pub proof fn lemma_header_paste_distinct(t: TableModel, x: nat, v: Seq<char>)
    requires
        t.wf(),
        x >= 1,
    ensures
        renamed_header(t, x, v).columns.no_duplicates(),
        renamed_header(t, x, v).columns.len() >= x,
        ({
            let t1 = extended(t, x, 0);
            renamed_header(t, x, v).columns[x - 1] == if t1.columns.contains(v) {
                copy_name_of(v, t1.columns)
            } else {
                v
            }
        }),
{
    lemma_extension_exists(t, x, 0);
    let t1 = extended(t, x, 0);
    lemma_copy_name_exists(v, t1.columns);
    let name = if t1.columns.contains(v) {
        copy_name_of(v, t1.columns)
    } else {
        v
    };
    assert(!t1.columns.contains(name));
    let cs = renamed_header(t, x, v).columns;
    assert forall|i: int, j: int| 0 <= i < j < cs.len() implies cs[i] != cs[j] by {
        if i == x - 1 {
            assert(t1.columns.contains(cs[j]));
        } else if j == x - 1 {
            assert(t1.columns.contains(cs[i]));
        }
    }
}

} // verus!
