//! What `--long` adds to a listing: three more columns, so the long table
//! and the short one never coincide.
use vstd::prelude::*;
use crate::text::{trim_end, is_space};
use crate::skill::model::EntryView;
use crate::skill::format::{
    entry_table, table_headers, table_rows, table_line, row_cells, column_width, padded, column_space, join_lines,
    entry_row,
};
use crate::skill::manager::{listing, OutputView};

verus! {

/// No line break in `s`.
pub open spec fn no_newline(s: Seq<char>) -> bool {
    forall|q: int| 0 <= q < s.len() ==> #[trigger] s[q] != '\n'
}

/// Trimming the end keeps a prefix.
proof fn lemma_trim_end_prefix(s: Seq<char>)
    ensures
        trim_end(s).len() <= s.len(),
        trim_end(s) == s.take(trim_end(s).len() as int),
    decreases s.len(),
{
    if s.len() > 0 && is_space(s.last()) {
        lemma_trim_end_prefix(s.drop_last());
        assert(s.drop_last().take(trim_end(s).len() as int) =~= s.take(trim_end(s).len() as int));
    } else {
        assert(s.take(s.len() as int) =~= s);
    }
}

/// Trimming the end stops at the last character that is not white space.
proof fn lemma_trim_end_keeps(s: Seq<char>, k: int)
    requires
        0 <= k < s.len(),
        !is_space(s[k]),
    ensures
        trim_end(s).len() > k,
    decreases s.len(),
{
    if is_space(s.last()) {
        assert(k < s.len() - 1);
        assert(s.drop_last()[k] == s[k]);
        lemma_trim_end_keeps(s.drop_last(), k);
    }
}

/// The first of several joined lines runs up to the first line break.
proof fn lemma_join_first_line(lines: Seq<Seq<char>>)
    requires
        lines.len() >= 1,
    ensures
        join_lines(lines).len() >= lines[0].len(),
        join_lines(lines).take(lines[0].len() as int) == lines[0],
        join_lines(lines).len() > lines[0].len() ==> join_lines(lines)[lines[0].len() as int] == '\n',
    decreases lines.len(),
{
    if lines.len() > 1 {
        let t = lines.drop_last();
        lemma_join_first_line(t);
        assert(t[0] == lines[0]);
        let j = join_lines(t);
        assert(join_lines(lines) == j + seq!['\n'] + lines.last());
        assert((j + seq!['\n'] + lines.last()).take(lines[0].len() as int) =~= j.take(lines[0].len() as int));
        if j.len() > lines[0].len() {
            assert((j + seq!['\n'] + lines.last())[lines[0].len() as int] == j[lines[0].len() as int]);
        }
    } else {
        assert(lines[0].take(lines[0].len() as int) =~= lines[0]);
    }
}

/// Columns that hold the same cells are equally wide.
proof fn lemma_column_width_same(r1: Seq<Seq<Seq<char>>>, r2: Seq<Seq<Seq<char>>>, j: int)
    requires
        r1.len() == r2.len(),
        forall|r: int| 0 <= r < r1.len() ==> #[trigger] r1[r][j] == r2[r][j],
    ensures
        column_width(r1, j) == column_width(r2, j),
    decreases r1.len(),
{
    if r1.len() > 0 {
        assert forall|r: int| 0 <= r < r1.drop_last().len() implies #[trigger] r1.drop_last()[r][j] == r2.drop_last()[r][j] by {
            assert(r1.drop_last()[r] == r1[r] && r2.drop_last()[r] == r2[r]);
        }
        lemma_column_width_same(r1.drop_last(), r2.drop_last(), j);
        assert(r1.last()[j] == r2.last()[j]);
    }
}

/// Rows that begin with the same cells, in equally wide columns, begin with
/// the same text.
proof fn lemma_row_cells_same(
    r1: Seq<Seq<Seq<char>>>,
    row1: Seq<Seq<char>>,
    r2: Seq<Seq<Seq<char>>>,
    row2: Seq<Seq<char>>,
    n: int,
)
    requires
        0 <= n,
        forall|j: int| 0 <= j < n ==> #[trigger] row1[j] == row2[j] && column_width(r1, j) == column_width(r2, j),
    ensures
        row_cells(r1, row1, n) == row_cells(r2, row2, n),
    decreases n,
{
    if n > 0 {
        lemma_row_cells_same(r1, row1, r2, row2, n - 1);
        assert(row1[n - 1] == row2[n - 1]);
    }
}

/// Cells without line breaks, padded with spaces, hold no line break.
proof fn lemma_row_cells_no_newline(rows: Seq<Seq<Seq<char>>>, row: Seq<Seq<char>>, n: int)
    requires
        0 <= n,
        forall|j: int| 0 <= j < n ==> no_newline(#[trigger] row[j]),
    ensures
        no_newline(row_cells(rows, row, n)),
    decreases n,
{
    if n > 0 {
        lemma_row_cells_no_newline(rows, row, n - 1);
        let a = row_cells(rows, row, n - 1);
        let p = padded(row[n - 1], column_space(column_width(rows, n - 1)));
        assert(no_newline(row[n - 1]));
        assert forall|q: int| 0 <= q < (a + p).len() implies #[trigger] (a + p)[q] != '\n' by {
            if q < a.len() {
                assert((a + p)[q] == a[q]);
            } else if q < a.len() + row[n - 1].len() {
                assert((a + p)[q] == row[n - 1][q - a.len()]);
            } else {
                assert((a + p)[q] == ' ');
            }
        }
    }
}

proof fn lemma_headers_no_newline()
    ensures
        forall|j: int| 0 <= j < table_headers(true).len() ==> no_newline(#[trigger] table_headers(true)[j]),
        table_headers(true).len() == 9,
        table_headers(false).len() == 6,
        table_headers(true).take(6) == table_headers(false),
        table_headers(true)[6].len() > 0,
        table_headers(true)[6][0] == 'S',
{
    reveal_strlit("NAME");
    reveal_strlit("DIR_NAME");
    reveal_strlit("INSTANCE_ID");
    reveal_strlit("ENABLED");
    reveal_strlit("SOURCE");
    reveal_strlit("PATH");
    reveal_strlit("SKILL_ID");
    reveal_strlit("CREATED_AT");
    reveal_strlit("UPDATED_AT");
    let h = table_headers(true);
    assert(h.take(6) =~= table_headers(false));
    assert forall|j: int| 0 <= j < h.len() implies no_newline(#[trigger] h[j]) by {
        if j == 0 { assert(no_newline("NAME"@)); }
        else if j == 1 { assert(no_newline("DIR_NAME"@)); }
        else if j == 2 { assert(no_newline("INSTANCE_ID"@)); }
        else if j == 3 { assert(no_newline("ENABLED"@)); }
        else if j == 4 { assert(no_newline("SOURCE"@)); }
        else if j == 5 { assert(no_newline("PATH"@)); }
        else if j == 6 { assert(no_newline("SKILL_ID"@)); }
        else if j == 7 { assert(no_newline("CREATED_AT"@)); }
        else { assert(no_newline("UPDATED_AT"@)); }
    }
}

/// `--long` lists fuller fields: the long table's header holds the six
/// columns of the short one and three more (the skill id and the copy's
/// creation and update times), so for every list of entries the long
/// listing differs from the short one.
pub proof fn long_listing_has_more_columns(entries: Seq<EntryView>)
    ensures
        table_headers(true).len() == 9,
        table_headers(false).len() == 6,
        table_headers(true).take(6) == table_headers(false),
        entry_table(entries, true) != entry_table(entries, false),
        listing(entries, false, true) != listing(entries, false, false),
{
    lemma_headers_no_newline();
    let rl = table_rows(entries, true);
    let rs = table_rows(entries, false);
    let hl = table_headers(true);
    let hs = table_headers(false);
    assert(rl[0] == hl && rs[0] == hs);
    assert forall|j: int| 0 <= j < 6 implies #[trigger] hl[j] == hs[j] && column_width(rl, j) == column_width(rs, j) by {
        assert(hl[j] == hl.take(6)[j]);
        assert forall|r: int| 0 <= r < rl.len() implies #[trigger] rl[r][j] == rs[r][j] by {
            if r > 0 {
                let e = entries[r - 1];
                assert(rl[r] == entry_row(e, true));
                assert(rs[r] == entry_row(e, false));
            }
        }
        lemma_column_width_same(rl, rs, j);
    }
    lemma_row_cells_same(rl, hl, rs, hs, 6);
    let p = row_cells(rs, hs, 6);
    let x = row_cells(rl, hl, 9);
    let x7 = row_cells(rl, hl, 7);
    assert(x7 == p + padded(hl[6], column_space(column_width(rl, 6))));
    let x8 = row_cells(rl, hl, 8);
    assert(x8 == x7 + padded(hl[7], column_space(column_width(rl, 7))));
    assert(x == x8 + padded(hl[8], column_space(column_width(rl, 8))));
    let pad6 = padded(hl[6], column_space(column_width(rl, 6)));
    assert(hl[6].len() > 0);
    assert(pad6[0] == hl[6][0]);
    assert(x7[p.len() as int] == 'S');
    assert(x8[p.len() as int] == 'S');
    assert(x[p.len() as int] == 'S');
    assert(!is_space('S'));
    lemma_trim_end_keeps(x, p.len() as int);
    lemma_trim_end_prefix(x);
    lemma_trim_end_prefix(p);
    lemma_row_cells_no_newline(rl, hl, 9);
    let long_line = table_line(rl, hl);
    let short_line = table_line(rs, hs);
    assert(long_line == trim_end(x));
    assert(short_line == trim_end(p));
    let ll = rl.map_values(|r: Seq<Seq<char>>| table_line(rl, r));
    let ls = rs.map_values(|r: Seq<Seq<char>>| table_line(rs, r));
    assert(ll[0] == long_line);
    assert(ls[0] == short_line);
    lemma_join_first_line(ll);
    lemma_join_first_line(ls);
    let a = short_line.len() as int;
    if entry_table(entries, true) == entry_table(entries, false) {
        let t = entry_table(entries, true);
        assert(t == join_lines(ll));
        assert(t == join_lines(ls));
        assert(t.len() > a);
        assert(t[a] == '\n');
        assert(t.take(long_line.len() as int) == long_line);
        assert(long_line[a] == t[a]);
        assert(long_line[a] == x[a]);
    }
}

} // verus!
