//! SQL queries: the `LIMIT` option, the columns of a result, and the
//! ClickHouse-style box rendering of result rows.
use vstd::prelude::*;

use crate::text::{
    decimal, decimal_string, lemma_decimal_len_bound, parse_u64, parse_unsigned_spec, first_match, join_strings, join_with, lemma_first_match, owned, pad_left_spec,
    position_of, push_decimal, push_padded_left, push_spaces, push_str, spaces, trim,
    trim_end_char, trim_end_char_spec, trim_spec, views,
};

verus! {

/// The SQL sent for a query: with `--limit n`, the trimmed text without
/// trailing semicolons followed by ` LIMIT n`.
pub open spec fn limited_sql_spec(sql: Seq<char>, limit: Option<u64>) -> Seq<char> {
    match limit {
        Some(n) => trim_end_char_spec(trim_spec(sql), ';') + " LIMIT "@ + decimal(n as nat),
        None => sql,
    }
}

/// Applies `--limit` to a query.
pub fn apply_limit(sql: &str, limit: Option<u64>) -> (r: String)
    ensures
        r@ == limited_sql_spec(sql@, limit),
{
    match limit {
        Some(n) => {
            let t = trim(sql);
            let mut s = trim_end_char(t.as_str(), ';');
            push_str(&mut s, " LIMIT ");
            push_decimal(&mut s, n);
            s
        },
        None => owned(sql),
    }
}

/// Whether `name` occurs in `names`.
pub open spec fn occurs(names: Seq<Seq<char>>, name: Seq<char>) -> bool {
    exists|i: int| 0 <= i < names.len() && names[i] == name
}

/// `columns` followed by the keys of `keys` not seen yet, in order.
pub open spec fn add_new_keys(columns: Seq<Seq<char>>, keys: Seq<Seq<char>>) -> Seq<Seq<char>>
    decreases keys.len(),
{
    if keys.len() == 0 {
        columns
    } else {
        let c = add_new_keys(columns, keys.drop_last());
        if occurs(c, keys.last()) {
            c
        } else {
            c.push(keys.last())
        }
    }
}

/// The columns of a result: the declared (meta) columns, then every row key
/// not seen before, row by row.
pub open spec fn merged_columns(meta: Seq<Seq<char>>, rows: Seq<Seq<Seq<char>>>) -> Seq<Seq<char>>
    decreases rows.len(),
{
    if rows.len() == 0 {
        meta
    } else {
        add_new_keys(merged_columns(meta, rows.drop_last()), rows.last())
    }
}

/// The key lists of the rows, as views.
pub open spec fn row_key_views(rows: Seq<Vec<String>>) -> Seq<Seq<Seq<char>>> {
    rows.map_values(|r: Vec<String>| views(r@))
}

fn contains_name(names: &Vec<String>, name: &str) -> (r: bool)
    ensures
        r == occurs(views(names@), name@),
{
    let p = position_of(names, name);
    proof {
        lemma_first_match(views(names@), name@);
    }
    p.is_some()
}

/// The columns of a query result: the declared columns in order, then each key
/// of each row that is not a column yet.
pub fn merge_columns(meta_names: &Vec<String>, row_keys: &Vec<Vec<String>>) -> (r: Vec<String>)
    ensures
        views(r@) == merged_columns(views(meta_names@), row_key_views(row_keys@)),
{
    let mut columns: Vec<String> = meta_names.clone();
    proof {
        assert(views(columns@) =~= views(meta_names@));
    }
    let mut i: usize = 0;
    while i < row_keys.len()
        invariant
            i <= row_keys.len(),
            views(columns@) == merged_columns(views(meta_names@), row_key_views(row_keys@.take(i as int))),
        decreases row_keys.len() - i,
    {
        let keys = &row_keys[i];
        let ghost before = views(columns@);
        let mut j: usize = 0;
        while j < keys.len()
            invariant
                j <= keys.len(),
                views(columns@) == add_new_keys(before, views(keys@).take(j as int)),
            decreases keys.len() - j,
        {
            let k = &keys[j];
            proof {
                assert(views(keys@).take(j + 1).drop_last() =~= views(keys@).take(j as int));
                assert(views(keys@).take(j + 1).last() == k@);
            }
            if !contains_name(&columns, k.as_str()) {
                let ghost prev = columns@;
                columns.push(k.clone());
                proof {
                    assert(views(columns@) =~= views(prev).push(k@));
                }
            }
            j = j + 1;
        }
        proof {
            assert(views(keys@).take(keys.len() as int) =~= views(keys@));
            let t = row_key_views(row_keys@.take(i + 1));
            assert(t.drop_last() =~= row_key_views(row_keys@.take(i as int)));
            assert(t.last() == views(row_keys@[i as int]@));
        }
        i = i + 1;
    }
    proof {
        assert(row_keys@.take(row_keys.len() as int) =~= row_keys@);
    }
    columns
}

/// `n` copies of `s`.
pub open spec fn repeat_spec(s: Seq<char>, n: nat) -> Seq<char>
    decreases n,
{
    if n == 0 {
        seq![]
    } else {
        repeat_spec(s, (n - 1) as nat) + s
    }
}

/// Appends `n` copies of `t`.
fn push_repeat(s: &mut String, t: &str, n: usize)
    ensures
        final(s)@ == old(s)@ + repeat_spec(t@, n as nat),
{
    let mut i: usize = 0;
    while i < n
        invariant
            i <= n,
            s@ == old(s)@ + repeat_spec(t@, i as nat),
        decreases n - i,
    {
        push_str(s, t);
        i = i + 1;
    }
}

/// The larger of two numbers.
pub open spec fn max_nat(a: nat, b: nat) -> nat {
    if a < b {
        b
    } else {
        a
    }
}

/// The width of column `i`: its header and every cell in it, in characters.
pub open spec fn column_width(columns: Seq<Seq<char>>, rows: Seq<Seq<Seq<char>>>, i: int) -> nat
    decreases rows.len(),
{
    if rows.len() == 0 {
        columns[i].len()
    } else {
        let w = column_width(columns, rows.drop_last(), i);
        if i < rows.last().len() {
            max_nat(w, rows.last()[i].len())
        } else {
            w
        }
    }
}

/// The widths of all columns.
pub open spec fn column_widths(columns: Seq<Seq<char>>, rows: Seq<Seq<Seq<char>>>) -> Seq<nat> {
    Seq::new(columns.len(), |i: int| column_width(columns, rows, i))
}

/// The rows of cells, as views.
pub open spec fn cell_views(rows: Seq<Vec<String>>) -> Seq<Seq<Seq<char>>> {
    rows.map_values(|r: Vec<String>| views(r@))
}

/// The header segment of column `i`: `─<name>` then rule up to the width.
pub open spec fn header_segment(name: Seq<char>, width: nat) -> Seq<char> {
    "─"@ + name + repeat_spec("─"@, (width + 1 - name.len()) as nat)
}

/// One cell, padded to the width with a space on each side.
pub open spec fn cell_segment(cell: Seq<char>, width: nat) -> Seq<char> {
    " "@ + cell + spaces(if width >= cell.len() {
        (width - cell.len()) as nat
    } else {
        0
    }) + " "@
}

/// The width of the row numbers: the digits of the row count (at least 1).
pub open spec fn row_number_width(count: nat) -> nat {
    decimal(if count < 1 {
        1
    } else {
        count
    }).len()
}

/// The plain prefix of row `idx` (0-based): its number right-aligned, then `. `.
pub open spec fn row_prefix(idx: nat, number_width: nat) -> Seq<char> {
    pad_left_spec(decimal(idx + 1), number_width) + ". "@
}

/// The lines of the rendered table, given the prefix of each row.
pub open spec fn table_lines(
    columns: Seq<Seq<char>>,
    rows: Seq<Seq<Seq<char>>>,
    prefixes: Seq<Seq<char>>,
) -> Seq<Seq<char>> {
    let widths = column_widths(columns, rows);
    let nw = row_number_width(rows.len());
    let gutter = spaces(nw + 2);
    let top = gutter + "┌"@ + join_with(
        Seq::new(columns.len(), |i: int| header_segment(columns[i], widths[i])),
        "┬"@,
    ) + "┐"@;
    let body = Seq::new(
        rows.len(),
        |r: int|
            prefixes[r] + "│"@ + join_with(
                Seq::new(rows[r].len(), |c: int| cell_segment(rows[r][c], widths[c])),
                "│"@,
            ) + "│"@,
    );
    let bottom = gutter + "└"@ + join_with(
        Seq::new(columns.len(), |i: int| repeat_spec("─"@, widths[i] + 2)),
        "┴"@,
    ) + "┘"@;
    seq![top] + body + seq![bottom]
}

/// The plain row prefixes of `count` rows.
pub open spec fn plain_prefixes(count: nat) -> Seq<Seq<char>> {
    Seq::new(count, |r: int| row_prefix(r as nat, row_number_width(count)))
}

/// `text` in the muted gray (color 245) of a 256-color terminal.
pub open spec fn muted_text(text: Seq<char>) -> Seq<char> {
    "\x1b[38;5;245m"@ + text + "\x1b[0m"@
}

/// `console::style(text).color256(245)` rendered with `to_string`: the text
/// between the escape sequence of color 245 and the reset sequence when
/// `console` finds colors enabled for standard output, else the text alone.
/// Which of the two comes back depends on the terminal and the environment.
#[verifier::external_body]
fn muted(text: String) -> (r: String)
    ensures
        r@ == text@ || r@ == muted_text(text@),
{
    console::style(text).color256(245).to_string()
}

/// The column widths, computed over the header and every row.
fn compute_widths(columns: &Vec<String>, rows: &Vec<Vec<String>>) -> (r: Vec<usize>)
    requires
        forall|i: int| 0 <= i < rows.len() ==> #[trigger] rows@[i].len() <= columns.len(),
    ensures
        r.len() == columns.len(),
        forall|i: int| 0 <= i < r.len() ==> r@[i] as nat == column_width(
            views(columns@),
            cell_views(rows@),
            i,
        ),
{
    let mut widths: Vec<usize> = Vec::new();
    let mut c: usize = 0;
    while c < columns.len()
        invariant
            c <= columns.len(),
            widths.len() == c,
            forall|i: int| 0 <= i < c ==> widths@[i] as nat == column_width(
                views(columns@),
                cell_views(rows@.take(0)),
                i,
            ),
        decreases columns.len() - c,
    {
        widths.push(columns[c].as_str().unicode_len());
        c = c + 1;
    }
    let mut r: usize = 0;
    while r < rows.len()
        invariant
            r <= rows.len(),
            widths.len() == columns.len(),
            forall|i: int| 0 <= i < rows.len() ==> #[trigger] rows@[i].len() <= columns.len(),
            forall|i: int| 0 <= i < widths.len() ==> widths@[i] as nat == column_width(
                views(columns@),
                cell_views(rows@.take(r as int)),
                i,
            ),
        decreases rows.len() - r,
    {
        let row = &rows[r];
        let ghost prev = widths@;
        let mut k: usize = 0;
        while k < row.len()
            invariant
                k <= row.len(),
                row.len() <= columns.len(),
                widths.len() == columns.len(),
                prev.len() == columns.len(),
                r < rows.len(),
                *row == rows@[r as int],
                forall|i: int| 0 <= i < prev.len() ==> prev[i] as nat == column_width(
                    views(columns@),
                    cell_views(rows@.take(r as int)),
                    i,
                ),
                forall|i: int| 0 <= i < k ==> widths@[i] as nat == max_nat(
                    prev[i] as nat,
                    row@[i]@.len(),
                ),
                forall|i: int| k <= i < widths.len() ==> widths@[i] == prev[i],
            decreases row.len() - k,
        {
            let n = row[k].as_str().unicode_len();
            if widths[k] < n {
                widths.set(k, n);
            }
            k = k + 1;
        }
        proof {
            let t = cell_views(rows@.take(r + 1));
            assert(t.drop_last() =~= cell_views(rows@.take(r as int)));
            assert(t.last() == views(rows@[r as int]@));
            assert forall|i: int| 0 <= i < widths.len() implies widths@[i] as nat == column_width(
                views(columns@),
                t,
                i,
            ) by {
                assert(t.len() == r + 1);
                assert(t.last().len() == row.len());
                assert(prev[i] as nat == column_width(views(columns@), t.drop_last(), i));
                if i < row.len() {
                    assert(t.last()[i] == row@[i]@);
                    assert(widths@[i] as nat == max_nat(prev[i] as nat, row@[i]@.len()));
                } else {
                    assert(widths@[i] == prev[i]);
                }
            }
        }
        r = r + 1;
    }
    proof {
        assert(rows@.take(rows.len() as int) =~= rows@);
    }
    widths
}

/// Every header and cell is shorter than `usize::MAX - 2` characters (a
/// `String` never comes near that length).
pub open spec fn cells_fit(columns: Seq<Seq<char>>, rows: Seq<Seq<Seq<char>>>) -> bool {
    &&& forall|i: int| 0 <= i < columns.len() ==> #[trigger] columns[i].len() < usize::MAX - 2
    &&& forall|r: int, c: int|
        0 <= r < rows.len() && 0 <= c < rows[r].len() ==> #[trigger] rows[r][c].len() < usize::MAX
            - 2
}

/// Every row has at most as many cells as there are columns.
pub open spec fn rows_within(columns: Seq<Seq<char>>, rows: Seq<Seq<Seq<char>>>) -> bool {
    forall|r: int| 0 <= r < rows.len() ==> #[trigger] rows[r].len() <= columns.len()
}

/// A column is at least as wide as its header and each of its cells, and no
/// wider than the widest of them.
pub proof fn lemma_column_width_bounds(
    columns: Seq<Seq<char>>,
    rows: Seq<Seq<Seq<char>>>,
    i: int,
)
    requires
        0 <= i < columns.len(),
        cells_fit(columns, rows),
    ensures
        columns[i].len() <= column_width(columns, rows, i) < usize::MAX - 2,
        forall|r: int|
            0 <= r < rows.len() && i < rows[r].len() ==> #[trigger] rows[r][i].len()
                <= column_width(columns, rows, i),
    decreases rows.len(),
{
    if rows.len() > 0 {
        let front = rows.drop_last();
        assert(cells_fit(columns, front)) by {
            assert forall|r: int, c: int|
                0 <= r < front.len() && 0 <= c < front[r].len() implies #[trigger] front[r][c].len()
                < usize::MAX - 2 by {
                assert(front[r] == rows[r]);
            }
        }
        lemma_column_width_bounds(columns, front, i);
        assert forall|r: int| 0 <= r < rows.len() && i < rows[r].len() implies #[trigger] rows[r][i].len()
            <= column_width(columns, rows, i) by {
            if r < rows.len() - 1 {
                assert(front[r] == rows[r]);
            }
        }
        if i < rows.last().len() {
            assert(rows.last()[i].len() < usize::MAX - 2);
        }
    }
}

/// The header segments `─<name>─…` of all columns.
fn header_segments(columns: &Vec<String>, widths: &Vec<usize>) -> (r: Vec<String>)
    requires
        widths.len() == columns.len(),
        forall|i: int|
            0 <= i < columns.len() ==> columns@[i]@.len() <= #[trigger] widths@[i] < usize::MAX
                - 2,
    ensures
        views(r@) == Seq::new(
            columns.len() as nat,
            |i: int| header_segment(columns@[i]@, widths@[i] as nat),
        ),
{
    let mut segs: Vec<String> = Vec::new();
    let mut i: usize = 0;
    while i < columns.len()
        invariant
            i <= columns.len(),
            widths.len() == columns.len(),
            forall|k: int|
                0 <= k < columns.len() ==> columns@[k]@.len() <= #[trigger] widths@[k]
                    < usize::MAX - 2,
            views(segs@) == Seq::new(
                i as nat,
                |k: int| header_segment(columns@[k]@, widths@[k] as nat),
            ),
        decreases columns.len() - i,
    {
        let name = columns[i].as_str();
        let n = name.unicode_len();
        let w = widths[i];
        assert(n <= w < usize::MAX - 2);
        let mut seg = owned("─");
        push_str(&mut seg, name);
        push_repeat(&mut seg, "─", w + 1 - n);
        let ghost prev = segs@;
        segs.push(seg);
        proof {
            assert(views(segs@) =~= views(prev).push(seg@));
            assert(views(segs@) =~= Seq::new(
                (i + 1) as nat,
                |k: int| header_segment(columns@[k]@, widths@[k] as nat),
            ));
        }
        i = i + 1;
    }
    segs
}

/// The padded cells of one row.
fn cell_segments(row: &Vec<String>, widths: &Vec<usize>) -> (r: Vec<String>)
    requires
        row.len() <= widths.len(),
    ensures
        views(r@) == Seq::new(row.len() as nat, |c: int| cell_segment(row@[c]@, widths@[c] as nat)),
{
    let mut segs: Vec<String> = Vec::new();
    let mut c: usize = 0;
    while c < row.len()
        invariant
            c <= row.len(),
            row.len() <= widths.len(),
            views(segs@) == Seq::new(
                c as nat,
                |k: int| cell_segment(row@[k]@, widths@[k] as nat),
            ),
        decreases row.len() - c,
    {
        let cell = row[c].as_str();
        let n = cell.unicode_len();
        let pad: usize = if widths[c] >= n {
            widths[c] - n
        } else {
            0
        };
        let mut seg = owned(" ");
        push_str(&mut seg, cell);
        push_spaces(&mut seg, pad);
        push_str(&mut seg, " ");
        let ghost prev = segs@;
        segs.push(seg);
        proof {
            assert(views(segs@) =~= views(prev).push(seg@));
            assert(views(segs@) =~= Seq::new(
                (c + 1) as nat,
                |k: int| cell_segment(row@[k]@, widths@[k] as nat),
            ));
        }
        c = c + 1;
    }
    segs
}

/// The bottom rule segments, two characters wider than each column.
fn rule_segments(widths: &Vec<usize>) -> (r: Vec<String>)
    requires
        forall|i: int| 0 <= i < widths.len() ==> #[trigger] widths@[i] < usize::MAX - 2,
    ensures
        views(r@) == Seq::new(
            widths.len() as nat,
            |i: int| repeat_spec("─"@, (widths@[i] + 2) as nat),
        ),
{
    let mut segs: Vec<String> = Vec::new();
    let mut i: usize = 0;
    while i < widths.len()
        invariant
            i <= widths.len(),
            forall|k: int| 0 <= k < widths.len() ==> #[trigger] widths@[k] < usize::MAX - 2,
            views(segs@) == Seq::new(
                i as nat,
                |k: int| repeat_spec("─"@, (widths@[k] + 2) as nat),
            ),
        decreases widths.len() - i,
    {
        let mut seg = String::new();
        push_repeat(&mut seg, "─", widths[i] + 2);
        let ghost prev = segs@;
        segs.push(seg);
        proof {
            assert(views(segs@) =~= views(prev).push(seg@));
            assert(views(segs@) =~= Seq::new(
                (i + 1) as nat,
                |k: int| repeat_spec("─"@, (widths@[k] + 2) as nat),
            ));
        }
        i = i + 1;
    }
    segs
}

/// The row number prefixes, plain or in the muted style.
fn row_prefixes(count: usize, colorize_muted: bool) -> (r: Vec<String>)
    ensures
        r.len() == count,
        !colorize_muted ==> views(r@) == plain_prefixes(count as nat),
        forall|i: int|
            0 <= i < count ==> #[trigger] r@[i]@ == plain_prefixes(count as nat)[i] || r@[i]@
                == muted_text(plain_prefixes(count as nat)[i]),
{
    let nw = decimal_string(if count < 1 {
        1
    } else {
        count as u64
    }).as_str().unicode_len();
    let mut out: Vec<String> = Vec::new();
    let mut i: usize = 0;
    while i < count
        invariant
            i <= count,
            out.len() == i,
            nw as nat == row_number_width(count as nat),
            !colorize_muted ==> views(out@) == plain_prefixes(count as nat).take(i as int),
            forall|k: int|
                0 <= k < i ==> #[trigger] out@[k]@ == plain_prefixes(count as nat)[k] || out@[k]@
                    == muted_text(plain_prefixes(count as nat)[k]),
        decreases count - i,
    {
        let number = decimal_string(i as u64 + 1);
        let mut plain = String::new();
        push_padded_left(&mut plain, number.as_str(), nw);
        push_str(&mut plain, ". ");
        assert(plain@ == plain_prefixes(count as nat)[i as int]);
        let ghost prev = out@;
        if colorize_muted {
            out.push(muted(plain));
        } else {
            out.push(plain);
            proof {
                assert(views(out@) =~= plain_prefixes(count as nat).take(i + 1));
            }
        }
        i = i + 1;
    }
    proof {
        assert(plain_prefixes(count as nat).take(count as int) =~= plain_prefixes(count as nat));
    }
    out
}

/// The table with the given row prefixes, one line per element of `table_lines`.
fn render_with_prefixes(columns: &Vec<String>, rows: &Vec<Vec<String>>, prefixes: &Vec<String>) -> (r: String)
    requires
        rows_within(views(columns@), cell_views(rows@)),
        cells_fit(views(columns@), cell_views(rows@)),
        prefixes.len() == rows.len(),
    ensures
        r@ == join_with(
            table_lines(views(columns@), cell_views(rows@), views(prefixes@)),
            "\n"@,
        ),
{
    let ghost cols = views(columns@);
    let ghost cells = cell_views(rows@);
    proof {
        assert forall|i: int| 0 <= i < rows.len() implies #[trigger] rows@[i].len() <= columns.len() by {
            assert(cells[i].len() == rows@[i].len());
        }
    }
    let widths = compute_widths(columns, rows);
    proof {
        assert forall|i: int| 0 <= i < columns.len() implies columns@[i]@.len() <= #[trigger] widths@[i]
            < usize::MAX - 2 by {
            lemma_column_width_bounds(cols, cells, i);
        }
    }
    let ghost wn = column_widths(cols, cells);
    assert(wn =~= Seq::new(widths.len() as nat, |i: int| widths@[i] as nat));
    let nw = decimal_string(if rows.len() < 1 {
        1
    } else {
        rows.len() as u64
    }).as_str().unicode_len();
    assert(nw as nat == row_number_width(cells.len()));
    assert(nw < 30) by {
        lemma_decimal_len_bound(if rows.len() < 1 {
            1
        } else {
            rows.len() as nat
        });
    }
    let mut lines: Vec<String> = Vec::new();

    let mut top = String::new();
    push_spaces(&mut top, nw + 2);
    push_str(&mut top, "┌");
    let heads = header_segments(columns, &widths);
    push_str(&mut top, join_strings(&heads, "┬").as_str());
    push_str(&mut top, "┐");
    assert(views(heads@) =~= Seq::new(cols.len(), |i: int| header_segment(cols[i], wn[i])));
    lines.push(top);

    let mut r: usize = 0;
    while r < rows.len()
        invariant
            r <= rows.len(),
            prefixes.len() == rows.len(),
            cols == views(columns@),
            cells == cell_views(rows@),
            widths.len() == columns.len(),
            wn == Seq::new(widths.len() as nat, |i: int| widths@[i] as nat),
            forall|i: int| 0 <= i < rows.len() ==> #[trigger] rows@[i].len() <= columns.len(),
            lines.len() == r + 1,
            views(lines@).drop_first() =~= Seq::new(
                r as nat,
                |k: int|
                    views(prefixes@)[k] + "│"@ + join_with(
                        Seq::new(cells[k].len(), |c: int| cell_segment(cells[k][c], wn[c])),
                        "│"@,
                    ) + "│"@,
            ),
            views(lines@)[0] == table_lines(cols, cells, views(prefixes@))[0],
        decreases rows.len() - r,
    {
        let row = &rows[r];
        let mut line = owned(prefixes[r].as_str());
        push_str(&mut line, "│");
        let segs = cell_segments(row, &widths);
        push_str(&mut line, join_strings(&segs, "│").as_str());
        push_str(&mut line, "│");
        proof {
            assert(cells[r as int] == views(row@));
            assert(views(segs@) =~= Seq::new(
                cells[r as int].len(),
                |c: int| cell_segment(cells[r as int][c], wn[c]),
            ));
        }
        let ghost prev = lines@;
        lines.push(line);
        proof {
            assert(views(lines@) =~= views(prev).push(line@));
            assert(views(lines@).drop_first() =~= views(prev).drop_first().push(line@));
        }
        r = r + 1;
    }

    let mut bottom = String::new();
    push_spaces(&mut bottom, nw + 2);
    push_str(&mut bottom, "└");
    let rules = rule_segments(&widths);
    push_str(&mut bottom, join_strings(&rules, "┴").as_str());
    push_str(&mut bottom, "┘");
    assert(views(rules@) =~= Seq::new(cols.len(), |i: int| repeat_spec("─"@, wn[i] + 2)));
    let ghost before = lines@;
    lines.push(bottom);
    proof {
        let t = table_lines(cols, cells, views(prefixes@));
        assert(views(lines@) =~= views(before).push(bottom@));
        assert(views(lines@) =~= t);
    }
    join_strings(&lines, "\n")
}

/// Renders result rows as a ClickHouse-style box table: a header rule with the
/// column names, one numbered line per row, and a bottom rule. With
/// `colorize_muted` the row numbers are styled for a terminal.
pub fn render_clickhouse_table(columns: &Vec<String>, rows: &Vec<Vec<String>>, colorize_muted: bool) -> (r: String)
    requires
        rows_within(views(columns@), cell_views(rows@)),
        cells_fit(views(columns@), cell_views(rows@)),
    ensures
        !colorize_muted ==> r@ == join_with(
            table_lines(views(columns@), cell_views(rows@), plain_prefixes(rows.len() as nat)),
            "\n"@,
        ),
        colorize_muted ==> exists|p: Seq<Seq<char>>|
            p.len() == rows.len() && (forall|i: int|
                0 <= i < rows.len() ==> #[trigger] p[i] == plain_prefixes(rows.len() as nat)[i]
                    || p[i] == muted_text(plain_prefixes(rows.len() as nat)[i])) && r@ == join_with(
                table_lines(views(columns@), cell_views(rows@), p),
                "\n"@,
            ),
{
    let prefixes = row_prefixes(rows.len(), colorize_muted);
    let r = render_with_prefixes(columns, rows, &prefixes);
    proof {
        let p = views(prefixes@);
        assert(p.len() == rows.len());
        assert forall|i: int| 0 <= i < rows.len() implies #[trigger] p[i] == plain_prefixes(
            rows.len() as nat,
        )[i] || p[i] == muted_text(plain_prefixes(rows.len() as nat)[i]) by {
            assert(p[i] == prefixes@[i]@);
        }
        assert(r@ == join_with(table_lines(views(columns@), cell_views(rows@), p), "\n"@));
    }
    r
}

/// The shape of a query response as the table rendering reads it. A row is
/// `Some(keys)` when it is a JSON object and `None` otherwise.
#[derive(Debug)]
pub enum QueryPayload {
    /// A JSON object: its `data` rows when `data` is an array, its `meta`
    /// entries (each with its `name` when that is a string) when `meta` is an
    /// array, its `rows` field, the `rows_read` and `bytes_read` fields of its
    /// `statistics` object, and its `hints`.
    Object {
        data: Option<Vec<Option<Vec<String>>>>,
        meta: Option<Vec<Option<String>>>,
        rows: SummaryNumber,
        rows_read: SummaryNumber,
        bytes_read: SummaryNumber,
        hints: HintsField,
    },
    /// A top-level JSON array of rows.
    Array { rows: Vec<Option<Vec<String>>> },
    /// Any other JSON value.
    Other,
}

/// The names present among the meta entries, in order.
pub open spec fn present_names(entries: Seq<Option<String>>) -> Seq<Seq<char>>
    decreases entries.len(),
{
    if entries.len() == 0 {
        seq![]
    } else {
        let front = present_names(entries.drop_last());
        match entries.last() {
            Some(n) => front.push(n@),
            None => front,
        }
    }
}

/// Whether every row is a JSON object.
pub open spec fn all_objects(rows: Seq<Option<Vec<String>>>) -> bool {
    forall|i: int| 0 <= i < rows.len() ==> #[trigger] rows[i] is Some
}

/// The keys of each row.
pub open spec fn row_keys_of(rows: Seq<Option<Vec<String>>>) -> Seq<Seq<Seq<char>>> {
    rows.map_values(
        |r: Option<Vec<String>>|
            match r {
                Some(k) => views(k@),
                None => seq![],
            },
    )
}

/// The columns of a tabular response, or `None` when it is not tabular: the
/// declared columns, then the keys of the rows in order of appearance.
pub open spec fn extracted_columns(p: QueryPayload) -> Option<Seq<Seq<char>>> {
    match p {
        QueryPayload::Object { data, meta, .. } => match data {
            Some(rows) => if all_objects(rows@) {
                Some(
                    merged_columns(
                        match meta {
                            Some(m) => present_names(m@),
                            None => seq![],
                        },
                        row_keys_of(rows@),
                    ),
                )
            } else {
                None
            },
            None => None,
        },
        QueryPayload::Array { rows } => if all_objects(rows@) {
            Some(merged_columns(seq![], row_keys_of(rows@)))
        } else {
            None
        },
        QueryPayload::Other => None,
    }
}

/// The names present among the meta entries.
fn meta_names(entries: &Vec<Option<String>>) -> (r: Vec<String>)
    ensures
        views(r@) == present_names(entries@),
{
    let mut names: Vec<String> = Vec::new();
    let mut i: usize = 0;
    while i < entries.len()
        invariant
            i <= entries.len(),
            views(names@) == present_names(entries@.take(i as int)),
        decreases entries.len() - i,
    {
        proof {
            assert(entries@.take(i + 1).drop_last() =~= entries@.take(i as int));
        }
        match &entries[i] {
            Some(n) => {
                let ghost prev = names@;
                names.push(n.clone());
                proof {
                    assert(views(names@) =~= views(prev).push(n@));
                }
            },
            None => {},
        }
        i = i + 1;
    }
    proof {
        assert(entries@.take(entries.len() as int) =~= entries@);
    }
    names
}

/// The key lists of the rows, when every row is an object.
fn object_rows(rows: &Vec<Option<Vec<String>>>) -> (r: Option<Vec<Vec<String>>>)
    ensures
        r is Some <==> all_objects(rows@),
        r matches Some(keys) ==> row_key_views(keys@) == row_keys_of(rows@),
{
    let mut keys: Vec<Vec<String>> = Vec::new();
    let mut i: usize = 0;
    while i < rows.len()
        invariant
            i <= rows.len(),
            keys.len() == i,
            forall|j: int| 0 <= j < i ==> #[trigger] rows@[j] is Some,
            row_key_views(keys@) == row_keys_of(rows@.take(i as int)),
        decreases rows.len() - i,
    {
        match &rows[i] {
            Some(k) => {
                let ghost prev = keys@;
                let copy = k.clone();
                proof {
                    assert(views(copy@) =~= views(k@));
                }
                keys.push(copy);
                proof {
                    assert(row_key_views(keys@) =~= row_key_views(prev).push(views(k@)));
                    assert(row_keys_of(rows@.take(i + 1)) =~= row_keys_of(rows@.take(i as int)).push(
                        views(k@),
                    ));
                }
            },
            None => {
                return None;
            },
        }
        i = i + 1;
    }
    proof {
        assert(rows@.take(rows.len() as int) =~= rows@);
    }
    Some(keys)
}

/// The rows of a response payload, as far as there are any.
pub open spec fn payload_rows(p: QueryPayload) -> Seq<Option<Vec<String>>> {
    match p {
        QueryPayload::Object { data, .. } => match data {
            Some(rows) => rows@,
            None => seq![],
        },
        QueryPayload::Array { rows } => rows@,
        QueryPayload::Other => seq![],
    }
}

/// The counts and hints that a query response carries besides its rows.
#[derive(Debug)]
pub struct QuerySummary {
    pub rows: Option<u64>,
    pub rows_read: Option<u64>,
    pub bytes_read: Option<u64>,
    pub hints: Vec<String>,
}

/// The summary of a response: read from an object's fields, empty for an array.
pub open spec fn summary_spec(p: QueryPayload) -> (Option<u64>, Option<u64>, Option<u64>, Seq<Seq<char>>) {
    match p {
        QueryPayload::Object { rows, rows_read, bytes_read, hints, .. } => (
            summary_number_spec(rows),
            summary_number_spec(rows_read),
            summary_number_spec(bytes_read),
            hints_spec(hints),
        ),
        _ => (None, None, None, seq![]),
    }
}

/// The columns, the rows (each by its keys) and the summary of a tabular
/// query response: `None` unless it is an object whose `data` is an array of
/// objects, or an array of objects.
pub fn extract_rows_and_columns(payload: &QueryPayload) -> (r: Option<(Vec<String>, Vec<Vec<String>>, QuerySummary)>)
    ensures
        match extracted_columns(*payload) {
            Some(c) => r matches Some((cols, rows, summary)) && views(cols@) == c && row_key_views(rows@)
                == row_keys_of(payload_rows(*payload)) && (summary.rows, summary.rows_read, summary.bytes_read, views(summary.hints@))
                == summary_spec(*payload),
            None => r is None,
        },
{
    match payload {
        QueryPayload::Object { data, meta, rows: rows_field, rows_read, bytes_read, hints } => match data {
            Some(rows) => {
                let keys = match object_rows(rows) {
                    Some(k) => k,
                    None => {
                        return None;
                    },
                };
                let names = match meta {
                    Some(m) => meta_names(m),
                    None => Vec::new(),
                };
                proof {
                    if meta is None {
                        assert(views(names@) =~= Seq::<Seq<char>>::empty());
                    }
                }
                let columns = merge_columns(&names, &keys);
                let summary = QuerySummary {
                    rows: parse_u64_field(rows_field),
                    rows_read: parse_u64_field(rows_read),
                    bytes_read: parse_u64_field(bytes_read),
                    hints: extract_hints(hints),
                };
                Some((columns, keys, summary))
            },
            None => None,
        },
        QueryPayload::Array { rows } => {
            let keys = match object_rows(rows) {
                Some(k) => k,
                None => {
                    return None;
                },
            };
            let names: Vec<String> = Vec::new();
            proof {
                assert(views(names@) =~= Seq::<Seq<char>>::empty());
            }
            let columns = merge_columns(&names, &keys);
            let summary = QuerySummary { rows: None, rows_read: None, bytes_read: None, hints: Vec::new() };
            proof {
                assert(views(summary.hints@) =~= Seq::<Seq<char>>::empty());
            }
            Some((columns, keys, summary))
        },
        QueryPayload::Other => None,
    }
}

/// A number of the response summary as the JSON held it.
#[derive(Debug)]
pub enum SummaryNumber {
    /// A JSON number: its value when it is a non-negative integer that fits in `u64`.
    Number { value: Option<u64> },
    /// A JSON string.
    Text { text: String },
    /// Absent, or another kind of value.
    Other,
}

/// The value of a summary number: a fitting JSON number, or a string that
/// parses as `u64`.
pub open spec fn summary_number_spec(n: SummaryNumber) -> Option<u64> {
    match n {
        SummaryNumber::Number { value } => value,
        SummaryNumber::Text { text } => match parse_unsigned_spec(text@, u64::MAX as nat) {
            Some(v) => Some(v as u64),
            None => None,
        },
        SummaryNumber::Other => None,
    }
}

/// Reads a number of the response summary.
pub fn parse_u64_field(n: &SummaryNumber) -> (r: Option<u64>)
    ensures
        r == summary_number_spec(*n),
{
    match n {
        SummaryNumber::Number { value } => *value,
        SummaryNumber::Text { text } => parse_u64(text.as_str()),
        SummaryNumber::Other => None,
    }
}

/// The `hints` of a response, each rendered as text (`None` for JSON null).
#[derive(Debug)]
pub enum HintsField {
    /// No `hints` field.
    Missing,
    /// A single value that is not an array.
    Single { hint: Option<String> },
    /// An array of values.
    List { hints: Vec<Option<String>> },
}

/// The non-blank hints of a list, in order.
pub open spec fn nonblank_hints(items: Seq<Option<String>>) -> Seq<Seq<char>>
    decreases items.len(),
{
    if items.len() == 0 {
        seq![]
    } else {
        let front = nonblank_hints(items.drop_last());
        match items.last() {
            Some(h) => if trim_spec(h@).len() > 0 {
                front.push(h@)
            } else {
                front
            },
            None => front,
        }
    }
}

/// The hints shown after a result: a single value as it is, the non-blank
/// values of a list.
pub open spec fn hints_spec(field: HintsField) -> Seq<Seq<char>> {
    match field {
        HintsField::Missing => seq![],
        HintsField::Single { hint } => match hint {
            Some(h) => seq![h@],
            None => seq![],
        },
        HintsField::List { hints } => nonblank_hints(hints@),
    }
}

/// The hints shown after a query result.
pub fn extract_hints(field: &HintsField) -> (r: Vec<String>)
    ensures
        views(r@) == hints_spec(*field),
{
    let mut out: Vec<String> = Vec::new();
    match field {
        HintsField::Missing => {},
        HintsField::Single { hint } => {
            if let Some(h) = hint {
                out.push(h.clone());
            }
        },
        HintsField::List { hints } => {
            let mut i: usize = 0;
            while i < hints.len()
                invariant
                    i <= hints.len(),
                    views(out@) == nonblank_hints(hints@.take(i as int)),
                decreases hints.len() - i,
            {
                proof {
                    assert(hints@.take(i + 1).drop_last() =~= hints@.take(i as int));
                }
                if let Some(h) = &hints[i] {
                    let t = trim(h.as_str());
                    if t.as_str().unicode_len() > 0 {
                        let ghost prev = out@;
                        out.push(h.clone());
                        proof {
                            assert(views(out@) =~= views(prev).push(h@));
                        }
                    }
                }
                i = i + 1;
            }
            proof {
                assert(hints@.take(hints.len() as int) =~= hints@);
            }
        },
    }
    proof {
        match field {
            HintsField::Missing => {
                assert(views(out@) =~= Seq::<Seq<char>>::empty());
            },
            HintsField::Single { hint } => match hint {
                Some(h) => {
                    assert(views(out@) =~= seq![h@]);
                },
                None => {
                    assert(views(out@) =~= Seq::<Seq<char>>::empty());
                },
            },
            HintsField::List { .. } => {},
        }
    }
    out
}

/// The row count of the footer: the response's `rows`, else the rows read,
/// else the rows displayed.
pub fn footer_rows(rows: Option<u64>, rows_read: Option<u64>, displayed: usize) -> (r: u64)
    ensures
        r == (match rows {
            Some(n) => n,
            None => match rows_read {
                Some(n) => n,
                None => displayed as u64,
            },
        }),
{
    match rows {
        Some(n) => n,
        None => match rows_read {
            Some(n) => n,
            None => displayed as u64,
        },
    }
}

/// No name occurs twice.
pub open spec fn distinct(names: Seq<Seq<char>>) -> bool {
    forall|i: int, j: int| 0 <= i < j < names.len() ==> names[i] != names[j]
}

proof fn lemma_add_new_keys(columns: Seq<Seq<char>>, keys: Seq<Seq<char>>)
    ensures
        add_new_keys(columns, keys).len() >= columns.len(),
        add_new_keys(columns, keys).take(columns.len() as int) == columns,
        forall|k: int| 0 <= k < keys.len() ==> occurs(add_new_keys(columns, keys), #[trigger] keys[k]),
        forall|i: int|
            columns.len() <= i < add_new_keys(columns, keys).len() ==> occurs(
                keys,
                #[trigger] add_new_keys(columns, keys)[i],
            ),
        distinct(columns) ==> distinct(add_new_keys(columns, keys)),
    decreases keys.len(),
{
    if keys.len() == 0 {
        assert(columns.take(columns.len() as int) =~= columns);
    } else {
        let front = keys.drop_last();
        lemma_add_new_keys(columns, front);
        let c = add_new_keys(columns, front);
        let r = add_new_keys(columns, keys);
        let last = keys.last();
        if occurs(c, last) {
            assert(r == c);
        } else {
            assert(r == c.push(last));
            assert(r.take(columns.len() as int) =~= c.take(columns.len() as int));
            assert(r[c.len() as int] == last);
        }
        assert forall|k: int| 0 <= k < keys.len() implies occurs(r, #[trigger] keys[k]) by {
            if k < keys.len() - 1 {
                assert(keys[k] == front[k]);
                assert(occurs(c, front[k]));
                let j = choose|j: int| 0 <= j < c.len() && c[j] == front[k];
                assert(r[j] == c[j]);
            } else if occurs(c, last) {
                let j = choose|j: int| 0 <= j < c.len() && c[j] == last;
                assert(r[j] == c[j]);
            } else {
                assert(r[c.len() as int] == keys[k]);
            }
        }
        assert forall|i: int| columns.len() <= i < r.len() implies occurs(keys, #[trigger] r[i]) by {
            if i < c.len() {
                assert(r[i] == c[i]);
                assert(occurs(front, c[i]));
                let j = choose|j: int| 0 <= j < front.len() && front[j] == c[i];
                assert(keys[j] == front[j]);
            } else {
                assert(keys[keys.len() - 1] == r[i]);
            }
        }
        if distinct(columns) {
            assert forall|i: int, j: int| 0 <= i < j < r.len() implies r[i] != r[j] by {
                if j < c.len() {
                    assert(r[i] == c[i] && r[j] == c[j]);
                } else {
                    assert(r[j] == last);
                    assert(r[i] == c[i]);
                    if c[i] == last {
                        assert(occurs(c, last));
                    }
                }
            }
        }
    }
}

/// The columns of a result keep the declared columns first, in their order,
/// and then name every key of every row; a key is added once, so columns that
/// were distinct stay distinct, and each added column is a key of some row.
pub proof fn law_merged_columns(meta: Seq<Seq<char>>, rows: Seq<Seq<Seq<char>>>)
    ensures
        merged_columns(meta, rows).len() >= meta.len(),
        merged_columns(meta, rows).take(meta.len() as int) == meta,
        forall|r: int, k: int|
            0 <= r < rows.len() && 0 <= k < rows[r].len() ==> occurs(
                merged_columns(meta, rows),
                #[trigger] rows[r][k],
            ),
        forall|i: int|
            meta.len() <= i < merged_columns(meta, rows).len() ==> exists|r: int|
                0 <= r < rows.len() && occurs(rows[r], #[trigger] merged_columns(meta, rows)[i]),
        distinct(meta) ==> distinct(merged_columns(meta, rows)),
    decreases rows.len(),
{
    if rows.len() == 0 {
        assert(meta.take(meta.len() as int) =~= meta);
    } else {
        let front = rows.drop_last();
        law_merged_columns(meta, front);
        let c = merged_columns(meta, front);
        let m = merged_columns(meta, rows);
        lemma_add_new_keys(c, rows.last());
        assert(m == add_new_keys(c, rows.last()));
        assert(m.take(meta.len() as int) =~= m.take(c.len() as int).take(meta.len() as int));
        assert forall|r: int, k: int| 0 <= r < rows.len() && 0 <= k < rows[r].len() implies occurs(
            m,
            #[trigger] rows[r][k],
        ) by {
            if r < rows.len() - 1 {
                assert(rows[r] == front[r]);
                assert(occurs(c, front[r][k]));
                let j = choose|j: int| 0 <= j < c.len() && c[j] == front[r][k];
                assert(m.take(c.len() as int)[j] == m[j]);
            } else {
                assert(rows[r] == rows.last());
                assert(occurs(m, rows.last()[k]));
            }
        }
        assert forall|i: int| meta.len() <= i < m.len() implies exists|r: int|
            0 <= r < rows.len() && occurs(rows[r], #[trigger] m[i]) by {
            if i < c.len() {
                assert(m.take(c.len() as int)[i] == m[i]);
                assert(m[i] == c[i]);
                let r = choose|r: int| 0 <= r < front.len() && occurs(front[r], c[i]);
                assert(rows[r] == front[r]);
            } else {
                assert(occurs(rows.last(), m[i]));
                assert(rows[rows.len() - 1] == rows.last());
            }
        }
    }
}

} // verus!
