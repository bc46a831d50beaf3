use vstd::prelude::*;
use vstd::string::{StrSliceExecFns, StringExecFns};

use crate::cell::{CellData, CellValue};
use crate::table::{cell_views, row_views, Table};

verus! {

/// The views of a sequence of owned strings.
pub open spec fn views_of(parts: Seq<String>) -> Seq<Seq<char>> {
    parts.map_values(|p: String| p@)
}

/// The pieces of `s` between occurrences of `sep`: one more piece than
/// there are separators, each possibly empty. Splitting the empty sequence
/// gives one empty piece.
pub open spec fn spec_split(s: Seq<char>, sep: char) -> Seq<Seq<char>>
    decreases s.len(),
{
    if s.len() == 0 {
        seq![Seq::<char>::empty()]
    } else {
        let prev = spec_split(s.drop_last(), sep);
        if s.last() == sep {
            prev.push(Seq::<char>::empty())
        } else {
            prev.update(prev.len() - 1, prev.last().push(s.last()))
        }
    }
}

/// A split always yields at least one piece.
pub proof fn lemma_split_nonempty(s: Seq<char>, sep: char)
    ensures
        spec_split(s, sep).len() >= 1,
    decreases s.len(),
{
    if s.len() > 0 {
        lemma_split_nonempty(s.drop_last(), sep);
    }
}

/// A line's optional carriage return before its terminator: dropped when
/// present.
pub open spec fn strip_cr(l: Seq<char>) -> Seq<char> {
    if l.len() > 0 && l.last() == '\r' {
        l.drop_last()
    } else {
        l
    }
}

/// The lines of `s`: the pieces between newlines, a carriage return
/// directly before a newline dropped, and no spurious empty line from a
/// trailing terminator. Empty input has no lines at all. A final piece not
/// closed by a newline keeps a trailing carriage return: only the two-byte
/// terminator loses it.
pub open spec fn spec_lines(s: Seq<char>) -> Seq<Seq<char>> {
    if s.len() == 0 {
        Seq::empty()
    } else if s.last() == '\n' {
        spec_split(s.drop_last(), '\n').map_values(|l: Seq<char>| strip_cr(l))
    } else {
        let parts = spec_split(s, '\n');
        parts.map_values(|l: Seq<char>| strip_cr(l)).update(parts.len() - 1, parts.last())
    }
}

/// Each field as a Text cell: values from the text path carry no type
/// inference, a numeric-looking field is still text.
pub open spec fn text_cells_of(fields: Seq<Seq<char>>) -> Seq<CellData> {
    fields.map_values(|f: Seq<char>| CellData::Text(f))
}

/// One loaded text row: the line's tab-separated fields, each a Text cell.
pub open spec fn spec_text_row(l: Seq<char>) -> Seq<CellData> {
    text_cells_of(spec_split(l, '\t'))
}

/// The table a delimited text blob loads to: one row per line.
pub open spec fn spec_load_text(s: Seq<char>) -> Seq<Seq<CellData>> {
    spec_lines(s).map_values(|l: Seq<char>| spec_text_row(l))
}

/// Splits `s` on every occurrence of `sep`, keeping empty pieces.
fn split_on(s: &str, sep: char) -> (parts: Vec<String>)
    ensures
        views_of(parts@) == spec_split(s@, sep),
{
    let n = s.unicode_len();
    let mut parts: Vec<String> = Vec::new();
    let mut start: usize = 0;
    let mut i: usize = 0;
    proof {
        assert(s@.subrange(0, 0) =~= Seq::<char>::empty());
        assert(views_of(parts@).push(s@.subrange(0, 0)) =~~= spec_split(s@.subrange(0, 0), sep));
    }
    while i < n
        invariant
            start <= i <= n,
            n == s@.len(),
            spec_split(s@.subrange(0, i as int), sep) == views_of(parts@).push(
                s@.subrange(start as int, i as int),
            ),
        decreases n - i,
    {
        let ghost pre = s@.subrange(0, i as int);
        let ghost nxt = s@.subrange(0, i + 1 as int);
        let ghost v = views_of(parts@);
        let ghost y = s@.subrange(start as int, i as int);
        let c = s.get_char(i);
        proof {
            assert(nxt.drop_last() =~= pre);
            assert(nxt.last() == s@[i as int]);
        }
        if c == sep {
            let ghost pre_parts = parts@;
            let piece = String::from_str(s.substring_char(start, i));
            parts.push(piece);
            start = i + 1;
            proof {
                assert(views_of(parts@) =~~= v.push(y));
                assert(spec_split(nxt, sep) == spec_split(pre, sep).push(Seq::<char>::empty()));
                assert(s@.subrange(start as int, i + 1 as int) =~= Seq::<char>::empty());
            }
        } else {
            proof {
                let grown = s@.subrange(start as int, i + 1 as int);
                assert(y.push(s@[i as int]) =~= grown);
                assert(spec_split(pre, sep) == v.push(y));
                assert(spec_split(nxt, sep) == v.push(y).update(
                    v.push(y).len() - 1,
                    v.push(y).last().push(s@[i as int]),
                ));
                assert(v.push(y).last() == y);
                assert(v.push(y).update(v.push(y).len() - 1, grown) =~~= v.push(grown));
            }
        }
        i += 1;
    }
    let ghost v = views_of(parts@);
    let ghost y = s@.subrange(start as int, n as int);
    let piece = String::from_str(s.substring_char(start, n));
    parts.push(piece);
    proof {
        assert(s@.subrange(0, n as int) =~= s@);
        assert(views_of(parts@) =~~= v.push(y));
    }
    parts
}

/// Splits `s` into its lines, as `spec_lines` describes them.
fn split_lines(s: &str) -> (lines: Vec<String>)
    ensures
        views_of(lines@) == spec_lines(s@),
{
    let n = s.unicode_len();
    if n == 0 {
        let lines: Vec<String> = Vec::new();
        proof {
            assert(views_of(lines@) =~~= spec_lines(s@));
        }
        return lines;
    }
    let had_nl = s.get_char(n - 1) == '\n';
    let core: &str = if had_nl {
        s.substring_char(0, n - 1)
    } else {
        s
    };
    proof {
        if had_nl {
            assert(core@ =~= s@.drop_last());
        }
    }
    let parts = split_on(core, '\n');
    let m = parts.len();
    proof {
        lemma_split_nonempty(core@, '\n');
    }
    let ghost target = spec_lines(s@);
    proof {
        assert(target.len() == m);
        assert forall|q: int| 0 <= q < m && (had_nl || q < m - 1) implies #[trigger] target[q]
            == strip_cr(views_of(parts@)[q]) by {}
        if !had_nl {
            assert(target[m - 1] == views_of(parts@)[m - 1]);
        }
    }
    let mut out: Vec<String> = Vec::new();
    let mut j: usize = 0;
    while j < m
        invariant
            j <= m,
            m == parts@.len(),
            m >= 1,
            target == spec_lines(s@),
            target.len() == m,
            views_of(out@) == target.subrange(0, j as int),
            forall|q: int|
                0 <= q < m && (had_nl || q < m - 1) ==> #[trigger] target[q] == strip_cr(
                    views_of(parts@)[q],
                ),
            !had_nl ==> target[m - 1] == views_of(parts@)[m - 1],
        decreases m - j,
    {
        let p_len = parts[j].as_str().unicode_len();
        let keep_cr = !(had_nl || j + 1 < m);
        let piece = if !keep_cr && p_len > 0 && parts[j].as_str().get_char(p_len - 1) == '\r' {
            String::from_str(parts[j].as_str().substring_char(0, p_len - 1))
        } else {
            String::from_str(parts[j].as_str())
        };
        let ghost pre_out = out@;
        out.push(piece);
        proof {
            let pv = views_of(parts@)[j as int];
            if !keep_cr {
                if pv.len() > 0 && pv.last() == '\r' {
                    assert(piece@ =~= pv.drop_last());
                }
                assert(piece@ == strip_cr(pv));
            }
            assert(piece@ == target[j as int]);
            assert(views_of(out@) =~~= views_of(pre_out).push(piece@));
            assert(target.subrange(0, j as int).push(target[j as int]) =~~= target.subrange(
                0,
                j + 1 as int,
            ));
        }
        j += 1;
    }
    proof {
        assert(target.subrange(0, m as int) =~= target);
    }
    out
}

/// Turns a line's fields into Text cells, one per field.
fn text_cells(fields: Vec<String>) -> (cells: Vec<CellValue>)
    ensures
        cell_views(cells@) == text_cells_of(views_of(fields@)),
{
    let mut cells: Vec<CellValue> = Vec::new();
    let n = fields.len();
    let ghost target = text_cells_of(views_of(fields@));
    let mut j: usize = 0;
    proof {
        assert(cell_views(cells@) =~~= target.subrange(0, 0));
    }
    while j < n
        invariant
            j <= n,
            n == fields@.len(),
            target == text_cells_of(views_of(fields@)),
            target.len() == n,
            cell_views(cells@) == target.subrange(0, j as int),
        decreases n - j,
    {
        let ghost pre = cells@;
        cells.push(CellValue::Text(String::from_str(fields[j].as_str())));
        proof {
            assert(cell_views(cells@) =~~= cell_views(pre).push(CellData::Text(
                fields@[j as int]@,
            )));
            assert(target[j as int] == CellData::Text(fields@[j as int]@));
            assert(target.subrange(0, j as int).push(target[j as int]) =~~= target.subrange(
                0,
                j + 1 as int,
            ));
        }
        j += 1;
    }
    proof {
        assert(target.subrange(0, n as int) =~= target);
    }
    cells
}

/// Loads a delimited text blob: split on line boundaries, split each line
/// on the tab delimiter, every field a Text cell. Never fails: ragged input
/// yields a ragged table, a trailing terminator adds no empty row, and
/// empty input yields no rows.
pub fn load_text(raw: &str) -> (t: Table)
    ensures
        t@ == spec_load_text(raw@),
{
    let lines = split_lines(raw);
    let mut rows: Vec<Vec<CellValue>> = Vec::new();
    let n = lines.len();
    let ghost target = spec_load_text(raw@);
    let mut i: usize = 0;
    proof {
        assert(target.len() == n);
        assert(row_views(rows@) =~~= target.subrange(0, 0));
    }
    while i < n
        invariant
            i <= n,
            n == lines@.len(),
            views_of(lines@) == spec_lines(raw@),
            target == spec_load_text(raw@),
            target.len() == n,
            row_views(rows@) == target.subrange(0, i as int),
        decreases n - i,
    {
        let fields = split_on(lines[i].as_str(), '\t');
        let cells = text_cells(fields);
        let ghost pre = rows@;
        let ghost cv = cell_views(cells@);
        rows.push(cells);
        proof {
            assert(lines@[i as int]@ == spec_lines(raw@)[i as int]);
            assert(cv == spec_text_row(spec_lines(raw@)[i as int]));
            assert(target[i as int] == spec_text_row(spec_lines(raw@)[i as int]));
            assert(row_views(rows@) =~~= row_views(pre).push(cv));
            assert(target.subrange(0, i as int).push(target[i as int]) =~~= target.subrange(
                0,
                i + 1 as int,
            ));
        }
        i += 1;
    }
    proof {
        assert(target.subrange(0, n as int) =~= target);
    }
    Table::from_rows(rows)
}

} // verus!
