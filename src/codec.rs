use vstd::prelude::*;

use crate::record::{field_or_empty, map_of, records_view, Record};
use crate::text::text_of;

verus! {

/// A cell as the sheet hands it over: text, or a value of another kind.
#[derive(Debug)]
pub enum Cell {
    Text(String),
    Other,
}

/// What a cell decodes to: its text, or the empty string for any other kind.
pub open spec fn cell_text(c: Cell) -> Seq<char> {
    match c {
        Cell::Text(s) => s@,
        Cell::Other => Seq::empty(),
    }
}

/// A header cell names a column when it holds non-empty text.
pub open spec fn is_label(c: Cell) -> bool {
    c is Text && cell_text(c).len() > 0
}

/// The labelled columns of a header row, left to right, each with its position.
pub open spec fn columns_of(header: Seq<Cell>) -> Seq<(nat, Seq<char>)>
    decreases header.len(),
{
    if header.len() == 0 {
        Seq::empty()
    } else {
        let rest = columns_of(header.drop_last());
        if is_label(header.last()) {
            rest.push(((header.len() - 1) as nat, cell_text(header.last())))
        } else {
            rest
        }
    }
}

/// The text of column `col` of `row`; empty past the end of a short row.
pub open spec fn cell_at(row: Seq<Cell>, col: int) -> Seq<char> {
    if 0 <= col < row.len() {
        cell_text(row[col])
    } else {
        Seq::empty()
    }
}

/// The label/value pairs that a data row decodes to under the given columns.
pub open spec fn row_pairs(cols: Seq<(nat, Seq<char>)>, row: Seq<Cell>) -> Seq<(Seq<char>, Seq<char>)> {
    cols.map_values(|c: (nat, Seq<char>)| (c.1, cell_at(row, c.0 as int)))
}

/// The view of a table: its rows as sequences of cells.
pub open spec fn table_view(t: Seq<Vec<Cell>>) -> Seq<Seq<Cell>> {
    t.map_values(|r: Vec<Cell>| r@)
}

/// The records that a table decodes to: one per row after the header.
pub open spec fn decode_rows(rows: Seq<Seq<Cell>>) -> Seq<Map<Seq<char>, Seq<char>>> {
    if rows.len() == 0 {
        Seq::empty()
    } else {
        rows.drop_first().map_values(|r: Seq<Cell>| map_of(row_pairs(columns_of(rows[0]), r)))
    }
}

/// The records that a fetched table decodes to; none where nothing was fetched.
pub open spec fn decode_spec(t: Option<Seq<Seq<Cell>>>) -> Seq<Map<Seq<char>, Seq<char>>> {
    match t {
        None => Seq::empty(),
        Some(rows) => decode_rows(rows),
    }
}

/// The view of a possibly absent table.
pub open spec fn opt_table_view(t: Option<Vec<Vec<Cell>>>) -> Option<Seq<Seq<Cell>>> {
    match t {
        None => None,
        Some(rows) => Some(table_view(rows@)),
    }
}

/// The view of a list of strings.
pub open spec fn texts_view(v: Seq<String>) -> Seq<Seq<char>> {
    v.map_values(|s: String| s@)
}

spec fn cols_view(cols: Seq<(usize, String)>) -> Seq<(nat, Seq<char>)> {
    cols.map_values(|c: (usize, String)| (c.0 as nat, c.1@))
}

/// The text that a cell decodes to.
pub fn cell_string(c: &Cell) -> (r: String)
    ensures
        r@ == cell_text(*c),
{
    match c {
        Cell::Text(s) => s.clone(),
        Cell::Other => String::new(),
    }
}

/// The labelled columns of a header row.
fn header_columns(header: &Vec<Cell>) -> (r: Vec<(usize, String)>)
    ensures
        cols_view(r@) == columns_of(header@),
        forall|k: int| 0 <= k < r@.len() ==> r@[k].0 < header@.len(),
{
    let mut cols: Vec<(usize, String)> = Vec::new();
    let mut i: usize = 0;
    while i < header.len()
        invariant
            i <= header@.len(),
            cols_view(cols@) == columns_of(header@.subrange(0, i as int)),
            forall|k: int| 0 <= k < cols@.len() ==> cols@[k].0 < i,
        decreases header.len() - i,
    {
        let ghost prev = cols@;
        assert(header@.subrange(0, i + 1).drop_last() =~= header@.subrange(0, i as int));
        match &header[i] {
            Cell::Text(s) => {
                if s.unicode_len() > 0 {
                    cols.push((i, s.clone()));
                    assert(cols_view(cols@) =~= cols_view(prev).push((i as nat, s@)));
                }
            },
            Cell::Other => {},
        }
        i = i + 1;
    }
    assert(header@.subrange(0, i as int) =~= header@);
    cols
}

/// The record that a data row decodes to under the given columns.
fn decode_row(cols: &Vec<(usize, String)>, row: &Vec<Cell>) -> (r: Record)
    ensures
        r.pairs() == row_pairs(cols_view(cols@), row@),
{
    let mut rec = Record::new();
    let mut k: usize = 0;
    while k < cols.len()
        invariant
            k <= cols@.len(),
            rec.pairs() == row_pairs(cols_view(cols@), row@).subrange(0, k as int),
        decreases cols.len() - k,
    {
        let col = cols[k].0;
        let value = if col < row.len() {
            cell_string(&row[col])
        } else {
            String::new()
        };
        rec.insert(text_of(cols[k].1.as_str()), value);
        assert(row_pairs(cols_view(cols@), row@).subrange(0, k + 1) =~= row_pairs(
            cols_view(cols@),
            row@,
        ).subrange(0, k as int).push((cols@[k as int].1@, value@)));
        k = k + 1;
    }
    assert(row_pairs(cols_view(cols@), row@).subrange(0, k as int) =~= row_pairs(
        cols_view(cols@),
        row@,
    ));
    rec
}

/// Reads a fetched table as records: the first row names the columns, empty
/// labels are dropped, and each later row becomes one record, in order.
pub fn decode(table: &Option<Vec<Vec<Cell>>>) -> (r: Vec<Record>)
    ensures
        records_view(r@) == decode_spec(opt_table_view(*table)),
{
    let mut out: Vec<Record> = Vec::new();
    match table {
        None => {
            assert(records_view(out@) =~= Seq::<Map<Seq<char>, Seq<char>>>::empty());
        },
        Some(rows) => {
            if rows.len() == 0 {
                assert(records_view(out@) =~= Seq::<Map<Seq<char>, Seq<char>>>::empty());
                return out;
            }
            let ghost tv = table_view(rows@);
            let cols = header_columns(&rows[0]);
            assert(columns_of(tv[0]) == cols_view(cols@));
            let mut i: usize = 1;
            while i < rows.len()
                invariant
                    1 <= i <= rows@.len(),
                    tv == table_view(rows@),
                    cols_view(cols@) == columns_of(tv[0]),
                    records_view(out@) == decode_rows(tv).subrange(0, i - 1),
                decreases rows.len() - i,
            {
                let rec = decode_row(&cols, &rows[i]);
                let ghost before = out@;
                out.push(rec);
                assert(records_view(out@) =~= records_view(before).push(rec@));
                assert(decode_rows(tv).subrange(0, i as int) =~= decode_rows(tv).subrange(
                    0,
                    i - 1,
                ).push(rec@));
                i = i + 1;
            }
            assert(decode_rows(tv).subrange(0, i - 1) =~= decode_rows(tv));
        },
    }
    out
}

/// The values of `rec` under `order`, in that order; a missing label gives the
/// empty string.
pub fn encode(rec: &Record, order: &Vec<String>) -> (r: Vec<String>)
    ensures
        texts_view(r@) == texts_view(order@).map_values(
            |l: Seq<char>| field_or_empty(rec@, l),
        ),
{
    let mut out: Vec<String> = Vec::new();
    let mut i: usize = 0;
    while i < order.len()
        invariant
            i <= order@.len(),
            texts_view(out@) == texts_view(order@).map_values(
                |l: Seq<char>| field_or_empty(rec@, l),
            ).subrange(0, i as int),
        decreases order.len() - i,
    {
        let v = rec.get(order[i].as_str());
        let ghost before = out@;
        out.push(v);
        assert(texts_view(out@) =~= texts_view(before).push(v@));
        assert(texts_view(order@)[i as int] == order@[i as int]@);
        assert(texts_view(out@) =~= texts_view(order@).map_values(
            |l: Seq<char>| field_or_empty(rec@, l),
        ).subrange(0, i + 1));
        i = i + 1;
    }
    assert(texts_view(out@) =~= texts_view(order@).map_values(
        |l: Seq<char>| field_or_empty(rec@, l),
    ));
    out
}

/// Nothing fetched, or a header alone, decodes to no records.
pub proof fn lemma_decode_empty(header: Seq<Cell>)
    ensures
        decode_spec(None) == Seq::<Map<Seq<char>, Seq<char>>>::empty(),
        decode_spec(Some(Seq::<Seq<Cell>>::empty())) == Seq::<Map<Seq<char>, Seq<char>>>::empty(),
        decode_spec(Some(seq![header])) == Seq::<Map<Seq<char>, Seq<char>>>::empty(),
{
    assert(decode_spec(Some(seq![header])) =~= Seq::<Map<Seq<char>, Seq<char>>>::empty());
}

/// Each data row decodes to the map that pairs every labelled header column
/// with the row's cell in that same column.
pub proof fn lemma_decode_row(rows: Seq<Seq<Cell>>, i: int)
    requires
        1 <= i < rows.len(),
    ensures
        decode_spec(Some(rows)).len() == rows.len() - 1,
        decode_spec(Some(rows))[i - 1] == map_of(row_pairs(columns_of(rows[0]), rows[i])),
{
}

/// A blank header cell drops its column: under the header `[h1, h2, "", h3]`
/// the row `[a, b, c, d]` decodes to `{h1: a, h2: b, h3: d}`.
pub proof fn lemma_decode_skips_blank_label(
    h1: Cell,
    h2: Cell,
    blank: Cell,
    h3: Cell,
    a: Cell,
    b: Cell,
    c: Cell,
    d: Cell,
)
    requires
        is_label(h1),
        is_label(h2),
        is_label(h3),
        cell_text(blank).len() == 0,
    ensures
        decode_spec(Some(seq![seq![h1, h2, blank, h3], seq![a, b, c, d]])) == seq![
            Map::<Seq<char>, Seq<char>>::empty().insert(cell_text(h1), cell_text(a)).insert(
                cell_text(h2),
                cell_text(b),
            ).insert(cell_text(h3), cell_text(d)),
        ],
{
    let header = seq![h1, h2, blank, h3];
    let row = seq![a, b, c, d];
    assert(header.drop_last() =~= seq![h1, h2, blank]);
    assert(header.drop_last().drop_last() =~= seq![h1, h2]);
    assert(header.drop_last().drop_last().drop_last() =~= seq![h1]);
    assert(header.drop_last().drop_last().drop_last().drop_last() =~= Seq::<Cell>::empty());
    assert(seq![h1].drop_last() =~= Seq::<Cell>::empty());
    assert(columns_of(Seq::<Cell>::empty()) == Seq::<(nat, Seq<char>)>::empty());
    assert(columns_of(seq![h1]) =~= seq![(0nat, cell_text(h1))]);
    assert(columns_of(seq![h1, h2]) =~= seq![(0nat, cell_text(h1)), (1nat, cell_text(h2))]);
    assert(columns_of(seq![h1, h2, blank]) == columns_of(seq![h1, h2]));
    let cols = seq![(0nat, cell_text(h1)), (1nat, cell_text(h2)), (3nat, cell_text(h3))];
    assert(columns_of(header) =~= cols);
    let ps = row_pairs(cols, row);
    assert(ps =~= seq![
        (cell_text(h1), cell_text(a)),
        (cell_text(h2), cell_text(b)),
        (cell_text(h3), cell_text(d)),
    ]);
    assert(ps.drop_last().drop_last() =~= seq![(cell_text(h1), cell_text(a))]);
    assert(ps.drop_last().drop_last().drop_last() =~= Seq::<(Seq<char>, Seq<char>)>::empty());
    assert(map_of(Seq::<(Seq<char>, Seq<char>)>::empty()) == Map::<Seq<char>, Seq<char>>::empty());
    assert(map_of(ps.drop_last().drop_last()) == Map::<Seq<char>, Seq<char>>::empty().insert(
        cell_text(h1),
        cell_text(a),
    ));
    assert(map_of(ps.drop_last()) == Map::<Seq<char>, Seq<char>>::empty().insert(
        cell_text(h1),
        cell_text(a),
    ).insert(cell_text(h2), cell_text(b)));
    let rows = seq![header, row];
    assert(rows[0] == header);
    assert(rows.drop_first() =~= seq![row]);
    assert(decode_spec(Some(rows)) =~= seq![map_of(ps)]);
}

} // verus!
