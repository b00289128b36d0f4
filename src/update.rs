use vstd::prelude::*;

use crate::codec::{decode, decode_spec, opt_table_view, texts_view, Cell};
use crate::locate::{locate, locate_spec, range_label};
use crate::record::{field_or_empty, records_view, Record};
use crate::text::text_of;

verus! {

/// The branch a pull request was merged into.
#[derive(Clone, Copy, PartialEq, Eq, Structural, Debug)]
pub enum Branch {
    /// The release-candidate branch, recorded in the `RC` column.
    Rc,
    /// The production branch, recorded in the `Production` column.
    Master,
}

/// The name of a branch as the command line writes it.
pub open spec fn branch_name(b: Branch) -> Seq<char> {
    match b {
        Branch::Rc => seq!['r', 'c'],
        Branch::Master => seq!['m', 'a', 's', 't', 'e', 'r'],
    }
}

impl Branch {
    /// The name of the branch: `rc` or `master`.
    pub fn name(&self) -> (r: String)
        ensures
            r@ == branch_name(*self),
    {
        proof {
            reveal_strlit("rc");
            reveal_strlit("master");
        }
        match self {
            Branch::Rc => {
                let r = text_of("rc");
                assert(r@ =~= branch_name(*self));
                r
            },
            Branch::Master => {
                let r = text_of("master");
                assert(r@ =~= branch_name(*self));
                r
            },
        }
    }
}

pub open spec fn lab_number() -> Seq<char> {
    seq!['N', 'u', 'm', 'b', 'e', 'r']
}

pub open spec fn lab_title() -> Seq<char> {
    seq!['T', 'i', 't', 'l', 'e']
}

pub open spec fn lab_description() -> Seq<char> {
    seq!['D', 'e', 's', 'c', 'r', 'i', 'p', 't', 'i', 'o', 'n']
}

pub open spec fn lab_author() -> Seq<char> {
    seq!['A', 'u', 't', 'h', 'o', 'r']
}

pub open spec fn lab_url() -> Seq<char> {
    seq!['U', 'R', 'L']
}

pub open spec fn lab_commit() -> Seq<char> {
    seq!['C', 'o', 'm', 'm', 'i', 't', ' ', 'H', 'a', 's', 'h']
}

pub open spec fn lab_merged() -> Seq<char> {
    seq!['M', 'e', 'r', 'g', 'e', 'd', ' ', 'D', 'a', 't', 'e']
}

pub open spec fn lab_deployable() -> Seq<char> {
    seq!['D', 'e', 'p', 'l', 'o', 'y', 'a', 'b', 'l', 'e']
}

pub open spec fn lab_rc() -> Seq<char> {
    seq!['R', 'C']
}

pub open spec fn lab_production() -> Seq<char> {
    seq!['P', 'r', 'o', 'd', 'u', 'c', 't', 'i', 'o', 'n']
}

pub open spec fn true_text() -> Seq<char> {
    seq!['T', 'R', 'U', 'E']
}

/// The ten cells written back for a matched record: its fields in the fixed
/// order, with the flag of the merged branch set to `TRUE`. A field that the
/// record lacks (its column is absent from the header) is written as the empty
/// string: the row is always written in full rather than refused.
pub open spec fn update_cells(rec: Map<Seq<char>, Seq<char>>, b: Branch) -> Seq<Seq<char>> {
    seq![
        field_or_empty(rec, lab_number()),
        field_or_empty(rec, lab_title()),
        field_or_empty(rec, lab_description()),
        field_or_empty(rec, lab_author()),
        field_or_empty(rec, lab_url()),
        field_or_empty(rec, lab_commit()),
        field_or_empty(rec, lab_merged()),
        field_or_empty(rec, lab_deployable()),
        if b == Branch::Rc { true_text() } else { field_or_empty(rec, lab_rc()) },
        if b == Branch::Master { true_text() } else { field_or_empty(rec, lab_production()) },
    ]
}

/// The address written for a matched record: the sheet's name, `!`, and the
/// record's row address.
pub open spec fn update_range(rec: Map<Seq<char>, Seq<char>>, sheet: Seq<char>) -> Seq<char> {
    sheet + seq!['!'] + field_or_empty(rec, range_label())
}

/// One row to write: where, and the cells in column order.
#[derive(Debug)]
pub struct RowUpdate {
    pub range: String,
    pub cells: Vec<String>,
}

/// The contents of a row update as plain values.
pub open spec fn update_view(u: RowUpdate) -> (Seq<char>, Seq<Seq<char>>) {
    (u.range@, texts_view(u.cells@))
}

/// The updates for a sequence of matched records.
pub open spec fn updates_spec(recs: Seq<Map<Seq<char>, Seq<char>>>, b: Branch, sheet: Seq<char>) -> Seq<
    (Seq<char>, Seq<Seq<char>>),
> {
    recs.map_values(
        |m: Map<Seq<char>, Seq<char>>| (update_range(m, sheet), update_cells(m, b)),
    )
}

/// Pushes the value of `rec` under `label`, or `TRUE` where `set` holds.
fn push_cell(cells: &mut Vec<String>, rec: &Record, label: &str, set: bool)
    ensures
        texts_view(final(cells)@) == texts_view(old(cells)@).push(
            if set { true_text() } else { field_or_empty(rec@, label@) },
        ),
{
    let v = if set {
        proof {
            reveal_strlit("TRUE");
        }
        let t = text_of("TRUE");
        assert(t@ =~= true_text());
        t
    } else {
        rec.get(label)
    };
    let ghost before = cells@;
    cells.push(v);
    assert(texts_view(cells@) =~= texts_view(before).push(v@));
}

/// The write for one matched record: its fields in the fixed order, with the
/// merged branch's flag forced to `TRUE` and the other flag kept. A field the
/// record lacks is written as the empty string; this never fails.
pub fn build_update(rec: &Record, branch: Branch, sheet_name: &str) -> (r: RowUpdate)
    ensures
        update_view(r) == (update_range(rec@, sheet_name@), update_cells(rec@, branch)),
{
    proof {
        reveal_strlit("Number");
        reveal_strlit("Title");
        reveal_strlit("Description");
        reveal_strlit("Author");
        reveal_strlit("URL");
        reveal_strlit("Commit Hash");
        reveal_strlit("Merged Date");
        reveal_strlit("Deployable");
        reveal_strlit("RC");
        reveal_strlit("Production");
        reveal_strlit("range");
        reveal_strlit("!");
        assert("Number"@ =~= lab_number());
        assert("Title"@ =~= lab_title());
        assert("Description"@ =~= lab_description());
        assert("Author"@ =~= lab_author());
        assert("URL"@ =~= lab_url());
        assert("Commit Hash"@ =~= lab_commit());
        assert("Merged Date"@ =~= lab_merged());
        assert("Deployable"@ =~= lab_deployable());
        assert("RC"@ =~= lab_rc());
        assert("Production"@ =~= lab_production());
        assert("range"@ =~= range_label());
    }
    let mut cells: Vec<String> = Vec::new();
    push_cell(&mut cells, rec, "Number", false);
    push_cell(&mut cells, rec, "Title", false);
    push_cell(&mut cells, rec, "Description", false);
    push_cell(&mut cells, rec, "Author", false);
    push_cell(&mut cells, rec, "URL", false);
    push_cell(&mut cells, rec, "Commit Hash", false);
    push_cell(&mut cells, rec, "Merged Date", false);
    push_cell(&mut cells, rec, "Deployable", false);
    push_cell(&mut cells, rec, "RC", branch == Branch::Rc);
    push_cell(&mut cells, rec, "Production", branch == Branch::Master);
    assert(texts_view(cells@) =~= update_cells(rec@, branch));
    let mut range = text_of(sheet_name);
    range.append("!");
    let row = rec.get("range");
    range.append(row.as_str());
    assert(range@ =~= update_range(rec@, sheet_name@));
    RowUpdate { range, cells }
}

/// The writes that marking `titles` as merged into `branch` makes on a fetched
/// table: one per matched record, in sheet order.
pub fn plan_done(
    table: &Option<Vec<Vec<Cell>>>,
    titles: &Vec<String>,
    branch: Branch,
    sheet_name: &str,
) -> (r: Vec<RowUpdate>)
    ensures
        r@.map_values(|u: RowUpdate| update_view(u)) == updates_spec(
            locate_spec(decode_spec(opt_table_view(*table)), texts_view(titles@)),
            branch,
            sheet_name@,
        ),
{
    let records = decode(table);
    let matched = locate(&records, titles);
    let ghost mv = records_view(matched@);
    let mut out: Vec<RowUpdate> = Vec::new();
    let mut i: usize = 0;
    while i < matched.len()
        invariant
            i <= matched@.len(),
            mv == records_view(matched@),
            out@.map_values(|u: RowUpdate| update_view(u)) == updates_spec(
                mv,
                branch,
                sheet_name@,
            ).subrange(0, i as int),
        decreases matched.len() - i,
    {
        let u = build_update(&matched[i], branch, sheet_name);
        let ghost before = out@;
        out.push(u);
        assert(mv[i as int] == matched@[i as int]@);
        assert(out@.map_values(|u: RowUpdate| update_view(u)) =~= before.map_values(
            |u: RowUpdate| update_view(u),
        ).push(update_view(u)));
        assert(out@.map_values(|u: RowUpdate| update_view(u)) =~= updates_spec(
            mv,
            branch,
            sheet_name@,
        ).subrange(0, i + 1));
        i = i + 1;
    }
    assert(updates_spec(mv, branch, sheet_name@).subrange(0, i as int) =~= updates_spec(
        mv,
        branch,
        sheet_name@,
    ));
    out
}

/// Marking a record as merged into the release-candidate branch sets its
/// `RC` flag to `TRUE` and keeps its `Production` flag; marking it as merged
/// into production does the reverse. The other eight cells are the record's
/// own either way.
pub proof fn lemma_branch_flags(rec: Map<Seq<char>, Seq<char>>)
    ensures
        update_cells(rec, Branch::Rc)[8] == true_text(),
        update_cells(rec, Branch::Rc)[9] == field_or_empty(rec, lab_production()),
        update_cells(rec, Branch::Master)[8] == field_or_empty(rec, lab_rc()),
        update_cells(rec, Branch::Master)[9] == true_text(),
        update_cells(rec, Branch::Rc).subrange(0, 8) == update_cells(rec, Branch::Master).subrange(
            0,
            8,
        ),
        update_cells(rec, Branch::Rc).len() == 10,
        update_cells(rec, Branch::Master).len() == 10,
{
    assert(update_cells(rec, Branch::Rc).subrange(0, 8) =~= update_cells(
        rec,
        Branch::Master,
    ).subrange(0, 8));
}

} // verus!
