use pr_sheet::append::{added_message, sanitize_item, sanitize_items, unescape_text};
use pr_sheet::codec::{Cell, decode};
use pr_sheet::error::Error;
use pr_sheet::gs_args::{done_message, Command, GSArgs, GitBranch, PRTitle};
use pr_sheet::locate::locate;
use pr_sheet::update::{build_update, plan_done, Branch};

fn row(cells: &[&str]) -> Vec<Cell> {
    cells.iter().map(|c| Cell::Text(c.to_string())).collect()
}

fn strings(v: &[&str]) -> Vec<String> {
    v.iter().map(|s| s.to_string()).collect()
}

fn header() -> Vec<Cell> {
    row(&[
        "Number", "Title", "Description", "Author", "URL", "Commit Hash", "Merged Date",
        "Deployable", "RC", "Production",
    ])
}

fn sheet() -> Option<Vec<Vec<Cell>>> {
    Some(vec![
        header(),
        row(&["7", "PR-1", "desc", "ann", "http://x", "abc", "2024-01-01", "yes", "", "old"]),
    ])
}

#[test]
fn done_rc_end_to_end() {
    let updates = plan_done(&sheet(), &strings(&["PR-1 extra text"]), Branch::Rc, "Sheet1");
    assert_eq!(updates.len(), 1);
    assert_eq!(updates[0].range, "Sheet1!A2:Z2");
    assert_eq!(
        updates[0].cells,
        strings(&["7", "PR-1", "desc", "ann", "http://x", "abc", "2024-01-01", "yes", "TRUE", "old"])
    );
}

#[test]
fn done_rc_forces_rc_whatever_it_held() {
    let table = Some(vec![
        header(),
        row(&["1", "T", "", "", "", "", "", "", "FALSE", "maybe"]),
    ]);
    let recs = locate(&decode(&table), &strings(&["T"]));
    let u = build_update(&recs[0], Branch::Rc, "S");
    assert_eq!(u.cells[8], "TRUE");
    assert_eq!(u.cells[9], "maybe");
    assert_eq!(u.cells.len(), 10);
}

#[test]
fn done_master_forces_production_and_keeps_rc() {
    let table = Some(vec![
        header(),
        row(&["1", "T", "", "", "", "", "", "", "FALSE", "maybe"]),
    ]);
    let recs = locate(&decode(&table), &strings(&["T"]));
    let u = build_update(&recs[0], Branch::Master, "S");
    assert_eq!(u.cells[8], "FALSE");
    assert_eq!(u.cells[9], "TRUE");
    assert_eq!(u.range, "S!A2:Z2");
}

#[test]
fn done_fills_missing_fields_with_empty_text() {
    let table = Some(vec![row(&["Title", "Number"]), row(&["T", "5"])]);
    let updates = plan_done(&table, &strings(&["T"]), Branch::Master, "S");
    assert_eq!(updates[0].cells, strings(&["5", "T", "", "", "", "", "", "", "", "TRUE"]));
}

#[test]
fn done_with_empty_title_writes_nothing_but_reports_it() {
    let updates = plan_done(&sheet(), &strings(&[""]), Branch::Rc, "Sheet1");
    assert!(updates.is_empty());
    assert_eq!(
        done_message(&strings(&[""]), Branch::Rc),
        "PR(s) with title(s) [[\"\"]] marked as done for [rc]"
    );
}

#[test]
fn done_message_names_titles_and_branch() {
    assert_eq!(
        done_message(&strings(&["a", "b"]), Branch::Master),
        "PR(s) with title(s) [[\"a\", \"b\"]] marked as done for [master]"
    );
}

#[test]
fn branch_names() {
    assert_eq!(Branch::Rc.name(), "rc");
    assert_eq!(Branch::Master.name(), "master");
    let g = GitBranch::Master(PRTitle { title: strings(&["x"]) });
    assert_eq!(g.branch(), Branch::Master);
    assert_eq!(g.titles(), &strings(&["x"]));
}

#[test]
fn append_sanitizes_items() {
    assert_eq!(sanitize_item(""), "n/a");
    assert_eq!(sanitize_item("\\\"quoted\\\""), "\"quoted\"");
    assert_eq!(sanitize_item("\\`code\\`"), "`code`");
    assert_eq!(sanitize_item("plain \\n text"), "plain \\n text");
    assert_eq!(unescape_text("\\\\\""), "\\\"");
    assert_eq!(
        sanitize_items(&strings(&["12", "", "say \\\"x\\\""])),
        strings(&["12", "n/a", "say \"x\""])
    );
}

#[test]
fn added_message_names_first_item() {
    assert_eq!(added_message(&strings(&["42", "t"])), "PR [42] added to sheet");
}

fn args(credential: &str, sheet_id: &str, sheet_name: &str) -> GSArgs {
    GSArgs {
        command: Command::Fetch,
        credential: credential.to_string(),
        sheet_id: sheet_id.to_string(),
        sheet_name: sheet_name.to_string(),
    }
}

#[test]
fn config_check_names_first_missing_option() {
    assert_eq!(args("", "", "").check(), Err("Credential is missing".to_string()));
    assert_eq!(args("c", "", "").check(), Err("Sheet ID is missing".to_string()));
    assert_eq!(args("c", "i", "").check(), Err("Sheet name is missing".to_string()));
    assert_eq!(args("c", "i", "n").check(), Ok(()));
}

#[test]
fn error_origin_names_source_kind() {
    let e = Error::new("Could not fetch data".to_string(), "  Io(Kind) more", "broken pipe");
    assert_eq!(e.message, "Could not fetch data");
    assert_eq!(e.origin, "Io(Kind) (broken pipe)");
    assert_eq!(e.describe(), "Could not fetch data\nIo(Kind) (broken pipe)");
    let blank = Error::new("m".to_string(), " \t", "d");
    assert_eq!(blank.origin, " \t (d)");
}

#[test]
fn sourceless_and_empty_errors() {
    let e = Error::new_sourceless("Sheet ID is missing".to_string());
    assert_eq!(e.origin, "None");
    assert_eq!(e.describe(), "Sheet ID is missing\nNone");
    let z = Error::empty();
    assert_eq!(z.message, "");
    assert_eq!(z.origin, "None");
}
