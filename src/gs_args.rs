use vstd::prelude::*;

use crate::codec::texts_view;
use crate::text::text_of;
use crate::update::{branch_name, Branch};

verus! {

/// The global options and the command of one invocation.
#[derive(Debug)]
pub struct GSArgs {
    pub command: Command,
    pub credential: String,
    pub sheet_id: String,
    pub sheet_name: String,
}

/// The operation an invocation performs.
#[derive(Debug)]
pub enum Command {
    /// Add a pull request to the sheet.
    Add(PRData),
    /// Mark pull requests as merged.
    Done(GitBranchWrapper),
    /// Fetch the sheet's records.
    Fetch,
}

/// The branch that pull requests were merged into.
#[derive(Debug)]
pub struct GitBranchWrapper {
    pub command: GitBranch,
}

/// A branch with the titles of the pull requests merged into it.
#[derive(Debug)]
pub enum GitBranch {
    /// Merged into the release-candidate branch.
    Rc(PRTitle),
    /// Merged into the production branch.
    Master(PRTitle),
}

/// The titles of the pull requests to mark as done.
#[derive(Debug)]
pub struct PRTitle {
    pub title: Vec<String>,
}

/// The items of data of a new pull request, one per column.
#[derive(Debug)]
pub struct PRData {
    pub data: Vec<String>,
}

/// The message for the first missing global option, if any.
pub open spec fn config_problem(credential: Seq<char>, sheet_id: Seq<char>, sheet_name: Seq<char>) -> Option<
    Seq<char>,
> {
    if credential.len() == 0 {
        Some("Credential is missing"@)
    } else if sheet_id.len() == 0 {
        Some("Sheet ID is missing"@)
    } else if sheet_name.len() == 0 {
        Some("Sheet name is missing"@)
    } else {
        None
    }
}

impl GSArgs {
    /// Checks that the credential, the sheet id and the sheet name are all
    /// given, in that order; the error names the first that is missing.
    pub fn check(&self) -> (r: Result<(), String>)
        ensures
            r is Ok <==> config_problem(self.credential@, self.sheet_id@, self.sheet_name@) is None,
            r is Err ==> Some(r->Err_0@) == config_problem(
                self.credential@,
                self.sheet_id@,
                self.sheet_name@,
            ),
    {
        if self.credential.as_str().unicode_len() == 0 {
            Err(text_of("Credential is missing"))
        } else if self.sheet_id.as_str().unicode_len() == 0 {
            Err(text_of("Sheet ID is missing"))
        } else if self.sheet_name.as_str().unicode_len() == 0 {
            Err(text_of("Sheet name is missing"))
        } else {
            Ok(())
        }
    }
}

impl GitBranch {
    /// The branch named by the command.
    pub fn branch(&self) -> (r: Branch)
        ensures
            r == (match *self {
                GitBranch::Rc(_) => Branch::Rc,
                GitBranch::Master(_) => Branch::Master,
            }),
    {
        match self {
            GitBranch::Rc(_) => Branch::Rc,
            GitBranch::Master(_) => Branch::Master,
        }
    }

    /// The titles given with the command.
    pub fn titles(&self) -> (r: &Vec<String>)
        ensures
            r == (match *self {
                GitBranch::Rc(t) => t.title,
                GitBranch::Master(t) => t.title,
            }),
    {
        match self {
            GitBranch::Rc(t) => &t.title,
            GitBranch::Master(t) => &t.title,
        }
    }
}

/// The debug text of a list of texts, as std writes it.
pub uninterp spec fn debug_list(v: Seq<Seq<char>>) -> Seq<char>;

/// Relies on std's Debug for `Vec<String>`: the bracketed, quoted and escaped
/// list, which depends on the texts alone.
#[verifier::external_body]
fn debug_text(v: &Vec<String>) -> (r: String)
    ensures
        r@ == debug_list(texts_view(v@)),
{
    format!("{:?}", v)
}

/// The report of a done command. It lists every requested title, whether or
/// not a row matched it.
pub fn done_message(titles: &Vec<String>, branch: Branch) -> (r: String)
    ensures
        r@ == "PR(s) with title(s) ["@ + debug_list(texts_view(titles@))
            + "] marked as done for ["@ + branch_name(branch) + "]"@,
{
    let mut r = text_of("PR(s) with title(s) [");
    let d = debug_text(titles);
    r.append(d.as_str());
    r.append("] marked as done for [");
    let b = branch.name();
    r.append(b.as_str());
    r.append("]");
    r
}

} // verus!
