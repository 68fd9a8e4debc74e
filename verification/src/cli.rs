//! What the model commands decide: which artifacts an installation fetches, and
//! what is reported of each model.

use vstd::prelude::*;
use vstd::string::*;
use crate::model::{model_table, models, resolve_model, resolve_model_spec};

verus! {

/// `text`, followed by as many spaces as it lacks to `width` characters.
pub open spec fn pad_right(text: Seq<char>, width: nat) -> Seq<char> {
    if text.len() >= width {
        text
    } else {
        text + Seq::new((width - text.len()) as nat, |i: int| ' ')
    }
}

/// `text`, followed by as many spaces as it lacks to `width` characters.
pub fn padded(text: &str, width: usize) -> (out: String)
    ensures
        out@ == pad_right(text@, width as nat),
{
    let mut out = String::from_str(text);
    let len = text.unicode_len();
    if len >= width {
        return out;
    }
    let mut at: usize = len;
    proof {
        reveal_strlit(" ");
        assert(out@ =~= text@ + Seq::new(0, |i: int| ' '));
    }
    while at < width
        invariant
            len <= at <= width,
            len == text@.len(),
            " "@ == seq![' '],
            out@ == text@ + Seq::new((at - len) as nat, |i: int| ' '),
        decreases width - at,
    {
        out.append(" ");
        at += 1;
        assert(out@ =~= text@ + Seq::new((at - len) as nat, |i: int| ' '));
    }
    out
}

/// How the state of a model is worded.
pub open spec fn marker(installed: bool) -> Seq<char> {
    if installed {
        "installed"@
    } else {
        "not installed"@
    }
}

/// The line that reports a model: its name in 8 columns, its repository in 36, and
/// whether it is installed.
pub open spec fn status_line_spec(name: Seq<char>, repo: Seq<char>, installed: bool) -> Seq<char> {
    "  "@ + pad_right(name, 8) + " "@ + pad_right(repo, 36) + " ("@ + marker(installed) + ")"@
}

/// The line that reports a model.
pub fn status_line(name: &str, repo: &str, installed: bool) -> (line: String)
    ensures
        line@ == status_line_spec(name@, repo@, installed),
{
    let mut line = String::from_str("  ");
    let name_column = padded(name, 8);
    line.append(name_column.as_str());
    line.append(" ");
    let repo_column = padded(repo, 36);
    line.append(repo_column.as_str());
    line.append(" (");
    line.append(if installed { "installed" } else { "not installed" });
    line.append(")");
    line
}

/// Whether a model counts as installed: both of its artifacts are there.
pub fn is_installed(model_present: bool, tokenizer_present: bool) -> (installed: bool)
    ensures
        installed == (model_present && tokenizer_present),
{
    model_present && tokenizer_present
}

/// The report of all models: one line for each, in the order of the table. A model
/// is reported as installed where `installed` says so at its index.
pub fn status(installed: &[bool]) -> (lines: Vec<String>)
    ensures
        lines.len() == model_table().len(),
        forall|i: int|
            0 <= i < lines.len() ==> (#[trigger] lines[i])@ == status_line_spec(
                model_table()[i].0@,
                model_table()[i].1.repo@,
                i < installed.len() && installed[i],
            ),
{
    let table = models();
    let mut lines: Vec<String> = Vec::new();
    let mut i: usize = 0;
    while i < table.len()
        invariant
            i <= table.len(),
            table@ == model_table(),
            lines.len() == i,
            forall|k: int|
                0 <= k < i ==> (#[trigger] lines[k])@ == status_line_spec(
                    model_table()[k].0@,
                    model_table()[k].1.repo@,
                    k < installed.len() && installed[k],
                ),
        decreases table.len() - i,
    {
        let there = i < installed.len() && installed[i];
        lines.push(status_line(table[i].0, table[i].1.repo, there));
        i += 1;
    }
    lines
}

/// What an installation fetches: the artifacts of one model, in this order.
#[derive(Clone, Debug)]
pub struct InstallPlan {
    pub repo: &'static str,
    pub files: Vec<&'static str>,
}

/// Plans the installation of the model that `model_name` stands for: its model
/// artifact first, then its vocabulary artifact.
pub fn install(model_name: Option<&str>) -> (plan: InstallPlan)
    ensures
        plan.repo == resolve_model_spec(model_name).repo,
        plan.files@ == seq![
            resolve_model_spec(model_name).model_file,
            resolve_model_spec(model_name).tokenizer_file,
        ],
{
    let config = resolve_model(model_name);
    let mut files: Vec<&'static str> = Vec::new();
    files.push(config.model_file);
    files.push(config.tokenizer_file);
    assert(files@ =~= seq![config.model_file, config.tokenizer_file]);
    InstallPlan { repo: config.repo, files }
}

/// The line that announces the download of a repository.
pub fn downloading_line(repo: &str) -> (line: String)
    ensures
        line@ == "Downloading "@ + repo@ + "..."@,
{
    let mut line = String::from_str("Downloading ");
    line.append(repo);
    line.append("...");
    line
}

/// The line that reports where an artifact was stored.
pub fn fetched_line(filename: &str, path: &str) -> (line: String)
    ensures
        line@ == "  "@ + filename@ + " -> "@ + path@,
{
    let mut line = String::from_str("  ");
    line.append(filename);
    line.append(" -> ");
    line.append(path);
    line
}

/// The two lines that report an artifact that could not be fetched.
pub fn failure_lines(filename: &str, error: &str) -> (lines: Vec<String>)
    ensures
        lines.len() == 2,
        lines[0]@ == "Failed to download "@ + filename@ + ": "@ + error@,
        lines[1]@ == "Check network connection and try again"@,
{
    let mut first = String::from_str("Failed to download ");
    first.append(filename);
    first.append(": ");
    first.append(error);
    let mut lines: Vec<String> = Vec::new();
    lines.push(first);
    lines.push(String::from_str("Check network connection and try again"));
    lines
}

/// The line that reports a finished installation.
pub fn installed_line(repo: &str) -> (line: String)
    ensures
        line@ == "Model installed: "@ + repo@,
{
    let mut line = String::from_str("Model installed: ");
    line.append(repo);
    line
}

} // verus!
