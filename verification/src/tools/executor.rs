//! Running tool scripts: which script a call names, how its argument string
//! splits into arguments, and the text its output makes.  Starting the
//! process is left to the caller.

use vstd::prelude::*;
use crate::ai::client::{lossy_text, text_of_bytes};
use crate::paths::{file_stem, path_stem};
use crate::text::{decimal_signed, push_decimal_signed, string_views, trim, trim_str};
use crate::tools::protocol::ToolCall;
use crate::tools::registry::ToolRegistry;

verus! {

/// What the shlex crate's `split` gives for a string, as text.
pub uninterp spec fn shell_words(s: Seq<char>) -> Option<Seq<Seq<char>>>;

/// Split a string into words as a POSIX shell does (shlex's `split`); `None`
/// when the quoting is unbalanced.  The contract claims only that the result
/// is a function of the string.
#[verifier::external_body]
fn shlex_split(s: &str) -> (r: Option<Vec<String>>)
    ensures
        r matches Some(v) ==> shell_words(s@) == Some(string_views(v@)),
        r is None ==> shell_words(s@) is None,
{
    shlex::split(s)
}

/// The script a call names, or why there is none.
pub fn tool_script(registry: &ToolRegistry, call: &ToolCall) -> (r: Result<String, String>)
    ensures
        registry.tools_view().contains_key(call.name@) ==> (r matches Ok(p) && p@ == registry.tools_view()[call.name@].2),
        !registry.tools_view().contains_key(call.name@) ==> (r matches Err(m) && m@ == "Unknown tool: "@ + call.name@),
{
    match registry.get(call.name.as_str()) {
        Some(t) => Ok(t.script_path.clone()),
        None => {
            let mut m = String::from_str("Unknown tool: ");
            m.append(call.name.as_str());
            Err(m)
        },
    }
}

/// The arguments passed to a script: its argument string split as a shell
/// would, or the whole string as one argument when its quoting is unbalanced.
pub fn script_args(args: &str) -> (r: Vec<String>)
    ensures
        shell_words(args@) matches Some(w) ==> string_views(r@) == w,
        shell_words(args@) is None ==> string_views(r@) == seq![args@],
{
    match shlex_split(args) {
        Some(v) => v,
        None => {
            let mut v: Vec<String> = Vec::new();
            v.push(String::from_str(args));
            assert(string_views(v@) =~= seq![args@]);
            v
        },
    }
}

/// The text of the exit code: the number, or `unknown` when the process had none.
pub open spec fn exit_text(code: Option<i32>) -> Seq<char> {
    match code {
        Some(c) => decimal_signed(c as int),
        None => "unknown"@,
    }
}

/// The text a run makes: standard output when it is not blank, then standard
/// error when it is not blank (after a separator if output came first); when
/// that is blank, a note that the script (named by its file stem) printed
/// nothing, with its exit code.
pub open spec fn run_text(out: Seq<char>, err: Seq<char>, path: Seq<char>, code: Option<i32>) -> Seq<char> {
    let a = if trim(out).len() > 0 { out } else { seq![] };
    let b = if trim(err).len() > 0 {
        if a.len() > 0 { a + "\n--- STDERR ---\n"@ + err } else { a + err }
    } else {
        a
    };
    if trim(b).len() == 0 {
        let stem = match path_stem(path) {
            Some(s) => s,
            None => seq![],
        };
        "Tool '"@ + stem + "' completed with no output (exit: "@ + exit_text(code) + ")"@
    } else {
        b
    }
}

/// The text a finished run makes of its output bytes.
pub fn run_output(stdout: &[u8], stderr: &[u8], script_path: &str, exit_code: Option<i32>) -> (r: String)
    ensures
        r@ == run_text(lossy_text(stdout@), lossy_text(stderr@), script_path@, exit_code),
{
    let out = text_of_bytes(stdout);
    let err = text_of_bytes(stderr);
    let mut combined = String::new();
    if !trim_str(out.as_str()).as_str().is_empty() {
        combined.append(out.as_str());
    }
    if !trim_str(err.as_str()).as_str().is_empty() {
        if !combined.as_str().is_empty() {
            combined.append("\n--- STDERR ---\n");
        }
        combined.append(err.as_str());
    }
    if trim_str(combined.as_str()).as_str().is_empty() {
        let mut m = String::from_str("Tool '");
        match file_stem(script_path) {
            Some(s) => m.append(s.as_str()),
            None => {},
        }
        m.append("' completed with no output (exit: ");
        match exit_code {
            Some(c) => push_decimal_signed(&mut m, c as i64),
            None => m.append("unknown"),
        }
        m.append(")");
        return m;
    }
    combined
}

} // verus!
