//! The validated options a run is driven by, and the decisions taken while
//! they are assembled: which input the paths select, which output mode the
//! flags select, which combinations conflict, and how numeric option text is
//! validated.

use vstd::prelude::*;
use crate::errors::ArgumentError;
use crate::severity::ErrorLevel;

verus! {

/// Where candidate files come from when directories are walked.
#[derive(Debug, PartialEq, Eq)]
pub struct PathWalkSource {
    pub paths: Vec<String>,
    pub follow: bool,
    pub hidden: bool,
    pub no_ignore: bool,
    pub no_ignore_vcs: bool,
    pub no_ignore_parent: bool,
    pub maxdepth: Option<usize>,
    pub threads: usize,
}

/// Where candidate content comes from: walked paths, or standard input.
#[derive(Debug, PartialEq, Eq)]
pub enum SearchInput {
    PathWalk(PathWalkSource),
    StdIn,
}

/// What a search emits: every searched path, one diagnostic per qualifying
/// match, or the paths that do or do not hold a qualifying match.
#[derive(Debug, PartialEq, Eq, Clone, Copy)]
pub enum SearchOutput {
    ListFiles,
    Message,
    File { matched: bool },
}

/// What one invocation asks for.
#[derive(Debug)]
pub enum Action {
    Search { input: SearchInput, min_severity: ErrorLevel, output: SearchOutput },
    PrintTypes,
}

/// How records are emitted.
#[derive(Debug, PartialEq, Eq)]
pub struct Printer {
    pub quiet: bool,
    pub null: bool,
}

/// The validated options of one run.
#[derive(Debug)]
pub struct App {
    pub action: Action,
    pub printer: Printer,
    pub lint_path: String,
}

impl SearchOutput {
    /// The output mode the three mutually exclusive flags select; none of
    /// them means per-match messages.
    pub fn from_flags(files: bool, files_with_errors: bool, files_without_errors: bool) -> (r:
        SearchOutput)
        ensures
            r == if files {
                SearchOutput::ListFiles
            } else if files_with_errors {
                SearchOutput::File { matched: true }
            } else if files_without_errors {
                SearchOutput::File { matched: false }
            } else {
                SearchOutput::Message
            },
    {
        if files {
            SearchOutput::ListFiles
        } else if files_with_errors {
            SearchOutput::File { matched: true }
        } else if files_without_errors {
            SearchOutput::File { matched: false }
        } else {
            SearchOutput::Message
        }
    }
}

/// Whether a path list asks for standard input: a single `-`. Mixing `-`
/// with file paths is a conflict.
pub fn is_stdin_requested(paths: &Vec<String>) -> (r: Result<bool, ArgumentError>)
    ensures
        match r {
            Ok(b) => {
                &&& b == (paths@.len() == 1 && paths@[0]@ == "-"@)
                &&& paths@.len() == 1 || (forall|i: int|
                    0 <= i < paths@.len() ==> paths@[i]@ != "-"@)
            },
            Err(e) => {
                &&& paths@.len() != 1
                &&& exists|i: int| 0 <= i < paths@.len() && paths@[i]@ == "-"@
                &&& e matches ArgumentError::Conflict { message } && message@
                    == "Cannot mix stdin (-) with file paths"@
            },
        },
{
    if paths.len() == 1 {
        Ok(paths[0] == "-".to_owned())
    } else {
        let mut i: usize = 0;
        while i < paths.len()
            invariant
                0 <= i <= paths@.len(),
                forall|j: int| 0 <= j < i ==> paths@[j]@ != "-"@,
                paths@.len() != 1,
            decreases paths@.len() - i,
        {
            if paths[i] == "-".to_owned() {
                return Err(
                    ArgumentError::Conflict {
                        message: "Cannot mix stdin (-) with file paths".to_owned(),
                    },
                );
            }
            i = i + 1;
        }
        Ok(false)
    }
}

impl Action {
    /// Whether an input and an output mode may be combined: standard input
    /// cannot be walked, so it cannot be mixed with listing files.
    pub fn check_search(input: &SearchInput, output: &SearchOutput) -> (r: Result<
        (),
        ArgumentError,
    >)
        ensures
            match r {
                Ok(()) => !(*input is StdIn && *output is ListFiles),
                Err(e) => {
                    &&& *input is StdIn && *output is ListFiles
                    &&& e matches ArgumentError::Conflict { message } && message@
                        == "Cannot mix stdin (-) with --files"@
                },
            },
    {
        match (input, output) {
            (SearchInput::StdIn, SearchOutput::ListFiles) => Err(
                ArgumentError::Conflict {
                    message: "Cannot mix stdin (-) with --files".to_owned(),
                },
            ),
            _ => Ok(()),
        }
    }
}

/// The directory above a directory, if any: what is left when the last
/// path component goes. A bare name's parent is the empty directory, the
/// current one; the root and the empty directory have none.
pub open spec fn parent_dir(d: Seq<char>) -> Option<Seq<char>> {
    if d.len() == 0 {
        Option::None
    } else if crate::types::last_slash(d) < 0 {
        Option::Some(Seq::empty())
    } else if crate::types::last_slash(d) == 0 {
        if d.len() == 1 {
            Option::None
        } else {
            Option::Some("/"@)
        }
    } else {
        Option::Some(d.take(crate::types::last_slash(d)))
    }
}

/// A file name under a directory.
pub open spec fn spec_join(d: Seq<char>, name: Seq<char>) -> Seq<char> {
    if d.len() == 0 {
        name
    } else if d == "/"@ {
        "/"@ + name
    } else {
        d + "/"@ + name
    }
}

/// The parent of a nonempty directory is shorter.
proof fn lemma_parent_shorter(d: Seq<char>)
    requires
        parent_dir(d) is Some,
    ensures
        parent_dir(d) matches Option::Some(p) && p.len() < d.len(),
{
    reveal_strlit("/");
    crate::types::lemma_last_slash_bounds(d);
}

/// The paths where a project file of the given name may stand: under the
/// starting directory, then under each of its ancestors in turn. The first
/// of these that exists is the file an unadorned invocation reads.
pub open spec fn candidate_paths(d: Seq<char>, name: Seq<char>) -> Seq<Seq<char>>
    decreases d.len(),
{
    seq![spec_join(d, name)] + match parent_dir(d) {
        Option::Some(p) => if p.len() < d.len() {
            candidate_paths(p, name)
        } else {
            Seq::empty()
        },
        Option::None => Seq::empty(),
    }
}

/// The position of the last separator of a directory text, if any.
fn find_last_slash(d: &str) -> (r: Option<usize>)
    ensures
        match r {
            Some(i) => crate::types::last_slash(d@) == i as int,
            None => crate::types::last_slash(d@) < 0,
        },
{
    let n = d.unicode_len();
    let mut i: usize = 0;
    let mut found: Option<usize> = Option::None;
    while i < n
        invariant
            0 <= i <= n,
            n == d@.len(),
            match found {
                Option::Some(f) => f < i && crate::types::last_slash(d@.take(i as int)) == f as int,
                Option::None => crate::types::last_slash(d@.take(i as int)) < 0,
            },
        decreases n - i,
    {
        proof {
            assert(d@.take(i as int + 1).drop_last() =~= d@.take(i as int));
        }
        if d.get_char(i) == '/' {
            found = Option::Some(i);
        }
        i = i + 1;
    }
    proof {
        assert(d@.take(n as int) =~= d@);
    }
    found
}

/// The directory above a directory, if any.
fn parent_dir_of(d: &str) -> (r: Option<String>)
    ensures
        match r {
            Some(p) => parent_dir(d@) == Option::Some(p@),
            None => parent_dir(d@) is None,
        },
{
    let n = d.unicode_len();
    if n == 0 {
        return Option::None;
    }
    match find_last_slash(d) {
        Option::None => Option::Some(String::new()),
        Option::Some(i) => {
            if i == 0 {
                if n == 1 {
                    Option::None
                } else {
                    Option::Some("/".to_owned())
                }
            } else {
                proof {
                    crate::types::lemma_last_slash_bounds(d@);
                }
                Option::Some(d.substring_char(0, i).to_owned())
            }
        },
    }
}

/// A file name under a directory.
fn join_path(d: &str, name: &str) -> (r: String)
    ensures
        r@ == spec_join(d@, name@),
{
    let n = d.unicode_len();
    if n == 0 {
        return name.to_owned();
    }
    proof {
        reveal_strlit("/");
    }
    if n == 1 && d.get_char(0) == '/' {
        proof {
            assert(d@ =~= "/"@);
        }
        let mut r = "/".to_owned();
        r.append(name);
        return r;
    }
    proof {
        assert("/"@.len() == 1);
        if d@ == "/"@ {
            assert(d@.len() == 1);
            assert(d@[0] == '/');
            assert(false);
        }
    }
    let mut r = d.to_owned();
    r.append("/");
    r.append(name);
    r
}

/// The paths where a project file of the given name may stand, nearest
/// first: under the starting directory, then under each ancestor. Whoever
/// drives the run takes the first that exists.
pub fn find_project_file_candidates(dir: &str, name: &str) -> (r: Vec<String>)
    ensures
        strings_view_args(r@) == candidate_paths(dir@, name@),
    decreases dir@.len(),
{
    let mut out: Vec<String> = Vec::new();
    out.push(join_path(dir, name));
    match parent_dir_of(dir) {
        Option::Some(p) => {
            proof {
                lemma_parent_shorter(dir@);
            }
            let mut rest = find_project_file_candidates(p.as_str(), name);
            let ghost out0 = out@;
            let ghost restv = rest@;
            out.append(&mut rest);
            proof {
                assert(out@ =~= out0 + restv);
                assert(strings_view_args(out@) =~= candidate_paths(dir@, name@));
            }
        },
        Option::None => {
            proof {
                assert(strings_view_args(out@) =~= candidate_paths(dir@, name@));
            }
        },
    }
    out
}

/// The character sequences a list of strings holds.
pub open spec fn strings_view_args(ss: Seq<String>) -> Seq<Seq<char>> {
    crate::types::strings_view(ss)
}

/// Whether a character is a decimal digit.
pub open spec fn is_digit(c: char) -> bool {
    '0' <= c && c <= '9'
}

/// The digits of an unsigned number literal, after one optional `+` sign.
pub open spec fn number_body(s: Seq<char>) -> Seq<char> {
    if s.len() > 0 && s[0] == '+' {
        s.skip(1)
    } else {
        s
    }
}

/// The value a digit sequence denotes.
pub open spec fn dec_value(s: Seq<char>) -> nat
    decreases s.len(),
{
    if s.len() == 0 {
        0
    } else {
        dec_value(s.drop_last()) * 10 + (s.last() as int - '0' as int) as nat
    }
}

/// Why a number literal is rejected, in the order the digits are read:
/// empty text, then the first character that is no digit, then a value that
/// no longer fits.
pub ghost enum NumErr {
    Empty,
    InvalidDigit,
    PosOverflow,
}

/// The message each rejection carries.
pub open spec fn num_err_msg(k: NumErr) -> Seq<char> {
    match k {
        NumErr::Empty => "cannot parse integer from empty string"@,
        NumErr::InvalidDigit => "invalid digit found in string"@,
        NumErr::PosOverflow => "number too large to fit in target type"@,
    }
}

/// Reading digits left to right into an accumulator: the first non-digit
/// rejects the text, and so does the first step that leaves `usize`.
pub open spec fn parse_num_rec(b: Seq<char>, acc: nat) -> Result<nat, NumErr>
    decreases b.len(),
{
    if b.len() == 0 {
        Ok(acc)
    } else if !is_digit(b[0]) {
        Err(NumErr::InvalidDigit)
    } else if acc * 10 + (b[0] as int - '0' as int) > usize::MAX as int {
        Err(NumErr::PosOverflow)
    } else {
        parse_num_rec(b.skip(1), (acc * 10 + (b[0] as int - '0' as int)) as nat)
    }
}

/// What `usize::from_str` makes of a text: an optional `+` sign, then at
/// least one digit, read as `parse_num_rec` reads them.
pub open spec fn parse_num(s: Seq<char>) -> Result<nat, NumErr> {
    if s.len() == 0 {
        Err(NumErr::Empty)
    } else if number_body(s).len() == 0 {
        Err(NumErr::InvalidDigit)
    } else {
        parse_num_rec(number_body(s), 0)
    }
}

/// Parse the text of an unsigned number, as `usize::from_str` reads it.
/// Succeeds exactly on well-formed text whose value fits, and then returns
/// the value the digits denote.
pub fn parse_usize(s: &str) -> (r: Result<usize, String>)
    ensures
        match r {
            Ok(n) => parse_num(s@) == Ok::<nat, NumErr>(n as nat) && n as nat == dec_value(
                number_body(s@),
            ),
            Err(m) => parse_num(s@) matches Err(k) && m@ == num_err_msg(k),
        },
{
    let n = s.unicode_len();
    if n == 0 {
        return Err("cannot parse integer from empty string".to_owned());
    }
    let start: usize = if s.get_char(0) == '+' {
        1
    } else {
        0
    };
    let ghost body = number_body(s@);
    proof {
        assert(body =~= s@.subrange(start as int, n as int));
    }
    if start == n {
        return Err("invalid digit found in string".to_owned());
    }
    let mut value: usize = 0;
    let mut i: usize = start;
    proof {
        assert(body.skip(0) =~= body);
    }
    while i < n
        invariant
            start <= i <= n,
            n == s@.len(),
            0 < n,
            start <= 1,
            start < n,
            body == s@.subrange(start as int, n as int),
            body == number_body(s@),
            body.len() == n - start,
            value as nat == dec_value(body.take(i - start)),
            parse_num_rec(body, 0) == parse_num_rec(body.skip(i - start), value as nat),
        decreases n - i,
    {
        let ghost rest = body.skip(i - start);
        proof {
            assert(rest[0] == body[i - start]);
            assert(body[i - start] == s@[i as int]);
            assert(rest.skip(1) =~= body.skip(i - start + 1));
        }
        let c = s.get_char(i);
        if c < '0' || c > '9' {
            return Err("invalid digit found in string".to_owned());
        }
        let d: usize = (c as usize) - 48;
        proof {
            assert(d == body[i - start] as int - '0' as int);
        }
        if value > (usize::MAX - d) / 10 {
            proof {
                assert(value * 10 + d > usize::MAX) by (nonlinear_arith)
                    requires
                        value > (usize::MAX - d) / 10,
                        d <= 9,
                        0 <= value,
                ;
            }
            return Err("number too large to fit in target type".to_owned());
        }
        proof {
            assert(value * 10 + d <= usize::MAX) by (nonlinear_arith)
                requires
                    value <= (usize::MAX - d) / 10,
                    d <= 9,
                    0 <= value,
            ;
            assert(body.take(i - start + 1).drop_last() =~= body.take(i - start));
            assert(body.take(i - start + 1).last() == body[i - start]);
        }
        value = value * 10 + d;
        i = i + 1;
    }
    proof {
        assert(body.take(body.len() as int) =~= body);
        assert(body.skip(body.len() as int).len() == 0);
    }
    Ok(value)
}

/// Check the text of a numeric option, as the argument parser's validators
/// do.
pub fn validate_number(s: String) -> (r: Result<(), String>)
    ensures
        match r {
            Ok(()) => parse_num(s@) is Ok,
            Err(m) => parse_num(s@) matches Err(k) && m@ == num_err_msg(k),
        },
{
    match parse_usize(s.as_str()) {
        Ok(_) => Ok(()),
        Err(m) => Err(m),
    }
}

} // verus!
