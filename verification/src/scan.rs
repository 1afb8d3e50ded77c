//! The scan aggregator: which walker entries are kept, which files are
//! eligible, what each output mode emits for a file, and what the run's
//! status is. Content is matched line by line through the pattern engine;
//! everything else here is decided and proved.

use vstd::prelude::*;
use crate::args::SearchOutput;
use crate::config::ConfigValue;
use crate::lints::{Lint, LintV, FieldErrK, lints_view, lints_model};
use crate::printer::{IoPrinter, path_record, type_def_record};
use crate::severity::{ErrorLevel, level_rank, spec_level_name};
use crate::types::{FileTypeDef, TypeDefV, defs_view, spec_file_name, strings_view, types_match};
use crate::pattern::pattern_hits;

verus! {

/// What a completed run reports: for exit-code purposes, a content-sensitive
/// run with no qualifying file signals failure.
#[derive(Clone, Copy, Debug, PartialEq, Eq, Structural)]
pub enum ActionStatus {
    Success,
    Failure,
}

/// What kind of entry the walker produced.
#[derive(Clone, Copy, Debug, PartialEq, Eq, Structural)]
pub enum FileKind {
    File,
    Dir,
    Other,
}

/// Whether a walker entry is kept for scanning: entries without a kind are
/// standard input and always kept; a depth of zero names a path the user
/// gave explicitly, kept unless it is a directory; otherwise only plain
/// files are kept.
pub open spec fn spec_keep_entry(depth: int, kind: Option<FileKind>) -> bool {
    match kind {
        Option::None => true,
        Option::Some(k) => if depth == 0 && !(k is Dir) {
            true
        } else {
            k is File
        },
    }
}

/// Decide whether a walker entry is kept for scanning.
pub fn keep_entry(depth: usize, kind: Option<FileKind>) -> (r: bool)
    ensures
        r == spec_keep_entry(depth as int, kind),
{
    match kind {
        Option::None => true,
        Option::Some(k) => {
            if depth == 0 && !matches!(k, FileKind::Dir) {
                true
            } else {
                matches!(k, FileKind::File)
            }
        },
    }
}

/// Whether one rule's file-type filter lets it scan a path.
pub open spec fn spec_lint_applies(l: LintV, path: Seq<char>) -> bool {
    types_match(l.types, spec_file_name(path))
}

/// Whether a path is eligible: some rule's filter matches it, or the rule
/// set is empty, in which case everything is eligible.
pub open spec fn spec_eligible(lints: Seq<LintV>, path: Seq<char>) -> bool {
    lints.len() == 0 || exists|i: int| 0 <= i < lints.len() && spec_lint_applies(lints[i], path)
}

/// Decide whether any rule is eligible to scan a path. The result does not
/// depend on the order the rules are tried in.
pub fn is_file_supported(path: &str, lints: &Vec<Lint>) -> (r: bool)
    ensures
        r == spec_eligible(lints_view(lints@), path@),
{
    if lints.len() == 0 {
        return true;
    }
    let mut i: usize = 0;
    while i < lints.len()
        invariant
            0 <= i <= lints@.len(),
            forall|k: int| 0 <= k < i ==> !spec_lint_applies(lints_view(lints@)[k], path@),
        decreases lints@.len() - i,
    {
        if lints[i].types.matches_path(path) {
            proof {
                assert(lints_view(lints@)[i as int] == lints@[i as int]@);
                assert(spec_lint_applies(lints_view(lints@)[i as int], path@));
            }
            return true;
        }
        proof {
            assert(lints_view(lints@)[i as int] == lints@[i as int]@);
        }
        i = i + 1;
    }
    false
}

/// The records a type listing emits: one per definition, in order.
pub open spec fn type_records(defs: Seq<TypeDefV>, sep: u8) -> Seq<u8>
    decreases defs.len(),
{
    if defs.len() == 0 {
        Seq::empty()
    } else {
        type_def_record(defs[0]) + seq![sep] + type_records(defs.skip(1), sep)
    }
}

/// List every known file-type definition. The listing succeeds when there
/// is anything to list.
pub fn run_types(printer: &mut IoPrinter, type_defs: &Vec<FileTypeDef>) -> (r: ActionStatus)
    ensures
        final(printer)@.out == old(printer)@.out + if old(printer)@.quiet {
            Seq::<u8>::empty()
        } else {
            type_records(defs_view(type_defs@), old(printer)@.sep)
        },
        final(printer)@.sep == old(printer)@.sep,
        final(printer)@.quiet == old(printer)@.quiet,
        r == if type_defs@.len() > 0 {
            ActionStatus::Success
        } else {
            ActionStatus::Failure
        },
{
    let ghost dv = defs_view(type_defs@);
    let ghost emitted_all: Seq<u8> = if old(printer)@.quiet {
        Seq::empty()
    } else {
        type_records(dv, old(printer)@.sep)
    };
    proof {
        assert(dv.skip(0) =~= dv);
    }
    let mut status = ActionStatus::Failure;
    let mut i: usize = 0;
    while i < type_defs.len()
        invariant
            0 <= i <= type_defs@.len(),
            dv == defs_view(type_defs@),
            dv.len() == type_defs@.len(),
            printer@.sep == old(printer)@.sep,
            printer@.quiet == old(printer)@.quiet,
            emitted_all == if old(printer)@.quiet {
                Seq::<u8>::empty()
            } else {
                type_records(dv, old(printer)@.sep)
            },
            old(printer)@.out + emitted_all == printer@.out + if old(printer)@.quiet {
                Seq::<u8>::empty()
            } else {
                type_records(dv.skip(i as int), old(printer)@.sep)
            },
            status == if i > 0 {
                ActionStatus::Success
            } else {
                ActionStatus::Failure
            },
        decreases type_defs@.len() - i,
    {
        proof {
            assert(dv.skip(i as int)[0] == dv[i as int]);
            assert(dv.skip(i as int).skip(1) =~= dv.skip(i as int + 1));
            assert(dv[i as int] == type_defs@[i as int]@);
        }
        status = ActionStatus::Success;
        let ghost before = printer@.out;
        printer.type_def(&type_defs[i]);
        proof {
            if !old(printer)@.quiet {
                assert(before + (type_def_record(dv[i as int]) + seq![old(printer)@.sep]
                    + type_records(dv.skip(i as int + 1), old(printer)@.sep)) =~= (before
                    + type_def_record(dv[i as int]) + seq![old(printer)@.sep]) + type_records(
                    dv.skip(i as int + 1),
                    old(printer)@.sep,
                ));
            }
        }
        i = i + 1;
    }
    proof {
        assert(dv.skip(dv.len() as int).len() == 0);
        assert(printer@.out + Seq::<u8>::empty() =~= printer@.out);
    }
    status
}

/// The records a file listing emits: one per eligible path, in order.
pub open spec fn list_output(lints: Seq<LintV>, paths: Seq<Seq<char>>, sep: u8) -> Seq<u8>
    decreases paths.len(),
{
    if paths.len() == 0 {
        Seq::empty()
    } else {
        (if spec_eligible(lints, paths[0]) {
            path_record(paths[0]) + seq![sep]
        } else {
            Seq::empty()
        }) + list_output(lints, paths.skip(1), sep)
    }
}

/// List the kept candidate paths that are eligible, without reading any
/// content. A completed listing is a success: only content-sensitive modes
/// signal failure when nothing qualifies.
pub fn run_file_one_thread(printer: &mut IoPrinter, paths: &Vec<String>, lints: &Vec<Lint>) -> (r:
    ActionStatus)
    ensures
        final(printer)@.out == old(printer)@.out + if old(printer)@.quiet {
            Seq::<u8>::empty()
        } else {
            list_output(lints_view(lints@), strings_view(paths@), old(printer)@.sep)
        },
        final(printer)@.sep == old(printer)@.sep,
        final(printer)@.quiet == old(printer)@.quiet,
        r == ActionStatus::Success,
{
    let ghost lv = lints_view(lints@);
    let ghost pv = strings_view(paths@);
    let ghost emitted_all: Seq<u8> = if old(printer)@.quiet {
        Seq::empty()
    } else {
        list_output(lv, pv, old(printer)@.sep)
    };
    proof {
        assert(pv.skip(0) =~= pv);
    }
    let mut i: usize = 0;
    while i < paths.len()
        invariant
            0 <= i <= paths@.len(),
            lv == lints_view(lints@),
            pv == strings_view(paths@),
            pv.len() == paths@.len(),
            printer@.sep == old(printer)@.sep,
            printer@.quiet == old(printer)@.quiet,
            emitted_all == if old(printer)@.quiet {
                Seq::<u8>::empty()
            } else {
                list_output(lv, pv, old(printer)@.sep)
            },
            old(printer)@.out + emitted_all == printer@.out + if old(printer)@.quiet {
                Seq::<u8>::empty()
            } else {
                list_output(lv, pv.skip(i as int), old(printer)@.sep)
            },
        decreases paths@.len() - i,
    {
        proof {
            assert(pv.skip(i as int)[0] == pv[i as int]);
            assert(pv.skip(i as int).skip(1) =~= pv.skip(i as int + 1));
            assert(pv[i as int] == paths@[i as int]@);
        }
        let ghost before = printer@.out;
        if is_file_supported(paths[i].as_str(), lints) {
            printer.path(paths[i].as_str());
            proof {
                if !old(printer)@.quiet {
                    assert(before + ((path_record(pv[i as int]) + seq![old(printer)@.sep])
                        + list_output(lv, pv.skip(i as int + 1), old(printer)@.sep)) =~= (before
                        + path_record(pv[i as int]) + seq![old(printer)@.sep]) + list_output(
                        lv,
                        pv.skip(i as int + 1),
                        old(printer)@.sep,
                    ));
                }
            }
        }
        i = i + 1;
    }
    proof {
        assert(pv.skip(pv.len() as int).len() == 0);
        assert(printer@.out + Seq::<u8>::empty() =~= printer@.out);
    }
    ActionStatus::Success
}

/// The position of the first newline byte, or the length when there is
/// none.
pub open spec fn first_nl(b: Seq<u8>) -> int
    decreases b.len(),
{
    if b.len() == 0 {
        0
    } else if b[0] == 10 {
        0
    } else {
        1 + first_nl(b.skip(1))
    }
}

/// A position with the first-newline property is the one `first_nl` finds.
pub proof fn lemma_first_nl_is(b: Seq<u8>, i: int)
    requires
        0 <= i <= b.len(),
        forall|k: int| 0 <= k < i ==> b[k] != 10,
        i < b.len() ==> b[i] == 10,
    ensures
        first_nl(b) == i,
    decreases b.len(),
{
    if i > 0 {
        lemma_first_nl_is(b.skip(1), i - 1);
    }
}

/// The lines of a content: what stands between newline bytes; a final line
/// needs no terminating newline, and empty content has no lines.
pub open spec fn split_lines(b: Seq<u8>) -> Seq<Seq<u8>>
    decreases b.len(),
{
    if b.len() == 0 {
        Seq::empty()
    } else {
        let i = first_nl(b);
        if 0 <= i < b.len() {
            seq![b.take(i)] + split_lines(b.skip(i + 1))
        } else {
            seq![b]
        }
    }
}

/// The byte sequences a list of lines holds.
pub open spec fn lines_view(ls: Seq<Vec<u8>>) -> Seq<Seq<u8>> {
    ls.map_values(|l: Vec<u8>| l@)
}

/// Split content into its lines.
pub fn split_into_lines(content: &[u8]) -> (r: Vec<Vec<u8>>)
    ensures
        lines_view(r@) == split_lines(content@),
{
    let mut out: Vec<Vec<u8>> = Vec::new();
    let n = content.len();
    let mut start: usize = 0;
    proof {
        assert(content@.skip(0) =~= content@);
        assert(lines_view(out@) =~= Seq::<Seq<u8>>::empty());
    }
    while start < n
        invariant
            0 <= start <= n,
            n == content@.len(),
            lines_view(out@) + split_lines(content@.skip(start as int)) =~= split_lines(content@),
        decreases n - start,
    {
        let ghost rest = content@.skip(start as int);
        let mut j: usize = start;
        while j < n && content[j] != 10
            invariant
                start <= j <= n,
                n == content@.len(),
                rest == content@.skip(start as int),
                forall|k: int| start <= k < j ==> content@[k] != 10,
            decreases n - j,
        {
            j = j + 1;
        }
        proof {
            assert(forall|k: int| 0 <= k < j - start ==> rest[k] == content@[k + start]);
            if j < n {
                assert(rest[j - start] == content@[j as int]);
            }
            lemma_first_nl_is(rest, j - start);
        }
        let line = vstd::slice::slice_to_vec(vstd::slice::slice_subrange(content, start, j));
        let ghost old_out = out@;
        out.push(line);
        proof {
            assert(lines_view(out@) =~= lines_view(old_out).push(
                content@.subrange(start as int, j as int),
            ));
        }
        if j < n {
            proof {
                assert(rest.take(j - start) =~= content@.subrange(start as int, j as int));
                assert(rest.skip(j - start + 1) =~= content@.skip(j as int + 1));
                assert(split_lines(rest) == seq![rest.take(j - start)] + split_lines(
                    content@.skip(j as int + 1),
                ));
                assert(lines_view(old_out) + (seq![rest.take(j - start)] + split_lines(
                    content@.skip(j as int + 1),
                )) =~= lines_view(out@) + split_lines(content@.skip(j as int + 1)));
            }
            start = j + 1;
        } else {
            proof {
                assert(rest =~= content@.subrange(start as int, j as int));
                assert(first_nl(rest) == rest.len());
                assert(split_lines(rest) == seq![rest]);
                assert(lines_view(old_out) + seq![rest] =~= lines_view(out@));
                assert(content@.skip(n as int).len() == 0);
                assert(lines_view(out@) + split_lines(content@.skip(n as int)) =~= lines_view(
                    out@,
                ));
            }
            start = n;
        }
    }
    proof {
        assert(content@.skip(n as int).len() == 0);
        assert(lines_view(out@) + Seq::<Seq<u8>>::empty() =~= lines_view(out@));
    }
    out
}

/// The decimal digits of a number, most significant first.
pub open spec fn dec_bytes(n: nat) -> Seq<u8>
    decreases n,
{
    if n < 10 {
        seq![(48 + n) as u8]
    } else {
        dec_bytes(n / 10) + seq![(48 + n % 10) as u8]
    }
}

/// Append the decimal digits of a number.
fn push_dec(out: &mut Vec<u8>, n: usize)
    ensures
        final(out)@ == old(out)@ + dec_bytes(n as nat),
    decreases n,
{
    if n < 10 {
        out.push(48 + n as u8);
        proof {
            assert(final(out)@ =~= old(out)@ + dec_bytes(n as nat));
        }
    } else {
        push_dec(out, n / 10);
        out.push(48 + (n % 10) as u8);
        proof {
            assert(old(out)@ + (dec_bytes(n as nat / 10) + seq![(48 + n as nat % 10) as u8]) =~= (
            old(out)@ + dec_bytes(n as nat / 10)).push((48 + n as nat % 10) as u8));
            assert(final(out)@ =~= old(out)@ + dec_bytes(n as nat));
        }
    }
}

/// Whether a rule's findings reach the run's minimum severity.
pub open spec fn spec_qualifies(l: LintV, min: ErrorLevel) -> bool {
    level_rank(l.severity) >= level_rank(min)
}

/// Whether a pattern matches some line of a content.
pub open spec fn lint_hits_lines(l: LintV, lines: Seq<Seq<u8>>) -> bool {
    exists|i: int| 0 <= i < lines.len() && pattern_hits(l.pattern, lines[i])
}

/// Whether a file holds a qualifying match: some rule whose filter matches
/// the path, whose severity reaches the minimum, and whose pattern matches
/// some line.
pub open spec fn file_has_match(
    lints: Seq<LintV>,
    min: ErrorLevel,
    path: Seq<char>,
    lines: Seq<Seq<u8>>,
) -> bool {
    exists|i: int|
        0 <= i < lints.len() && spec_lint_applies(lints[i], path) && spec_qualifies(lints[i], min)
            && lint_hits_lines(lints[i], lines)
}

/// The bytes of one diagnostic, without its separator:
/// `path:line: [severity] rule: message`.
pub open spec fn diagnostic_record(path: Seq<char>, line_no: nat, l: LintV) -> Seq<u8> {
    path_record(path) + seq![58u8] + dec_bytes(line_no) + vstd::utf8::encode_utf8(": ["@)
        + vstd::utf8::encode_utf8(spec_level_name(l.severity)) + vstd::utf8::encode_utf8("] "@)
        + vstd::utf8::encode_utf8(l.name) + vstd::utf8::encode_utf8(": "@) + l.message
}

/// The diagnostics one qualifying rule emits for a file, from line `i` on:
/// one per matching line, each followed by the separator.
pub open spec fn lint_line_output(
    l: LintV,
    path: Seq<char>,
    lines: Seq<Seq<u8>>,
    i: int,
    sep: u8,
) -> Seq<u8>
    decreases lines.len() - i,
{
    if i < 0 || i >= lines.len() {
        Seq::empty()
    } else {
        (if pattern_hits(l.pattern, lines[i]) {
            diagnostic_record(path, (i + 1) as nat, l) + seq![sep]
        } else {
            Seq::empty()
        }) + lint_line_output(l, path, lines, i + 1, sep)
    }
}

/// The diagnostics an eligible file's scan emits: the rules in order, and
/// for each rule whose filter matches the path and whose severity reaches
/// the minimum, its matching lines in order.
pub open spec fn message_output(
    lints: Seq<LintV>,
    min: ErrorLevel,
    path: Seq<char>,
    lines: Seq<Seq<u8>>,
    sep: u8,
) -> Seq<u8>
    decreases lints.len(),
{
    if lints.len() == 0 {
        Seq::empty()
    } else {
        (if spec_lint_applies(lints[0], path) && spec_qualifies(lints[0], min) {
            lint_line_output(lints[0], path, lines, 0, sep)
        } else {
            Seq::empty()
        }) + message_output(lints.skip(1), min, path, lines, sep)
    }
}

/// Whether a file qualifies under an output mode: an eligible file that is
/// listed, that holds a qualifying match, or that holds none, as the mode
/// asks.
pub open spec fn scan_verdict(
    output: SearchOutput,
    lints: Seq<LintV>,
    min: ErrorLevel,
    path: Seq<char>,
    lines: Seq<Seq<u8>>,
) -> bool {
    spec_eligible(lints, path) && match output {
        SearchOutput::ListFiles => true,
        SearchOutput::Message => file_has_match(lints, min, path, lines),
        SearchOutput::File { matched } => file_has_match(lints, min, path, lines) == matched,
    }
}

/// What one file's scan emits under an output mode.
pub open spec fn scan_emission(
    output: SearchOutput,
    lints: Seq<LintV>,
    min: ErrorLevel,
    path: Seq<char>,
    lines: Seq<Seq<u8>>,
    sep: u8,
) -> Seq<u8> {
    match output {
        SearchOutput::ListFiles => if spec_eligible(lints, path) {
            path_record(path) + seq![sep]
        } else {
            Seq::empty()
        },
        SearchOutput::Message => if spec_eligible(lints, path) {
            message_output(lints, min, path, lines, sep)
        } else {
            Seq::empty()
        },
        SearchOutput::File { .. } => if scan_verdict(output, lints, min, path, lines) {
            path_record(path) + seq![sep]
        } else {
            Seq::empty()
        },
    }
}

/// Build the bytes of one diagnostic.
fn build_diagnostic(path: &str, line_no: usize, lint: &Lint) -> (r: Vec<u8>)
    ensures
        r@ == diagnostic_record(path@, line_no as nat, lint@),
{
    let mut out: Vec<u8> = Vec::new();
    let b = path.as_bytes();
    if b.len() >= 2 && b[0] == 46 && b[1] == 47 {
        let stripped = vstd::slice::slice_subrange(b, 2, b.len());
        out.extend_from_slice(stripped);
    } else {
        out.extend_from_slice(b);
    }
    out.push(58);
    push_dec(&mut out, line_no);
    out.extend_from_slice(": [".as_bytes());
    let level = lint.severity.name();
    out.extend_from_slice(level.as_str().as_bytes());
    out.extend_from_slice("] ".as_bytes());
    out.extend_from_slice(lint.name.as_str().as_bytes());
    out.extend_from_slice(": ".as_bytes());
    out.extend_from_slice(lint.message.as_slice());
    proof {
        assert(out@ =~= diagnostic_record(path@, line_no as nat, lint@));
    }
    out
}

/// Whether some line of the content matches a rule's pattern.
fn lint_hits_any_line(lint: &Lint, lines: &Vec<Vec<u8>>) -> (r: bool)
    ensures
        r == lint_hits_lines(lint@, lines_view(lines@)),
{
    let mut i: usize = 0;
    while i < lines.len()
        invariant
            0 <= i <= lines@.len(),
            forall|k: int|
                0 <= k < i ==> !pattern_hits(lint@.pattern, lines_view(lines@)[k]),
        decreases lines@.len() - i,
    {
        if lint.pattern.is_match(lines[i].as_slice()) {
            proof {
                assert(lines_view(lines@)[i as int] == lines@[i as int]@);
                assert(pattern_hits(lint@.pattern, lines_view(lines@)[i as int]));
            }
            return true;
        }
        proof {
            assert(lines_view(lines@)[i as int] == lines@[i as int]@);
        }
        i = i + 1;
    }
    false
}

/// Whether a file holds a qualifying match.
fn has_qualifying_match(
    lints: &Vec<Lint>,
    min_severity: ErrorLevel,
    path: &str,
    lines: &Vec<Vec<u8>>,
) -> (r: bool)
    ensures
        r == file_has_match(lints_view(lints@), min_severity, path@, lines_view(lines@)),
{
    let mut i: usize = 0;
    while i < lints.len()
        invariant
            0 <= i <= lints@.len(),
            forall|k: int|
                0 <= k < i ==> !(spec_lint_applies(lints_view(lints@)[k], path@)
                    && spec_qualifies(lints_view(lints@)[k], min_severity) && lint_hits_lines(
                    lints_view(lints@)[k],
                    lines_view(lines@),
                )),
        decreases lints@.len() - i,
    {
        proof {
            assert(lints_view(lints@)[i as int] == lints@[i as int]@);
        }
        if lints[i].types.matches_path(path) && lints[i].severity.at_least(min_severity) {
            if lint_hits_any_line(&lints[i], lines) {
                return true;
            }
        }
        i = i + 1;
    }
    false
}

/// Emit one qualifying rule's diagnostics for a file, one per matching
/// line. Reports whether any line matched.
fn emit_lint_messages(
    printer: &mut IoPrinter,
    lint: &Lint,
    path: &str,
    lines: &Vec<Vec<u8>>,
) -> (hit: bool)
    ensures
        final(printer)@.out == old(printer)@.out + if old(printer)@.quiet {
            Seq::<u8>::empty()
        } else {
            lint_line_output(lint@, path@, lines_view(lines@), 0, old(printer)@.sep)
        },
        final(printer)@.sep == old(printer)@.sep,
        final(printer)@.quiet == old(printer)@.quiet,
        hit == lint_hits_lines(lint@, lines_view(lines@)),
{
    let ghost lsv = lines_view(lines@);
    let ghost emitted_all: Seq<u8> = if old(printer)@.quiet {
        Seq::empty()
    } else {
        lint_line_output(lint@, path@, lsv, 0, old(printer)@.sep)
    };
    let mut hit = false;
    let mut i: usize = 0;
    while i < lines.len()
        invariant
            0 <= i <= lines@.len(),
            lsv == lines_view(lines@),
            lsv.len() == lines@.len(),
            printer@.sep == old(printer)@.sep,
            printer@.quiet == old(printer)@.quiet,
            emitted_all == if old(printer)@.quiet {
                Seq::<u8>::empty()
            } else {
                lint_line_output(lint@, path@, lsv, 0, old(printer)@.sep)
            },
            old(printer)@.out + emitted_all == printer@.out + if old(printer)@.quiet {
                Seq::<u8>::empty()
            } else {
                lint_line_output(lint@, path@, lsv, i as int, old(printer)@.sep)
            },
            hit == exists|k: int| 0 <= k < i && pattern_hits(lint@.pattern, lsv[k]),
        decreases lines@.len() - i,
    {
        proof {
            assert(lsv[i as int] == lines@[i as int]@);
        }
        let ghost before = printer@.out;
        if lint.pattern.is_match(lines[i].as_slice()) {
            let diag = build_diagnostic(path, i + 1, lint);
            printer.record(diag.as_slice());
            hit = true;
            proof {
                if !old(printer)@.quiet {
                    assert(before + ((diagnostic_record(path@, i as nat + 1, lint@) + seq![
                        old(printer)@.sep,
                    ]) + lint_line_output(lint@, path@, lsv, i as int + 1, old(printer)@.sep))
                        =~= (before + diagnostic_record(path@, i as nat + 1, lint@) + seq![
                        old(printer)@.sep,
                    ]) + lint_line_output(lint@, path@, lsv, i as int + 1, old(printer)@.sep));
                }
                assert(pattern_hits(lint@.pattern, lsv[i as int]));
            }
        }
        i = i + 1;
    }
    hit
}

/// Scan one candidate: decide eligibility, match its lines, emit what the
/// output mode asks for, and report whether the file qualifies under that
/// mode. Listing emits without reading content.
pub fn scan_file(
    printer: &mut IoPrinter,
    lints: &Vec<Lint>,
    min_severity: ErrorLevel,
    output: SearchOutput,
    path: &str,
    content: &[u8],
) -> (qualified: bool)
    ensures
        qualified == scan_verdict(
            output,
            lints_view(lints@),
            min_severity,
            path@,
            split_lines(content@),
        ),
        final(printer)@.out == old(printer)@.out + if old(printer)@.quiet {
            Seq::<u8>::empty()
        } else {
            scan_emission(
                output,
                lints_view(lints@),
                min_severity,
                path@,
                split_lines(content@),
                old(printer)@.sep,
            )
        },
        final(printer)@.sep == old(printer)@.sep,
        final(printer)@.quiet == old(printer)@.quiet,
{
    let ghost lv = lints_view(lints@);
    let ghost lsv = split_lines(content@);
    let eligible = is_file_supported(path, lints);
    match output {
        SearchOutput::ListFiles => {
            if eligible {
                printer.path(path);
            }
            proof {
                assert(printer@.out =~= old(printer)@.out + if old(printer)@.quiet {
                    Seq::<u8>::empty()
                } else {
                    scan_emission(output, lv, min_severity, path@, lsv, old(printer)@.sep)
                });
            }
            eligible
        },
        SearchOutput::Message => {
            if !eligible {
                proof {
                    assert(printer@.out =~= old(printer)@.out + Seq::<u8>::empty());
                }
                return false;
            }
            let lines = split_into_lines(content);
            let ghost emitted_all: Seq<u8> = if old(printer)@.quiet {
                Seq::empty()
            } else {
                message_output(lv, min_severity, path@, lsv, old(printer)@.sep)
            };
            proof {
                assert(lv.skip(0) =~= lv);
            }
            let mut any = false;
            let mut i: usize = 0;
            while i < lints.len()
                invariant
                    0 <= i <= lints@.len(),
                    lv == lints_view(lints@),
                    lv.len() == lints@.len(),
                    lsv == lines_view(lines@),
                    printer@.sep == old(printer)@.sep,
                    printer@.quiet == old(printer)@.quiet,
                    emitted_all == if old(printer)@.quiet {
                        Seq::<u8>::empty()
                    } else {
                        message_output(lv, min_severity, path@, lsv, old(printer)@.sep)
                    },
                    old(printer)@.out + emitted_all == printer@.out + if old(printer)@.quiet {
                        Seq::<u8>::empty()
                    } else {
                        message_output(
                            lv.skip(i as int),
                            min_severity,
                            path@,
                            lsv,
                            old(printer)@.sep,
                        )
                    },
                    any == exists|k: int|
                        0 <= k < i && spec_lint_applies(lv[k], path@) && spec_qualifies(
                            lv[k],
                            min_severity,
                        ) && lint_hits_lines(lv[k], lsv),
                decreases lints@.len() - i,
            {
                proof {
                    assert(lv.skip(i as int)[0] == lv[i as int]);
                    assert(lv.skip(i as int).skip(1) =~= lv.skip(i as int + 1));
                    assert(lv[i as int] == lints@[i as int]@);
                }
                let ghost before = printer@.out;
                if lints[i].types.matches_path(path) && lints[i].severity.at_least(min_severity) {
                    let hit = emit_lint_messages(printer, &lints[i], path, &lines);
                    if hit {
                        any = true;
                    }
                    proof {
                        if !old(printer)@.quiet {
                            assert(before + (lint_line_output(
                                lv[i as int],
                                path@,
                                lsv,
                                0,
                                old(printer)@.sep,
                            ) + message_output(
                                lv.skip(i as int + 1),
                                min_severity,
                                path@,
                                lsv,
                                old(printer)@.sep,
                            )) =~= (before + lint_line_output(
                                lv[i as int],
                                path@,
                                lsv,
                                0,
                                old(printer)@.sep,
                            )) + message_output(
                                lv.skip(i as int + 1),
                                min_severity,
                                path@,
                                lsv,
                                old(printer)@.sep,
                            ));
                        }
                    }
                }
                i = i + 1;
            }
            proof {
                assert(lv.skip(lv.len() as int).len() == 0);
                assert(printer@.out + Seq::<u8>::empty() =~= printer@.out);
            }
            any
        },
        SearchOutput::File { matched } => {
            if !eligible {
                proof {
                    assert(printer@.out =~= old(printer)@.out + Seq::<u8>::empty());
                }
                return false;
            }
            let lines = split_into_lines(content);
            let has = has_qualifying_match(lints, min_severity, path, &lines);
            let verdict = has == matched;
            if verdict {
                printer.path(path);
            }
            proof {
                assert(printer@.out =~= old(printer)@.out + if old(printer)@.quiet {
                    Seq::<u8>::empty()
                } else {
                    scan_emission(output, lv, min_severity, path@, lsv, old(printer)@.sep)
                });
            }
            verdict
        },
    }
}

/// The candidates of a run with their content, as mathematics sees them.
pub open spec fn files_view(fs: Seq<(String, Vec<u8>)>) -> Seq<(Seq<char>, Seq<u8>)> {
    fs.map_values(|f: (String, Vec<u8>)| (f.0@, f.1@))
}

/// What a whole content-scanning run emits.
pub open spec fn scan_outputs(
    output: SearchOutput,
    lints: Seq<LintV>,
    min: ErrorLevel,
    files: Seq<(Seq<char>, Seq<u8>)>,
    sep: u8,
) -> Seq<u8>
    decreases files.len(),
{
    if files.len() == 0 {
        Seq::empty()
    } else {
        scan_emission(output, lints, min, files[0].0, split_lines(files[0].1), sep)
            + scan_outputs(output, lints, min, files.skip(1), sep)
    }
}

/// Whether some file of a run qualifies under the output mode.
pub open spec fn any_verdict(
    output: SearchOutput,
    lints: Seq<LintV>,
    min: ErrorLevel,
    files: Seq<(Seq<char>, Seq<u8>)>,
) -> bool {
    exists|i: int|
        0 <= i < files.len() && scan_verdict(
            output,
            lints,
            min,
            files[i].0,
            split_lines(files[i].1),
        )
}

/// Scan a run's candidates in order. A listing always succeeds; a
/// content-sensitive mode fails when no file qualifies, mirroring the
/// conventional no-matches exit of pattern-scanning tools.
pub fn run_scan(
    printer: &mut IoPrinter,
    lints: &Vec<Lint>,
    min_severity: ErrorLevel,
    output: SearchOutput,
    files: &Vec<(String, Vec<u8>)>,
) -> (r: ActionStatus)
    ensures
        final(printer)@.out == old(printer)@.out + if old(printer)@.quiet {
            Seq::<u8>::empty()
        } else {
            scan_outputs(
                output,
                lints_view(lints@),
                min_severity,
                files_view(files@),
                old(printer)@.sep,
            )
        },
        final(printer)@.sep == old(printer)@.sep,
        final(printer)@.quiet == old(printer)@.quiet,
        r == if output is ListFiles || any_verdict(
            output,
            lints_view(lints@),
            min_severity,
            files_view(files@),
        ) {
            ActionStatus::Success
        } else {
            ActionStatus::Failure
        },
{
    let ghost lv = lints_view(lints@);
    let ghost fv = files_view(files@);
    let ghost emitted_all: Seq<u8> = if old(printer)@.quiet {
        Seq::empty()
    } else {
        scan_outputs(output, lv, min_severity, fv, old(printer)@.sep)
    };
    proof {
        assert(fv.skip(0) =~= fv);
    }
    let mut any = false;
    let mut i: usize = 0;
    while i < files.len()
        invariant
            0 <= i <= files@.len(),
            lv == lints_view(lints@),
            fv == files_view(files@),
            fv.len() == files@.len(),
            printer@.sep == old(printer)@.sep,
            printer@.quiet == old(printer)@.quiet,
            emitted_all == if old(printer)@.quiet {
                Seq::<u8>::empty()
            } else {
                scan_outputs(output, lv, min_severity, fv, old(printer)@.sep)
            },
            old(printer)@.out + emitted_all == printer@.out + if old(printer)@.quiet {
                Seq::<u8>::empty()
            } else {
                scan_outputs(output, lv, min_severity, fv.skip(i as int), old(printer)@.sep)
            },
            any == exists|k: int|
                0 <= k < i && scan_verdict(output, lv, min_severity, fv[k].0, split_lines(fv[k].1)),
        decreases files@.len() - i,
    {
        proof {
            assert(fv.skip(i as int)[0] == fv[i as int]);
            assert(fv.skip(i as int).skip(1) =~= fv.skip(i as int + 1));
            assert(fv[i as int].0 == files@[i as int].0@);
            assert(fv[i as int].1 == files@[i as int].1@);
        }
        let ghost before = printer@.out;
        let q = scan_file(
            printer,
            lints,
            min_severity,
            output,
            files[i].0.as_str(),
            files[i].1.as_slice(),
        );
        if q {
            any = true;
        }
        proof {
            if !old(printer)@.quiet {
                assert(before + (scan_emission(
                    output,
                    lv,
                    min_severity,
                    fv[i as int].0,
                    split_lines(fv[i as int].1),
                    old(printer)@.sep,
                ) + scan_outputs(output, lv, min_severity, fv.skip(i as int + 1), old(printer)@.sep))
                    =~= (before + scan_emission(
                    output,
                    lv,
                    min_severity,
                    fv[i as int].0,
                    split_lines(fv[i as int].1),
                    old(printer)@.sep,
                )) + scan_outputs(output, lv, min_severity, fv.skip(i as int + 1), old(printer)@.sep));
            }
        }
        i = i + 1;
    }
    proof {
        assert(fv.skip(fv.len() as int).len() == 0);
        assert(printer@.out + Seq::<u8>::empty() =~= printer@.out);
    }
    if matches!(output, SearchOutput::ListFiles) || any {
        ActionStatus::Success
    } else {
        ActionStatus::Failure
    }
}

/// Law: re-deriving the rule set from the same document against the same
/// default registry yields identical accept/reject decisions for any
/// candidate. The compiled rules are a function of the document and the
/// registry alone: there is no hidden state across compilations.
pub proof fn lemma_rederive_same_decisions(
    defaults: Seq<TypeDefV>,
    root: ConfigValue,
    r1: Seq<LintV>,
    r2: Seq<LintV>,
    output: SearchOutput,
    min: ErrorLevel,
    path: Seq<char>,
    content: Seq<u8>,
)
    requires
        lints_model(defaults, root) == Ok::<Seq<LintV>, FieldErrK>(r1),
        lints_model(defaults, root) == Ok::<Seq<LintV>, FieldErrK>(r2),
    ensures
        r1 == r2,
        spec_eligible(r1, path) == spec_eligible(r2, path),
        scan_verdict(output, r1, min, path, split_lines(content)) == scan_verdict(
            output,
            r2,
            min,
            path,
            split_lines(content),
        ),
        forall|sep: u8|
            scan_emission(output, r1, min, path, split_lines(content), sep) == scan_emission(
                output,
                r2,
                min,
                path,
                split_lines(content),
                sep,
            ),
{
}

/// The records of a listing where every path is emitted.
pub open spec fn all_path_records(paths: Seq<Seq<char>>, sep: u8) -> Seq<u8>
    decreases paths.len(),
{
    if paths.len() == 0 {
        Seq::empty()
    } else {
        path_record(paths[0]) + seq![sep] + all_path_records(paths.skip(1), sep)
    }
}

/// Law: with an empty rule set every candidate is eligible, and a listing
/// emits every candidate path, one record each, terminated by the
/// separator.
pub proof fn lemma_empty_rules_list_all(lints: Seq<LintV>, paths: Seq<Seq<char>>, sep: u8)
    requires
        lints.len() == 0,
    ensures
        list_output(lints, paths, sep) == all_path_records(paths, sep),
        forall|path: Seq<char>| spec_eligible(lints, path),
    decreases paths.len(),
{
    if paths.len() > 0 {
        lemma_empty_rules_list_all(lints, paths.skip(1), sep);
        assert((path_record(paths[0]) + seq![sep]) + all_path_records(paths.skip(1), sep)
            =~= path_record(paths[0]) + seq![sep] + all_path_records(paths.skip(1), sep));
    }
}

} // verus!
