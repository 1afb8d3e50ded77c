//! The output side of a run: records are collected into a byte buffer, one
//! record per emitted path or diagnostic, each terminated by the configured
//! separator byte (a newline, or NUL when asked). Whoever drives the run
//! writes the buffer to its destination.

use vstd::prelude::*;
use crate::types::{FileTypeDef, TypeDefV, strings_view};

verus! {

/// The newline separator, the default.
pub const SEP_NEWLINE: u8 = 10;

/// The NUL separator, chosen by the null option.
pub const SEP_NULL: u8 = 0;

/// The mathematical shape of a printer.
pub ghost struct PrinterV {
    pub out: Seq<u8>,
    pub sep: u8,
    pub quiet: bool,
}

/// Collects the run's emitted records.
pub struct IoPrinter {
    out: Vec<u8>,
    sep: u8,
    quiet: bool,
}

impl View for IoPrinter {
    type V = PrinterV;

    closed spec fn view(&self) -> PrinterV {
        PrinterV { out: self.out@, sep: self.sep, quiet: self.quiet }
    }
}

/// A path as it is emitted: one leading `./` removed.
pub open spec fn strip_dot_slash(b: Seq<u8>) -> Seq<u8> {
    if b.len() >= 2 && b[0] == 46 && b[1] == 47 {
        b.skip(2)
    } else {
        b
    }
}

/// The bytes a path is written as.
pub fn path_bytes(path: &str) -> (r: &[u8])
    ensures
        r@ == vstd::utf8::encode_utf8(path@),
{
    path.as_bytes()
}

/// The bytes of a path record, without its separator.
pub open spec fn path_record(path: Seq<char>) -> Seq<u8> {
    strip_dot_slash(vstd::utf8::encode_utf8(path))
}

/// The globs of one type definition, joined with `, `.
pub open spec fn globs_joined(globs: Seq<Seq<char>>) -> Seq<u8>
    decreases globs.len(),
{
    if globs.len() == 0 {
        Seq::empty()
    } else if globs.len() == 1 {
        vstd::utf8::encode_utf8(globs[0])
    } else {
        vstd::utf8::encode_utf8(globs[0]) + vstd::utf8::encode_utf8(", "@) + globs_joined(globs.skip(1))
    }
}

/// The bytes of one type-definition record, without its separator:
/// `name: glob, glob, ...`.
pub open spec fn type_def_record(d: TypeDefV) -> Seq<u8> {
    vstd::utf8::encode_utf8(d.name) + vstd::utf8::encode_utf8(": "@) + globs_joined(d.globs)
}

impl IoPrinter {
    /// A printer with an empty buffer, newline separators and output on.
    pub fn new() -> (r: IoPrinter)
        ensures
            r@.out =~= Seq::<u8>::empty(),
            r@.sep == SEP_NEWLINE,
            !r@.quiet,
    {
        IoPrinter { out: Vec::new(), sep: SEP_NEWLINE, quiet: false }
    }

    /// Choose NUL separators, or newline separators again.
    pub fn use_null(self, yes: bool) -> (r: IoPrinter)
        ensures
            r@.out == self@.out,
            r@.sep == if yes {
                SEP_NULL
            } else {
                SEP_NEWLINE
            },
            r@.quiet == self@.quiet,
    {
        if yes {
            IoPrinter { sep: SEP_NULL, ..self }
        } else {
            IoPrinter { sep: SEP_NEWLINE, ..self }
        }
    }

    /// Suppress all records, or emit them again.
    pub fn quiet(self, yes: bool) -> (r: IoPrinter)
        ensures
            r@.out == self@.out,
            r@.sep == self@.sep,
            r@.quiet == yes,
    {
        IoPrinter { quiet: yes, ..self }
    }

    /// Append raw bytes to the buffer; quiet does not silence this, the
    /// record-level methods check it first, as their contracts say.
    pub fn write(&mut self, buf: &[u8])
        ensures
            final(self)@.out == old(self)@.out + buf@,
            final(self)@.sep == old(self)@.sep,
            final(self)@.quiet == old(self)@.quiet,
    {
        self.out.extend_from_slice(buf);
    }

    /// Append the separator byte to the buffer.
    pub fn write_sep(&mut self)
        ensures
            final(self)@.out == old(self)@.out + seq![old(self)@.sep],
            final(self)@.sep == old(self)@.sep,
            final(self)@.quiet == old(self)@.quiet,
    {
        let sep = self.sep;
        self.out.push(sep);
        proof {
            assert(final(self)@.out =~= old(self)@.out + seq![old(self)@.sep]);
        }
    }

    /// Emit one record: its bytes and a separator; suppressed when quiet.
    pub fn record(&mut self, buf: &[u8])
        ensures
            final(self)@.out == if old(self)@.quiet {
                old(self)@.out
            } else {
                old(self)@.out + buf@ + seq![old(self)@.sep]
            },
            final(self)@.sep == old(self)@.sep,
            final(self)@.quiet == old(self)@.quiet,
    {
        if self.quiet {
            return ;
        }
        self.write(buf);
        self.write_sep();
    }

    /// Emit one path record, one leading `./` removed; suppressed when
    /// quiet.
    pub fn path(&mut self, path: &str)
        ensures
            final(self)@.out == if old(self)@.quiet {
                old(self)@.out
            } else {
                old(self)@.out + path_record(path@) + seq![old(self)@.sep]
            },
            final(self)@.sep == old(self)@.sep,
            final(self)@.quiet == old(self)@.quiet,
    {
        if self.quiet {
            return ;
        }
        let b = path.as_bytes();
        if b.len() >= 2 && b[0] == 46 && b[1] == 47 {
            let stripped = vstd::slice::slice_subrange(b, 2, b.len());
            self.write(stripped);
        } else {
            self.write(b);
        }
        self.write_sep();
    }

    /// Emit one type-definition record: the name, then its globs joined
    /// with `, `; suppressed when quiet.
    pub fn type_def(&mut self, type_def: &FileTypeDef)
        ensures
            final(self)@.out == if old(self)@.quiet {
                old(self)@.out
            } else {
                old(self)@.out + type_def_record(type_def@) + seq![old(self)@.sep]
            },
            final(self)@.sep == old(self)@.sep,
            final(self)@.quiet == old(self)@.quiet,
    {
        if self.quiet {
            return ;
        }
        self.write(type_def.name.as_str().as_bytes());
        self.write(": ".as_bytes());
        let ghost gv = strings_view(type_def.globs@);
        let mut i: usize = 0;
        while i < type_def.globs.len()
            invariant
                0 <= i <= type_def.globs@.len(),
                gv == strings_view(type_def.globs@),
                gv.len() == type_def.globs@.len(),
                self@.sep == old(self)@.sep,
                self@.quiet == old(self)@.quiet,
                self@.out == old(self)@.out + vstd::utf8::encode_utf8(type_def@.name) + vstd::utf8::encode_utf8(": "@) + globs_prefix(gv, i as int),
            decreases type_def.globs@.len() - i,
        {
            if i > 0 {
                self.write(", ".as_bytes());
            }
            self.write(type_def.globs[i].as_str().as_bytes());
            proof {
                lemma_globs_prefix_step(gv, i as int);
                assert(self@.out =~= old(self)@.out + vstd::utf8::encode_utf8(type_def@.name)
                    + vstd::utf8::encode_utf8(": "@) + globs_prefix(gv, i as int + 1));
            }
            i = i + 1;
        }
        proof {
            lemma_globs_prefix_all(gv);
            assert(self@.out =~= old(self)@.out + type_def_record(type_def@));
        }
        self.write_sep();
    }

    /// The bytes emitted so far.
    pub fn output(&self) -> (r: &Vec<u8>)
        ensures
            r@ == self@.out,
    {
        &self.out
    }
}

/// The join of the first `i` globs, as `type_def` builds it up.
pub open spec fn globs_prefix(globs: Seq<Seq<char>>, i: int) -> Seq<u8>
    decreases i,
{
    if i <= 0 {
        Seq::empty()
    } else if i == 1 {
        vstd::utf8::encode_utf8(globs[0])
    } else {
        globs_prefix(globs, i - 1) + vstd::utf8::encode_utf8(", "@) + vstd::utf8::encode_utf8(globs[i - 1])
    }
}

/// Extending the prefix join by one glob appends a comma and the glob.
pub proof fn lemma_globs_prefix_step(globs: Seq<Seq<char>>, i: int)
    requires
        0 <= i,
    ensures
        globs_prefix(globs, i + 1) == if i == 0 {
            vstd::utf8::encode_utf8(globs[0])
        } else {
            globs_prefix(globs, i) + vstd::utf8::encode_utf8(", "@) + vstd::utf8::encode_utf8(globs[i])
        },
{
}

/// The full prefix join is the `, `-join of all the globs.
pub proof fn lemma_globs_prefix_all(globs: Seq<Seq<char>>)
    ensures
        globs_prefix(globs, globs.len() as int) == globs_joined(globs),
    decreases globs.len(),
{
    if globs.len() > 1 {
        lemma_globs_prefix_all(globs.skip(1));
        lemma_globs_prefix_shift(globs, globs.len() as int);
    }
}

/// A prefix join over the tail, shifted by one.
proof fn lemma_globs_prefix_shift(globs: Seq<Seq<char>>, i: int)
    requires
        2 <= i <= globs.len(),
    ensures
        globs_prefix(globs, i) == vstd::utf8::encode_utf8(globs[0]) + vstd::utf8::encode_utf8(", "@)
            + globs_prefix(globs.skip(1), i - 1),
    decreases i,
{
    if i == 2 {
        assert(globs.skip(1)[0] == globs[1]);
        assert(globs_prefix(globs, 1) == vstd::utf8::encode_utf8(globs[0]));
        assert(globs_prefix(globs.skip(1), 1) == vstd::utf8::encode_utf8(globs.skip(1)[0]));
        assert(vstd::utf8::encode_utf8(globs[0]) + vstd::utf8::encode_utf8(", "@)
            + vstd::utf8::encode_utf8(globs[1]) == globs_prefix(globs, 2));
    } else {
        lemma_globs_prefix_shift(globs, i - 1);
        assert(globs.skip(1)[i - 2] == globs[i - 1]);
        assert((vstd::utf8::encode_utf8(globs[0]) + vstd::utf8::encode_utf8(", "@) + globs_prefix(
            globs.skip(1),
            i - 2,
        )) + vstd::utf8::encode_utf8(", "@) + vstd::utf8::encode_utf8(globs[i - 1])
            =~= vstd::utf8::encode_utf8(globs[0]) + vstd::utf8::encode_utf8(", "@) + (globs_prefix(
            globs.skip(1),
            i - 2,
        ) + vstd::utf8::encode_utf8(", "@) + vstd::utf8::encode_utf8(globs.skip(1)[i - 2])));
    }
}

} // verus!
