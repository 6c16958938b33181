use vstd::prelude::*;
use vstd::string::StringSliceAdditionalSpecFns;

use crate::serializer::byte_run;
use crate::serializer::sat_mul;
use crate::strbytes::append_bytes;

verus! {

/// A standalone line writer: each non-blank line is preceded by
/// `level` indentation steps of spaces and followed by a newline; a
/// blank line is just a newline.
pub struct IndentedWriter {
    buf: Vec<u8>,
    level: usize,
    tab_spaces: usize,
}

#[derive(Debug, Clone, Copy, PartialEq, Eq, Structural)]
pub enum IndentedWriterErrors {
    WriteFailed,
}

impl IndentedWriter {
    /// The bytes written so far.
    pub closed spec fn sink(&self) -> Seq<u8> {
        self.buf@
    }

    /// The current indentation level.
    pub closed spec fn spec_level(&self) -> usize {
        self.level
    }

    /// The width of one indentation step.
    pub closed spec fn spec_tab_spaces(&self) -> usize {
        self.tab_spaces
    }

    /// A writer indenting four spaces per level.
    pub fn new() -> (r: Self)
        ensures
            r.sink() == Seq::<u8>::empty(),
            r.spec_level() == 0,
            r.spec_tab_spaces() == 4,
    {
        Self::new_with_tab_spaces(4)
    }

    pub fn new_with_tab_spaces(tab_spaces: usize) -> (r: Self)
        ensures
            r.sink() == Seq::<u8>::empty(),
            r.spec_level() == 0,
            r.spec_tab_spaces() == tab_spaces,
    {
        Self { level: 0, buf: Vec::new(), tab_spaces }
    }

    /// Hands the gathered output back.
    pub fn into_bytes(self) -> (r: Vec<u8>)
        ensures
            r@ == self.sink(),
    {
        self.buf
    }

    pub fn set_level(&mut self, level: usize)
        ensures
            final(self).sink() == old(self).sink(),
            final(self).spec_level() == level,
            final(self).spec_tab_spaces() == old(self).spec_tab_spaces(),
    {
        self.level = level;
    }

    pub fn increment_level_by(&mut self, level: usize)
        ensures
            final(self).sink() == old(self).sink(),
            final(self).spec_level() == old(self).spec_level().saturating_add(level),
            final(self).spec_tab_spaces() == old(self).spec_tab_spaces(),
    {
        self.level = self.level.saturating_add(level);
    }

    pub fn decrement_level_by(&mut self, level: usize)
        ensures
            final(self).sink() == old(self).sink(),
            final(self).spec_level() == old(self).spec_level().saturating_sub(level),
            final(self).spec_tab_spaces() == old(self).spec_tab_spaces(),
    {
        self.level = self.level.saturating_sub(level);
    }

    pub fn increment_level(&mut self)
        ensures
            final(self).sink() == old(self).sink(),
            final(self).spec_level() == old(self).spec_level().saturating_add(1),
            final(self).spec_tab_spaces() == old(self).spec_tab_spaces(),
    {
        self.increment_level_by(1);
    }

    pub fn decrement_level(&mut self)
        ensures
            final(self).sink() == old(self).sink(),
            final(self).spec_level() == old(self).spec_level().saturating_sub(1),
            final(self).spec_tab_spaces() == old(self).spec_tab_spaces(),
    {
        self.decrement_level_by(1);
    }

    /// Writes one line: indentation, the text, a newline; a blank line
    /// is only the newline.
    #[verifier::loop_isolation(false)]
    pub fn write_line(&mut self, line: &str) -> (r: Result<(), IndentedWriterErrors>)
        ensures
            r is Ok,
            final(self).spec_level() == old(self).spec_level(),
            final(self).spec_tab_spaces() == old(self).spec_tab_spaces(),
            final(self).sink() == old(self).sink() + (if line.spec_bytes().len() > 0 {
                byte_run(
                    32u8,
                    sat_mul(old(self).spec_tab_spaces(), old(self).spec_level()) as int,
                ) + line.spec_bytes() + seq![10u8]
            } else {
                seq![10u8]
            }),
    {
        let bytes = line.as_bytes();
        if bytes.len() > 0 {
            let pad: usize = match self.tab_spaces.checked_mul(self.level) {
                Some(n) => n,
                None => usize::MAX,
            };
            let ghost run = byte_run(32u8, pad as int);
            let mut i: usize = 0;
            proof {
                assert(self.buf@ =~= old(self).buf@ + run.take(0));
            }
            while i < pad
                invariant
                    0 <= i <= pad,
                    run == byte_run(32u8, pad as int),
                    self.buf@ == old(self).buf@ + run.take(i as int),
                    self.level == old(self).level,
                    self.tab_spaces == old(self).tab_spaces,
                decreases pad - i,
            {
                self.buf.push(32);
                proof {
                    assert(run.take(i + 1) =~= run.take(i as int).push(32u8));
                }
                i += 1;
            }
            proof {
                assert(run.take(pad as int) =~= run);
            }
            append_bytes(&mut self.buf, bytes);
            self.buf.push(10);
        } else {
            self.buf.push(10);
            proof {
                assert(final(self).sink() =~= old(self).sink() + seq![10u8]);
            }
        }
        Ok(())
    }
}

} // verus!
