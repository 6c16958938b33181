use vstd::prelude::*;
use vstd::string::StringSliceAdditionalSpecFns;

use crate::error::XmlSerializeError;
use crate::serializer::byte_run;
use crate::serializer::sat_mul;
use crate::serializer::step_dec;
use crate::serializer::step_inc;
use crate::serializer::step_set_level;
use crate::serializer::step_write;
use crate::serializer::step_write_line;
use crate::serializer::Write;
use crate::serializer::WriterModel;
use crate::strbytes::append_bytes;

verus! {

/// The compact sink: writes go to an owned byte buffer exactly as they
/// come, with no indentation and no line terminators. Its writes never
/// fail.
pub struct DefaultWriter {
    buf: Vec<u8>,
}

impl DefaultWriter {
    pub fn new() -> (r: Self)
        ensures
            r.wm() == (WriterModel {
                sink: Seq::<u8>::empty(),
                pad: 32u8,
                tabw: 0usize,
                counts: false,
                level: 0usize,
                pend: false,
                eol: Seq::<u8>::empty(),
                infallible: true,
            }),
    {
        let r = DefaultWriter { buf: Vec::new() };
        proof {
            assert(r.wm() =~= (WriterModel {
                sink: Seq::<u8>::empty(),
                pad: 32u8,
                tabw: 0usize,
                counts: false,
                level: 0usize,
                pend: false,
                eol: Seq::<u8>::empty(),
                infallible: true,
            }));
        }
        r
    }

    /// Hands the gathered output back.
    pub fn into_bytes(self) -> (r: Vec<u8>)
        ensures
            r@ == self.wm().sink,
    {
        self.buf
    }
}

impl Write for DefaultWriter {
    closed spec fn wm(&self) -> WriterModel {
        WriterModel {
            sink: self.buf@,
            pad: 32u8,
            tabw: 0usize,
            counts: false,
            level: 0usize,
            pend: false,
            eol: Seq::<u8>::empty(),
            infallible: true,
        }
    }

    fn write(&mut self, data: &str) -> (r: Result<(), XmlSerializeError>)
        ensures
            r is Ok,
    {
        append_bytes(&mut self.buf, data.as_bytes());
        proof {
            assert(self.wm() =~= step_write(old(self).wm(), data.spec_bytes()));
        }
        Ok(())
    }

    fn write_line(&mut self, data: &str) -> (r: Result<(), XmlSerializeError>)
        ensures
            r is Ok,
    {
        append_bytes(&mut self.buf, data.as_bytes());
        proof {
            assert(self.wm() =~= step_write_line(old(self).wm(), data.spec_bytes()));
        }
        Ok(())
    }

    fn increment_level(&mut self) {
        proof {
            assert(self.wm() =~= step_inc(old(self).wm()));
        }
    }

    fn decrement_level(&mut self) {
        proof {
            assert(self.wm() =~= step_dec(old(self).wm()));
        }
    }

    fn set_level(&mut self, level: usize) {
        proof {
            assert(self.wm() =~= step_set_level(old(self).wm(), level));
        }
    }

    fn get_level(&self) -> (r: usize) {
        0
    }
}

/// Whether indentation renders as tabs or as spaces.
#[derive(Debug, Clone, Copy, PartialEq, Eq, Structural)]
pub enum SpaceStyle {
    Tabs,
    WhiteSpace,
}

/// The byte an indentation style renders with.
pub open spec fn spec_character_byte(style: SpaceStyle) -> u8 {
    match style {
        SpaceStyle::Tabs => 9u8,
        SpaceStyle::WhiteSpace => 32u8,
    }
}

pub fn get_character_byte(style: SpaceStyle) -> (r: u8)
    ensures
        r == spec_character_byte(style),
{
    match style {
        SpaceStyle::Tabs => 9,
        SpaceStyle::WhiteSpace => 32,
    }
}

/// The indenting sink: before the first write of each line it renders
/// `level` indentation steps of the configured width, and `write_line`
/// ends the line with a newline byte. Its writes never fail.
pub struct IndentedWriter {
    buf: Vec<u8>,
    level: usize,
    tab_spaces: usize,
    space_style: SpaceStyle,
    is_next_line: bool,
}

impl IndentedWriter {
    pub fn new(space_style: SpaceStyle, tab_spaces: usize) -> (r: Self)
        ensures
            r.wm() == (WriterModel {
                sink: Seq::<u8>::empty(),
                pad: spec_character_byte(space_style),
                tabw: tab_spaces,
                counts: true,
                level: 0usize,
                pend: false,
                eol: seq![10u8],
                infallible: true,
            }),
    {
        let r = IndentedWriter {
            buf: Vec::new(),
            tab_spaces,
            space_style,
            is_next_line: false,
            level: 0,
        };
        proof {
            assert(r.wm() =~= (WriterModel {
                sink: Seq::<u8>::empty(),
                pad: spec_character_byte(space_style),
                tabw: tab_spaces,
                counts: true,
                level: 0usize,
                pend: false,
                eol: seq![10u8],
                infallible: true,
            }));
        }
        r
    }

    /// Hands the gathered output back.
    pub fn into_bytes(self) -> (r: Vec<u8>)
        ensures
            r@ == self.wm().sink,
    {
        self.buf
    }

    /// Renders the pending indentation: `level` steps of the configured
    /// width, in the configured padding byte.
    #[verifier::loop_isolation(false)]
    fn write_indentation(&mut self)
        ensures
            final(self).buf@ == old(self).buf@ + byte_run(
                spec_character_byte(old(self).space_style),
                sat_mul(old(self).tab_spaces, old(self).level) as int,
            ),
            final(self).level == old(self).level,
            final(self).tab_spaces == old(self).tab_spaces,
            final(self).space_style == old(self).space_style,
            final(self).is_next_line == old(self).is_next_line,
    {
        let space_size: usize = match self.tab_spaces.checked_mul(self.level) {
            Some(n) => n,
            None => usize::MAX,
        };
        let ch = get_character_byte(self.space_style);
        let ghost run = byte_run(spec_character_byte(self.space_style), space_size as int);
        let mut i: usize = 0;
        proof {
            assert(self.buf@ =~= old(self).buf@ + run.take(0));
        }
        while i < space_size
            invariant
                0 <= i <= space_size,
                run == byte_run(spec_character_byte(self.space_style), space_size as int),
                self.buf@ == old(self).buf@ + run.take(i as int),
                self.level == old(self).level,
                self.tab_spaces == old(self).tab_spaces,
                self.space_style == old(self).space_style,
                self.is_next_line == old(self).is_next_line,
            decreases space_size - i,
        {
            self.buf.push(ch);
            proof {
                assert(run.take(i + 1) =~= run.take(i as int).push(ch));
            }
            i += 1;
        }
        proof {
            assert(run.take(space_size as int) =~= run);
        }
    }
}

impl Write for IndentedWriter {
    closed spec fn wm(&self) -> WriterModel {
        WriterModel {
            sink: self.buf@,
            pad: spec_character_byte(self.space_style),
            tabw: self.tab_spaces,
            counts: true,
            level: self.level,
            pend: self.is_next_line,
            eol: seq![10u8],
            infallible: true,
        }
    }

    fn write(&mut self, data: &str) -> (r: Result<(), XmlSerializeError>)
        ensures
            r is Ok,
    {
        if self.is_next_line {
            self.write_indentation();
        }
        append_bytes(&mut self.buf, data.as_bytes());
        self.is_next_line = false;
        proof {
            assert(self.wm() =~= step_write(old(self).wm(), data.spec_bytes()));
        }
        Ok(())
    }

    fn write_line(&mut self, data: &str) -> (r: Result<(), XmlSerializeError>)
        ensures
            r is Ok,
    {
        if self.is_next_line {
            self.write_indentation();
        }
        append_bytes(&mut self.buf, data.as_bytes());
        self.buf.push(10);
        self.is_next_line = true;
        proof {
            assert(self.wm() =~= step_write_line(old(self).wm(), data.spec_bytes()));
        }
        Ok(())
    }

    fn increment_level(&mut self) {
        self.level = self.level.saturating_add(1);
        proof {
            assert(self.wm() =~= step_inc(old(self).wm()));
        }
    }

    fn decrement_level(&mut self) {
        self.level = self.level.saturating_sub(1);
        proof {
            assert(self.wm() =~= step_dec(old(self).wm()));
        }
    }

    fn set_level(&mut self, level: usize) {
        self.level = level;
        proof {
            assert(self.wm() =~= step_set_level(old(self).wm(), level));
        }
    }

    fn get_level(&self) -> (r: usize) {
        self.level
    }
}

} // verus!
