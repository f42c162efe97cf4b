//! A check that program output reaches the screen.
//!
//! A shell is asked to print a marker, and its output is handed to an
//! emulator; the check passes if the marker is found.
use crate::screen::{
    byte_ops, bytes_keep_frame, contents, new_parser, parser_ops, process, screen_text, steady,
    view_offset, ScreenOp,
};
use crate::text::{contains, from_utf8_lossy, lossy_text, occurs};
use vstd::prelude::*;

verus! {

/// The line that the shell is given: it prints the marker and ends the shell.
pub fn selftest_input() -> (line: &'static str)
    ensures
        line@ == "printf 'RSTERM_OK_%s\\n' 4242; exit\n"@,
{
    "printf 'RSTERM_OK_%s\\n' 4242; exit\n"
}

/// The check: an emulator of 24 rows and 80 columns, and the output as text.
pub struct SelfTest {
    pub parser: vt100::Parser,
    pub got: String,
}

impl SelfTest {
    /// The emulator accepts every sequence of bytes and shows its live screen.
    pub open spec fn wf(self) -> bool {
        &&& steady(parser_ops(self.parser))
        &&& view_offset(parser_ops(self.parser)) == 0
    }

    /// A check that has had no output yet.
    pub fn new() -> (test: SelfTest)
        ensures
            test.wf(),
            parser_ops(test.parser) == seq![ScreenOp::New { rows: 24, cols: 80, history: 0 }],
            test.got@ == Seq::<char>::empty(),
    {
        SelfTest { parser: new_parser(24, 80, 0), got: String::new() }
    }

    /// Takes in output of the shell.
    pub fn feed(&mut self, bytes: &[u8])
        requires
            old(self).wf(),
        ensures
            final(self).wf(),
            parser_ops(final(self).parser) == parser_ops(old(self).parser) + byte_ops(bytes@),
            final(self).got@ == old(self).got@ + lossy_text(bytes@),
    {
        process(&mut self.parser, bytes);
        self.got.append(from_utf8_lossy(bytes).as_str());
        proof {
            bytes_keep_frame(parser_ops(old(self).parser), bytes@);
        }
    }

    /// The text on the screen.
    pub fn screen(&self) -> (text: String)
        requires
            self.wf(),
        ensures
            text@ == screen_text(parser_ops(self.parser)),
    {
        contents(&self.parser)
    }

    /// Whether the marker was found, on the screen or in the output.
    pub fn passed(&self) -> (ok: bool)
        requires
            self.wf(),
        ensures
            ok == (occurs(screen_text(parser_ops(self.parser)), "RSTERM_OK_4242"@) || occurs(
                self.got@,
                "RSTERM_OK_4242"@,
            )),
    {
        contains(self.screen().as_str(), "RSTERM_OK_4242") || contains(
            self.got.as_str(),
            "RSTERM_OK_4242",
        )
    }
}

} // verus!
