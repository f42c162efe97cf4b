//! A byte filter that turns DEC Special Graphics (line-drawing) runs into
//! Unicode before they reach the terminal emulator, and that picks out the
//! bells that ask for attention.
//!
//! The emulator does not know the charset designations (`ESC ( 0` selects
//! line drawing, `ESC ( B` goes back to ASCII), so the letters of a
//! line-drawing run would be shown as letters. Everything else, in
//! particular every other escape sequence, passes through unchanged.
use vstd::prelude::*;
use vstd::utf8::encode_utf8;

verus! {

/// Where in an escape sequence the filter stands.
#[derive(Clone, Copy, Debug, PartialEq, Eq, Structural)]
pub enum AcsState {
    /// Outside any sequence.
    Ground,
    /// After `ESC`.
    Esc,
    /// After `ESC` and the byte that names the charset slot.
    Scs(u8),
    /// Inside a control sequence (`ESC [`), up to its final byte.
    Csi,
    /// Inside an operating system command (`ESC ]`), up to `BEL` or `ESC \`.
    Osc,
    /// Inside an operating system command, after `ESC`.
    OscEsc,
}

impl Default for AcsState {
    fn default() -> (state: AcsState)
        ensures
            state == AcsState::Ground,
    {
        AcsState::Ground
    }
}

/// What the filter remembers between bytes.
pub struct AcsModel {
    pub state: AcsState,
    /// Slot G0 designates the line-drawing charset.
    pub g0_line: bool,
    /// Slot G1 designates the line-drawing charset.
    pub g1_line: bool,
    /// G1 is the active slot.
    pub shift_out: bool,
    /// An attention bell was seen.
    pub bell: bool,
}

/// The bytes of an unfinished sequence that are held back: they are dropped
/// if a charset designation comes of them, and emitted otherwise.
pub open spec fn held_back(state: AcsState) -> Seq<u8> {
    match state {
        AcsState::Esc => seq![0x1bu8],
        AcsState::Scs(which) => seq![0x1bu8, which],
        _ => Seq::empty(),
    }
}

/// The bytes that name a charset slot after `ESC`: `(`, `)`, `*` and `+`.
pub open spec fn names_slot(b: u8) -> bool {
    0x28 <= b <= 0x2b
}

/// The bytes that DEC Special Graphics redefines.
pub open spec fn is_graphic(b: u8) -> bool {
    0x5f <= b <= 0x7e
}

/// The character that a byte stands for in DEC Special Graphics.
pub open spec fn acs_glyph(b: u8) -> char {
    match b {
        0x60 => '\u{25c6}',
        0x61 => '\u{2592}',
        0x62 => '\u{2409}',
        0x63 => '\u{240c}',
        0x64 => '\u{240d}',
        0x65 => '\u{240a}',
        0x66 => '\u{b0}',
        0x67 => '\u{b1}',
        0x68 => '\u{2424}',
        0x69 => '\u{240b}',
        0x6a => '\u{2518}',
        0x6b => '\u{2510}',
        0x6c => '\u{250c}',
        0x6d => '\u{2514}',
        0x6e => '\u{253c}',
        0x6f => '\u{23ba}',
        0x70 => '\u{23bb}',
        0x71 => '\u{2500}',
        0x72 => '\u{23bc}',
        0x73 => '\u{23bd}',
        0x74 => '\u{251c}',
        0x75 => '\u{2524}',
        0x76 => '\u{2534}',
        0x77 => '\u{252c}',
        0x78 => '\u{2502}',
        0x79 => '\u{2264}',
        0x7a => '\u{2265}',
        0x7b => '\u{3c0}',
        0x7c => '\u{2260}',
        0x7d => '\u{a3}',
        0x7e => '\u{b7}',
        _ => ' ',
    }
}

/// What is emitted for a byte of the line-drawing charset.
pub open spec fn acs_bytes(b: u8) -> Seq<u8> {
    if is_graphic(b) {
        encode_utf8(seq![acs_glyph(b)])
    } else {
        seq![b]
    }
}

impl AcsModel {
    /// The filter before any byte.
    pub open spec fn initial() -> AcsModel {
        AcsModel {
            state: AcsState::Ground,
            g0_line: false,
            g1_line: false,
            shift_out: false,
            bell: false,
        }
    }

    /// The active slot designates the line-drawing charset.
    pub open spec fn line_active(self) -> bool {
        if self.shift_out {
            self.g1_line
        } else {
            self.g0_line
        }
    }

    /// The filter after one byte.
    pub open spec fn next(self, b: u8) -> AcsModel {
        match self.state {
            AcsState::Ground => if b == 0x1b {
                AcsModel { state: AcsState::Esc, ..self }
            } else if b == 0x0e {
                AcsModel { shift_out: true, ..self }
            } else if b == 0x0f {
                AcsModel { shift_out: false, ..self }
            } else if b == 0x07 {
                AcsModel { bell: true, ..self }
            } else {
                self
            },
            AcsState::Esc => if names_slot(b) {
                AcsModel { state: AcsState::Scs(b), ..self }
            } else if b == 0x5b {
                AcsModel { state: AcsState::Csi, ..self }
            } else if b == 0x5d {
                AcsModel { state: AcsState::Osc, ..self }
            } else {
                AcsModel { state: AcsState::Ground, ..self }
            },
            AcsState::Scs(which) => if 0x20 <= b <= 0x2f {
                self
            } else {
                AcsModel {
                    state: AcsState::Ground,
                    g0_line: if which == 0x28 { b == 0x30 } else { self.g0_line },
                    g1_line: if which == 0x29 { b == 0x30 } else { self.g1_line },
                    ..self
                }
            },
            AcsState::Csi => if 0x40 <= b <= 0x7e {
                AcsModel { state: AcsState::Ground, ..self }
            } else {
                self
            },
            AcsState::Osc => if b == 0x07 {
                AcsModel { state: AcsState::Ground, ..self }
            } else if b == 0x1b {
                AcsModel { state: AcsState::OscEsc, ..self }
            } else {
                self
            },
            AcsState::OscEsc => if b == 0x5c {
                AcsModel { state: AcsState::Ground, ..self }
            } else {
                AcsModel { state: AcsState::Osc, ..self }
            },
        }
    }

    /// What one byte makes the filter emit.
    pub open spec fn emitted(self, b: u8) -> Seq<u8> {
        match self.state {
            AcsState::Ground => if b == 0x1b || b == 0x0e || b == 0x0f || b == 0x07 {
                Seq::empty()
            } else if self.line_active() {
                acs_bytes(b)
            } else {
                seq![b]
            },
            AcsState::Esc => if names_slot(b) {
                Seq::empty()
            } else {
                seq![0x1bu8, b]
            },
            AcsState::Scs(_) => Seq::empty(),
            _ => seq![b],
        }
    }

    /// The filter after a run of bytes.
    pub open spec fn after(self, input: Seq<u8>) -> AcsModel
        decreases input.len(),
    {
        if input.len() == 0 {
            self
        } else {
            self.after(input.drop_last()).next(input.last())
        }
    }

    /// What a run of bytes makes the filter emit.
    pub open spec fn output(self, input: Seq<u8>) -> Seq<u8>
        decreases input.len(),
    {
        if input.len() == 0 {
            Seq::empty()
        } else {
            self.output(input.drop_last()) + self.after(input.drop_last()).emitted(input.last())
        }
    }

    /// The filter with no bell pending.
    pub open spec fn quiet(self) -> AcsModel {
        AcsModel { bell: false, ..self }
    }
}

/// The filter. Its state is kept between calls of `process`, so a sequence
/// may be split anywhere over the calls.
pub struct AcsFilter {
    pub state: AcsState,
    /// Whether G0 / G1 designate the line-drawing charset.
    pub g0_line: bool,
    pub g1_line: bool,
    /// The active slot: false is G0 (`SI`), true is G1 (`SO`).
    pub shift_out: bool,
    /// The bytes of an unfinished escape sequence.
    pub pending: Vec<u8>,
    /// An attention bell (a `BEL` outside any sequence) was seen during the
    /// last call of `process`. The `BEL` that ends an operating system
    /// command does not count.
    pub bell: bool,
}

impl View for AcsFilter {
    type V = AcsModel;

    open spec fn view(&self) -> AcsModel {
        AcsModel {
            state: self.state,
            g0_line: self.g0_line,
            g1_line: self.g1_line,
            shift_out: self.shift_out,
            bell: self.bell,
        }
    }
}

impl Default for AcsFilter {
    fn default() -> (filter: AcsFilter)
        ensures
            filter.wf(),
            filter@ == AcsModel::initial(),
    {
        AcsFilter {
            state: AcsState::Ground,
            g0_line: false,
            g1_line: false,
            shift_out: false,
            pending: Vec::new(),
            bell: false,
        }
    }
}

impl AcsFilter {
    /// The pending bytes are those that the state holds back, and a charset
    /// designation is for a slot that there is.
    pub open spec fn wf(&self) -> bool {
        &&& self.pending@ == held_back(self.state)
        &&& self.state matches AcsState::Scs(which) ==> names_slot(which)
    }

    /// Filters `input` and appends what is left of it to `out`.
    pub fn process(&mut self, input: &[u8], out: &mut Vec<u8>)
        requires
            old(self).wf(),
        ensures
            final(self).wf(),
            final(self)@ == old(self)@.quiet().after(input@),
            final(out)@ == old(out)@ + old(self)@.quiet().output(input@),
    {
        self.bell = false;
        let mut i: usize = 0;
        while i < input.len()
            invariant
                i <= input@.len(),
                self.wf(),
                self@ == old(self)@.quiet().after(input@.take(i as int)),
                out@ == old(out)@ + old(self)@.quiet().output(input@.take(i as int)),
            decreases input.len() - i,
        {
            let b: u8 = input[i];
            let ghost seen = input@.take(i as int);
            assert(input@.take(i + 1).drop_last() =~= seen);
            match self.state {
                AcsState::Ground => self.ground(b, out),
                AcsState::Esc => self.esc(b, out),
                AcsState::Scs(which) => self.scs(which, b),
                AcsState::Csi => self.csi(b, out),
                AcsState::Osc => self.osc(b, out),
                AcsState::OscEsc => self.osc_esc(b, out),
            }
            i += 1;
        }
        assert(input@.take(input@.len() as int) =~= input@);
    }

    /// One byte outside any sequence.
    pub fn ground(&mut self, b: u8, out: &mut Vec<u8>)
        requires
            old(self).wf(),
            old(self).state == AcsState::Ground,
        ensures
            final(self).wf(),
            final(self)@ == old(self)@.next(b),
            final(out)@ == old(out)@ + old(self)@.emitted(b),
    {
        match b {
            0x1b => {
                self.pending.clear();
                self.pending.push(b);
                self.state = AcsState::Esc;
            },
            0x0e => self.shift_out = true,
            0x0f => self.shift_out = false,
            0x07 => self.bell = true,
            _ => {
                let line = if self.shift_out {
                    self.g1_line
                } else {
                    self.g0_line
                };
                if line && 0x5f <= b && b <= 0x7e {
                    push_acs(b, out);
                } else {
                    out.push(b);
                }
            },
        }
    }

    /// The byte after `ESC`.
    pub fn esc(&mut self, b: u8, out: &mut Vec<u8>)
        requires
            old(self).wf(),
            old(self).state == AcsState::Esc,
        ensures
            final(self).wf(),
            final(self)@ == old(self)@.next(b),
            final(out)@ == old(out)@ + old(self)@.emitted(b),
    {
        match b {
            0x28 | 0x29 | 0x2a | 0x2b => {
                // A charset designation: the whole run will be dropped.
                self.pending.push(b);
                self.state = AcsState::Scs(b);
                assert(self.pending@ =~= seq![0x1bu8, b]);
            },
            0x5b => {
                self.flush_pending(out);
                out.push(b);
                self.state = AcsState::Csi;
            },
            0x5d => {
                self.flush_pending(out);
                out.push(b);
                self.state = AcsState::Osc;
            },
            _ => {
                self.flush_pending(out);
                out.push(b);
                self.state = AcsState::Ground;
            },
        }
    }

    /// A byte of a charset designation for the slot that `which` names.
    pub fn scs(&mut self, which: u8, b: u8)
        requires
            old(self).wf(),
            old(self).state == AcsState::Scs(which),
        ensures
            final(self).wf(),
            final(self)@ == old(self)@.next(b),
    {
        // Intermediate bytes, as the `%` of a longer designator.
        if 0x20 <= b && b <= 0x2f {
            return;
        }
        let line = b == 0x30;
        match which {
            0x28 => self.g0_line = line,
            0x29 => self.g1_line = line,
            _ => {},
        }
        self.pending.clear();
        self.state = AcsState::Ground;
    }

    /// A byte of a control sequence.
    pub fn csi(&mut self, b: u8, out: &mut Vec<u8>)
        requires
            old(self).wf(),
            old(self).state == AcsState::Csi,
        ensures
            final(self).wf(),
            final(self)@ == old(self)@.next(b),
            final(out)@ == old(out)@ + old(self)@.emitted(b),
    {
        out.push(b);
        if 0x40 <= b && b <= 0x7e {
            self.state = AcsState::Ground;
        }
    }

    /// A byte of an operating system command.
    pub fn osc(&mut self, b: u8, out: &mut Vec<u8>)
        requires
            old(self).wf(),
            old(self).state == AcsState::Osc,
        ensures
            final(self).wf(),
            final(self)@ == old(self)@.next(b),
            final(out)@ == old(out)@ + old(self)@.emitted(b),
    {
        out.push(b);
        match b {
            0x07 => self.state = AcsState::Ground,
            0x1b => self.state = AcsState::OscEsc,
            _ => {},
        }
    }

    /// The byte after `ESC` inside an operating system command.
    pub fn osc_esc(&mut self, b: u8, out: &mut Vec<u8>)
        requires
            old(self).wf(),
            old(self).state == AcsState::OscEsc,
        ensures
            final(self).wf(),
            final(self)@ == old(self)@.next(b),
            final(out)@ == old(out)@ + old(self)@.emitted(b),
    {
        out.push(b);
        self.state = if b == 0x5c {
            AcsState::Ground
        } else {
            AcsState::Osc
        };
    }

    /// Emits the pending bytes after all.
    pub fn flush_pending(&mut self, out: &mut Vec<u8>)
        ensures
            final(self).pending@ == Seq::<u8>::empty(),
            final(self)@ == old(self)@,
            final(out)@ == old(out)@ + old(self).pending@,
    {
        out.extend_from_slice(&self.pending);
        self.pending.clear();
        assert(out@ =~= old(out)@ + old(self).pending@);
    }
}

/// Appends the UTF-8 form of the character that `b` stands for in DEC Special
/// Graphics. A byte outside the charset is appended unchanged.
pub fn push_acs(b: u8, out: &mut Vec<u8>)
    ensures
        final(out)@ == old(out)@ + acs_bytes(b),
{
    proof {
        reveal_glyph_literals();
    }
    let s: &str = match b {
        0x5f => " ",
        0x60 => "◆",
        0x61 => "▒",
        0x62 => "␉",
        0x63 => "␌",
        0x64 => "␍",
        0x65 => "␊",
        0x66 => "°",
        0x67 => "±",
        0x68 => "␤",
        0x69 => "␋",
        0x6a => "┘",
        0x6b => "┐",
        0x6c => "┌",
        0x6d => "└",
        0x6e => "┼",
        0x6f => "⎺",
        0x70 => "⎻",
        0x71 => "─",
        0x72 => "⎼",
        0x73 => "⎽",
        0x74 => "├",
        0x75 => "┤",
        0x76 => "┴",
        0x77 => "┬",
        0x78 => "│",
        0x79 => "≤",
        0x7a => "≥",
        0x7b => "π",
        0x7c => "≠",
        0x7d => "£",
        0x7e => "·",
        _ => {
            out.push(b);
            return;
        },
    };
    assert(s@ =~= seq![acs_glyph(b)]);
    let bytes = s.as_bytes();
    out.extend_from_slice(bytes);
    assert(out@ =~= old(out)@ + bytes@);
}

/// What the string literals of the glyph table hold.
proof fn reveal_glyph_literals()
    ensures
        " "@ =~= seq![' '],
        "◆"@ =~= seq!['\u{25c6}'],
        "▒"@ =~= seq!['\u{2592}'],
        "␉"@ =~= seq!['\u{2409}'],
        "␌"@ =~= seq!['\u{240c}'],
        "␍"@ =~= seq!['\u{240d}'],
        "␊"@ =~= seq!['\u{240a}'],
        "°"@ =~= seq!['\u{b0}'],
        "±"@ =~= seq!['\u{b1}'],
        "␤"@ =~= seq!['\u{2424}'],
        "␋"@ =~= seq!['\u{240b}'],
        "┘"@ =~= seq!['\u{2518}'],
        "┐"@ =~= seq!['\u{2510}'],
        "┌"@ =~= seq!['\u{250c}'],
        "└"@ =~= seq!['\u{2514}'],
        "┼"@ =~= seq!['\u{253c}'],
        "⎺"@ =~= seq!['\u{23ba}'],
        "⎻"@ =~= seq!['\u{23bb}'],
        "─"@ =~= seq!['\u{2500}'],
        "⎼"@ =~= seq!['\u{23bc}'],
        "⎽"@ =~= seq!['\u{23bd}'],
        "├"@ =~= seq!['\u{251c}'],
        "┤"@ =~= seq!['\u{2524}'],
        "┴"@ =~= seq!['\u{2534}'],
        "┬"@ =~= seq!['\u{252c}'],
        "│"@ =~= seq!['\u{2502}'],
        "≤"@ =~= seq!['\u{2264}'],
        "≥"@ =~= seq!['\u{2265}'],
        "π"@ =~= seq!['\u{3c0}'],
        "≠"@ =~= seq!['\u{2260}'],
        "£"@ =~= seq!['\u{a3}'],
        "·"@ =~= seq!['\u{b7}'],
{
    reveal_strlit(" ");
    reveal_strlit("◆");
    reveal_strlit("▒");
    reveal_strlit("␉");
    reveal_strlit("␌");
    reveal_strlit("␍");
    reveal_strlit("␊");
    reveal_strlit("°");
    reveal_strlit("±");
    reveal_strlit("␤");
    reveal_strlit("␋");
    reveal_strlit("┘");
    reveal_strlit("┐");
    reveal_strlit("┌");
    reveal_strlit("└");
    reveal_strlit("┼");
    reveal_strlit("⎺");
    reveal_strlit("⎻");
    reveal_strlit("─");
    reveal_strlit("⎼");
    reveal_strlit("⎽");
    reveal_strlit("├");
    reveal_strlit("┤");
    reveal_strlit("┴");
    reveal_strlit("┬");
    reveal_strlit("│");
    reveal_strlit("≤");
    reveal_strlit("≥");
    reveal_strlit("π");
    reveal_strlit("≠");
    reveal_strlit("£");
    reveal_strlit("·");
}

/// The filter after two runs, one after the other, is the filter after both
/// as one run, and it emits the same bytes.
pub proof fn filter_runs_compose(m: AcsModel, a: Seq<u8>, b: Seq<u8>)
    ensures
        m.after(a + b) == m.after(a).after(b),
        m.output(a + b) == m.output(a) + m.after(a).output(b),
    decreases b.len(),
{
    if b.len() == 0 {
        assert(a + b =~= a);
        assert(m.output(a) + m.after(a).output(b) =~= m.output(a));
    } else {
        filter_runs_compose(m, a, b.drop_last());
        assert((a + b).drop_last() =~= a + b.drop_last());
        assert(m.output(a + b) =~= m.output(a) + m.after(a).output(b));
    }
}

/// A pending bell is never taken back by a run, and changes nothing else that
/// the run does.
pub proof fn bell_is_only_added(m: AcsModel, input: Seq<u8>)
    ensures
        m.after(input) == (AcsModel {
            bell: m.bell || m.quiet().after(input).bell,
            ..m.quiet().after(input)
        }),
        m.output(input) == m.quiet().output(input),
    decreases input.len(),
{
    if input.len() > 0 {
        bell_is_only_added(m, input.drop_last());
    }
}

/// Where the input is cut into two calls of `process` makes no difference:
/// the same bytes come out, the filter ends in the same state, and a bell
/// rings in one of the two calls exactly if it rings in the one call.
pub proof fn process_split_anywhere(m: AcsModel, a: Seq<u8>, b: Seq<u8>)
    ensures
        ({
            let first = m.quiet().after(a);
            let second = first.quiet().after(b);
            let whole = m.quiet().after(a + b);
            &&& m.quiet().output(a + b) == m.quiet().output(a) + first.quiet().output(b)
            &&& whole.quiet() == second.quiet()
            &&& whole.bell == (first.bell || second.bell)
        }),
{
    filter_runs_compose(m.quiet(), a, b);
    bell_is_only_added(m.quiet().after(a), b);
}

/// The bytes that mean something to the filter outside any sequence.
pub open spec fn is_special(b: u8) -> bool {
    b == 0x1b || b == 0x0e || b == 0x0f || b == 0x07
}

/// Text comes out as it went in while no line-drawing charset is active.
pub proof fn plain_text_passes(m: AcsModel, text: Seq<u8>)
    requires
        m.state == AcsState::Ground,
        !m.line_active(),
        forall|i: int| 0 <= i < text.len() ==> !is_special(#[trigger] text[i]),
    ensures
        m.after(text) == m,
        m.output(text) == text,
    decreases text.len(),
{
    if text.len() > 0 {
        plain_text_passes(m, text.drop_last());
        assert(!is_special(text.last()));
        assert(m.output(text) =~= text);
    }
}

/// What a run of line-drawing bytes stands for.
pub open spec fn acs_text(run: Seq<u8>) -> Seq<char> {
    run.map_values(|b: u8| acs_glyph(b))
}

/// While a line-drawing charset is active, a run of line-drawing bytes comes
/// out as the UTF-8 form of the characters it stands for.
pub proof fn line_drawing_is_rewritten(m: AcsModel, run: Seq<u8>)
    requires
        m.state == AcsState::Ground,
        m.line_active(),
        forall|i: int| 0 <= i < run.len() ==> is_graphic(#[trigger] run[i]),
    ensures
        m.after(run) == m,
        m.output(run) == encode_utf8(acs_text(run)),
    decreases run.len(),
{
    if run.len() > 0 {
        let init = run.drop_last();
        line_drawing_is_rewritten(m, init);
        assert(is_graphic(run.last()));
        assert(acs_text(run) =~= acs_text(init) + seq![acs_glyph(run.last())]);
        encode_utf8_append(acs_text(init), seq![acs_glyph(run.last())]);
    }
}

/// UTF-8 encodes a concatenation part by part.
pub proof fn encode_utf8_append(a: Seq<char>, b: Seq<char>)
    ensures
        encode_utf8(a + b) == encode_utf8(a) + encode_utf8(b),
    decreases a.len(),
{
    if a.len() == 0 {
        assert(a + b =~= b);
        assert(encode_utf8(a) + encode_utf8(b) =~= encode_utf8(b));
    } else {
        encode_utf8_append(a.drop_first(), b);
        assert((a + b).drop_first() =~= a.drop_first() + b);
        assert(encode_utf8(a + b) =~= encode_utf8(a) + encode_utf8(b));
    }
}

/// The filter after one byte or two.
proof fn short_runs(m: AcsModel, a: u8, b: u8)
    ensures
        m.after(seq![a]) == m.next(a),
        m.output(seq![a]) == m.emitted(a),
        m.after(seq![a, b]) == m.next(a).next(b),
        m.output(seq![a, b]) == m.emitted(a) + m.next(a).emitted(b),
{
    let none = Seq::<u8>::empty();
    let one = seq![a];
    assert(one.drop_last() =~= none);
    assert(m.after(none) == m);
    assert(m.output(none) =~= none);
    assert(m.output(one) == m.output(none) + m.after(none).emitted(a));
    assert(m.output(one) =~= m.emitted(a));
    assert(seq![a, b].drop_last() =~= one);
}

/// A charset designation leaves no trace in the output. It sets the slot that
/// it names, to line drawing if its last byte is `0` and to text otherwise.
pub proof fn designation_is_consumed(m: AcsModel, which: u8, intermediates: Seq<u8>, last: u8)
    requires
        m.state == AcsState::Ground,
        names_slot(which),
        forall|i: int| 0 <= i < intermediates.len() ==> 0x20 <= #[trigger] intermediates[i] <= 0x2f,
        !(0x20 <= last <= 0x2f),
    ensures
        ({
            let input = seq![0x1bu8, which] + intermediates + seq![last];
            &&& m.output(input).len() == 0
            &&& m.after(input) == AcsModel {
                g0_line: if which == 0x28 { last == 0x30 } else { m.g0_line },
                g1_line: if which == 0x29 { last == 0x30 } else { m.g1_line },
                ..m
            }
        }),
{
    let start = seq![0x1bu8, which];
    let mid = m.after(start);
    short_runs(m, 0x1b, which);
    assert(mid == AcsModel { state: AcsState::Scs(which), ..m });
    assert(m.output(start).len() == 0);
    intermediates_are_consumed(mid, which, intermediates);
    filter_runs_compose(m, start, intermediates);
    let end = seq![last];
    short_runs(mid, last, last);
    filter_runs_compose(m, start + intermediates, end);
}

proof fn intermediates_are_consumed(m: AcsModel, which: u8, intermediates: Seq<u8>)
    requires
        m.state == AcsState::Scs(which),
        forall|i: int| 0 <= i < intermediates.len() ==> 0x20 <= #[trigger] intermediates[i] <= 0x2f,
    ensures
        m.after(intermediates) == m,
        m.output(intermediates).len() == 0,
    decreases intermediates.len(),
{
    if intermediates.len() > 0 {
        intermediates_are_consumed(m, which, intermediates.drop_last());
        assert(0x20 <= intermediates.last() <= 0x2f);
    }
}

/// A control sequence passes unchanged and leaves the filter as it was, even
/// while a line-drawing charset is active.
pub proof fn control_sequence_passes(m: AcsModel, body: Seq<u8>, last: u8)
    requires
        m.state == AcsState::Ground,
        forall|i: int| 0 <= i < body.len() ==> !(0x40 <= #[trigger] body[i] <= 0x7e),
        0x40 <= last <= 0x7e,
    ensures
        ({
            let input = seq![0x1bu8, 0x5bu8] + body + seq![last];
            &&& m.output(input) == input
            &&& m.after(input) == m
        }),
{
    let start = seq![0x1bu8, 0x5bu8];
    short_runs(m, 0x1b, 0x5b);
    let mid = m.after(start);
    assert(mid == AcsModel { state: AcsState::Csi, ..m });
    assert(m.output(start) =~= start);
    sequence_body_passes(mid, body);
    filter_runs_compose(m, start, body);
    let end = seq![last];
    short_runs(mid, last, last);
    assert(mid.output(end) =~= end);
    filter_runs_compose(m, start + body, end);
    assert(m.output(start + body + end) =~= start + body + end);
}

/// An operating system command passes unchanged, and the `BEL` that may end it
/// is no attention bell.
pub proof fn os_command_passes(m: AcsModel, body: Seq<u8>, end: Seq<u8>)
    requires
        m.state == AcsState::Ground,
        forall|i: int| 0 <= i < body.len() ==> #[trigger] body[i] != 0x07 && body[i] != 0x1b,
        end == seq![0x07u8] || end == seq![0x1bu8, 0x5cu8],
    ensures
        ({
            let input = seq![0x1bu8, 0x5du8] + body + end;
            &&& m.output(input) == input
            &&& m.after(input) == m
        }),
{
    let start = seq![0x1bu8, 0x5du8];
    short_runs(m, 0x1b, 0x5d);
    let mid = m.after(start);
    assert(mid == AcsModel { state: AcsState::Osc, ..m });
    assert(m.output(start) =~= start);
    sequence_body_passes(mid, body);
    filter_runs_compose(m, start, body);
    short_runs(mid, 0x07, 0x07);
    short_runs(mid, 0x1b, 0x5c);
    assert(mid.output(end) =~= end);
    assert(mid.after(end) == m);
    filter_runs_compose(m, start + body, end);
    assert(m.output(start + body + end) =~= start + body + end);
}

proof fn sequence_body_passes(m: AcsModel, body: Seq<u8>)
    requires
        m.state == AcsState::Csi || m.state == AcsState::Osc,
        m.state == AcsState::Csi ==> forall|i: int|
            0 <= i < body.len() ==> !(0x40 <= #[trigger] body[i] <= 0x7e),
        m.state == AcsState::Osc ==> forall|i: int|
            0 <= i < body.len() ==> #[trigger] body[i] != 0x07 && body[i] != 0x1b,
    ensures
        m.after(body) == m,
        m.output(body) == body,
    decreases body.len(),
{
    if body.len() > 0 {
        sequence_body_passes(m, body.drop_last());
        let b = body[body.len() - 1];
        assert(b == body.last());
        assert(m.output(body) =~= body);
    }
}

/// A run rings the attention bell exactly if some `BEL` of it arrives outside
/// any sequence.
pub proof fn bell_rings_in_ground_only(m: AcsModel, input: Seq<u8>)
    ensures
        m.quiet().after(input).bell <==> exists|i: int|
            0 <= i < input.len() && #[trigger] input[i] == 0x07 && m.quiet().after(
                input.take(i),
            ).state == AcsState::Ground,
    decreases input.len(),
{
    let q = m.quiet();
    if input.len() > 0 {
        let init = input.drop_last();
        let n = input.len() - 1;
        bell_rings_in_ground_only(m, init);
        assert(input.take(n) =~= init);
        if q.after(init).bell {
            let i = choose|i: int|
                0 <= i < init.len() && #[trigger] init[i] == 0x07 && q.after(init.take(i)).state
                    == AcsState::Ground;
            assert(input[i] == 0x07);
            assert(input.take(i) =~= init.take(i));
        }
        if q.after(input).bell && !q.after(init).bell {
            assert(input[n] == 0x07);
        }
        if exists|i: int|
            0 <= i < input.len() && #[trigger] input[i] == 0x07 && q.after(input.take(i)).state
                == AcsState::Ground {
            let i = choose|i: int|
                0 <= i < input.len() && #[trigger] input[i] == 0x07 && q.after(
                    input.take(i),
                ).state == AcsState::Ground;
            if i < n {
                assert(init[i] == 0x07);
                assert(init.take(i) =~= input.take(i));
            }
        }
    }
}

/// While a line-drawing charset is active, bytes that it does not redefine come
/// out as they went in: blanks, line breaks, digits, capitals, whatever is not
/// `ESC`, `SO`, `SI`, `BEL` nor from 0x5f to 0x7e.
pub proof fn other_bytes_pass_in_line_drawing(m: AcsModel, run: Seq<u8>)
    requires
        m.state == AcsState::Ground,
        m.line_active(),
        forall|i: int|
            0 <= i < run.len() ==> {
                let b = #[trigger] run[i];
                &&& b != 0x1b && b != 0x0e && b != 0x0f && b != 0x07
                &&& !(0x5f <= b <= 0x7e)
            },
    ensures
        m.after(run) == m,
        m.output(run) == run,
    decreases run.len(),
{
    if run.len() > 0 {
        let front = run.drop_last();
        assert forall|i: int| 0 <= i < front.len() implies {
            let b = #[trigger] front[i];
            &&& b != 0x1b && b != 0x0e && b != 0x0f && b != 0x07
            &&& !(0x5f <= b <= 0x7e)
        } by {
            assert(front[i] == run[i]);
        }
        other_bytes_pass_in_line_drawing(m, front);
        let b = run[run.len() - 1];
        assert(m.emitted(b) =~= seq![b]);
        assert(m.output(run) =~= run);
    }
}

/// While no line-drawing charset is active, every byte but `ESC`, `SO`, `SI` and
/// `BEL` comes out as it went in.
pub proof fn all_bytes_pass_in_text(m: AcsModel, run: Seq<u8>)
    requires
        m.state == AcsState::Ground,
        !m.line_active(),
        forall|i: int|
            0 <= i < run.len() ==> {
                let b = #[trigger] run[i];
                b != 0x1b && b != 0x0e && b != 0x0f && b != 0x07
            },
    ensures
        m.after(run) == m,
        m.output(run) == run,
    decreases run.len(),
{
    if run.len() > 0 {
        let front = run.drop_last();
        assert forall|i: int| 0 <= i < front.len() implies {
            let b = #[trigger] front[i];
            b != 0x1b && b != 0x0e && b != 0x0f && b != 0x07
        } by {
            assert(front[i] == run[i]);
        }
        all_bytes_pass_in_text(m, front);
        let b = run[run.len() - 1];
        assert(m.emitted(b) =~= seq![b]);
        assert(m.output(run) =~= run);
    }
}

/// What a run of ASCII bytes shows in line drawing: a glyph for each byte from
/// 0x5f to 0x7e, and each other byte itself.
pub open spec fn drawn(run: Seq<u8>) -> Seq<char> {
    run.map_values(
        |b: u8|
            if 0x5f <= b <= 0x7e {
                acs_glyph(b)
            } else {
                b as char
            },
    )
}

/// A drawing comes out character for character: an ASCII run, its blanks and
/// line breaks included, between a designation of line drawing and one of text,
/// comes out as the UTF-8 form of what it shows, and leaves no trace.
pub proof fn drawings_come_out_whole(run: Seq<u8>)
    requires
        forall|i: int|
            0 <= i < run.len() ==> {
                let b = #[trigger] run[i];
                b < 0x80 && b != 0x1b && b != 0x0e && b != 0x0f && b != 0x07
            },
    ensures
        ({
            let input = seq![0x1bu8, 0x28u8, 0x30u8] + run + seq![0x1bu8, 0x28u8, 0x42u8];
            &&& AcsModel::initial().output(input) == encode_utf8(drawn(run))
            &&& AcsModel::initial().after(input) == AcsModel::initial()
        }),
        drawn(run).len() == run.len(),
{
    let m = AcsModel::initial();
    let start = seq![0x1bu8, 0x28u8, 0x30u8];
    let end = seq![0x1bu8, 0x28u8, 0x42u8];
    let none = Seq::<u8>::empty();
    designation_is_consumed(m, 0x28, none, 0x30);
    assert(seq![0x1bu8, 0x28u8] + none + seq![0x30u8] =~= start);
    let on = m.after(start);
    drawing_is_rewritten(on, run);
    filter_runs_compose(m, start, run);
    designation_is_consumed(on, 0x28, none, 0x42);
    assert(seq![0x1bu8, 0x28u8] + none + seq![0x42u8] =~= end);
    filter_runs_compose(m, start + run, end);
    assert(m.output(start) =~= none);
    assert(on.output(end) =~= none);
    assert(m.output(start + run + end) =~= encode_utf8(drawn(run)));
}

proof fn drawing_is_rewritten(m: AcsModel, run: Seq<u8>)
    requires
        m.state == AcsState::Ground,
        m.line_active(),
        forall|i: int|
            0 <= i < run.len() ==> {
                let b = #[trigger] run[i];
                b < 0x80 && b != 0x1b && b != 0x0e && b != 0x0f && b != 0x07
            },
    ensures
        m.after(run) == m,
        m.output(run) == encode_utf8(drawn(run)),
    decreases run.len(),
{
    if run.len() > 0 {
        let front = run.drop_last();
        assert forall|i: int| 0 <= i < front.len() implies {
            let b = #[trigger] front[i];
            b < 0x80 && b != 0x1b && b != 0x0e && b != 0x0f && b != 0x07
        } by {
            assert(front[i] == run[i]);
        }
        drawing_is_rewritten(m, front);
        let b = run[run.len() - 1];
        let c = drawn(run).last();
        assert(drawn(run) =~= drawn(front) + seq![c]);
        encode_utf8_append(drawn(front), seq![c]);
        if !(0x5f <= b <= 0x7e) {
            ascii_is_its_own_form(b);
        }
        assert(m.output(run) =~= m.output(front) + encode_utf8(seq![c]));
    }
}

/// An ASCII byte is the UTF-8 form of its character.
proof fn ascii_is_its_own_form(b: u8)
    requires
        b < 0x80,
    ensures
        encode_utf8(seq![b as char]) == seq![b],
{
    let s = seq![b as char];
    assert(vstd::utf8::is_ascii_chars(s));
    vstd::utf8::is_ascii_chars_encode_utf8(s);
    assert(encode_utf8(s) =~= seq![b]);
}

/// `SO` makes G1 the active slot and `SI` G0. Neither comes out, and neither
/// changes what the slots designate.
pub proof fn shifts_select_the_slot(m: AcsModel)
    requires
        m.state == AcsState::Ground,
    ensures
        m.output(seq![0x0eu8]).len() == 0,
        m.output(seq![0x0fu8]).len() == 0,
        m.after(seq![0x0eu8]) == (AcsModel { shift_out: true, ..m }),
        m.after(seq![0x0fu8]) == (AcsModel { shift_out: false, ..m }),
        m.after(seq![0x0eu8]).line_active() == m.g1_line,
        m.after(seq![0x0fu8]).line_active() == m.g0_line,
{
    short_runs(m, 0x0e, 0x0e);
    short_runs(m, 0x0f, 0x0f);
}

/// A `BEL` outside any sequence rings and does not come out; nothing else
/// changes.
pub proof fn bells_are_picked_out(m: AcsModel)
    requires
        m.state == AcsState::Ground,
    ensures
        m.output(seq![0x07u8]).len() == 0,
        m.after(seq![0x07u8]) == (AcsModel { bell: true, ..m }),
{
    short_runs(m, 0x07, 0x07);
}

/// An escape sequence of one more byte comes out as it went in and changes
/// nothing, unless the byte opens a designation, a control sequence or an
/// operating system command.
pub proof fn short_escapes_pass(m: AcsModel, b: u8)
    requires
        m.state == AcsState::Ground,
        b != 0x28 && b != 0x29 && b != 0x2a && b != 0x2b && b != 0x5b && b != 0x5d,
    ensures
        m.output(seq![0x1bu8, b]) == seq![0x1bu8, b],
        m.after(seq![0x1bu8, b]) == m,
{
    short_runs(m, 0x1b, b);
    assert(m.output(seq![0x1bu8, b]) =~= seq![0x1bu8, b]);
}

/// A designation sets the slot that its second byte names, `(` G0 and `)` G1, to
/// line drawing for a `0` and to text for any other letter or digit. It sets
/// nothing for `*` and `+`. It does not come out.
pub proof fn designations_set_their_slot(m: AcsModel, last: u8)
    requires
        m.state == AcsState::Ground,
        last >= 0x30,
    ensures
        m.after(seq![0x1bu8, 0x28u8, last]) == (AcsModel { g0_line: last == 0x30, ..m }),
        m.after(seq![0x1bu8, 0x29u8, last]) == (AcsModel { g1_line: last == 0x30, ..m }),
        m.after(seq![0x1bu8, 0x2au8, last]) == m,
        m.after(seq![0x1bu8, 0x2bu8, last]) == m,
        m.output(seq![0x1bu8, 0x28u8, last]).len() == 0,
        m.output(seq![0x1bu8, 0x29u8, last]).len() == 0,
        m.output(seq![0x1bu8, 0x2au8, last]).len() == 0,
        m.output(seq![0x1bu8, 0x2bu8, last]).len() == 0,
{
    let none = Seq::<u8>::empty();
    assert forall|which: u8| 0x28 <= which <= 0x2b implies #[trigger] seq![0x1bu8, which] + none
        + seq![last] == seq![0x1bu8, which, last] by {
        assert(seq![0x1bu8, which] + none + seq![last] =~= seq![0x1bu8, which, last]);
    }
    designation_is_consumed(m, 0x28, none, last);
    designation_is_consumed(m, 0x29, none, last);
    designation_is_consumed(m, 0x2a, none, last);
    designation_is_consumed(m, 0x2b, none, last);
}

/// Inside an operating system command every byte comes out, and nothing but
/// `BEL` or `ESC \` ends it: an `ESC` before another byte does not.
pub proof fn os_commands_go_on(m: AcsModel, b: u8)
    requires
        m.state == AcsState::Osc,
    ensures
        b != 0x07 && b != 0x1b ==> m.after(seq![b]) == m,
        m.output(seq![b]) == seq![b],
        b != 0x5c ==> m.after(seq![0x1bu8, b]) == m,
        m.output(seq![0x1bu8, b]) == seq![0x1bu8, b],
        m.after(seq![0x07u8]) == (AcsModel { state: AcsState::Ground, ..m }),
        m.after(seq![0x1bu8, 0x5cu8]) == (AcsModel { state: AcsState::Ground, ..m }),
{
    short_runs(m, b, b);
    short_runs(m, 0x1b, b);
    short_runs(m, 0x07, 0x07);
    short_runs(m, 0x1b, 0x5c);
    assert(m.output(seq![b]) =~= seq![b]);
    assert(m.output(seq![0x1bu8, b]) =~= seq![0x1bu8, b]);
}

/// No two bytes of the line-drawing charset stand for one glyph, and none of
/// their glyphs is an ASCII character but the blank of 0x5f.
pub proof fn glyphs_differ(a: u8, b: u8)
    requires
        0x5f <= a < b <= 0x7e,
    ensures
        acs_glyph(a) != acs_glyph(b),
        acs_glyph(b) as u32 >= 0x80,
        acs_glyph(0x5f) == ' ',
{
}


} // verus!
