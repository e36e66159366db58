//! Line-mode ANSI handling: SGR colour to `LineKind` matching and removal
//! of every other control sequence.
//!
//! `vte::Parser` runs the byte-level state machine. The actions it reports
//! (printable characters, C0 controls, CSI dispatches) are recorded as
//! `VtAction` values, and the line assembler consumes them:
//!
//! 1. printable characters are appended to the current line; a line that
//!    would grow past the per-line cap (counted in UTF-8 bytes) is emitted
//!    first and a new one started;
//! 2. `\n` and `\r` each end the current line;
//! 3. an SGR (`CSI ... m`) sets the line's kind from the first non-default
//!    foreground colour seen on the line;
//! 4. everything else is dropped.

use vstd::prelude::*;

use crate::text::{copy_bytes, string_push};

verus! {

/// Per-line cap, in bytes. Lines longer than this are force-split.
pub const DEFAULT_LINE_CAP: usize = 65536;

/// How a line of output is coloured when rendered.
#[derive(Clone, Copy, Debug, PartialEq, Eq, Structural)]
pub enum LineKind {
    /// Plain output.
    Out,
    /// Informational text (blue and cyan output).
    Info,
    /// Successful output (green output).
    Success,
    /// Warning (yellow output).
    Warn,
    /// Error (red output).
    Error,
    /// Dimmed secondary text, used for session markers.
    Dim,
}

/// A single line of scrollback.
#[derive(Clone, Debug)]
pub struct TerminalLine {
    pub kind: LineKind,
    pub text: String,
}

impl View for TerminalLine {
    type V = (LineKind, Seq<char>);

    open spec fn view(&self) -> (LineKind, Seq<char>) {
        (self.kind, self.text@)
    }
}

impl TerminalLine {
    /// A line of the given kind and text.
    pub fn new(kind: LineKind, text: String) -> (line: TerminalLine)
        ensures
            line.kind == kind,
            line.text@ == text@,
    {
        TerminalLine { kind, text }
    }
}

/// One action reported by the byte-level parser.
#[derive(Clone, Debug)]
pub enum VtAction {
    /// A printable character.
    Print(char),
    /// A C0 or C1 control byte.
    Execute(u8),
    /// A complete CSI sequence: its parameters (each with its
    /// colon-separated subparameters), intermediate bytes, whether the
    /// parser had to drop part of it, and its final character.
    CsiDispatch { params: Vec<Vec<u16>>, intermediates: Vec<u8>, ignore: bool, action: char },
}

/// The byte-level escape-sequence parser of `vte`, held opaque.
#[verifier::external_type_specification]
#[verifier::external_body]
pub struct ExVteParser<const OSC_RAW_BUF_SIZE: usize>(vte::Parser<OSC_RAW_BUF_SIZE>);

/// The parameter list `vte` hands to a CSI dispatch, held opaque.
#[verifier::external_type_specification]
#[verifier::external_body]
pub struct ExVteParams(vte::Params);

/// Records the parser's callbacks, in order.
pub struct ActionLog {
    actions: Vec<VtAction>,
}

impl ActionLog {
    /// The actions recorded so far, oldest first.
    pub closed spec fn recorded(&self) -> Seq<VtAction> {
        self.actions@
    }
}

/// The parameters of a CSI sequence as `vte` holds them.
pub uninterp spec fn vte_params(p: vte::Params) -> Seq<Seq<u16>>;

/// Copies a `vte::Params` into plain vectors.
///
/// Trusted: walks `vte::Params::iter`, which yields each parameter as the
/// slice of its subparameters; the contract only ties the result to the
/// argument through the name `vte_params`.
#[verifier::external_body]
fn params_to_vec(params: &vte::Params) -> (res: Vec<Vec<u16>>)
    ensures
        res.deep_view() == vte_params(*params),
{
    params.iter().map(<[u16]>::to_vec).collect()
}

impl vte::Perform for ActionLog {
    /// Operating system commands (titles, clipboard, hyperlinks) are dropped.
    fn osc_dispatch(&mut self, params: &[&[u8]], bell_terminated: bool)
        ensures
            final(self).recorded() == old(self).recorded(),
    {
    }

    /// Plain escape sequences are dropped.
    fn esc_dispatch(&mut self, intermediates: &[u8], ignore: bool, byte: u8)
        ensures
            final(self).recorded() == old(self).recorded(),
    {
    }

    /// Device control strings are dropped.
    fn hook(&mut self, params: &vte::Params, intermediates: &[u8], ignore: bool, action: char)
        ensures
            final(self).recorded() == old(self).recorded(),
    {
    }

    /// Device control string content is dropped.
    fn put(&mut self, byte: u8)
        ensures
            final(self).recorded() == old(self).recorded(),
    {
    }

    /// The end of a device control string is dropped.
    fn unhook(&mut self)
        ensures
            final(self).recorded() == old(self).recorded(),
    {
    }

    fn print(&mut self, c: char)
        ensures
            final(self).recorded() == old(self).recorded().push(VtAction::Print(c)),
    {
        self.actions.push(VtAction::Print(c));
    }

    fn execute(&mut self, byte: u8)
        ensures
            final(self).recorded() == old(self).recorded().push(VtAction::Execute(byte)),
    {
        self.actions.push(VtAction::Execute(byte));
    }

    fn csi_dispatch(&mut self, params: &vte::Params, intermediates: &[u8], ignore: bool, action: char)
        ensures
            final(self).recorded().len() == old(self).recorded().len() + 1,
            final(self).recorded().drop_last() == old(self).recorded(),
            final(self).recorded().last() matches VtAction::CsiDispatch {
                params: p,
                intermediates: i,
                ignore: g,
                action: a,
            } && p.deep_view() == vte_params(*params) && i@ == intermediates@ && g == ignore
                && a == action,
    {
        let params = params_to_vec(params);
        let intermediates = copy_bytes(intermediates);
        self.actions.push(VtAction::CsiDispatch { params, intermediates, ignore, action });
    }
}

/// A fresh parser in its ground state.
///
/// Trusted: calls `vte::Parser::new`; nothing is stated of the opaque parser.
#[verifier::external_body]
fn new_parser() -> vte::Parser {
    vte::Parser::new()
}

/// The actions `vte::Parser::advance` reports, through [`ActionLog`], when
/// a parser in state `p` is run over `bytes`.
pub uninterp spec fn vte_actions(p: vte::Parser, bytes: Seq<u8>) -> Seq<VtAction>;

/// The state a parser in state `p` is left in after `vte::Parser::advance`
/// over `bytes`.
pub uninterp spec fn vte_next(p: vte::Parser, bytes: Seq<u8>) -> vte::Parser;

/// Runs the parser over `bytes` and returns the actions it reported.
///
/// Trusted: calls `vte::Parser::advance` with an [`ActionLog`], which
/// records `print`, `execute` and `csi_dispatch` and drops the other
/// callbacks (OSC, ESC and DCS). `advance` is a deterministic function of the parser's state
/// and the bytes (a sequence split across calls resumes where it stopped):
/// the actions and the next state are named by `vte_actions` and `vte_next`
/// of the state before the call and the bytes.
#[verifier::external_body]
fn vte_advance(parser: &mut vte::Parser, bytes: &[u8]) -> (res: Vec<VtAction>)
    ensures
        res@ == vte_actions(*old(parser), bytes@),
        *final(parser) == vte_next(*old(parser), bytes@),
{
    let mut log = ActionLog { actions: Vec::new() };
    parser.advance(&mut log, bytes);
    log.actions
}

// ---------------------------------------------------------------------
// Colours
// ---------------------------------------------------------------------

/// The kind of one of the eight basic ANSI colours (0 black, 1 red,
/// 2 green, 3 yellow, 4 blue, 5 magenta, 6 cyan, 7 white). `None` stands
/// for the default bucket: such a colour does not claim the line.
pub open spec fn basic_colour_kind(i: int) -> Option<LineKind> {
    if i == 1 {
        Some(LineKind::Error)
    } else if i == 2 {
        Some(LineKind::Success)
    } else if i == 3 {
        Some(LineKind::Warn)
    } else if i == 4 || i == 6 {
        Some(LineKind::Info)
    } else {
        None
    }
}

/// The kind of a plain foreground SGR code (30-37 and 90-97).
pub open spec fn fg_code_kind(code: int) -> Option<LineKind> {
    if 30 <= code <= 37 {
        basic_colour_kind(code - 30)
    } else if 90 <= code <= 97 {
        basic_colour_kind(code - 90)
    } else {
        None
    }
}

/// The basic colour nearest to `(r, g, b)`: each channel is on from 128.
pub open spec fn nearest_basic(r: int, g: int, b: int) -> int {
    (if r >= 128 { 1int } else { 0int }) + (if g >= 128 { 2int } else { 0int }) + (if b >= 128 {
        4int
    } else {
        0int
    })
}

/// The full-intensity corner of the colour cube that stands for basic colour `i`.
pub open spec fn corner(i: int, channel: int) -> int {
    if (channel == 0 && i % 2 == 1) || (channel == 1 && (i / 2) % 2 == 1) || (channel == 2 && (i
        / 4) % 2 == 1) {
        255
    } else {
        0
    }
}

/// Squared distance from `(r, g, b)` to the corner of basic colour `i`.
pub open spec fn corner_dist(r: int, g: int, b: int, i: int) -> int {
    (r - corner(i, 0)) * (r - corner(i, 0)) + (g - corner(i, 1)) * (g - corner(i, 1)) + (b
        - corner(i, 2)) * (b - corner(i, 2))
}

/// The kind of a truecolor value: that of the nearest basic colour.
pub open spec fn rgb_kind(r: int, g: int, b: int) -> Option<LineKind> {
    basic_colour_kind(nearest_basic(r, g, b))
}

/// Channel intensity of a level (0..6) of the 256-colour cube.
pub open spec fn cube_level(x: int) -> int {
    if x == 0 { 0 } else { 55 + 40 * x }
}

/// The kind of a 256-colour palette index.
pub open spec fn indexed_kind(n: int) -> Option<LineKind> {
    if 0 <= n < 8 {
        basic_colour_kind(n)
    } else if 8 <= n < 16 {
        basic_colour_kind(n - 8)
    } else if 16 <= n < 232 {
        let i = n - 16;
        rgb_kind(cube_level(i / 36), cube_level((i / 6) % 6), cube_level(i % 6))
    } else {
        None
    }
}

/// The main value of a parameter (an empty parameter counts as 0).
pub open spec fn code_of(p: Seq<u16>) -> int {
    if p.len() == 0 { 0 } else { p[0] as int }
}

/// An extended colour (code 38, 48 or 58) introduced at `ps[i]`: the kind it
/// names (for a foreground colour) and the index of the next parameter.
/// The colon form carries its arguments as subparameters
/// (`38:5:n`, `38:2:r:g:b`, `38:2:cs:r:g:b`); the semicolon form in the
/// parameters that follow (`38;5;n`, `38;2;r;g;b`).
pub open spec fn extended_colour(ps: Seq<Seq<u16>>, i: int) -> (Option<LineKind>, int) {
    let p = ps[i];
    if p.len() > 1 {
        let mode = p[1] as int;
        let k = if mode == 5 && p.len() >= 3 {
            indexed_kind(p[2] as int)
        } else if mode == 2 && p.len() >= 6 {
            rgb_kind(p[3] as int, p[4] as int, p[5] as int)
        } else if mode == 2 && p.len() == 5 {
            rgb_kind(p[2] as int, p[3] as int, p[4] as int)
        } else {
            None
        };
        (k, i + 1)
    } else if i + 1 < ps.len() {
        let mode = code_of(ps[i + 1]);
        if mode == 5 {
            if i + 2 < ps.len() {
                (indexed_kind(code_of(ps[i + 2])), i + 3)
            } else {
                (None, ps.len() as int)
            }
        } else if mode == 2 {
            if i + 4 < ps.len() {
                (rgb_kind(code_of(ps[i + 2]), code_of(ps[i + 3]), code_of(ps[i + 4])), i + 5)
            } else {
                (None, ps.len() as int)
            }
        } else {
            (None, i + 2)
        }
    } else {
        (None, i + 1)
    }
}

/// The first foreground colour of a non-default kind that the SGR
/// parameters `ps[i..]` set, if any.
pub open spec fn sgr_scan(ps: Seq<Seq<u16>>, i: int) -> Option<LineKind>
    decreases ps.len() - i,
{
    if i < 0 || i >= ps.len() {
        None
    } else {
        let code = code_of(ps[i]);
        if code == 38 || code == 48 || code == 58 {
            let next = extended_colour(ps, i).1;
            if code == 38 && extended_colour(ps, i).0 is Some {
                extended_colour(ps, i).0
            } else {
                sgr_scan(ps, next)
            }
        } else if fg_code_kind(code) is Some {
            fg_code_kind(code)
        } else {
            sgr_scan(ps, i + 1)
        }
    }
}

/// Whether a CSI dispatch is a plain, complete SGR sequence.
pub open spec fn is_sgr(intermediates: Seq<u8>, ignore: bool, action: char) -> bool {
    action == 'm' && intermediates.len() == 0 && !ignore
}

// ---------------------------------------------------------------------
// Line assembly
// ---------------------------------------------------------------------

/// The state of the line being assembled.
pub struct LineState {
    /// Characters of the current, unfinished line.
    pub buffer: Seq<char>,
    /// First non-default colour seen on the line.
    pub pending: Option<LineKind>,
}

/// The kind and text of an emitted line.
pub type LineView = (LineKind, Seq<char>);

/// The line state of a fresh handler.
pub open spec fn initial_state() -> LineState {
    LineState { buffer: Seq::empty(), pending: None }
}

/// The kind a line gets from its colour slot.
pub open spec fn resolve_kind(pending: Option<LineKind>) -> LineKind {
    match pending {
        Some(k) => k,
        None => LineKind::Out,
    }
}

/// Length of a character in UTF-8.
pub open spec fn char_len(c: char) -> nat {
    let n = c as u32;
    if n < 0x80 {
        1
    } else if n < 0x800 {
        2
    } else if n < 0x10000 {
        3
    } else {
        4
    }
}

/// Length of a character sequence in UTF-8.
pub open spec fn utf8_len(s: Seq<char>) -> nat
    decreases s.len(),
{
    if s.len() == 0 {
        0
    } else {
        utf8_len(s.drop_last()) + char_len(s.last())
    }
}

/// A line fits the cap: at most `cap` bytes, or a single character.
pub open spec fn fits(cap: nat, s: Seq<char>) -> bool {
    utf8_len(s) <= cap || s.len() <= 1
}

/// Appending a character; a line that would grow past the cap is emitted
/// first, keeping its colour for the continuation.
pub open spec fn push_char(cap: nat, m: LineState, c: char) -> (LineState, Seq<LineView>) {
    if m.buffer.len() > 0 && utf8_len(m.buffer) + char_len(c) > cap {
        (
            LineState { buffer: seq![c], pending: m.pending },
            seq![(resolve_kind(m.pending), m.buffer)],
        )
    } else {
        (LineState { buffer: m.buffer.push(c), pending: m.pending }, Seq::empty())
    }
}

/// Ending the current line.
pub open spec fn end_line(m: LineState) -> (LineState, Seq<LineView>) {
    (
        LineState { buffer: Seq::empty(), pending: None },
        seq![(resolve_kind(m.pending), m.buffer)],
    )
}

/// One parser action applied to the line state: the new state and the
/// lines it completes.
pub open spec fn step(cap: nat, m: LineState, a: VtAction) -> (LineState, Seq<LineView>) {
    match a {
        VtAction::Print(c) => push_char(cap, m, c),
        VtAction::Execute(b) => {
            if b == 0x0a || b == 0x0d {
                end_line(m)
            } else {
                (m, Seq::empty())
            }
        },
        VtAction::CsiDispatch { params, intermediates, ignore, action } => {
            if is_sgr(intermediates@, ignore, action) && m.pending is None {
                (
                    LineState { buffer: m.buffer, pending: sgr_scan(params.deep_view(), 0) },
                    Seq::empty(),
                )
            } else {
                (m, Seq::empty())
            }
        },
    }
}

/// A sequence of parser actions applied in order: the final state and the
/// lines completed along the way.
pub open spec fn run(cap: nat, m: LineState, acts: Seq<VtAction>) -> (LineState, Seq<LineView>)
    decreases acts.len(),
{
    if acts.len() == 0 {
        (m, Seq::empty())
    } else {
        let prev = run(cap, m, acts.drop_last());
        let next = step(cap, prev.0, acts.last());
        (next.0, prev.1 + next.1)
    }
}

/// The views of a sequence of lines.
pub open spec fn views(lines: Seq<TerminalLine>) -> Seq<LineView> {
    lines.map_values(|l: TerminalLine| l@)
}

/// Stateful line-mode handler that consumes backend bytes and emits
/// `TerminalLine`s for a pane's scrollback.
pub struct AnsiHandler {
    line_cap: usize,
    parser: vte::Parser,
    buffer: String,
    buffer_bytes: usize,
    pending_kind: Option<LineKind>,
}

impl AnsiHandler {
    /// The state of the line being assembled.
    pub closed spec fn model(&self) -> LineState {
        LineState { buffer: self.buffer@, pending: self.pending_kind }
    }

    /// The state of the byte-level parser (the part of an escape sequence
    /// seen so far).
    pub closed spec fn parser_state(&self) -> vte::Parser {
        self.parser
    }

    /// The per-line cap.
    pub closed spec fn cap(&self) -> nat {
        self.line_cap as nat
    }

    /// Internal consistency: the byte count matches the buffer, and the
    /// buffer fits the cap.
    pub closed spec fn wf(&self) -> bool {
        &&& self.buffer_bytes == utf8_len(self.buffer@)
        &&& fits(self.line_cap as nat, self.buffer@)
    }

    /// A handler with the default 64 KiB line cap.
    pub fn new() -> (h: AnsiHandler)
        ensures
            h.wf(),
            h.cap() == DEFAULT_LINE_CAP,
            h.model() == initial_state(),
    {
        Self::with_line_cap(DEFAULT_LINE_CAP)
    }

    /// A handler with the given line cap, in bytes.
    pub fn with_line_cap(line_cap: usize) -> (h: AnsiHandler)
        ensures
            h.wf(),
            h.cap() == line_cap,
            h.model() == initial_state(),
    {
        let h = AnsiHandler {
            line_cap,
            parser: new_parser(),
            buffer: String::new(),
            buffer_bytes: 0,
            pending_kind: None,
        };
        assert(h.model() == initial_state());
        h
    }

    /// The per-line cap, in bytes.
    pub fn line_cap(&self) -> (cap: usize)
        ensures
            cap == self.cap(),
    {
        self.line_cap
    }

    /// Emits the current line with the given kind, leaving the buffer empty.
    fn take_line(&mut self, kind: LineKind, out: &mut Vec<TerminalLine>)
        ensures
            final(self).buffer@ == Seq::<char>::empty(),
            final(self).buffer_bytes == 0,
            final(self).line_cap == old(self).line_cap,
            final(self).parser == old(self).parser,
            final(self).pending_kind == old(self).pending_kind,
            views(final(out)@) == views(old(out)@).push((kind, old(self).buffer@)),
    {
        let mut text = String::new();
        std::mem::swap(&mut text, &mut self.buffer);
        out.push(TerminalLine { kind, text });
        self.buffer_bytes = 0;
        assert(views(out@) =~= views(old(out)@).push((kind, old(self).buffer@)));
    }

    fn resolved_kind(&self) -> (k: LineKind)
        ensures
            k == resolve_kind(self.pending_kind),
    {
        match self.pending_kind {
            Some(k) => k,
            None => LineKind::Out,
        }
    }

    fn push_char(&mut self, c: char, out: &mut Vec<TerminalLine>)
        requires
            old(self).wf(),
        ensures
            final(self).wf(),
            final(self).line_cap == old(self).line_cap,
            final(self).parser == old(self).parser,
            final(self).model() == push_char(old(self).cap(), old(self).model(), c).0,
            views(final(out)@) == views(old(out)@) + push_char(
                old(self).cap(),
                old(self).model(),
                c,
            ).1,
    {
        proof {
            lemma_utf8_len_zero(self.buffer@);
        }
        let clen = char_len_exec(c);
        let over = self.buffer_bytes > 0 && (self.buffer_bytes > self.line_cap || clen
            > self.line_cap - self.buffer_bytes);
        if over {
            let kind = self.resolved_kind();
            self.take_line(kind, out);
        }
        let ghost before = self.buffer@;
        string_push(&mut self.buffer, c);
        self.buffer_bytes = self.buffer_bytes + clen;
        proof {
            assert(self.buffer@.drop_last() == before);
            assert(utf8_len(self.buffer@) == utf8_len(before) + char_len(c));
            if over {
                assert(before.len() == 0);
                assert(self.buffer@ =~= seq![c]);
            } else {
                assert(views(out@) =~= views(old(out)@) + Seq::<LineView>::empty());
            }
        }
    }

    fn end_line(&mut self, out: &mut Vec<TerminalLine>)
        requires
            old(self).wf(),
        ensures
            final(self).wf(),
            final(self).line_cap == old(self).line_cap,
            final(self).parser == old(self).parser,
            final(self).model() == end_line(old(self).model()).0,
            views(final(out)@) == views(old(out)@) + end_line(old(self).model()).1,
    {
        let kind = self.resolved_kind();
        self.take_line(kind, out);
        self.pending_kind = None;
        assert(views(out@) =~= views(old(out)@) + end_line(old(self).model()).1);
        assert(self.model() == end_line(old(self).model()).0);
    }

    fn apply_one(&mut self, a: &VtAction, out: &mut Vec<TerminalLine>)
        requires
            old(self).wf(),
        ensures
            final(self).wf(),
            final(self).line_cap == old(self).line_cap,
            final(self).parser == old(self).parser,
            final(self).model() == step(old(self).cap(), old(self).model(), *a).0,
            views(final(out)@) == views(old(out)@) + step(old(self).cap(), old(self).model(), *a).1,
    {
        match a {
            VtAction::Print(c) => {
                self.push_char(*c, out);
            },
            VtAction::Execute(b) => {
                if *b == 0x0a || *b == 0x0d {
                    self.end_line(out);
                } else {
                    assert(views(out@) =~= views(old(out)@) + Seq::<LineView>::empty());
                }
            },
            VtAction::CsiDispatch { params, intermediates, ignore, action } => {
                if *action == 'm' && intermediates.len() == 0 && !*ignore && self.pending_kind.is_none() {
                    self.pending_kind = sgr_first_kind(params);
                }
                assert(views(out@) =~= views(old(out)@) + Seq::<LineView>::empty());
            },
        }
    }

    /// Applies parser actions in order. Returns the lines they complete;
    /// the handler keeps any trailing partial line.
    pub fn apply_actions(&mut self, actions: &Vec<VtAction>) -> (lines: Vec<TerminalLine>)
        requires
            old(self).wf(),
        ensures
            final(self).wf(),
            final(self).cap() == old(self).cap(),
            final(self).parser_state() == old(self).parser_state(),
            (final(self).model(), views(lines@)) == run(old(self).cap(), old(self).model(), actions@),
    {
        let mut lines: Vec<TerminalLine> = Vec::new();
        let mut i: usize = 0;
        assert(actions@.subrange(0, 0) =~= Seq::<VtAction>::empty());
        assert(views(lines@) =~= Seq::<LineView>::empty());
        while i < actions.len()
            invariant
                self.wf(),
                self.line_cap == old(self).line_cap,
                self.parser == old(self).parser,
                0 <= i <= actions.len(),
                (self.model(), views(lines@)) == run(
                    old(self).cap(),
                    old(self).model(),
                    actions@.subrange(0, i as int),
                ),
            decreases actions.len() - i,
        {
            self.apply_one(&actions[i], &mut lines);
            assert(actions@.subrange(0, i + 1).drop_last() =~= actions@.subrange(0, i as int));
            i = i + 1;
        }
        assert(actions@.subrange(0, actions.len() as int) =~= actions@);
        lines
    }

    /// Feeds bytes from the backend. Complete lines they produce are
    /// returned; the handler retains any trailing partial line (and any
    /// partial escape sequence) for the next call.
    pub fn feed(&mut self, bytes: &[u8]) -> (lines: Vec<TerminalLine>)
        requires
            old(self).wf(),
        ensures
            final(self).wf(),
            final(self).cap() == old(self).cap(),
            (final(self).model(), views(lines@)) == run(
                old(self).cap(),
                old(self).model(),
                vte_actions(old(self).parser_state(), bytes@),
            ),
            final(self).parser_state() == vte_next(old(self).parser_state(), bytes@),
            forall|j: int| 0 <= j < lines.len() ==> fits(old(self).cap(), (#[trigger] lines@[j]).text@),
    {
        let actions = vte_advance(&mut self.parser, bytes);
        let ghost start = self.model();
        assert(start == old(self).model());
        let lines = self.apply_actions(&actions);
        proof {
            assert(run(old(self).cap(), old(self).model(), actions@) == (self.model(), views(lines@)));
            lemma_run_fits(self.cap(), start, actions@);
            assert forall|j: int| 0 <= j < lines.len() implies fits(
                old(self).cap(),
                (#[trigger] lines@[j]).text@,
            ) by {
                assert(views(lines@)[j] == lines@[j]@);
                assert(run(old(self).cap(), old(self).model(), actions@).1[j] == lines@[j]@);
                assert(fits(self.cap(), run(self.cap(), start, actions@).1[j].1));
            }
        }
        lines
    }

    /// Force-emits any buffered partial line (e.g. on backend close).
    pub fn flush(&mut self) -> (line: Option<TerminalLine>)
        requires
            old(self).wf(),
        ensures
            final(self).wf(),
            final(self).parser_state() == old(self).parser_state(),
            final(self).cap() == old(self).cap(),
            old(self).model().buffer.len() == 0 ==> line is None && final(self).model() == old(
                self,
            ).model(),
            old(self).model().buffer.len() > 0 ==> (line matches Some(l) && l@ == (
                resolve_kind(old(self).model().pending),
                old(self).model().buffer,
            )),
            old(self).model().buffer.len() > 0 ==> final(self).model() == (LineState {
                buffer: Seq::empty(),
                pending: None,
            }),
    {
        proof {
            lemma_utf8_len_zero(self.buffer@);
        }
        if self.buffer_bytes == 0 {
            return None;
        }
        let kind = self.resolved_kind();
        let mut text = String::new();
        std::mem::swap(&mut text, &mut self.buffer);
        self.buffer_bytes = 0;
        self.pending_kind = None;
        let line = Some(TerminalLine { kind, text });
        assert(self.model() == (LineState {
            buffer: Seq::empty(),
            pending: None,
        }));
        line
    }
}

impl Default for AnsiHandler {
    fn default() -> (h: Self)
        ensures
            h.wf(),
            h.cap() == DEFAULT_LINE_CAP,
            h.model() == initial_state(),
    {
        Self::new()
    }
}

fn char_len_exec(c: char) -> (n: usize)
    ensures
        n == char_len(c),
        1 <= n <= 4,
{
    let v = c as u32;
    if v < 0x80 {
        1
    } else if v < 0x800 {
        2
    } else if v < 0x10000 {
        3
    } else {
        4
    }
}

// ---------------------------------------------------------------------
// SGR scanning
// ---------------------------------------------------------------------

fn basic_colour(i: u16) -> (k: Option<LineKind>)
    ensures
        k == basic_colour_kind(i as int),
{
    if i == 1 {
        Some(LineKind::Error)
    } else if i == 2 {
        Some(LineKind::Success)
    } else if i == 3 {
        Some(LineKind::Warn)
    } else if i == 4 || i == 6 {
        Some(LineKind::Info)
    } else {
        None
    }
}

fn fg_code(code: u16) -> (k: Option<LineKind>)
    ensures
        k == fg_code_kind(code as int),
{
    if 30 <= code && code <= 37 {
        basic_colour(code - 30)
    } else if 90 <= code && code <= 97 {
        basic_colour(code - 90)
    } else {
        None
    }
}

fn rgb(r: u16, g: u16, b: u16) -> (k: Option<LineKind>)
    ensures
        k == rgb_kind(r as int, g as int, b as int),
{
    let i: u16 = (if r >= 128 { 1u16 } else { 0u16 }) + (if g >= 128 { 2u16 } else { 0u16 }) + (if b
        >= 128 {
        4u16
    } else {
        0u16
    });
    basic_colour(i)
}

fn level(x: u16) -> (v: u16)
    requires
        x < 6,
    ensures
        v == cube_level(x as int),
{
    if x == 0 { 0 } else { 55 + 40 * x }
}

fn indexed(n: u16) -> (k: Option<LineKind>)
    ensures
        k == indexed_kind(n as int),
{
    if n < 8 {
        basic_colour(n)
    } else if n < 16 {
        basic_colour(n - 8)
    } else if n < 232 {
        let i = n - 16;
        rgb(level(i / 36), level((i / 6) % 6), level(i % 6))
    } else {
        None
    }
}

fn code_at(ps: &Vec<Vec<u16>>, i: usize) -> (c: u16)
    requires
        i < ps.len(),
    ensures
        c as int == code_of(ps.deep_view()[i as int]),
{
    let p = &ps[i];
    assert(ps.deep_view()[i as int] == p@);
    if p.len() == 0 {
        0
    } else {
        p[0]
    }
}

/// The extended colour introduced at `ps[i]`, as `extended_colour` states it.
fn extended(ps: &Vec<Vec<u16>>, i: usize) -> (res: (Option<LineKind>, usize))
    requires
        i < ps.len(),
    ensures
        res.0 == extended_colour(ps.deep_view(), i as int).0,
        res.1 as int == extended_colour(ps.deep_view(), i as int).1,
{
    let ghost dv = ps.deep_view();
    let p = &ps[i];
    assert(dv[i as int] == p@);
    if p.len() > 1 {
        let mode = p[1];
        let k = if mode == 5 && p.len() >= 3 {
            indexed(p[2])
        } else if mode == 2 && p.len() >= 6 {
            rgb(p[3], p[4], p[5])
        } else if mode == 2 && p.len() == 5 {
            rgb(p[2], p[3], p[4])
        } else {
            None
        };
        (k, i + 1)
    } else if i + 1 < ps.len() {
        let mode = code_at(ps, i + 1);
        if mode == 5 {
            if i + 2 < ps.len() {
                (indexed(code_at(ps, i + 2)), i + 3)
            } else {
                (None, ps.len())
            }
        } else if mode == 2 {
            if ps.len() - i > 4 {
                (rgb(code_at(ps, i + 2), code_at(ps, i + 3), code_at(ps, i + 4)), i + 5)
            } else {
                (None, ps.len())
            }
        } else {
            (None, i + 2)
        }
    } else {
        (None, i + 1)
    }
}

/// The first non-default foreground colour the SGR parameters set.
fn sgr_first_kind(ps: &Vec<Vec<u16>>) -> (k: Option<LineKind>)
    ensures
        k == sgr_scan(ps.deep_view(), 0),
{
    let ghost dv = ps.deep_view();
    let mut i: usize = 0;
    while i < ps.len()
        invariant
            i <= ps.len(),
            dv == ps.deep_view(),
            sgr_scan(dv, 0) == sgr_scan(dv, i as int),
        decreases ps.len() - i,
    {
        let code = code_at(ps, i);
        if code == 38 || code == 48 || code == 58 {
            let (k, next) = extended(ps, i);
            if code == 38 && k.is_some() {
                return k;
            }
            i = next;
        } else {
            let k = fg_code(code);
            if k.is_some() {
                return k;
            }
            i = i + 1;
        }
    }
    None
}

// ---------------------------------------------------------------------
// Laws
// ---------------------------------------------------------------------

/// A character sequence has no UTF-8 bytes exactly when it is empty, and
/// never fewer bytes than characters.
pub proof fn lemma_utf8_len_zero(s: Seq<char>)
    ensures
        (utf8_len(s) == 0) <==> (s.len() == 0),
        utf8_len(s) >= s.len(),
    decreases s.len(),
{
    if s.len() > 0 {
        lemma_utf8_len_zero(s.drop_last());
    }
}

/// Feeding actions in two pieces gives what feeding them at once gives: the
/// same final state, and the lines of the first piece followed by those of
/// the second.
pub proof fn lemma_run_concat(cap: nat, m: LineState, a: Seq<VtAction>, b: Seq<VtAction>)
    ensures
        run(cap, m, a + b) == (
            run(cap, run(cap, m, a).0, b).0,
            run(cap, m, a).1 + run(cap, run(cap, m, a).0, b).1,
        ),
    decreases b.len(),
{
    if b.len() == 0 {
        assert(a + b =~= a);
        assert(run(cap, m, a).1 + Seq::<LineView>::empty() =~= run(cap, m, a).1);
    } else {
        assert((a + b).drop_last() =~= a + b.drop_last());
        assert((a + b).last() == b.last());
        lemma_run_concat(cap, m, a, b.drop_last());
        let mid = run(cap, m, a);
        let rest = run(cap, mid.0, b.drop_last());
        let s = step(cap, rest.0, b.last());
        assert(mid.1 + rest.1 + s.1 =~= mid.1 + (rest.1 + s.1));
    }
}

/// Every line the assembler completes fits the cap, and so does the line it
/// keeps, provided the line it started from did.
pub proof fn lemma_run_fits(cap: nat, m: LineState, acts: Seq<VtAction>)
    requires
        fits(cap, m.buffer),
    ensures
        fits(cap, run(cap, m, acts).0.buffer),
        forall|j: int|
            0 <= j < run(cap, m, acts).1.len() ==> fits(cap, (#[trigger] run(cap, m, acts).1[j]).1),
    decreases acts.len(),
{
    if acts.len() > 0 {
        lemma_run_fits(cap, m, acts.drop_last());
        let prev = run(cap, m, acts.drop_last());
        let s = step(cap, prev.0, acts.last());
        lemma_step_fits(cap, prev.0, acts.last());
        assert forall|j: int| 0 <= j < (prev.1 + s.1).len() implies fits(
            cap,
            (#[trigger] (prev.1 + s.1)[j]).1,
        ) by {
            if j < prev.1.len() {
                assert((prev.1 + s.1)[j] == prev.1[j]);
            } else {
                assert((prev.1 + s.1)[j] == s.1[j - prev.1.len()]);
            }
        }
    }
}

proof fn lemma_push_char_fits(cap: nat, m: LineState, c: char)
    requires
        fits(cap, m.buffer),
    ensures
        fits(cap, push_char(cap, m, c).0.buffer),
        forall|j: int|
            0 <= j < push_char(cap, m, c).1.len() ==> fits(cap, (#[trigger] push_char(cap, m, c).1[j]).1),
{
    let nb = m.buffer.push(c);
    assert(nb.drop_last() =~= m.buffer);
    lemma_utf8_len_zero(m.buffer);
}

proof fn lemma_step_fits(cap: nat, m: LineState, a: VtAction)
    requires
        fits(cap, m.buffer),
    ensures
        fits(cap, step(cap, m, a).0.buffer),
        forall|j: int|
            0 <= j < step(cap, m, a).1.len() ==> fits(cap, (#[trigger] step(cap, m, a).1[j]).1),
{
    match a {
        VtAction::Print(c) => lemma_push_char_fits(cap, m, c),
        _ => {},
    }
}

/// The characters a parser action contributes to the text.
pub open spec fn printed(a: VtAction) -> Seq<char> {
    match a {
        VtAction::Print(c) => seq![c],
        _ => Seq::empty(),
    }
}

/// All characters a sequence of actions contributes, in order.
pub open spec fn printed_all(acts: Seq<VtAction>) -> Seq<char>
    decreases acts.len(),
{
    if acts.len() == 0 {
        Seq::empty()
    } else {
        printed_all(acts.drop_last()) + printed(acts.last())
    }
}

/// The texts of a sequence of lines, joined.
pub open spec fn joined(lines: Seq<LineView>) -> Seq<char>
    decreases lines.len(),
{
    if lines.len() == 0 {
        Seq::empty()
    } else {
        joined(lines.drop_last()) + lines.last().1
    }
}

proof fn lemma_joined_concat(a: Seq<LineView>, b: Seq<LineView>)
    ensures
        joined(a + b) == joined(a) + joined(b),
    decreases b.len(),
{
    if b.len() == 0 {
        assert(a + b =~= a);
        assert(joined(a) + Seq::<char>::empty() =~= joined(a));
    } else {
        assert((a + b).drop_last() =~= a + b.drop_last());
        lemma_joined_concat(a, b.drop_last());
        assert(joined(a) + joined(b.drop_last()) + b.last().1 =~= joined(a) + (joined(
            b.drop_last(),
        ) + b.last().1));
    }
}

proof fn lemma_step_text(cap: nat, m: LineState, a: VtAction)
    ensures
        joined(step(cap, m, a).1) + step(cap, m, a).0.buffer == m.buffer + printed(a),
{
    let s = step(cap, m, a);
    reveal_with_fuel(joined, 2);
    assert(joined(Seq::<LineView>::empty()) == Seq::<char>::empty());
    match a {
        VtAction::Print(c) => {
            if m.buffer.len() > 0 && utf8_len(m.buffer) + char_len(c) > cap {
                assert(s.1.drop_last() =~= Seq::<LineView>::empty());
                assert(joined(s.1) =~= m.buffer);
                assert(m.buffer + seq![c] =~= m.buffer.push(c));
            } else {
                assert(Seq::<char>::empty() + m.buffer.push(c) =~= m.buffer + seq![c]);
            }
        },
        VtAction::Execute(b) => {
            if b == 0x0a || b == 0x0d {
                assert(s.1.drop_last() =~= Seq::<LineView>::empty());
                assert(joined(s.1) + Seq::<char>::empty() =~= m.buffer + Seq::<char>::empty());
            } else {
                assert(Seq::<char>::empty() + m.buffer =~= m.buffer + Seq::<char>::empty());
            }
        },
        VtAction::CsiDispatch { .. } => {
            assert(Seq::<char>::empty() + m.buffer =~= m.buffer + Seq::<char>::empty());
        },
    }
}

/// Nothing printed is lost or repeated: the texts of the completed lines,
/// followed by the line still being assembled, are the starting line
/// followed by every printed character, in order.
pub proof fn lemma_run_preserves_text(cap: nat, m: LineState, acts: Seq<VtAction>)
    ensures
        joined(run(cap, m, acts).1) + run(cap, m, acts).0.buffer == m.buffer + printed_all(acts),
    decreases acts.len(),
{
    if acts.len() == 0 {
        assert(joined(Seq::<LineView>::empty()) == Seq::<char>::empty());
        assert(Seq::<char>::empty() + m.buffer =~= m.buffer + Seq::<char>::empty());
    } else {
        lemma_run_preserves_text(cap, m, acts.drop_last());
        let prev = run(cap, m, acts.drop_last());
        let s = step(cap, prev.0, acts.last());
        lemma_step_text(cap, prev.0, acts.last());
        lemma_joined_concat(prev.1, s.1);
        assert(joined(prev.1 + s.1) + s.0.buffer =~= joined(prev.1) + (joined(s.1) + s.0.buffer));
        assert(m.buffer + printed_all(acts) =~= (m.buffer + printed_all(acts.drop_last()))
            + printed(acts.last()));
    }
}

/// Whether an action ends a line.
pub open spec fn ends_line(a: VtAction) -> bool {
    a matches VtAction::Execute(b) && (b == 0x0a || b == 0x0d)
}

/// First non-default colour wins: once a line has a colour, nothing short
/// of a line end changes it, however many colour changes follow.
pub proof fn lemma_first_colour_sticks(cap: nat, m: LineState, acts: Seq<VtAction>)
    requires
        m.pending is Some,
        forall|i: int| 0 <= i < acts.len() ==> !ends_line(#[trigger] acts[i]),
    ensures
        run(cap, m, acts).0.pending == m.pending,
    decreases acts.len(),
{
    if acts.len() > 0 {
        assert forall|i: int| 0 <= i < acts.drop_last().len() implies !ends_line(
            #[trigger] acts.drop_last()[i],
        ) by {
            assert(acts.drop_last()[i] == acts[i]);
        }
        lemma_first_colour_sticks(cap, m, acts.drop_last());
        assert(!ends_line(acts[acts.len() - 1]));
    }
}

/// On a line without a colour, the first SGR sequence that sets a
/// non-default foreground colour gives the line its kind.
pub proof fn lemma_sgr_claims_line(
    cap: nat,
    m: LineState,
    params: Vec<Vec<u16>>,
    intermediates: Vec<u8>,
)
    requires
        m.pending is None,
    ensures
        step(
            cap,
            m,
            VtAction::CsiDispatch { params, intermediates, ignore: false, action: 'm' },
        ).0.pending == (if intermediates@.len() == 0 {
            sgr_scan(params.deep_view(), 0)
        } else {
            None
        }),
{
}

/// A CSI sequence, colour or not, never completes a line and never touches
/// the text of the line being assembled: colour changes take effect inside
/// the line, which only a line feed, a carriage return or the cap ends.
pub proof fn lemma_csi_keeps_line(cap: nat, m: LineState, a: VtAction)
    requires
        a is CsiDispatch,
    ensures
        step(cap, m, a).1.len() == 0,
        step(cap, m, a).0.buffer == m.buffer,
{
}

/// What completes a line, and which line: a line feed or carriage return
/// emits the line as it stands, and a printed character emits a non-empty
/// line it would push past the cap; no other action emits anything, and
/// none emits more than one line. An emitted line has the kind of the
/// line's colour slot.
pub proof fn lemma_step_emits(cap: nat, m: LineState, a: VtAction)
    ensures
        step(cap, m, a).1.len() <= 1,
        step(cap, m, a).1.len() == 1 <==> (ends_line(a) || (a matches VtAction::Print(c)
            && m.buffer.len() > 0 && utf8_len(m.buffer) + char_len(c) > cap)),
        step(cap, m, a).1.len() == 1 ==> step(cap, m, a).1[0] == (
            resolve_kind(m.pending),
            m.buffer,
        ),
        !ends_line(a) && !(a is Print) ==> step(cap, m, a).0.buffer == m.buffer,
{
}

proof fn lemma_utf8_len_push(s: Seq<char>, c: char)
    ensures
        utf8_len(s.push(c)) == utf8_len(s) + char_len(c),
{
    assert(s.push(c).drop_last() =~= s);
}

/// Within one line, nothing is emitted: as long as no line feed or
/// carriage return comes and the text stays within the cap, every printed
/// character, across any colour changes and other escapes, lands in the
/// same line, in order.
pub proof fn lemma_run_within_line(cap: nat, m: LineState, acts: Seq<VtAction>)
    requires
        forall|i: int| 0 <= i < acts.len() ==> !ends_line(#[trigger] acts[i]),
        utf8_len(m.buffer + printed_all(acts)) <= cap,
    ensures
        run(cap, m, acts).1.len() == 0,
        run(cap, m, acts).0.buffer == m.buffer + printed_all(acts),
    decreases acts.len(),
{
    if acts.len() > 0 {
        let init = acts.drop_last();
        let last = acts.last();
        assert(!ends_line(acts[acts.len() - 1]));
        assert forall|i: int| 0 <= i < init.len() implies !ends_line(#[trigger] init[i]) by {
            assert(init[i] == acts[i]);
        }
        let b = m.buffer + printed_all(init);
        assert(m.buffer + printed_all(acts) =~= b + printed(last));
        match last {
            VtAction::Print(c) => {
                assert(b + printed(last) =~= b.push(c));
                lemma_utf8_len_push(b, c);
            },
            _ => {
                assert(b + printed(last) =~= b);
            },
        }
        lemma_run_within_line(cap, m, init);
        let prev = run(cap, m, init);
        lemma_step_emits(cap, prev.0, last);
        assert(prev.1 + step(cap, prev.0, last).1 =~= Seq::<LineView>::empty());
    }
}

proof fn lemma_extended_not_default(ps: Seq<Seq<u16>>, i: int)
    requires
        0 <= i < ps.len(),
    ensures
        extended_colour(ps, i).0 != Some(LineKind::Out),
        extended_colour(ps, i).1 > i,
{
}

/// Only a non-default colour claims a line: whatever SGR parameters come,
/// the scan never yields `Out`. A reset (`0`), a default foreground (`39`)
/// or a colour of the default bucket leaves an unclaimed line unclaimed.
pub proof fn lemma_sgr_scan_never_default(ps: Seq<Seq<u16>>, i: int)
    ensures
        sgr_scan(ps, i) != Some(LineKind::Out),
    decreases ps.len() - i,
{
    if 0 <= i < ps.len() {
        let code = code_of(ps[i]);
        if code == 38 || code == 48 || code == 58 {
            lemma_extended_not_default(ps, i);
            lemma_sgr_scan_never_default(ps, extended_colour(ps, i).1);
        } else if fg_code_kind(code) is None {
            lemma_sgr_scan_never_default(ps, i + 1);
        }
    }
}

/// The colour slot never holds the default kind: starting from a line
/// whose slot is not `Out`, no sequence of actions puts `Out` there, so a
/// line keeps its slot free for the first real colour after any number of
/// resets.
pub proof fn lemma_run_slot_never_default(cap: nat, m: LineState, acts: Seq<VtAction>)
    requires
        m.pending != Some(LineKind::Out),
    ensures
        run(cap, m, acts).0.pending != Some(LineKind::Out),
    decreases acts.len(),
{
    if acts.len() > 0 {
        lemma_run_slot_never_default(cap, m, acts.drop_last());
        match acts.last() {
            VtAction::CsiDispatch { params, .. } => {
                lemma_sgr_scan_never_default(params.deep_view(), 0);
            },
            _ => {},
        }
    }
}

/// The basic colour chosen for a truecolor value is a nearest one: no
/// basic colour's corner of the cube is closer.
pub proof fn lemma_nearest_basic_is_nearest(r: int, g: int, b: int, i: int)
    requires
        0 <= i < 8,
    ensures
        0 <= nearest_basic(r, g, b) < 8,
        corner_dist(r, g, b, nearest_basic(r, g, b)) <= corner_dist(r, g, b, i),
{
    let n = nearest_basic(r, g, b);
    assert(corner(n, 0) == (if r >= 128 { 255int } else { 0int }));
    assert(corner(n, 1) == (if g >= 128 { 255int } else { 0int }));
    assert(corner(n, 2) == (if b >= 128 { 255int } else { 0int }));
    lemma_channel_nearest(r, corner(i, 0));
    lemma_channel_nearest(g, corner(i, 1));
    lemma_channel_nearest(b, corner(i, 2));
}

proof fn lemma_channel_nearest(x: int, c: int)
    requires
        c == 0 || c == 255,
    ensures
        (x - (if x >= 128 { 255int } else { 0int })) * (x - (if x >= 128 { 255int } else { 0int }))
            <= (x - c) * (x - c),
{
    let n: int = if x >= 128 { 255 } else { 0 };
    if c != n {
        assert((x - n) * (x - n) <= (x - c) * (x - c)) by (nonlinear_arith)
            requires
                (n == 255 && c == 0 && x >= 128) || (n == 0 && c == 255 && x < 128),
        ;
    }
}

} // verus!

verus! {

/// Whether an action is dropped: a CSI sequence other than a plain SGR
/// (cursor movement, erasing, mode switches, mouse modes), or a control
/// byte other than line feed and carriage return.
pub open spec fn is_dropped(a: VtAction) -> bool {
    match a {
        VtAction::CsiDispatch { intermediates, ignore, action, .. } => !is_sgr(
            intermediates@,
            ignore,
            action,
        ),
        VtAction::Execute(b) => b != 0x0a && b != 0x0d,
        VtAction::Print(_) => false,
    }
}

/// Dropped sequences leave the output alone: with one taken out of the
/// actions, the lines and the final state are the same.
pub proof fn lemma_dropped_action_changes_nothing(
    cap: nat,
    m: LineState,
    a: Seq<VtAction>,
    c: VtAction,
    b: Seq<VtAction>,
)
    requires
        is_dropped(c),
    ensures
        run(cap, m, a + seq![c] + b) == run(cap, m, a + b),
{
    let ac = a + seq![c];
    assert(ac.drop_last() =~= a);
    assert(ac.last() == c);
    let ra = run(cap, m, a);
    assert(step(cap, ra.0, c) == (ra.0, Seq::<LineView>::empty()));
    assert(ra.1 + Seq::<LineView>::empty() =~= ra.1);
    assert(run(cap, m, ac) == ra);
    lemma_run_concat(cap, m, ac, b);
    lemma_run_concat(cap, m, a, b);
}

} // verus!
