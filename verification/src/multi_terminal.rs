//! What a multi-pane terminal does with the events of each pane's backend
//! and with the commands typed into it.
//!
//! The widget itself (drawing, the pane grid, the channel to each backend)
//! lives with the UI; every pane update it makes is decided here.

use vstd::prelude::*;

use crate::ansi::{
    resolve_kind, run, vte_actions, vte_next, AnsiHandler, LineKind, LineState, LineView,
    TerminalLine,
};
use crate::backend::{BackendEvent, CloseReason, TerminalStatus};
use crate::text::{copy_bytes, decimal, push_decimal, push_str};
use vstd::string::StringSliceAdditionalSpecFns;

verus! {

/// Policy for what to drop when a pane's output buffer fills.
///
/// The default, `DropNewest`, discards bytes that arrive faster than the UI
/// drains them and marks the truncation point, keeping the head of the
/// output (where build and log streams keep their first error).
/// `DropOldest` suits live-tail use.
#[derive(Clone, Copy, Debug, PartialEq, Eq, Structural)]
pub enum OverflowPolicy {
    DropNewest,
    DropOldest,
}

impl Default for OverflowPolicy {
    fn default() -> (p: Self)
        ensures
            p == OverflowPolicy::DropNewest,
    {
        OverflowPolicy::DropNewest
    }
}

/// One update to a pane.
#[derive(Clone, Debug)]
pub enum PaneEffect {
    /// Append a line to the pane's scrollback.
    PushLine(TerminalLine),
    /// Change the pane's connection status.
    SetStatus(TerminalStatus),
}

/// A pane update, with the line taken by its view.
pub enum EffectView {
    PushLine(LineView),
    SetStatus(TerminalStatus),
}

impl View for PaneEffect {
    type V = EffectView;

    open spec fn view(&self) -> EffectView {
        match *self {
            PaneEffect::PushLine(l) => EffectView::PushLine(l@),
            PaneEffect::SetStatus(s) => EffectView::SetStatus(s),
        }
    }
}

/// The views of a sequence of pane updates.
pub open spec fn effect_views(effects: Seq<PaneEffect>) -> Seq<EffectView> {
    effects.map_values(|e: PaneEffect| e@)
}

/// Lines pushed, as pane updates.
pub open spec fn pushes(lines: Seq<LineView>) -> Seq<EffectView> {
    lines.map_values(|l: LineView| EffectView::PushLine(l))
}

/// The divider text for a session that ended.
pub open spec fn close_text(reason: CloseReason) -> Seq<char> {
    match reason {
        CloseReason::Requested => "[session ended]"@,
        CloseReason::RemoteClosed => "[remote closed]"@,
        CloseReason::TransportError(e) => "[transport error: "@ + e@ + "]"@,
        CloseReason::AuthFailed(e) => "[auth failed: "@ + e@ + "]"@,
    }
}

/// The marker for `n` output bytes dropped.
pub open spec fn lossy_text(n: nat) -> Seq<char> {
    "["@ + decimal(n) + " bytes dropped]"@
}

/// The marker for `n` input bytes lost.
pub open spec fn input_lost_text(n: nat) -> Seq<char> {
    "[input lost: "@ + decimal(n) + " bytes]"@
}

/// The updates that end a pane's session: the partial line it was
/// assembling (if any), status `Offline`, and a dim divider saying why.
pub open spec fn closed_effects(m: LineState, reason: CloseReason) -> Seq<EffectView> {
    let tail = seq![
        EffectView::SetStatus(TerminalStatus::Offline),
        EffectView::PushLine((LineKind::Dim, close_text(reason))),
    ];
    if m.buffer.len() > 0 {
        seq![EffectView::PushLine((resolve_kind(m.pending), m.buffer))] + tail
    } else {
        tail
    }
}

/// Describes why a session ended, for the pane's divider line.
pub fn describe_close(reason: &CloseReason) -> (s: String)
    ensures
        s@ == close_text(*reason),
{
    match reason {
        CloseReason::Requested => String::from_str("[session ended]"),
        CloseReason::RemoteClosed => String::from_str("[remote closed]"),
        CloseReason::TransportError(e) => {
            let mut s = String::from_str("[transport error: ");
            push_str(&mut s, e.as_str());
            push_str(&mut s, "]");
            s
        },
        CloseReason::AuthFailed(e) => {
            let mut s = String::from_str("[auth failed: ");
            push_str(&mut s, e.as_str());
            push_str(&mut s, "]");
            s
        },
    }
}

/// The bytes a typed command is sent to a backend as: the command and a
/// newline.
pub fn command_input(command: &str) -> (bytes: Vec<u8>)
    ensures
        bytes@ == command.spec_bytes().push(10u8),
{
    let mut bytes = copy_bytes(command.as_bytes());
    bytes.push(10u8);
    bytes
}

/// Whether an event carries output bytes; a pump that drains any such event
/// asks for a repaint.
pub fn carries_bytes(event: &BackendEvent) -> (b: bool)
    ensures
        b <==> event is Bytes,
{
    match event {
        BackendEvent::Bytes(_) => true,
        _ => false,
    }
}

/// Applies one backend event to a pane: returns the updates for the pane,
/// in order, feeding output bytes through the pane's line assembler.
pub fn pane_effects(ansi: &mut AnsiHandler, event: BackendEvent) -> (effects: Vec<PaneEffect>)
    requires
        old(ansi).wf(),
    ensures
        final(ansi).wf(),
        final(ansi).cap() == old(ansi).cap(),
        match event {
            BackendEvent::Bytes(b) => {
                let r = run(
                    old(ansi).cap(),
                    old(ansi).model(),
                    vte_actions(old(ansi).parser_state(), b@),
                );
                &&& final(ansi).model() == r.0
                &&& effect_views(effects@) == pushes(r.1)
                &&& final(ansi).parser_state() == vte_next(old(ansi).parser_state(), b@)
            },
            BackendEvent::StatusChanged(s) => {
                &&& effect_views(effects@) == seq![EffectView::SetStatus(s)]
                &&& final(ansi).model() == old(ansi).model()
                &&& final(ansi).parser_state() == old(ansi).parser_state()
            },
            BackendEvent::Lossy { dropped } => {
                &&& effect_views(effects@) == seq![
                    EffectView::PushLine((LineKind::Warn, lossy_text(dropped as nat))),
                ]
                &&& final(ansi).model() == old(ansi).model()
                &&& final(ansi).parser_state() == old(ansi).parser_state()
            },
            BackendEvent::InputLost { dropped } => {
                &&& effect_views(effects@) == seq![
                    EffectView::PushLine((LineKind::Warn, input_lost_text(dropped as nat))),
                ]
                &&& final(ansi).model() == old(ansi).model()
                &&& final(ansi).parser_state() == old(ansi).parser_state()
            },
            BackendEvent::Closed { reason } => {
                &&& effect_views(effects@) == closed_effects(old(ansi).model(), reason)
                &&& final(ansi).model().buffer.len() == 0
                &&& final(ansi).parser_state() == old(ansi).parser_state()
            },
        },
{
    let mut effects: Vec<PaneEffect> = Vec::new();
    match event {
        BackendEvent::Bytes(bytes) => {
            let lines = ansi.feed(bytes.as_slice());
            let ghost all = crate::ansi::views(lines@);
            let mut i: usize = 0;
            assert(effect_views(effects@) =~= pushes(all.subrange(0, 0)));
            while i < lines.len()
                invariant
                    i <= lines.len(),
                    all == crate::ansi::views(lines@),
                    effect_views(effects@) == pushes(all.subrange(0, i as int)),
                decreases lines.len() - i,
            {
                let l = &lines[i];
                let text = l.text.clone();
                let ghost prev = effects@;
                effects.push(PaneEffect::PushLine(TerminalLine { kind: l.kind, text }));
                assert(all[i as int] == lines@[i as int]@);
                assert(effect_views(effects@) =~= effect_views(prev).push(
                    EffectView::PushLine(all[i as int]),
                ));
                assert(all.subrange(0, i + 1) =~= all.subrange(0, i as int).push(all[i as int]));
                i = i + 1;
                assert(effect_views(effects@) =~= pushes(all.subrange(0, i as int)));
            }
            assert(all.subrange(0, lines.len() as int) =~= all);
        },
        BackendEvent::StatusChanged(s) => {
            effects.push(PaneEffect::SetStatus(s));
            assert(effect_views(effects@) =~= seq![EffectView::SetStatus(s)]);
        },
        BackendEvent::Lossy { dropped } => {
            let mut text = String::from_str("[");
            push_decimal(&mut text, dropped);
            push_str(&mut text, " bytes dropped]");
            effects.push(PaneEffect::PushLine(TerminalLine::new(LineKind::Warn, text)));
            assert(effect_views(effects@) =~= seq![
                EffectView::PushLine((LineKind::Warn, lossy_text(dropped as nat))),
            ]);
        },
        BackendEvent::InputLost { dropped } => {
            let mut text = String::from_str("[input lost: ");
            push_decimal(&mut text, dropped);
            push_str(&mut text, " bytes]");
            effects.push(PaneEffect::PushLine(TerminalLine::new(LineKind::Warn, text)));
            assert(effect_views(effects@) =~= seq![
                EffectView::PushLine((LineKind::Warn, input_lost_text(dropped as nat))),
            ]);
        },
        BackendEvent::Closed { reason } => {
            let ghost start = ansi.model();
            if let Some(line) = ansi.flush() {
                effects.push(PaneEffect::PushLine(line));
            }
            effects.push(PaneEffect::SetStatus(TerminalStatus::Offline));
            effects.push(
                PaneEffect::PushLine(TerminalLine::new(LineKind::Dim, describe_close(&reason))),
            );
            assert(effect_views(effects@) =~= closed_effects(start, reason));
        },
    }
    effects
}

} // verus!
