//! The interactive dashboard's decision core: a state machine from events
//! (keys, resizes, log lines) to actions (refetch, redraw, teardown).
//!
//! The embedding owns the terminal and the event source; it feeds every
//! event through [`Controller::step`] and performs the returned action.  All
//! decisions — which key quits, what a resize may touch, that teardown is
//! issued exactly once — live here, verified.

use vstd::prelude::*;
use crate::logbuf::{line_split, recent, LogBuffer};
use crate::model::DeparturesError;
use crate::text::views_of;
use crate::transform::StationGroup;

verus! {

/// An event the terminal (or the embedding) delivers to the controller.
pub enum ControlEvent {
    /// A plain character key.
    Key(char),
    /// The escape key.
    EscKey,
    /// A process interrupt (such as a control-C combination).
    Interrupt,
    /// The terminal was resized to the given columns and rows.
    Resize(u16, u16),
    /// A demo/test trigger that only emits one log line.
    LogLine(String),
    /// Any other terminal event.
    OtherEvent,
}

/// What the embedding must do after a step.
pub enum ControlAction {
    /// Nothing: the event was a no-op, no redraw.
    Stay,
    /// Fetch fresh departures, hand the outcome to `apply_refresh`, redraw.
    Refetch,
    /// Redraw the dashboard from the unchanged model.
    Redraw,
    /// Release the terminal (disable raw input, leave the alternate screen)
    /// and stop the loop.
    Teardown,
}

/// Whether the loop is still running.
pub enum Phase {
    Active,
    Done,
}

/// The event asks the dashboard to quit: the quit key, escape, or an
/// interrupt.
pub open spec fn is_quit(e: ControlEvent) -> bool {
    match e {
        ControlEvent::Key(c) => c == 'q',
        ControlEvent::EscKey => true,
        ControlEvent::Interrupt => true,
        _ => false,
    }
}

/// The event asks for a manual refresh.
pub open spec fn is_refresh(e: ControlEvent) -> bool {
    e matches ControlEvent::Key(c) && c == 'r'
}

/// The phase after handling `e` in phase `p`: quitting is terminal, nothing
/// else leaves `Active`.
pub open spec fn phase_after(p: Phase, e: ControlEvent) -> Phase {
    match p {
        Phase::Done => Phase::Done,
        Phase::Active => if is_quit(e) {
            Phase::Done
        } else {
            Phase::Active
        },
    }
}

/// The action handling `e` in phase `p` demands, the dashboard's transition
/// table: quit tears down, the refresh key refetches, a resize or a log line
/// redraws, any other event does nothing; once done, nothing happens.
pub open spec fn action_for(p: Phase, e: ControlEvent) -> ControlAction {
    match p {
        Phase::Done => ControlAction::Stay,
        Phase::Active => if is_quit(e) {
            ControlAction::Teardown
        } else if is_refresh(e) {
            ControlAction::Refetch
        } else {
            match e {
                ControlEvent::Resize(_, _) => ControlAction::Redraw,
                ControlEvent::LogLine(_) => ControlAction::Redraw,
                _ => ControlAction::Stay,
            }
        },
    }
}

/// The interactive controller: the current model, the shared log buffer,
/// the terminal geometry, and the loop phase.
pub struct Controller {
    pub phase: Phase,
    pub model: Vec<StationGroup>,
    pub log: LogBuffer,
    pub cols: u16,
    pub rows: u16,
}

impl Controller {
    /// The controller's invariant: its log buffer is well formed.
    pub open spec fn wf(&self) -> bool {
        self.log.wf()
    }

    /// A freshly initialized controller: active, showing `model`, with an
    /// empty log buffer of the given capacity, on a `cols` by `rows`
    /// terminal.
    pub fn new(model: Vec<StationGroup>, max_log_lines: usize, cols: u16, rows: u16) -> (c:
        Controller)
        ensures
            c.wf(),
            c.phase == Phase::Active,
            c.model == model,
            c.cols == cols,
            c.rows == rows,
            c.log.max_lines == max_log_lines,
            c.log.lines@.len() == 0,
            c.log.pending@.len() == 0,
    {
        Controller { phase: Phase::Active, model, log: LogBuffer::new(max_log_lines), cols, rows }
    }

    /// Handle one event.  The phase and the returned action follow the
    /// transition table; the model is never touched (a refresh only happens
    /// through `apply_refresh`); a resize only updates the stored geometry;
    /// a log-line event only appends that line, completed, to the log.
    pub fn step(&mut self, e: &ControlEvent) -> (a: ControlAction)
        requires
            old(self).wf(),
        ensures
            final(self).wf(),
            final(self).phase == phase_after(old(self).phase, *e),
            a == action_for(old(self).phase, *e),
            final(self).model == old(self).model,
            (match *e {
                ControlEvent::Resize(w, h) => if old(self).phase is Active {
                    (final(self).cols == w && final(self).rows == h)
                } else {
                    (final(self).cols == old(self).cols && final(self).rows == old(self).rows)
                },
                _ => final(self).cols == old(self).cols && final(self).rows == old(self).rows,
            }),
            (match *e {
                ControlEvent::LogLine(s) => if old(self).phase is Active {
                    &&& final(self).log.max_lines == old(self).log.max_lines
                    &&& views_of(final(self).log.lines@) == recent(
                        views_of(old(self).log.lines@) + line_split(
                            s@ + "\n"@,
                            old(self).log.pending@,
                        ).0,
                        old(self).log.max_lines as int,
                    )
                    &&& final(self).log.pending@ == line_split(s@ + "\n"@, old(self).log.pending@).1
                } else {
                    (final(self).log == old(self).log)
                },
                _ => final(self).log == old(self).log,
            }),
    {
        match self.phase {
            Phase::Done => ControlAction::Stay,
            Phase::Active => {
                match e {
                    ControlEvent::Key(c) => {
                        if *c == 'q' {
                            self.phase = Phase::Done;
                            ControlAction::Teardown
                        } else if *c == 'r' {
                            ControlAction::Refetch
                        } else {
                            ControlAction::Stay
                        }
                    },
                    ControlEvent::EscKey => {
                        self.phase = Phase::Done;
                        ControlAction::Teardown
                    },
                    ControlEvent::Interrupt => {
                        self.phase = Phase::Done;
                        ControlAction::Teardown
                    },
                    ControlEvent::Resize(w, h) => {
                        self.cols = *w;
                        self.rows = *h;
                        ControlAction::Redraw
                    },
                    ControlEvent::LogLine(s) => {
                        let mut text = s.clone();
                        text.append("\n");
                        self.log.append(text.as_str());
                        ControlAction::Redraw
                    },
                    ControlEvent::OtherEvent => ControlAction::Stay,
                }
            },
        }
    }

    /// Take the outcome of a refetch.  A fresh model replaces the old one
    /// wholesale; a fetch error leaves the last successful model showing.
    /// Nothing else — phase, geometry, log — changes.
    pub fn apply_refresh(&mut self, fetched: Result<Vec<StationGroup>, DeparturesError>)
        requires
            old(self).wf(),
        ensures
            final(self).wf(),
            final(self).phase == old(self).phase,
            final(self).cols == old(self).cols,
            final(self).rows == old(self).rows,
            final(self).log == old(self).log,
            (match fetched {
                Result::Ok(m) => final(self).model == m,
                Result::Err(_) => final(self).model == old(self).model,
            }),
    {
        match fetched {
            Result::Ok(m) => {
                self.model = m;
            },
            Result::Err(_) => {},
        }
    }
}

/// How many teardown actions a run of the transition table issues, starting
/// in phase `p`, over the whole event sequence.
pub open spec fn teardown_count(p: Phase, events: Seq<ControlEvent>) -> int
    decreases events.len(),
{
    if events.len() == 0 {
        0
    } else {
        (if action_for(p, events[0]) == ControlAction::Teardown {
            1int
        } else {
            0int
        }) + teardown_count(phase_after(p, events[0]), events.skip(1))
    }
}

/// Some event of the sequence asks to quit.
pub open spec fn has_quit(events: Seq<ControlEvent>) -> bool {
    exists|i: int| 0 <= i < events.len() && is_quit(#[trigger] events[i])
}

proof fn lemma_teardown_count_done(events: Seq<ControlEvent>)
    ensures
        teardown_count(Phase::Done, events) == 0,
    decreases events.len(),
{
    if events.len() > 0 {
        lemma_teardown_count_done(events.skip(1));
    }
}

/// Whatever events arrive and in whatever order, an active dashboard issues
/// its teardown action exactly once when some event asks to quit — whether
/// by key, escape or interrupt — and never otherwise.
pub proof fn lemma_teardown_once(events: Seq<ControlEvent>)
    ensures
        teardown_count(Phase::Active, events) == if has_quit(events) {
            1int
        } else {
            0int
        },
    decreases events.len(),
{
    if events.len() == 0 {
        assert(!has_quit(events));
    } else {
        let e = events[0];
        let rest = events.skip(1);
        lemma_teardown_once(rest);
        if is_quit(e) {
            lemma_teardown_count_done(rest);
            assert(has_quit(events));
        } else {
            assert(has_quit(events) == has_quit(rest)) by {
                if has_quit(rest) {
                    let i = choose|i: int| 0 <= i < rest.len() && is_quit(#[trigger] rest[i]);
                    assert(events[i + 1] == rest[i]);
                    assert(has_quit(events));
                }
                if has_quit(events) {
                    let i = choose|i: int|
                        0 <= i < events.len() && is_quit(#[trigger] events[i]);
                    assert(i != 0);
                    assert(rest[i - 1] == events[i]);
                    assert(has_quit(rest));
                }
            }
        }
    }
}

} // verus!
