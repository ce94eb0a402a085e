//! What the graphical front-end decides once per frame, around drawing: which
//! handler gets the frame's input, how the game clock is kept, how a running
//! auto-solve plays its next move or ends, and how the solvability assist
//! follows the position. The front-end owns the window, the animations and
//! the float clock; it hands their outcomes over as plain values.
use vstd::prelude::*;

use crate::gui::board::takes;
use crate::gui::session::{played, PlayModel, Session};
use crate::gui::solver::{changed, pumped, pumps, verdict_sound, Assist, AssistModel};
use crate::model::moves::Move;
use crate::model::rules::Undo;
use crate::model::state::{model_is_won, GameModel};
use crate::solver::encode::{encode, encode_spec, PositionKey};

verus! {

/// Which modal panel is open (the unwinnable dialog is the assist's own).
#[derive(Clone, Copy, PartialEq, Eq, Debug, Structural)]
pub enum Overlay {
    Closed,
    Solver,
    Settings,
}

/// The handler that gets a frame's input.
#[derive(Clone, Copy, PartialEq, Eq, Debug, Structural)]
pub enum InputRoute {
    /// The unwinnable dialog's buttons.
    Dialog,
    /// The solver overlay's buttons.
    SolverOverlay,
    /// The Settings dialog's rows.
    Settings,
    /// Any press or key cancels a running auto-solve.
    AutoSolve,
    /// The board ([`crate::gui::board::input_step`]).
    Board,
}

/// Input goes, by priority, to the unwinnable dialog, then an open overlay,
/// then a running auto-solve, then the board.
pub open spec fn route_spec(dialog_open: bool, overlay: Overlay, auto_solving: bool) -> InputRoute {
    if dialog_open {
        InputRoute::Dialog
    } else if overlay == Overlay::Solver {
        InputRoute::SolverOverlay
    } else if overlay == Overlay::Settings {
        InputRoute::Settings
    } else if auto_solving {
        InputRoute::AutoSolve
    } else {
        InputRoute::Board
    }
}

/// The handler that gets this frame's input.
pub fn input_route(dialog_open: bool, overlay: Overlay, auto_solving: bool) -> (r: InputRoute)
    ensures
        r == route_spec(dialog_open, overlay, auto_solving),
{
    if dialog_open {
        InputRoute::Dialog
    } else if overlay == Overlay::Solver {
        InputRoute::SolverOverlay
    } else if overlay == Overlay::Settings {
        InputRoute::Settings
    } else if auto_solving {
        InputRoute::AutoSolve
    } else {
        InputRoute::Board
    }
}

/// The game clock at the start of a frame: held at zero while auto-solving
/// (not a scored win), frozen once won, else the seconds played.
pub open spec fn clocked_spec(v: PlayModel, secs: u64) -> PlayModel {
    if v.auto_solving {
        PlayModel { elapsed: 0, state: GameModel { elapsed: 0, ..v.state }, ..v }
    } else if model_is_won(v.state) {
        v
    } else {
        PlayModel { elapsed: secs, state: GameModel { elapsed: secs, ..v.state }, ..v }
    }
}

/// Keep the game clock at the start of a frame, `secs` seconds after the deal.
pub fn clock_step(session: &mut Session, secs: u64)
    requires
        old(session).wf(),
    ensures
        final(session).wf(),
        final(session)@ == clocked_spec(old(session)@, secs),
{
    if session.is_auto_solving() {
        session.set_elapsed(0);
    } else if !session.is_won() {
        session.set_elapsed(secs);
    }
}

/// While auto-solving, any press or key cancels the playback and returns the
/// game to the player (the front-end then clears its queue of moves).
pub fn autosolve_input(session: &mut Session, any_input: bool) -> (cancelled: bool)
    requires
        old(session).wf(),
    ensures
        final(session).wf(),
        cancelled == any_input,
        final(session)@ == if any_input {
            PlayModel { auto_solving: false, ..old(session)@ }
        } else {
            old(session)@
        },
{
    if any_input {
        session.cancel_auto_solve();
    }
    any_input
}

/// What the auto-solve playback has for this frame, as the animations report
/// it.
#[derive(Clone, Copy, PartialEq, Eq, Debug, Structural)]
pub enum Playback {
    /// A card is being dragged or animated, or the next move is not due yet.
    Busy,
    /// The next move of the line is due.
    Next(Move),
    /// The line has been played out.
    Drained,
}

/// What the frame asks of the front-end.
#[derive(Clone, Copy, PartialEq, Eq, Debug, Structural)]
pub enum FrameAction {
    Nothing,
    /// `mv` was played: animate its cards into place.
    Animate(Move),
}

/// What the frame is told besides the session and the assist.
#[derive(Clone, Copy, PartialEq, Eq, Debug, Structural)]
pub struct FrameEvent {
    pub playback: Playback,
    /// Whether the pointer was pressed or released this frame.
    pub pointer_active: bool,
}

/// What the frame remembers: the seed and the position key it last saw.
pub struct FrameState {
    pub last_seed: u64,
    pub last_key: PositionKey,
}

impl View for FrameState {
    type V = (u64, Seq<u8>);

    open spec fn view(&self) -> (u64, Seq<u8>) {
        (self.last_seed, self.last_key@)
    }
}

impl FrameState {
    /// What a frame of the session's position starts from.
    pub fn new(session: &Session) -> (f: FrameState)
        ensures
            f@ == (session@.state.seed, encode_spec(session@.state)),
    {
        FrameState { last_seed: session.seed(), last_key: encode(session.state()) }
    }
}

/// The assist after noticing the seed or position change: a new deal resets
/// it, another position re-resolves it, at some clock reading.
pub open spec fn followed(seen: (u64, Seq<u8>), v: PlayModel, b: AssistModel, b1: AssistModel) -> bool {
    let key = encode_spec(v.state);
    if v.state.seed != seen.0 {
        b1 == crate::gui::solver::begun(
            AssistModel {
                solvable: Set::empty(),
                unwinnable: Set::empty(),
                indicator: crate::gui::solver::Indicator {
                    dialog_open: false,
                    dismissed_streak: false,
                    ..b.indicator
                },
                check: None,
                last_activity: b1.last_activity,
            },
            key,
        )
    } else if key != seen.1 {
        b1 == changed(b, key, b1.last_activity)
    } else {
        b1 == b
    }
}

/// The assist after pointer activity was noted at clock reading `now`.
pub open spec fn noted(b: AssistModel, active: bool, now: u64) -> AssistModel {
    if active {
        AssistModel { last_activity: now, ..b }
    } else {
        b
    }
}

/// The assist after a frame on session `v`: it follows a change of deal or
/// position, notes pointer activity at some clock reading, then runs one
/// slice (or idles) as [`pumped`] says.
pub open spec fn assisted(seen: (u64, Seq<u8>), v: PlayModel, b: AssistModel, active: bool, b3: AssistModel) -> bool {
    exists|b1: AssistModel, now1: u64, verdict: crate::solver::Verdict, slice: u64, now: u64|
        #![trigger pumped(noted(b1, active, now1), encode_spec(v.state), verdict, slice, now)]
        {
            &&& followed(seen, v, b, b1)
            &&& b3 == pumped(noted(b1, active, now1), encode_spec(v.state), verdict, slice, now)
            &&& (pumps(noted(b1, active, now1), encode_spec(v.state)) ==> verdict_sound(v.state, verdict))
        }
}

/// What a frame does after its input: while auto-solving, play the next
/// move of the line, or end the auto-solve once the line is played out
/// (finished on a win, else cancelled); otherwise let the assist follow the
/// position. Either way the frame then remembers the seed and key it saw.
pub open spec fn frame_spec(
    seen: (u64, Seq<u8>),
    v: PlayModel,
    b: AssistModel,
    ev: FrameEvent,
    seen2: (u64, Seq<u8>),
    w: PlayModel,
    b2: AssistModel,
    a: FrameAction,
) -> bool {
    &&& seen2 == (w.state.seed, encode_spec(w.state))
    &&& if v.auto_solving {
        &&& b2 == b
        &&& match ev.playback {
            Playback::Busy => w == v && a == FrameAction::Nothing,
            Playback::Next(mv) => (exists|t: Undo| w == #[trigger] played(v, mv, t)) && a == if takes(v, mv) {
                FrameAction::Animate(mv)
            } else {
                FrameAction::Nothing
            },
            Playback::Drained => a == FrameAction::Nothing && w == if model_is_won(v.state) {
                PlayModel { auto_solving: false, auto_solved: true, ..v }
            } else {
                PlayModel { auto_solving: false, ..v }
            },
        }
    } else {
        &&& w == v
        &&& a == FrameAction::Nothing
        &&& assisted(seen, v, b, ev.pointer_active, b2)
    }
}

/// Run the decisions of a frame after its input, as [`frame_spec`] says.
pub fn frame_step(app: &mut FrameState, session: &mut Session, assist: &mut Assist, ev: FrameEvent) -> (a:
    FrameAction)
    requires
        old(session).wf(),
        old(assist).wf(),
    ensures
        final(session).wf(),
        final(assist).wf(),
        frame_spec(
            old(app)@,
            old(session)@,
            old(assist)@,
            ev,
            final(app)@,
            final(session)@,
            final(assist)@,
            a,
        ),
{
    let ghost seen = app@;
    let ghost v = session@;
    let ghost b = assist@;
    let a = if session.is_auto_solving() {
        match ev.playback {
            Playback::Busy => FrameAction::Nothing,
            Playback::Next(mv) => {
                if session.apply(mv) {
                    FrameAction::Animate(mv)
                } else {
                    FrameAction::Nothing
                }
            },
            Playback::Drained => {
                if session.is_won() {
                    session.finish_auto_solve();
                } else {
                    session.cancel_auto_solve();
                }
                FrameAction::Nothing
            },
        }
    } else {
        let key = encode(session.state());
        if session.seed() != app.last_seed {
            assist.reset(session.state());
        } else if !key.same(&app.last_key) {
            assist.on_state_change(session.state());
        }
        let ghost b1 = assist@;
        if ev.pointer_active {
            assist.note_activity();
        }
        let ghost b2 = assist@;
        assist.update(session.state());
        proof {
            let now1 = b2.last_activity;
            assert(b2 == noted(b1, ev.pointer_active, now1));
            assert(followed(seen, v, b, b1));
        }
        FrameAction::Nothing
    };
    app.last_seed = session.seed();
    app.last_key = encode(session.state());
    a
}

} // verus!
