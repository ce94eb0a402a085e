//! What one input does to the board: the keyboard commands, the Undo button
//! (a tap undoes, a hold redoes once), taps, double-taps and drags on the
//! cards. The front-end reads the keys and the pointer, hit-tests the pointer
//! against its layout and times taps and holds; here the input arrives as
//! plain values, and the session changes and the front-end is told what to
//! show.
use vstd::prelude::*;

use crate::gui::input::{
    auto_spec, auto_target, first_resolving, resolve, source_of, source_spec, Hit, Pile, Source,
};
use crate::gui::layout::ButtonId;
use crate::gui::session::{has_room, played, redone, undone, PlayModel, Session};
use crate::model::moves::Move;
use crate::model::rules::Undo;
use crate::model::rules_spec::{apply_spec, legal_moves_spec};
use crate::model::state::GameModel;

verus! {

/// A keyboard command of the board.
#[derive(Clone, Copy, PartialEq, Eq, Debug, Structural)]
pub enum BoardKey {
    /// N: deal a new game.
    NewGame,
    /// U: undo.
    Undo,
    /// R: redo.
    Redo,
    /// Esc: drop the card being dragged.
    Deselect,
    /// Enter: send the waste's top card to its best place.
    AutoMoveWaste,
}

/// One input of the board.
#[derive(Clone, Copy, PartialEq, Eq, Debug, Structural)]
pub enum InputEvent {
    /// A keyboard command.
    Key(BoardKey),
    /// Shift+A, with whether a winning line is known for the position.
    AutoSolveKey { known: bool },
    /// The Undo button released before the hold time: undo.
    UndoTap,
    /// The Undo button held past the hold time: redo, once.
    UndoHold,
    /// A press on another control-bar button.
    Button(ButtonId),
    /// A press on the solvability indicator, with whether a check is running.
    Indicator { checking: bool },
    /// A press on the board at `hit`; `double` when it repeats the last tap
    /// on the same spot within the double-tap time.
    Press { hit: Hit, double: bool },
    /// The pointer released: over the pile `target`, if any, and `moved` when
    /// it travelled far enough to count as a drag rather than a tap.
    Release { target: Option<Pile>, moved: bool },
}

/// What the front-end does after an input, besides showing the session.
#[derive(Clone, Copy, PartialEq, Eq, Debug, Structural)]
pub enum InputAction {
    Nothing,
    /// Deal a new game.
    NewGame,
    /// Open the solver overlay.
    OpenSolver,
    /// Start playing back the known winning line.
    StartAutoSolve,
    /// `mv` was played: animate its cards into place.
    Animate(Move),
    /// Start dragging the cards of `source`.
    BeginDrag(Source),
    /// Nothing to drop on: send the dragged cards back.
    SnapBack,
}

/// Whether a hit names a pile that exists.
pub open spec fn hit_ok(hit: Hit) -> bool {
    &&& (hit matches Hit::Foundation(i) ==> i < 4)
    &&& (hit matches Hit::TableauCard { col, .. } ==> col < 7)
}

/// Whether a dragged source names a card of a column that exists.
pub open spec fn drag_ok(m: GameModel, drag: Option<Source>) -> bool {
    drag matches Some(Source::TableauRun { col, index }) ==> col < 7 && index <= m.tableau[col as int].len()
}

/// Whether playing `mv` in the session takes effect.
pub open spec fn takes(v: PlayModel, mv: Move) -> bool {
    has_room(v) && apply_spec(v.state, mv) is Ok
}

/// Playing `mv` gives the session `w` (with the undo token the move made),
/// and the front-end animates it when it took effect.
pub open spec fn tried(v: PlayModel, mv: Move, w: PlayModel, a: InputAction) -> bool {
    &&& exists|t: Undo| w == #[trigger] played(v, mv, t)
    &&& a == if takes(v, mv) {
        InputAction::Animate(mv)
    } else {
        InputAction::Nothing
    }
}

/// Sending the cards of `src` to their best place: the move that does it,
/// or a message that there is none.
pub open spec fn auto_moved(v: PlayModel, src: Source, w: PlayModel, a: InputAction) -> bool {
    match auto_spec(v.state, src) {
        Some(mv) => tried(v, mv, w, a),
        None => w == PlayModel { message: Some("No move for that card"@), ..v } && a == InputAction::Nothing,
    }
}

/// The move a drop of `src` on `target` makes, if any (none when the
/// dragged cards are no longer where they were picked up).
pub open spec fn drop_move(m: GameModel, src: Source, target: Option<Pile>) -> Option<Move> {
    match target {
        Some(p) => if drag_ok(m, Some(src)) {
            first_resolving(legal_moves_spec(m), m, src, p, 0)
        } else {
            None
        },
        None => None,
    }
}

/// What a tap on the stock plays: a draw, or a recycle once it is empty.
pub open spec fn stock_move(m: GameModel) -> Move {
    if m.stock.len() == 0 {
        Move::Recycle
    } else {
        Move::Draw
    }
}

/// What an input does: from session `v` dragging `drag`, to session `w`
/// dragging `drag2`, with the front-end told `a`.
pub open spec fn input_spec(
    v: PlayModel,
    drag: Option<Source>,
    ev: InputEvent,
    w: PlayModel,
    drag2: Option<Source>,
    a: InputAction,
) -> bool {
    match ev {
        InputEvent::Key(BoardKey::NewGame) => w == v && drag2 is None && a == InputAction::NewGame,
        InputEvent::Key(BoardKey::Undo) => w == undone(v) && drag2 is None && a == InputAction::Nothing,
        InputEvent::Key(BoardKey::Redo) => (exists|t: Undo| w == #[trigger] redone(v, t)) && drag2 is None
            && a == InputAction::Nothing,
        InputEvent::Key(BoardKey::Deselect) => w == v && drag2 is None && a == InputAction::Nothing,
        InputEvent::Key(BoardKey::AutoMoveWaste) => drag2 == drag && if v.state.waste.len() > 0 {
            auto_moved(v, Source::Waste, w, a)
        } else {
            w == v && a == InputAction::Nothing
        },
        InputEvent::AutoSolveKey { known } => drag2 == drag && if known {
            w == PlayModel { auto_solving: true, ..v } && a == InputAction::StartAutoSolve
        } else {
            w == v && a == InputAction::Nothing
        },
        InputEvent::UndoTap => drag2 == drag && a == InputAction::Nothing && if drag is None {
            w == undone(v)
        } else {
            w == v
        },
        InputEvent::UndoHold => drag2 == drag && a == InputAction::Nothing && if drag is None {
            exists|t: Undo| w == #[trigger] redone(v, t)
        } else {
            w == v
        },
        InputEvent::Button(b) => w == v && drag2 == drag && a == if drag is None && b == ButtonId::New {
            InputAction::NewGame
        } else {
            InputAction::Nothing
        },
        InputEvent::Indicator { checking } => w == v && drag2 == drag && a == if drag is None
            && !checking {
            InputAction::OpenSolver
        } else {
            InputAction::Nothing
        },
        InputEvent::Press { hit, double } => if drag is Some {
            w == v && drag2 == drag && a == InputAction::Nothing
        } else if double {
            drag2 is None && match source_spec(v.state, hit) {
                Some(s) => auto_moved(v, s, w, a),
                None => w == v && a == InputAction::Nothing,
            }
        } else if hit == Hit::Stock {
            drag2 is None && (exists|t: Undo| w == #[trigger] played(v, stock_move(v.state), t)) && a
                == InputAction::Nothing
        } else {
            w == v && match source_spec(v.state, hit) {
                Some(s) => drag2 == Some(s) && a == InputAction::BeginDrag(s),
                None => drag2 is None && a == InputAction::Nothing,
            }
        },
        InputEvent::Release { target, moved } => drag2 is None && match drag {
            None => w == v && a == InputAction::Nothing,
            Some(src) => match drop_move(v.state, src, target) {
                Some(mv) => tried(v, mv, w, a),
                None => if moved {
                    w == PlayModel { message: Some("No move"@), ..v } && a == InputAction::SnapBack
                } else {
                    w == v && a == InputAction::Nothing
                },
            },
        },
    }
}

/// Play `mv` in the session, telling the front-end to animate it when it
/// took effect.
fn try_play(session: &mut Session, mv: Move) -> (a: InputAction)
    requires
        old(session).wf(),
    ensures
        final(session).wf(),
        tried(old(session)@, mv, final(session)@, a),
{
    if session.apply(mv) {
        InputAction::Animate(mv)
    } else {
        InputAction::Nothing
    }
}

/// Send the cards of `src` to their best place.
fn auto_move(session: &mut Session, src: Source) -> (a: InputAction)
    requires
        old(session).wf(),
        drag_ok(old(session)@.state, Some(src)),
    ensures
        final(session).wf(),
        auto_moved(old(session)@, src, final(session)@, a),
{
    match auto_target(session.state(), src) {
        Some(mv) => try_play(session, mv),
        None => {
            session.set_message("No move for that card");
            InputAction::Nothing
        },
    }
}

/// A press on the board when nothing is being dragged.
fn press_step(session: &mut Session, drag: &mut Option<Source>, hit: Hit, double: bool) -> (a: InputAction)
    requires
        old(session).wf(),
        *old(drag) is None,
        hit_ok(hit),
    ensures
        final(session).wf(),
        input_spec(
            old(session)@,
            *old(drag),
            InputEvent::Press { hit, double },
            final(session)@,
            *final(drag),
            a,
        ),
{
    let ghost v = session@;
    let ghost d0 = *drag;
    if double {
        let a = match source_of(session.state(), hit) {
            Some(s) => auto_move(session, s),
            None => InputAction::Nothing,
        };
        assert(input_spec(v, d0, InputEvent::Press { hit, double }, session@, *drag, a));
        a
    } else if hit == Hit::Stock {
        let mv = if session.state().stock_pile().is_empty() {
            Move::Recycle
        } else {
            Move::Draw
        };
        assert(mv == stock_move(v.state));
        session.apply(mv);
        InputAction::Nothing
    } else {
        let a = match source_of(session.state(), hit) {
            Some(s) => {
                *drag = Some(s);
                InputAction::BeginDrag(s)
            },
            None => InputAction::Nothing,
        };
        assert(input_spec(v, d0, InputEvent::Press { hit, double }, session@, *drag, a));
        a
    }
}

/// The pointer released while dragging the cards of `src`.
fn release_step(session: &mut Session, src: Source, target: Option<Pile>, moved: bool) -> (a: InputAction)
    requires
        old(session).wf(),
    ensures
        final(session).wf(),
        match drop_move(old(session)@.state, src, target) {
            Some(mv) => tried(old(session)@, mv, final(session)@, a),
            None => if moved {
                final(session)@ == PlayModel { message: Some("No move"@), ..old(session)@ } && a
                    == InputAction::SnapBack
            } else {
                final(session)@ == old(session)@ && a == InputAction::Nothing
            },
        },
{
    let in_place = match src {
        Source::TableauRun { col, index } => col < 7 && index <= session.state().column(col).len(),
        _ => true,
    };
    let mv = match target {
        Some(p) => if in_place {
            resolve(session.state(), src, p)
        } else {
            None
        },
        None => None,
    };
    match mv {
        Some(m) => try_play(session, m),
        None => {
            if moved {
                session.set_message("No move");
                InputAction::SnapBack
            } else {
                InputAction::Nothing
            }
        },
    }
}

/// A keyboard command.
fn key_step(session: &mut Session, drag: &mut Option<Source>, k: BoardKey) -> (a: InputAction)
    requires
        old(session).wf(),
    ensures
        final(session).wf(),
        input_spec(old(session)@, *old(drag), InputEvent::Key(k), final(session)@, *final(drag), a),
{
    match k {
        BoardKey::NewGame => {
            *drag = None;
            InputAction::NewGame
        },
        BoardKey::Undo => {
            session.undo();
            *drag = None;
            InputAction::Nothing
        },
        BoardKey::Redo => {
            session.redo();
            *drag = None;
            InputAction::Nothing
        },
        BoardKey::Deselect => {
            *drag = None;
            InputAction::Nothing
        },
        BoardKey::AutoMoveWaste => {
            if session.state().waste_pile().top().is_some() {
                auto_move(session, Source::Waste)
            } else {
                InputAction::Nothing
            }
        },
    }
}

/// Apply one input to the board: change the session and the card being
/// dragged as [`input_spec`] says, and tell the front-end what to show.
pub fn input_step(session: &mut Session, drag: &mut Option<Source>, ev: InputEvent) -> (a: InputAction)
    requires
        old(session).wf(),
        ev matches InputEvent::Press { hit, .. } ==> hit_ok(hit),
    ensures
        final(session).wf(),
        input_spec(old(session)@, *old(drag), ev, final(session)@, *final(drag), a),
{
    proof {
        reveal_strlit("No move");
        reveal_strlit("No move for that card");
    }
    match ev {
        InputEvent::Key(k) => key_step(session, drag, k),
        InputEvent::AutoSolveKey { known } => {
            if known {
                session.begin_auto_solve();
                InputAction::StartAutoSolve
            } else {
                InputAction::Nothing
            }
        },
        InputEvent::UndoTap => {
            if drag.is_none() {
                session.undo();
            }
            InputAction::Nothing
        },
        InputEvent::UndoHold => {
            if drag.is_none() {
                session.redo();
            }
            InputAction::Nothing
        },
        InputEvent::Button(b) => {
            if drag.is_none() && b == ButtonId::New {
                InputAction::NewGame
            } else {
                InputAction::Nothing
            }
        },
        InputEvent::Indicator { checking } => {
            if drag.is_none() && !checking {
                InputAction::OpenSolver
            } else {
                InputAction::Nothing
            }
        },
        InputEvent::Press { hit, double } => {
            if drag.is_some() {
                InputAction::Nothing
            } else {
                press_step(session, drag, hit, double)
            }
        },
        InputEvent::Release { target, moved } => {
            let held = *drag;
            *drag = None;
            match held {
                None => InputAction::Nothing,
                Some(src) => release_step(session, src, target, moved),
            }
        },
    }
}

} // verus!
