//! The GUI game session: owns the model state, config, move count, and an
//! undo/redo history built on the model's reversible-move API. The caller
//! supplies elapsed time.
//!
//! Every entry of the history is the token of a move that was legal in the
//! position before it, so undoing walks back through exactly the positions
//! that were played.
use vstd::prelude::*;
use vstd::string::StringExecFns;

use crate::model::faces::{clocked, lemma_apply_ignores_clock};
use crate::model::invariants::{lemma_apply_keeps_well_laid, lemma_new_game_well_laid, well_laid};
use crate::model::laws::{has_all_piles, lemma_undo_restores};
use crate::model::moves::{move_error_text, Move};
use crate::model::rules::{apply_undoable, undo_move, undo_token_of, Undo};
use crate::model::rules_spec::{apply_spec, undo_spec};
use crate::model::score;
use crate::model::state::{model_is_won, new_game_model, GameConfig, GameModel, GameState};

verus! {

/// The session as values.
#[verifier::ext_equal]
pub struct PlayModel {
    pub state: GameModel,
    pub moves: u32,
    pub history: Seq<(Move, Undo)>,
    pub redo: Seq<Move>,
    pub elapsed: u64,
    pub message: Option<Seq<char>>,
    pub auto_solving: bool,
    pub auto_solved: bool,
}

/// One history entry: `entry` is the move played from `before` (which lies
/// right) with its undo token, and `after` is where it led.
pub open spec fn step_ok(before: GameModel, entry: (Move, Undo), after: GameModel) -> bool {
    &&& well_laid(before)
    &&& has_all_piles(before)
    &&& apply_spec(before, entry.0) == Ok::<GameModel, crate::model::moves::MoveError>(after)
    &&& undo_token_of(entry.1, before, entry.0)
}

/// `past[i]` is the position before `history[i]`; the last move led to `now`,
/// which lies right.
pub open spec fn chain_ok(past: Seq<GameModel>, history: Seq<(Move, Undo)>, now: GameModel) -> bool {
    &&& past.len() == history.len()
    &&& well_laid(now)
    &&& forall|i: int|
        0 <= i < past.len() ==> step_ok(
            #[trigger] past[i],
            history[i],
            if i + 1 < past.len() {
                past[i + 1]
            } else {
                now
            },
        )
}

pub struct Session {
    state: GameState,
    moves: u32,
    history: Vec<(Move, Undo)>,
    redo: Vec<Move>,
    elapsed_secs: u64,
    message: Option<String>,
    /// The deal is being (or was) completed by auto-solve, so its score and time
    /// are not counted.
    auto_solving: bool,
    auto_solved: bool,
    /// The position before each history entry.
    past: Ghost<Seq<GameModel>>,
}

impl View for Session {
    type V = PlayModel;

    closed spec fn view(&self) -> PlayModel {
        PlayModel {
            state: self.state@,
            moves: self.moves,
            history: self.history@,
            redo: self.redo@,
            elapsed: self.elapsed_secs,
            message: match self.message {
                Some(m) => Some(m@),
                None => None,
            },
            auto_solving: self.auto_solving,
            auto_solved: self.auto_solved,
        }
    }
}

/// Room for one more move in the score, the recycle count and the move count.
pub open spec fn has_room(v: PlayModel) -> bool {
    v.state.points <= i64::MAX - 15 && v.state.recycles < u32::MAX && v.moves < u32::MAX
}

/// What applying `mv` does, given the token a legal move produced.
pub open spec fn played(v: PlayModel, mv: Move, token: Undo) -> PlayModel {
    if !has_room(v) {
        PlayModel { message: Some("score limit reached"@), ..v }
    } else {
        match apply_spec(v.state, mv) {
            Ok(s) => PlayModel {
                state: s,
                history: v.history.push((mv, token)),
                redo: Seq::empty(),
                moves: (v.moves + 1) as u32,
                message: None,
                ..v
            },
            Err(e) => PlayModel { message: Some(move_error_text(e)), ..v },
        }
    }
}

/// What undoing does: reverse the last move with its token.
pub open spec fn undone(v: PlayModel) -> PlayModel {
    if v.history.len() == 0 {
        PlayModel { message: Some("Nothing to undo"@), ..v }
    } else {
        let (mv, token) = v.history.last();
        PlayModel {
            state: undo_spec(
                v.state,
                mv,
                token.drawn_spec(),
                token.flipped_spec(),
                token.points_spec(),
                token.recycles_spec(),
            ),
            history: v.history.drop_last(),
            redo: v.redo.push(mv),
            moves: if v.moves == 0 {
                0
            } else {
                (v.moves - 1) as u32
            },
            message: Some("Undo"@),
            ..v
        }
    }
}

/// What redoing does, given the token the replayed move produced.
pub open spec fn redone(v: PlayModel, token: Undo) -> PlayModel {
    if v.redo.len() == 0 {
        PlayModel { message: Some("Nothing to redo"@), ..v }
    } else if !has_room(v) {
        PlayModel { message: Some("score limit reached"@), ..v }
    } else {
        let mv = v.redo.last();
        match apply_spec(v.state, mv) {
            Ok(s) => PlayModel {
                state: s,
                history: v.history.push((mv, token)),
                redo: v.redo.drop_last(),
                moves: (v.moves + 1) as u32,
                message: Some("Redo"@),
                ..v
            },
            Err(_) => PlayModel { redo: v.redo.drop_last(), ..v },
        }
    }
}

impl Session {
    /// The history is a chain of legal moves ending in the current position.
    pub closed spec fn wf(&self) -> bool {
        chain_ok(self.past@, self.history@, self.state@)
    }

    /// The position before the last move of the history.
    pub closed spec fn before_last(&self) -> GameModel {
        self.past@.last()
    }

    pub fn new(seed: u64, config: GameConfig) -> (s: Session)
        ensures
            s.wf(),
            s@ == (PlayModel {
                state: new_game_model(seed, config),
                moves: 0,
                history: Seq::empty(),
                redo: Seq::empty(),
                elapsed: 0,
                message: None,
                auto_solving: false,
                auto_solved: false,
            }),
    {
        proof {
            lemma_new_game_well_laid(seed, config);
        }
        let s = Session {
            state: GameState::new_with_seed(seed, config),
            moves: 0,
            history: Vec::new(),
            redo: Vec::new(),
            elapsed_secs: 0,
            message: None,
            auto_solving: false,
            auto_solved: false,
            past: Ghost(Seq::empty()),
        };
        assert(s@.history =~= Seq::<(Move, Undo)>::empty());
        s
    }

    /// The position being played.
    pub fn state(&self) -> (s: &GameState)
        ensures
            s@ == self@.state,
    {
        &self.state
    }

    /// Whether an auto-solve is in progress.
    pub fn is_auto_solving(&self) -> (b: bool)
        ensures
            b == self@.auto_solving,
    {
        self.auto_solving
    }

    /// Whether this game was completed by auto-solve (score/time not counted).
    pub fn was_auto_solved(&self) -> (b: bool)
        ensures
            b == self@.auto_solved,
    {
        self.auto_solved
    }

    /// Begin auto-solving: the finish will not be recorded as a scored win.
    pub fn begin_auto_solve(&mut self)
        requires
            old(self).wf(),
        ensures
            final(self).wf(),
            final(self)@ == (PlayModel { auto_solving: true, ..old(self)@ }),
    {
        self.auto_solving = true;
    }

    /// Mark the auto-solve finished (called on reaching the won state).
    pub fn finish_auto_solve(&mut self)
        requires
            old(self).wf(),
        ensures
            final(self).wf(),
            final(self)@ == (PlayModel { auto_solving: false, auto_solved: true, ..old(self)@ }),
    {
        self.auto_solving = false;
        self.auto_solved = true;
    }

    /// Cancel an in-progress auto-solve without marking it solved.
    pub fn cancel_auto_solve(&mut self)
        requires
            old(self).wf(),
        ensures
            final(self).wf(),
            final(self)@ == (PlayModel { auto_solving: false, ..old(self)@ }),
    {
        self.auto_solving = false;
    }

    pub fn seed(&self) -> (s: u64)
        ensures
            s == self@.state.seed,
    {
        self.state.seed()
    }

    pub fn move_count(&self) -> (n: u32)
        ensures
            n == self@.moves,
    {
        self.moves
    }

    pub fn message(&self) -> (m: Option<&str>)
        ensures
            match (m, self@.message) {
                (Some(a), Some(b)) => a@ == b,
                (None, None) => true,
                _ => false,
            },
    {
        match &self.message {
            Some(m) => Some(m.as_str()),
            None => None,
        }
    }

    pub fn is_won(&self) -> (b: bool)
        ensures
            b == model_is_won(self@.state),
    {
        self.state.is_won()
    }

    pub fn elapsed_secs(&self) -> (n: u64)
        ensures
            n == self@.elapsed,
    {
        self.elapsed_secs
    }

    /// Push the elapsed play time into the model so the score is current.
    pub fn set_elapsed(&mut self, secs: u64)
        requires
            old(self).wf(),
        ensures
            final(self).wf(),
            final(self)@ == (PlayModel {
                elapsed: secs,
                state: GameModel { elapsed: secs, ..old(self)@.state },
                ..old(self)@
            }),
    {
        let ghost before = self.state@;
        self.elapsed_secs = secs;
        self.state.set_elapsed_secs(secs);
        proof {
            // The clock takes no part in the rules: the history still leads
            // here once every earlier position has its clock set alike.
            let past = self.past@;
            let h = self.history@;
            let n = past.len() as int;
            let past2 = past.map_values(|b: GameModel| clocked(b, secs));
            assert(self.state@ == clocked(before, secs));
            assert forall|i: int| 0 <= i < n implies step_ok(
                #[trigger] past2[i],
                h[i],
                if i + 1 < n {
                    past2[i + 1]
                } else {
                    self.state@
                },
            ) by {
                let next = if i + 1 < n {
                    past[i + 1]
                } else {
                    before
                };
                assert(step_ok(past[i], h[i], next));
                lemma_apply_ignores_clock(past[i], h[i].0, secs);
            }
            self.past@ = past2;
        }
    }

    /// The displayable score.
    pub fn score(&self) -> (s: i64)
        ensures
            s == score::current_score(self@.state.points, self@.state.elapsed, self@.state.config.timed),
    {
        self.state.current_score()
    }

    /// The final score (with the timed win bonus when applicable), or `None`
    /// when that bonus would pass the score's range.
    pub fn final_score(&self) -> (s: Option<i64>)
        ensures
            match s {
                Some(v) => v == score::final_score(
                    self@.state.points,
                    self@.state.elapsed,
                    self@.state.config.timed,
                    model_is_won(self@.state),
                ),
                None => score::final_score(
                    self@.state.points,
                    self@.state.elapsed,
                    self@.state.config.timed,
                    model_is_won(self@.state),
                ) > i64::MAX,
            },
    {
        let current = self.state.current_score();
        let bonus = score::Score::win_bonus(self.state.elapsed_secs());
        if self.state.config().timed && self.state.is_won() && bonus > 0 && current > i64::MAX - bonus {
            return None;
        }
        Some(self.state.final_score())
    }

    /// Set a transient status message (e.g. rejection feedback).
    pub fn set_message(&mut self, msg: &str)
        requires
            old(self).wf(),
        ensures
            final(self).wf(),
            final(self)@ == (PlayModel { message: Some(msg@), ..old(self)@ }),
    {
        self.message = Some(String::from_str(msg));
    }

    /// Apply a legal move, recording it for undo. Returns whether it applied.
    pub fn apply(&mut self, mv: Move) -> (applied: bool)
        requires
            old(self).wf(),
        ensures
            final(self).wf(),
            exists|token: Undo| final(self)@ == #[trigger] played(old(self)@, mv, token),
            applied == (has_room(old(self)@) && apply_spec(old(self)@.state, mv) is Ok),
            applied ==> final(self).before_last() == old(self)@.state,
            applied ==> undo_token_of(final(self)@.history.last().1, old(self)@.state, mv),
    {
        let ghost v = self@;
        if !(self.state.score().event_points() <= i64::MAX - 15 && self.state.recycles_done() < u32::MAX
            && self.moves < u32::MAX) {
            self.message = Some(String::from_str("score limit reached"));
            assert(self@ =~= played(v, mv, vstd::pervasive::arbitrary::<Undo>()));
            return false;
        }
        proof {
            self.state.lemma_has_all_piles();
        }
        match apply_undoable(&mut self.state, mv) {
            Ok(undo) => {
                self.history.push((mv, undo));
                self.redo = Vec::new();
                self.moves = self.moves + 1;
                self.message = None;
                proof {
                    lemma_apply_keeps_well_laid(v.state, mv);
                    let past = self.past@;
                    let n = past.len() as int;
                    if n > 0 {
                        assert(step_ok(past[n - 1], v.history[n - 1], v.state));
                    }
                    self.past@ = past.push(v.state);
                    assert(self@ =~= played(v, mv, undo));
                    assert(chain_ok(self.past@, self.history@, self.state@)) by {
                        assert forall|i: int| 0 <= i < self.past@.len() implies step_ok(
                            #[trigger] self.past@[i],
                            self.history@[i],
                            if i + 1 < self.past@.len() {
                                self.past@[i + 1]
                            } else {
                                self.state@
                            },
                        ) by {
                            if i < n {
                                assert(self.past@[i] == past[i]);
                                assert(self.history@[i] == v.history[i]);
                                if i + 1 < n {
                                    assert(step_ok(past[i], v.history[i], past[i + 1]));
                                }
                            }
                        }
                    }
                }
                true
            },
            Err(e) => {
                self.message = Some(String::from_str(e.message()));
                assert(self@ =~= played(v, mv, vstd::pervasive::arbitrary::<Undo>()));
                false
            },
        }
    }

    /// Undo the most recent move (reverses the model exactly).
    pub fn undo(&mut self)
        requires
            old(self).wf(),
        ensures
            final(self).wf(),
            final(self)@ == undone(old(self)@),
            old(self)@.history.len() > 0 ==> final(self)@.state == old(self).before_last(),
            old(self)@.history.len() > 0 ==> apply_spec(final(self)@.state, old(self)@.history.last().0)
                == Ok::<GameModel, crate::model::moves::MoveError>(old(self)@.state),
    {
        let ghost v = self@;
        match self.history.pop() {
            Some((mv, undo)) => {
                let ghost past = self.past@;
                let ghost n = past.len() as int;
                proof {
                    assert(v.history[n - 1] == (mv, undo));
                    assert(step_ok(past[n - 1], (mv, undo), v.state));
                    lemma_undo_restores(past[n - 1], mv);
                }
                undo_move(&mut self.state, mv, undo);
                self.redo.push(mv);
                self.moves = if self.moves == 0 {
                    0
                } else {
                    self.moves - 1
                };
                self.message = Some(String::from_str("Undo"));
                proof {
                    self.past@ = past.drop_last();
                    assert(self@ =~= undone(v));
                    assert(chain_ok(self.past@, self.history@, self.state@)) by {
                        assert forall|i: int| 0 <= i < self.past@.len() implies step_ok(
                            #[trigger] self.past@[i],
                            self.history@[i],
                            if i + 1 < self.past@.len() {
                                self.past@[i + 1]
                            } else {
                                self.state@
                            },
                        ) by {
                            assert(self.past@[i] == past[i]);
                            assert(self.history@[i] == v.history[i]);
                            assert(step_ok(past[i], v.history[i], past[i + 1]));
                        }
                    }
                }
            },
            None => {
                self.message = Some(String::from_str("Nothing to undo"));
                assert(self@ =~= undone(v));
            },
        }
    }

    /// Redo a previously undone move.
    pub fn redo(&mut self)
        requires
            old(self).wf(),
        ensures
            final(self).wf(),
            exists|token: Undo| final(self)@ == #[trigger] redone(old(self)@, token),
            final(self)@.history.len() > old(self)@.history.len() ==> undo_token_of(
                final(self)@.history.last().1,
                old(self)@.state,
                old(self)@.redo.last(),
            ),
    {
        let ghost v = self@;
        if self.redo.len() == 0 {
            self.message = Some(String::from_str("Nothing to redo"));
            assert(self@ =~= redone(v, vstd::pervasive::arbitrary::<Undo>()));
            return ;
        }
        if !(self.state.score().event_points() <= i64::MAX - 15 && self.state.recycles_done() < u32::MAX
            && self.moves < u32::MAX) {
            self.message = Some(String::from_str("score limit reached"));
            assert(self@ =~= redone(v, vstd::pervasive::arbitrary::<Undo>()));
            return ;
        }
        let mv = match self.redo.pop() {
            Some(m) => m,
            None => {
                return ;
            },
        };
        proof {
            self.state.lemma_has_all_piles();
        }
        match apply_undoable(&mut self.state, mv) {
            Ok(undo) => {
                self.history.push((mv, undo));
                self.moves = self.moves + 1;
                self.message = Some(String::from_str("Redo"));
                proof {
                    lemma_apply_keeps_well_laid(v.state, mv);
                    let past = self.past@;
                    let n = past.len() as int;
                    if n > 0 {
                        assert(step_ok(past[n - 1], v.history[n - 1], v.state));
                    }
                    self.past@ = past.push(v.state);
                    assert(self@ =~= redone(v, undo));
                    assert(chain_ok(self.past@, self.history@, self.state@)) by {
                        assert forall|i: int| 0 <= i < self.past@.len() implies step_ok(
                            #[trigger] self.past@[i],
                            self.history@[i],
                            if i + 1 < self.past@.len() {
                                self.past@[i + 1]
                            } else {
                                self.state@
                            },
                        ) by {
                            if i < n {
                                assert(self.past@[i] == past[i]);
                                assert(self.history@[i] == v.history[i]);
                                if i + 1 < n {
                                    assert(step_ok(past[i], v.history[i], past[i + 1]));
                                }
                            }
                        }
                    }
                }
            },
            Err(_) => {
                assert(self@ =~= redone(v, vstd::pervasive::arbitrary::<Undo>()));
            },
        }
    }
}

/// Undoing a move the session applied gives back the position, the move
/// count and the history from before it.
pub proof fn lemma_undo_after_apply(v: PlayModel, mv: Move, token: Undo)
    requires
        has_room(v),
        apply_spec(v.state, mv) is Ok,
        undo_token_of(token, v.state, mv),
        well_laid(v.state),
        has_all_piles(v.state),
    ensures
        undone(played(v, mv, token)).state == v.state,
        undone(played(v, mv, token)).moves == v.moves,
        undone(played(v, mv, token)).history == v.history,
{
    lemma_undo_restores(v.state, mv);
    let w = played(v, mv, token);
    assert(w.history.drop_last() =~= v.history);
}

} // verus!
