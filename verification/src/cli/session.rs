//! The game session: owns the `GameState`, the input state machine, undo/redo,
//! the move-history log, the clock, and key dispatch. This layer performs no
//! terminal I/O.
//!
//! What a key does is stated over [`SessionModel`]: the position, counters,
//! stacks and prompt state. The clock reading and a new game's random seed are
//! the only things the session takes from outside; its contracts hold for
//! every value of them.
use std::time::{Duration, SystemTime, UNIX_EPOCH};
use vstd::prelude::*;
use vstd::string::StringExecFns;

use crate::cli::input::{
    ascending_rearrangement, auto_target, first_selected, from_source, key_to_pile, pile_of_key,
    prefers, resolve_move, run_counts, RunAmbiguity,
};
use crate::cli::{Pile, Signal};
use crate::model::moves::{move_error_text, Move};
use crate::model::rng::{splitmix_mix, GOLDEN_GAMMA, MIX_MUL_1, MIX_MUL_2};
use crate::model::rules_spec::{apply_spec, legal_moves_spec};
use crate::model::state::{model_is_won, new_game_model, GameConfig, GameModel, GameState};
use crate::model::text::{decimal_text, push_decimal};
use crate::solver::clock::{duration_nanos, Clock};

verus! {

/// A terminal-independent key event fed to the session.
#[derive(Debug, Clone, Copy, PartialEq, Eq, Structural)]
pub enum KeyInput {
    Char(char),
    Enter,
    Esc,
}

/// `std::time::SystemTime`, a reading of the system clock.
#[verifier::external_type_specification]
#[verifier::external_body]
pub struct ExSystemTime(SystemTime);

/// `SystemTime::now`: the system clock's current reading (nothing is promised
/// of it: it depends on when it is called).
#[verifier::external_body]
fn system_now() -> (t: SystemTime) {
    SystemTime::now()
}

/// `SystemTime::duration_since(UNIX_EPOCH)`: the time since the Unix epoch, or
/// `None` when `t` lies before it (nothing more is promised: what a reading
/// holds is the machine's).
#[verifier::external_body]
fn since_epoch(t: &SystemTime) -> (d: Option<Duration>) {
    t.duration_since(UNIX_EPOCH).ok()
}

/// The system clock in nanoseconds since the Unix epoch, truncated to 64 bits,
/// or 0 when the clock reads before the epoch.
fn unix_nanos() -> (n: u64) {
    match since_epoch(&system_now()) {
        Some(d) => (duration_nanos(&d) % 0x1_0000_0000_0000_0000u128) as u64,
        None => 0,
    }
}

/// Scramble a clock reading with the SplitMix64 finalizer so nearby launch
/// times give widely different seeds.
pub fn scramble(nanos: u64) -> (x: u64)
    ensures
        x == splitmix_mix(nanos ^ GOLDEN_GAMMA),
{
    let mut x = nanos ^ GOLDEN_GAMMA;
    x = (x ^ (x >> 30)).wrapping_mul(MIX_MUL_1);
    x = (x ^ (x >> 27)).wrapping_mul(MIX_MUL_2);
    x ^ (x >> 31)
}

/// Derive a `u64` seed from the current time (used when `--seed` is omitted):
/// the scrambled clock reading.
pub fn random_seed() -> (s: u64)
    ensures
        exists|nanos: u64| s == splitmix_mix(nanos ^ GOLDEN_GAMMA),
{
    let nanos = unix_nanos();
    scramble(nanos)
}

/// A point-in-time snapshot for undo/redo.
struct Snapshot {
    state: GameState,
    move_count: u32,
    history: Vec<Move>,
}

/// A snapshot as values: the position, the move count and the history.
pub type SnapshotModel = (GameModel, u32, Seq<Move>);

impl View for Snapshot {
    type V = SnapshotModel;

    closed spec fn view(&self) -> SnapshotModel {
        (self.state@, self.move_count, self.history@)
    }
}

/// The session as values.
#[verifier::ext_equal]
pub struct SessionModel {
    pub state: GameModel,
    pub config: GameConfig,
    pub move_count: u32,
    pub history: Seq<Move>,
    pub undo: Seq<SnapshotModel>,
    pub redo: Seq<SnapshotModel>,
    pub selection: Option<Pile>,
    /// A pending run-length prompt: source, target and the legal counts.
    pub pending_run: Option<(usize, usize, Seq<usize>)>,
    pub message: Option<Seq<char>>,
    pub help_visible: bool,
    pub frozen_secs: Option<u64>,
}

/// A single interactive game.
pub struct Session {
    /// The position being played.
    pub state: GameState,
    config: GameConfig,
    move_count: u32,
    history: Vec<Move>,
    undo: Vec<Snapshot>,
    redo: Vec<Snapshot>,
    /// Pending source pile (the first key of a two-key move), if any.
    selection: Option<Pile>,
    /// Set when a tableau→tableau move needs a run-length choice.
    pending_run: Option<RunAmbiguity>,
    /// Transient feedback shown until the next action.
    message: Option<String>,
    help_visible: bool,
    start: Clock,
    /// Elapsed seconds frozen at the moment of a win, so the timer (and score)
    /// stop once the game is over. `None` while the game is still in progress.
    frozen_secs: Option<u64>,
}

impl View for Session {
    type V = SessionModel;

    closed spec fn view(&self) -> SessionModel {
        SessionModel {
            state: self.state@,
            config: self.config,
            move_count: self.move_count,
            history: self.history@,
            undo: self.undo@.map_values(|s: Snapshot| s@),
            redo: self.redo@.map_values(|s: Snapshot| s@),
            selection: self.selection,
            pending_run: match self.pending_run {
                Some(a) => Some((a.from, a.to, a.counts@)),
                None => None,
            },
            message: match self.message {
                Some(m) => Some(m@),
                None => None,
            },
            help_visible: self.help_visible,
            frozen_secs: self.frozen_secs,
        }
    }
}

/// A fresh session dealt from `seed` with `config`.
pub open spec fn fresh_session(seed: u64, config: GameConfig) -> SessionModel {
    SessionModel {
        state: new_game_model(seed, config),
        config,
        move_count: 0,
        history: Seq::empty(),
        undo: Seq::empty(),
        redo: Seq::empty(),
        selection: None,
        pending_run: None,
        message: None,
        help_visible: false,
        frozen_secs: None,
    }
}

/// Freeze the clock at `now` the first moment the game is won; unfreeze if a
/// win is undone.
pub open spec fn win_clock(v: SessionModel, now: u64) -> SessionModel {
    if model_is_won(v.state) {
        if v.frozen_secs is None {
            SessionModel { frozen_secs: Some(now), ..v }
        } else {
            v
        }
    } else {
        SessionModel { frozen_secs: None, ..v }
    }
}

/// Whether the score and recycle counters leave room for any move.
pub open spec fn counters_roomy(m: GameModel) -> bool {
    m.points <= i64::MAX - 15 && m.recycles < u32::MAX
}

/// The session after `mv` was accepted: the old position is kept for undo,
/// the redo stack is dropped, and the move is counted and logged.
pub open spec fn moved_state(v: SessionModel, mv: Move) -> SessionModel {
    SessionModel {
        state: apply_spec(v.state, mv)->Ok_0,
        undo: v.undo.push((v.state, v.move_count, v.history)),
        redo: Seq::empty(),
        move_count: (v.move_count + 1) as u32,
        history: v.history.push(mv),
        message: None,
        ..v
    }
}

/// Apply `mv`, keeping a snapshot for undo; on rejection show the reason and
/// leave the position alone. Then the win clock is updated at `now`.
pub open spec fn committed(v: SessionModel, mv: Move, now: u64) -> SessionModel {
    let after = if !counters_roomy(v.state) {
        SessionModel { message: Some("score limit reached"@), ..v }
    } else if v.move_count == u32::MAX {
        SessionModel { message: Some("move limit reached"@), ..v }
    } else {
        match apply_spec(v.state, mv) {
            Ok(s) => moved_state(v, mv),
            Err(e) => SessionModel { message: Some(move_error_text(e)), ..v },
        }
    };
    win_clock(after, now)
}

/// The session one step back: the last snapshot restored, the current
/// position kept for redo.
pub open spec fn stepped_back(v: SessionModel) -> SessionModel {
    let prev = v.undo.last();
    SessionModel {
        undo: v.undo.drop_last(),
        redo: v.redo.push((v.state, v.move_count, v.history)),
        state: prev.0,
        move_count: prev.1,
        history: prev.2,
        selection: None,
        message: Some("Undid last move"@),
        ..v
    }
}

/// Step back one move (or say there is nothing to undo).
pub open spec fn undone(v: SessionModel, now: u64) -> SessionModel {
    if v.undo.len() == 0 {
        SessionModel { message: Some("Nothing to undo"@), ..v }
    } else {
        win_clock(stepped_back(v), now)
    }
}

/// The session one step forward: the last undone snapshot restored, the
/// current position kept for undo.
pub open spec fn stepped_forward(v: SessionModel) -> SessionModel {
    let next = v.redo.last();
    SessionModel {
        redo: v.redo.drop_last(),
        undo: v.undo.push((v.state, v.move_count, v.history)),
        state: next.0,
        move_count: next.1,
        history: next.2,
        selection: None,
        message: Some("Redid move"@),
        ..v
    }
}

/// Step forward one undone move (or say there is nothing to redo).
pub open spec fn redone(v: SessionModel, now: u64) -> SessionModel {
    if v.redo.len() == 0 {
        SessionModel { message: Some("Nothing to redo"@), ..v }
    } else {
        win_clock(stepped_forward(v), now)
    }
}

/// Turn the stock: a draw, or a recycle when the stock is empty.
pub open spec fn dealt(v: SessionModel, now: u64) -> SessionModel {
    committed(v, if v.state.stock.len() == 0 {
        Move::Recycle
    } else {
        Move::Draw
    }, now)
}

/// The largest of the counts, or 1 when there are none.
pub open spec fn max_count(cs: Seq<usize>) -> usize
    decreases cs.len(),
{
    if cs.len() == 0 {
        1
    } else {
        let m = max_count(cs.drop_last());
        if cs.len() == 1 || cs.last() > m {
            cs.last()
        } else {
            m
        }
    }
}

/// The prompt for a run length.
pub open spec fn run_prompt(cs: Seq<usize>) -> Seq<char> {
    "Move how many cards? (1-"@ + decimal_text(max_count(cs) as nat) + ")"@
}

/// What selecting `source` then `target` does, given how the selection
/// resolved (`counts`: the legal run lengths, in ascending order, of a
/// tableau-to-tableau selection).
pub open spec fn moved_to(v: SessionModel, source: Pile, target: Pile, counts: Seq<usize>, now: u64) -> SessionModel {
    match (source, target) {
        (Pile::Tableau(i), Pile::Tableau(k)) => {
            if counts.len() == 0 {
                SessionModel { message: Some("Illegal move"@), ..v }
            } else if counts.len() == 1 {
                committed(v, Move::TableauToTableau { from: i, to: k, count: counts[0] }, now)
            } else {
                SessionModel { message: Some(run_prompt(counts)), pending_run: Some((i, k, counts)), ..v }
            }
        },
        _ => match first_selected(legal_moves_spec(v.state), source, target, 0) {
            Some(mv) => committed(v, mv, now),
            None => SessionModel { message: Some("Illegal move"@), ..v },
        },
    }
}

/// Whether the waste has a card to act on.
pub open spec fn waste_has_card(v: SessionModel) -> bool {
    v.state.waste.len() > 0
}

/// Engage the stock/waste corner: select the waste when it has a card, else deal.
pub open spec fn engaged_stock(v: SessionModel, now: u64) -> SessionModel {
    if waste_has_card(v) {
        SessionModel { selection: Some(Pile::StockWaste), ..v }
    } else {
        dealt(v, now)
    }
}

/// What pressing the key of `pile` does.
pub open spec fn piled(v: SessionModel, pile: Pile, counts: Seq<usize>, now: u64) -> SessionModel {
    match v.selection {
        None => match pile {
            Pile::StockWaste => engaged_stock(v, now),
            other => SessionModel { selection: Some(other), ..v },
        },
        Some(source) => match pile {
            Pile::StockWaste => if source == Pile::StockWaste {
                dealt(SessionModel { selection: None, ..v }, now)
            } else {
                engaged_stock(SessionModel { selection: None, ..v }, now)
            },
            target => moved_to(SessionModel { selection: None, ..v }, source, target, counts, now),
        },
    }
}

/// The digit a character names, if any.
pub open spec fn digit_of(c: char) -> Option<usize> {
    if '0' <= c <= '9' {
        Some(((c as u32) - ('0' as u32)) as usize)
    } else {
        None
    }
}

/// Answer a run-length prompt with `key`.
pub open spec fn prompt_answered(v: SessionModel, key: KeyInput, now: u64) -> SessionModel {
    let (from, to, counts) = v.pending_run->0;
    let cleared = SessionModel { pending_run: None, ..v };
    match key {
        KeyInput::Char(c) => match digit_of(c) {
            Some(d) => if counts.contains(d) {
                committed(cleared, Move::TableauToTableau { from, to, count: d }, now)
            } else {
                SessionModel { message: Some("Cancelled"@), ..cleared }
            },
            None => SessionModel { message: Some("Cancelled"@), ..cleared },
        },
        _ => SessionModel { message: Some("Cancelled"@), ..cleared },
    }
}

/// Whether `mv` is the move auto-assign picks for `source` in `m`: the
/// preferred legal move from `source`, the last among equals.
pub open spec fn auto_pick(m: GameModel, source: Pile, mv: Move) -> bool {
    let s = legal_moves_spec(m);
    exists|i: int|
        #![trigger s[i]]
        0 <= i < s.len() && s[i] == mv && from_source(source, mv) && (forall|j: int|
            0 <= j < s.len() && from_source(source, #[trigger] s[j]) ==> !prefers(s[j], mv)) && (
        forall|j: int| i < j < s.len() && from_source(source, #[trigger] s[j]) ==> prefers(mv, s[j]))
}

/// Whether any legal move leaves `source`.
pub open spec fn any_from(m: GameModel, source: Pile) -> bool {
    exists|j: int| 0 <= j < legal_moves_spec(m).len() && from_source(source, #[trigger] legal_moves_spec(m)[j])
}

/// Auto-assign the selected card (the waste when nothing is selected): play
/// `pick` when it is the preferred move, or say there is none.
pub open spec fn auto_assigned(v: SessionModel, pick: Move, now: u64) -> SessionModel {
    let source = match v.selection {
        Some(p) => p,
        None => Pile::StockWaste,
    };
    let cleared = SessionModel { selection: None, ..v };
    if any_from(v.state, source) {
        committed(cleared, pick, now)
    } else {
        SessionModel { message: Some("No legal move for that card"@), ..cleared }
    }
}

/// The run lengths that selecting tableau column `i` then column `k` resolves
/// to, in ascending order, are `counts`.
pub open spec fn counts_resolved(m: GameModel, i: usize, k: usize, counts: Seq<usize>) -> bool {
    exists|perm: Seq<int>|
        ascending_rearrangement(
            run_counts(legal_moves_spec(m), i, k, legal_moves_spec(m).len() as int),
            perm,
            counts,
        )
}

/// `counts` is how selecting `source` then `target` resolves in `m` (vacuous
/// unless both are tableau columns).
pub open spec fn pair_counts(m: GameModel, source: Pile, target: Pile, counts: Seq<usize>) -> bool {
    match (source, target) {
        (Pile::Tableau(i), Pile::Tableau(k)) => counts_resolved(m, i, k, counts),
        _ => true,
    }
}

/// `counts` is how pressing the key of `pile` in `v` resolves (vacuous unless it
/// completes a tableau-to-tableau selection).
pub open spec fn pile_counts(v: SessionModel, pile: Pile, counts: Seq<usize>) -> bool {
    match v.selection {
        Some(source) => pair_counts(v.state, source, pile, counts),
        None => true,
    }
}

/// `pick` is the move auto-assign picks in `v` (vacuous when there is none).
pub open spec fn pick_resolved(v: SessionModel, pick: Move) -> bool {
    let source = match v.selection {
        Some(p) => p,
        None => Pile::StockWaste,
    };
    any_from(v.state, source) ==> auto_pick(v.state, source, pick)
}

/// A new game has been dealt from some seed.
pub open spec fn restarted(v: SessionModel, w: SessionModel) -> bool {
    exists|seed: u64|
        #![trigger fresh_session(seed, v.config)]
        w == (SessionModel { message: Some("New game"@), ..fresh_session(seed, v.config) })
}

/// What the game keys do once help, quitting, a prompt and a won game are out
/// of the way: `w` is the session after `key`, for some clock reading.
pub open spec fn played(v: SessionModel, key: KeyInput, w: SessionModel) -> bool {
    let v = SessionModel { message: None, ..v };
    match key {
        KeyInput::Char('u') => exists|now: u64| w == #[trigger] undone(v, now),
        KeyInput::Char('r') => exists|now: u64| w == #[trigger] redone(v, now),
        KeyInput::Char('n') => restarted(v, w),
        KeyInput::Esc => w == (SessionModel { selection: None, ..v }),
        KeyInput::Enter => exists|now: u64, pick: Move|
            w == #[trigger] auto_assigned(v, pick, now) && pick_resolved(v, pick),
        KeyInput::Char(c) => match pile_of_key(c) {
            Some(pile) => exists|now: u64, counts: Seq<usize>|
                w == #[trigger] piled(v, pile, counts, now) && pile_counts(v, pile, counts),
            None => w == v,
        },
    }
}

/// `w` and `sig` are what `key` does to the session `v`: the help overlay and
/// quitting come first, then a pending run-length prompt, then (once the game
/// is won) only a new game, else the game keys.
pub open spec fn key_handled(v: SessionModel, key: KeyInput, w: SessionModel, sig: Signal) -> bool {
    if key == KeyInput::Char('?') {
        w == (SessionModel { help_visible: !v.help_visible, ..v }) && sig == Signal::Continue
    } else if v.help_visible {
        w == (SessionModel { help_visible: false, ..v }) && sig == Signal::Continue
    } else if key == KeyInput::Char('q') {
        w == v && sig == Signal::Quit
    } else if v.pending_run is Some {
        sig == Signal::Continue && exists|now: u64| w == #[trigger] prompt_answered(v, key, now)
    } else if model_is_won(v.state) {
        sig == Signal::Continue && if key == KeyInput::Char('n') {
            restarted(v, w)
        } else {
            w == v
        }
    } else {
        sig == Signal::Continue && played(v, key, w)
    }
}

impl Session {
    /// Start a new session dealt from `seed` with `config`.
    pub fn new(seed: u64, config: GameConfig) -> (s: Session)
        ensures
            s@ == fresh_session(seed, config),
    {
        let s = Session {
            state: GameState::new_with_seed(seed, config),
            config,
            move_count: 0,
            history: Vec::new(),
            undo: Vec::new(),
            redo: Vec::new(),
            selection: None,
            pending_run: None,
            message: None,
            help_visible: false,
            start: Clock::start(),
            frozen_secs: None,
        };
        assert(s@ =~= fresh_session(seed, config));
        s
    }

    // --- accessors for the renderer ---

    /// The position being played.
    pub fn state(&self) -> (s: &GameState)
        ensures
            s@ == self@.state,
    {
        &self.state
    }

    /// The seed of the deal.
    pub fn seed(&self) -> (s: u64)
        ensures
            s == self@.state.seed,
    {
        self.state.seed()
    }

    /// Moves played (undo steps back).
    pub fn move_count(&self) -> (n: u32)
        ensures
            n == self@.move_count,
    {
        self.move_count
    }

    /// The pending source pile, if any.
    pub fn selection(&self) -> (p: Option<Pile>)
        ensures
            p == self@.selection,
    {
        self.selection
    }

    /// The feedback line, if any.
    pub fn message(&self) -> (m: Option<&str>)
        ensures
            match (m, self@.message) {
                (Some(a), Some(b)) => a@ == b,
                (None, None) => true,
                _ => false,
            },
    {
        match &self.message {
            Some(m) => Some(m.as_str()),
            None => None,
        }
    }

    /// Whether the help overlay is shown.
    pub fn help_visible(&self) -> (b: bool)
        ensures
            b == self@.help_visible,
    {
        self.help_visible
    }

    /// The moves played, in order.
    pub fn history(&self) -> (h: &[Move])
        ensures
            h@ == self@.history,
    {
        self.history.as_slice()
    }

    /// Whether there is an undone move to redo.
    pub fn can_redo(&self) -> (b: bool)
        ensures
            b == (self@.redo.len() > 0),
    {
        self.redo.len() > 0
    }

    /// Whether the game is won.
    pub fn is_won(&self) -> (b: bool)
        ensures
            b == model_is_won(self@.state),
    {
        self.state.is_won()
    }

    /// Seconds played: frozen at the moment of a win, else read from the clock.
    pub fn elapsed_secs(&self) -> (n: u64)
        ensures
            self@.frozen_secs matches Some(f) ==> n == f,
    {
        match self.frozen_secs {
            Some(f) => f,
            None => self.start.elapsed_secs(),
        }
    }

    /// Push the current elapsed time into the model so scoring is up to date,
    /// then return the current displayable score.
    pub fn sync_time(&mut self) -> (score: i64)
        ensures
            final(self)@ == (SessionModel {
                state: GameModel { elapsed: final(self)@.state.elapsed, ..old(self)@.state },
                ..old(self)@
            }),
            old(self)@.frozen_secs matches Some(f) ==> final(self)@.state.elapsed == f,
            score == crate::model::score::current_score(
                old(self)@.state.points,
                final(self)@.state.elapsed,
                old(self)@.state.config.timed,
            ),
    {
        let secs = self.elapsed_secs();
        self.state.set_elapsed_secs(secs);
        assert(self@ =~= (SessionModel {
            state: GameModel { elapsed: secs, ..old(self)@.state },
            ..old(self)@
        }));
        self.state.current_score()
    }

    /// The final score (with timed bonus when applicable), the time synced first.
    /// `None` when the bonus would pass the score's range.
    pub fn final_score(&mut self) -> (score: Option<i64>)
        ensures
            final(self)@ == (SessionModel {
                state: GameModel { elapsed: final(self)@.state.elapsed, ..old(self)@.state },
                ..old(self)@
            }),
            old(self)@.frozen_secs matches Some(f) ==> final(self)@.state.elapsed == f,
            match score {
                Some(s) => s == crate::model::score::final_score(
                    old(self)@.state.points,
                    final(self)@.state.elapsed,
                    old(self)@.state.config.timed,
                    model_is_won(old(self)@.state),
                ),
                None => crate::model::score::final_score(
                    old(self)@.state.points,
                    final(self)@.state.elapsed,
                    old(self)@.state.config.timed,
                    model_is_won(old(self)@.state),
                ) > i64::MAX,
            },
    {
        let won = self.state.is_won();
        let timed = self.state.config().timed;
        let secs = self.elapsed_secs();
        self.state.set_elapsed_secs(secs);
        assert(self@ =~= (SessionModel {
            state: GameModel { elapsed: secs, ..old(self)@.state },
            ..old(self)@
        }));
        assert(self@.state.foundations == old(self)@.state.foundations);
        assert(model_is_won(self@.state) == won);
        let current = self.state.current_score();
        let bonus = crate::model::score::Score::win_bonus(secs);
        if timed && won && bonus > 0 && current > i64::MAX - bonus {
            return None;
        }
        Some(self.state.final_score())
    }

    fn snapshot(&self) -> (s: Snapshot)
        ensures
            s@ == (self@.state, self@.move_count, self@.history),
    {
        Snapshot { state: self.state.copied(), move_count: self.move_count, history: copy_history(&self.history) }
    }

    /// Freeze or unfreeze the win clock; gives back the clock reading used.
    fn update_win_clock(&mut self) -> (now: Ghost<u64>)
        ensures
            final(self)@ == win_clock(old(self)@, now@),
    {
        if self.state.is_won() {
            if self.frozen_secs.is_none() {
                let now = self.start.elapsed_secs();
                self.frozen_secs = Some(now);
                assert(self@ =~= win_clock(old(self)@, now));
                Ghost(now)
            } else {
                assert(self@ =~= win_clock(old(self)@, 0));
                Ghost(0)
            }
        } else {
            self.frozen_secs = None;
            assert(self@ =~= win_clock(old(self)@, 0));
            Ghost(0)
        }
    }

    /// Apply a move, snapshotting for undo. On rejection, show the reason and
    /// leave the state untouched.
    fn commit(&mut self, mv: Move) -> (now: Ghost<u64>)
        ensures
            final(self)@ == committed(old(self)@, mv, now@),
    {
        let ghost v = self@;
        let points = self.state.score().event_points();
        if !(points <= i64::MAX - 15 && self.state.recycles_done() < u32::MAX) {
            self.message = Some(text("score limit reached"));
            assert(self@ =~= SessionModel { message: Some("score limit reached"@), ..v });
            return self.update_win_clock();
        }
        if self.move_count == u32::MAX {
            self.message = Some(text("move limit reached"));
            assert(self@ =~= SessionModel { message: Some("move limit reached"@), ..v });
            return self.update_win_clock();
        }
        let snapshot = self.snapshot();
        match self.state.apply(mv) {
            Ok(()) => {
                self.undo.push(snapshot);
                self.redo = Vec::new();
                self.move_count = self.move_count + 1;
                self.history.push(mv);
                self.message = None;
                proof {
                    let snap = (v.state, v.move_count, v.history);
                    assert(self@.undo =~= v.undo.push(snap));
                    assert(self@.redo =~= Seq::<SnapshotModel>::empty());
                    assert(self@ =~= moved_state(v, mv));
                }
            },
            Err(e) => {
                self.message = Some(text(e.message()));
                assert(self@ =~= SessionModel { message: Some(move_error_text(e)), ..v });
            },
        }
        self.update_win_clock()
    }

    /// Step back one move, or say there is nothing to undo.
    fn undo(&mut self) -> (now: Ghost<u64>)
        ensures
            final(self)@ == undone(old(self)@, now@),
    {
        let ghost v = self@;
        match self.undo.pop() {
            Some(prev) => {
                let current = self.snapshot();
                self.redo.push(current);
                self.state = prev.state;
                self.move_count = prev.move_count;
                self.history = prev.history;
                self.selection = None;
                self.message = Some(text("Undid last move"));
                proof {
                    assert(self@.undo =~= v.undo.drop_last());
                    assert(self@.redo =~= v.redo.push((v.state, v.move_count, v.history)));
                    assert(prev@ == v.undo.last());
                    assert(self@ =~= stepped_back(v));
                }
                self.update_win_clock()
            },
            None => {
                self.message = Some(text("Nothing to undo"));
                assert(self@ =~= undone(v, 0));
                Ghost(0)
            },
        }
    }

    /// Step forward one undone move, or say there is nothing to redo.
    fn redo(&mut self) -> (now: Ghost<u64>)
        ensures
            final(self)@ == redone(old(self)@, now@),
    {
        let ghost v = self@;
        match self.redo.pop() {
            Some(next) => {
                let current = self.snapshot();
                self.undo.push(current);
                self.state = next.state;
                self.move_count = next.move_count;
                self.history = next.history;
                self.selection = None;
                self.message = Some(text("Redid move"));
                proof {
                    assert(self@.redo =~= v.redo.drop_last());
                    assert(self@.undo =~= v.undo.push((v.state, v.move_count, v.history)));
                    assert(next@ == v.redo.last());
                    assert(self@ =~= stepped_forward(v));
                }
                self.update_win_clock()
            },
            None => {
                self.message = Some(text("Nothing to redo"));
                assert(self@ =~= redone(v, 0));
                Ghost(0)
            },
        }
    }

    fn deal(&mut self) -> (now: Ghost<u64>)
        ensures
            final(self)@ == dealt(old(self)@, now@),
    {
        let mv = if self.state.stock_pile().is_empty() {
            Move::Recycle
        } else {
            Move::Draw
        };
        self.commit(mv)
    }

    fn waste_has_card(&self) -> (b: bool)
        ensures
            b == waste_has_card(self@),
    {
        self.state.waste_pile().top().is_some()
    }

    fn engage_stock(&mut self) -> (now: Ghost<u64>)
        ensures
            final(self)@ == engaged_stock(old(self)@, now@),
    {
        if self.waste_has_card() {
            self.selection = Some(Pile::StockWaste);
            assert(self@ =~= engaged_stock(old(self)@, 0));
            Ghost(0)
        } else {
            self.deal()
        }
    }

    /// Play `source` onto `target`; gives back the clock reading and the run
    /// lengths the selection resolved to.
    fn try_move(&mut self, source: Pile, target: Pile) -> (r: (Ghost<u64>, Ghost<Seq<usize>>))
        ensures
            final(self)@ == moved_to(old(self)@, source, target, r.1@, r.0@),
            pair_counts(old(self)@.state, source, target, r.1@),
    {
        let ghost v = self@;
        let ghost cs = match (source, target) {
            (Pile::Tableau(i), Pile::Tableau(k)) => run_counts(
                legal_moves_spec(v.state),
                i,
                k,
                legal_moves_spec(v.state).len() as int,
            ),
            _ => Seq::<usize>::empty(),
        };
        match resolve_move(&self.state, source, target) {
            Ok(Some(mv)) => {
                let now = self.commit(mv);
                proof {
                    if let (Pile::Tableau(i), Pile::Tableau(k)) = (source, target) {
                        assert(ascending_rearrangement(cs, seq![0int], cs));
                        assert(counts_resolved(v.state, i, k, cs));
                    }
                    assert(self@ == moved_to(v, source, target, cs, now@));
                }
                (now, Ghost(cs))
            },
            Ok(None) => {
                self.message = Some(text("Illegal move"));
                proof {
                    if let (Pile::Tableau(i), Pile::Tableau(k)) = (source, target) {
                        assert(ascending_rearrangement(cs, Seq::<int>::empty(), cs));
                        assert(counts_resolved(v.state, i, k, cs));
                    }
                    assert(self@ =~= moved_to(v, source, target, cs, 0));
                }
                (Ghost(0), Ghost(cs))
            },
            Err(amb) => {
                let ghost counts = amb.counts@;
                let max = max_of(&amb.counts);
                let mut msg = String::new();
                msg.append("Move how many cards? (1-");
                push_decimal(&mut msg, max as u64);
                msg.append(")");
                self.message = Some(msg);
                self.pending_run = Some(amb);
                proof {
                    if let (Pile::Tableau(i), Pile::Tableau(k)) = (source, target) {
                        let perm = choose|perm: Seq<int>| ascending_rearrangement(cs, perm, counts);
                        assert(ascending_rearrangement(cs, perm, counts));
                        assert(counts_resolved(v.state, i, k, counts));
                    }
                    assert(msg@ =~= run_prompt(counts));
                    assert(self@ =~= moved_to(v, source, target, counts, 0));
                }
                (Ghost(0), Ghost(counts))
            },
        }
    }

    /// What the key of `pile` does; gives back the clock reading and the run
    /// lengths a tableau-to-tableau selection resolved to.
    fn handle_pile(&mut self, pile: Pile) -> (r: (Ghost<u64>, Ghost<Seq<usize>>))
        ensures
            final(self)@ == piled(old(self)@, pile, r.1@, r.0@),
            pile_counts(old(self)@, pile, r.1@),
    {
        let ghost v = self@;
        match self.selection {
            None => match pile {
                Pile::StockWaste => {
                    let now = self.engage_stock();
                    (now, Ghost(Seq::empty()))
                },
                other => {
                    self.selection = Some(other);
                    assert(self@ =~= piled(v, pile, Seq::empty(), 0));
                    (Ghost(0), Ghost(Seq::empty()))
                },
            },
            Some(source) => {
                self.selection = None;
                let ghost cleared = self@;
                assert(cleared =~= SessionModel { selection: None, ..v });
                match pile {
                    Pile::StockWaste => {
                        if source == Pile::StockWaste {
                            let now = self.deal();
                            (now, Ghost(Seq::empty()))
                        } else {
                            let now = self.engage_stock();
                            (now, Ghost(Seq::empty()))
                        }
                    },
                    target => self.try_move(source, target),
                }
            },
        }
    }

    fn resolve_run_prompt(&mut self, key: KeyInput) -> (now: Ghost<u64>)
        requires
            old(self)@.pending_run is Some,
        ensures
            final(self)@ == prompt_answered(old(self)@, key, now@),
    {
        let ghost v = self@;
        let mut taken: Option<RunAmbiguity> = None;
        core::mem::swap(&mut taken, &mut self.pending_run);
        let amb = match taken {
            Some(a) => a,
            None => {
                return Ghost(0);
            },
        };
        let ghost cleared = self@;
        assert(cleared =~= SessionModel { pending_run: None, ..v });
        match key {
            KeyInput::Char(c) => {
                if '0' <= c && c <= '9' {
                    let d = (c as u32 - '0' as u32) as usize;
                    if contains_count(&amb.counts, d) {
                        return self.commit(Move::TableauToTableau { from: amb.from, to: amb.to, count: d });
                    }
                }
            },
            _ => {},
        }
        self.message = Some(text("Cancelled"));
        assert(self@ =~= prompt_answered(v, key, 0));
        Ghost(0)
    }

    /// Auto-assign the selected card; gives back the clock reading and the move
    /// that was picked.
    fn auto_assign(&mut self) -> (r: (Ghost<u64>, Ghost<Move>))
        ensures
            final(self)@ == auto_assigned(old(self)@, r.1@, r.0@),
            pick_resolved(old(self)@, r.1@),
    {
        let ghost v = self@;
        let source = match self.selection {
            Some(p) => p,
            None => Pile::StockWaste,
        };
        self.selection = None;
        let ghost cleared = self@;
        assert(cleared =~= SessionModel { selection: None, ..v });
        match auto_target(&self.state, source) {
            Some(mv) => {
                let now = self.commit(mv);
                assert(any_from(v.state, source));
                (now, Ghost(mv))
            },
            None => {
                self.message = Some(text("No legal move for that card"));
                assert(self@ =~= auto_assigned(v, Move::Draw, 0));
                (Ghost(0), Ghost(Move::Draw))
            },
        }
    }

    fn new_game(&mut self) -> (seed: u64)
        ensures
            final(self)@ == (SessionModel { message: Some("New game"@), ..fresh_session(seed, old(self)@.config) }),
    {
        let seed = random_seed();
        let config = self.config;
        *self = Session::new(seed, config);
        self.message = Some(text("New game"));
        assert(self@ =~= (SessionModel { message: Some("New game"@), ..fresh_session(seed, config) }));
        seed
    }

    /// Handle one key event; returns whether the loop should continue or quit.
    pub fn handle_key(&mut self, key: KeyInput) -> (sig: Signal)
        ensures
            key_handled(old(self)@, key, final(self)@, sig),
    {
        let ghost v = self@;
        // Help overlay: `?` toggles; while visible, any other key dismisses it.
        if key == KeyInput::Char('?') {
            self.help_visible = !self.help_visible;
            assert(self@ =~= SessionModel { help_visible: !v.help_visible, ..v });
            return Signal::Continue;
        }
        if self.help_visible {
            self.help_visible = false;
            assert(self@ =~= SessionModel { help_visible: false, ..v });
            return Signal::Continue;
        }
        // Quitting is always available.
        if key == KeyInput::Char('q') {
            return Signal::Quit;
        }
        // Resolving a pending run-length prompt takes priority.
        if self.pending_run.is_some() {
            let now = self.resolve_run_prompt(key);
            assert(self@ == prompt_answered(v, key, now@));
            return Signal::Continue;
        }
        // Once won, only new-game / quit / help do anything.
        if self.is_won() {
            if key == KeyInput::Char('n') {
                let seed = self.new_game();
                assert(self@ == (SessionModel { message: Some("New game"@), ..fresh_session(seed, v.config) }));
            }
            return Signal::Continue;
        }
        self.message = None;
        let ghost quiet = self@;
        assert(quiet =~= SessionModel { message: None, ..v });
        match key {
            KeyInput::Char('u') => {
                let now = self.undo();
                assert(self@ == undone(quiet, now@));
            },
            KeyInput::Char('r') => {
                let now = self.redo();
                assert(self@ == redone(quiet, now@));
            },
            KeyInput::Char('n') => {
                let seed = self.new_game();
                assert(self@ == (SessionModel { message: Some("New game"@), ..fresh_session(seed, quiet.config) }));
            },
            KeyInput::Esc => {
                self.selection = None;
                assert(self@ =~= SessionModel { selection: None, ..quiet });
            },
            KeyInput::Enter => {
                let (now, pick) = self.auto_assign();
                assert(self@ == auto_assigned(quiet, pick@, now@));
            },
            KeyInput::Char(c) => {
                match key_to_pile(c) {
                    Some(pile) => {
                        let (now, counts) = self.handle_pile(pile);
                        assert(self@ == piled(quiet, pile, counts@, now@));
                        assert(pile_counts(quiet, pile, counts@));
                    },
                    None => {},
                }
            },
        }
        Signal::Continue
    }
}

/// Whether `d` is among the counts.
fn contains_count(counts: &Vec<usize>, d: usize) -> (b: bool)
    ensures
        b == counts@.contains(d),
{
    let mut i: usize = 0;
    while i < counts.len()
        invariant
            i <= counts@.len(),
            forall|j: int| 0 <= j < i ==> counts@[j] != d,
        decreases counts@.len() - i,
    {
        if counts[i] == d {
            assert(counts@[i as int] == d);
            return true;
        }
        i = i + 1;
    }
    false
}

/// An owned copy of a string literal.
fn text(s: &str) -> (r: String)
    ensures
        r@ == s@,
{
    String::from_str(s)
}

/// An independent copy of a move list.
fn copy_history(moves: &Vec<Move>) -> (r: Vec<Move>)
    ensures
        r@ == moves@,
{
    let mut r: Vec<Move> = Vec::new();
    let mut i: usize = 0;
    while i < moves.len()
        invariant
            i <= moves@.len(),
            r@ == moves@.subrange(0, i as int),
        decreases moves@.len() - i,
    {
        r.push(moves[i]);
        i = i + 1;
        assert(r@ =~= moves@.subrange(0, i as int));
    }
    assert(r@ =~= moves@);
    r
}

/// The largest of the counts, or 1 when there are none.
fn max_of(counts: &Vec<usize>) -> (m: usize)
    ensures
        m == max_count(counts@),
{
    let mut m: usize = 1;
    let mut i: usize = 0;
    while i < counts.len()
        invariant
            i <= counts@.len(),
            m == max_count(counts@.take(i as int)),
        decreases counts@.len() - i,
    {
        assert(counts@.take(i + 1).drop_last() =~= counts@.take(i as int));
        if i == 0 || counts[i] > m {
            m = counts[i];
        }
        i = i + 1;
    }
    assert(counts@.take(counts@.len() as int) =~= counts@);
    m
}

/// Undoing a move the session accepted gives back the position, the move
/// count, the history and the undo stack from before it, whatever the clock
/// read.
pub proof fn lemma_undo_after_commit(v: SessionModel, mv: Move, now: u64, later: u64)
    requires
        counters_roomy(v.state),
        v.move_count < u32::MAX,
        apply_spec(v.state, mv) is Ok,
    ensures
        undone(committed(v, mv, now), later).state == v.state,
        undone(committed(v, mv, now), later).move_count == v.move_count,
        undone(committed(v, mv, now), later).history == v.history,
        undone(committed(v, mv, now), later).undo == v.undo,
{
    let w = committed(v, mv, now);
    assert(w.undo == v.undo.push((v.state, v.move_count, v.history)));
    assert(w.undo.drop_last() =~= v.undo);
}

/// Redoing a move just undone gives back the position, the move count, the
/// history and both stacks from before the undo.
pub proof fn lemma_redo_after_undo(v: SessionModel, now: u64, later: u64)
    requires
        v.undo.len() > 0,
    ensures
        redone(undone(v, now), later).state == v.state,
        redone(undone(v, now), later).move_count == v.move_count,
        redone(undone(v, now), later).history == v.history,
        redone(undone(v, now), later).undo == v.undo,
        redone(undone(v, now), later).redo == v.redo,
{
    let w = undone(v, now);
    assert(w.redo.drop_last() =~= v.redo);
    assert(w.undo.push((w.state, w.move_count, w.history)) =~= v.undo);
}

} // verus!
