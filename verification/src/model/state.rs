//! Game configuration and the `GameState` aggregate.
use vstd::prelude::*;

use crate::model::card::Card;
use crate::model::deal::{deal, dealt_column, dealt_stock};
use crate::model::laws::has_all_piles;
use crate::model::moves::{Move, MoveError};
use crate::model::pile::{
    flip_top_down, flip_top_up, seq_pop, Foundation, Stock, TableauColumn, Waste,
};
use crate::model::rules_spec::{
    all_face_down, all_face_up, apply_fits, apply_spec, draw_amount, drawn_by, flipped_by,
    moved_run, legal_moves_spec, recycle_allowed, scored, top_cards, undo_ok, undo_spec, unflipped,
    without_top,
};
use crate::model::score::{self, Score, ScoreEvent};

verus! {

/// How many cards are turned from the stock per draw.
#[derive(Debug, Clone, Copy, PartialEq, Eq, Hash, Structural)]
pub enum DrawMode {
    /// Draw one card at a time.
    One,
    /// Draw three cards at a time (classic Windows default).
    Three,
}

/// The number of cards a draw mode turns per draw.
pub open spec fn draw_mode_count(d: DrawMode) -> nat {
    match d {
        DrawMode::One => 1,
        DrawMode::Three => 3,
    }
}

impl DrawMode {
    /// The number of cards this mode turns per draw.
    pub fn count(self) -> (n: usize)
        ensures
            n == draw_mode_count(self),
    {
        match self {
            DrawMode::One => 1,
            DrawMode::Three => 3,
        }
    }
}

/// Configuration selected for a game.
#[derive(Debug, Clone, Copy, PartialEq, Eq, Hash, Structural)]
pub struct GameConfig {
    /// Draw one or three cards per stock draw.
    pub draw_mode: DrawMode,
    /// Maximum number of stock recycles allowed. `None` means unlimited.
    pub redeal_limit: Option<u32>,
    /// Whether timed scoring (time penalty + win bonus) is in effect.
    pub timed: bool,
}

impl Default for GameConfig {
    /// Classic Windows defaults: draw-three, unlimited recycles, untimed.
    fn default() -> (c: GameConfig)
        ensures
            c == (GameConfig { draw_mode: DrawMode::Three, redeal_limit: None, timed: false }),
    {
        GameConfig { draw_mode: DrawMode::Three, redeal_limit: None, timed: false }
    }
}

/// The mathematical model of a game position: every pile as a sequence of cards
/// (bottom-to-top), plus the seed, configuration, event points, elapsed time and
/// recycle count.
#[verifier::ext_equal]
pub struct GameModel {
    pub stock: Seq<Card>,
    pub waste: Seq<Card>,
    pub foundations: Seq<Seq<Card>>,
    pub tableau: Seq<Seq<Card>>,
    pub seed: u64,
    pub config: GameConfig,
    pub points: int,
    pub elapsed: u64,
    pub recycles: u32,
}

/// Whether all four foundations are complete (13 cards each).
pub open spec fn model_is_won(m: GameModel) -> bool {
    forall|f: int| 0 <= f < 4 ==> (#[trigger] m.foundations[f]).len() == 13
}

/// The position of a new game dealt from `seed` with configuration `config`.
pub open spec fn new_game_model(seed: u64, config: GameConfig) -> GameModel {
    GameModel {
        stock: dealt_stock(seed),
        waste: Seq::empty(),
        foundations: Seq::new(4, |i: int| Seq::<Card>::empty()),
        tableau: Seq::new(7, |c: int| dealt_column(seed, c)),
        seed,
        config,
        points: 0,
        elapsed: 0,
        recycles: 0,
    }
}

/// The complete state of a game in progress — the single source of truth.
#[derive(Debug, Clone, PartialEq, Eq)]
pub struct GameState {
    pub stock: Stock,
    pub waste: Waste,
    pub foundations: [Foundation; 4],
    pub tableau: [TableauColumn; 7],
    seed: u64,
    config: GameConfig,
    score: Score,
    /// Elapsed play time in seconds, supplied by the caller (the front-end owns
    /// the clock). Only affects the score in timed mode.
    elapsed_secs: u64,
    /// How many times the waste has been recycled into the stock so far.
    recycles_done: u32,
}

impl View for GameState {
    type V = GameModel;

    /// The position: piles as card sequences, plus seed, configuration, score,
    /// elapsed time and recycle count.
    closed spec fn view(&self) -> GameModel {
        GameModel {
            stock: self.stock@,
            waste: self.waste@,
            foundations: self.foundations@.map_values(|f: Foundation| f@),
            tableau: self.tableau@.map_values(|c: TableauColumn| c@),
            seed: self.seed_spec(),
            config: self.config_spec(),
            points: self.score_spec()@,
            elapsed: self.elapsed_spec(),
            recycles: self.recycles_spec(),
        }
    }
}

/// The outcome a move step reports: on success the new position is the rules'
/// outcome (with the draw count and flip flag the undo token needs); on failure
/// the rules reject the move with that error and the position is unchanged.
pub open spec fn step_reported(
    old: GameModel,
    new: GameModel,
    mv: Move,
    r: Result<(u8, bool), MoveError>,
) -> bool {
    match r {
        Ok((d, f)) => {
            &&& apply_spec(old, mv) == Ok::<GameModel, MoveError>(new)
            &&& d == drawn_by(old, mv)
            &&& f == flipped_by(old, mv)
        },
        Err(e) => {
            &&& apply_spec(old, mv) == Err::<GameModel, MoveError>(e)
            &&& new == old
        },
    }
}

impl GameState {
    /// The seed this game was dealt from.
    pub closed spec fn seed_spec(&self) -> u64 {
        self.seed
    }

    /// The configuration of this game.
    pub closed spec fn config_spec(&self) -> GameConfig {
        self.config
    }

    /// The running score.
    pub closed spec fn score_spec(&self) -> Score {
        self.score
    }

    /// The elapsed play time.
    pub closed spec fn elapsed_spec(&self) -> u64 {
        self.elapsed_secs
    }

    /// The number of recycles performed.
    pub closed spec fn recycles_spec(&self) -> u32 {
        self.recycles_done
    }

    /// Create and deal a new game from `seed` and `config`. The same
    /// `(seed, config)` always produces the identical initial layout.
    pub fn new_with_seed(seed: u64, config: GameConfig) -> (g: GameState)
        ensures
            g@.stock == dealt_stock(seed),
            g@.waste == Seq::<Card>::empty(),
            g@.foundations == Seq::new(4, |i: int| Seq::<Card>::empty()),
            g@.tableau == Seq::new(7, |c: int| dealt_column(seed, c)),
            g@.seed == seed,
            g@.config == config,
            g@.points == 0,
            g@.elapsed == 0,
            g@.recycles == 0,
            g@ == new_game_model(seed, config),
    {
        let dealt = deal(seed);
        let g = GameState {
            stock: dealt.stock,
            waste: dealt.waste,
            foundations: dealt.foundations,
            tableau: dealt.tableau,
            seed,
            config,
            score: Score::new(),
            elapsed_secs: 0,
            recycles_done: 0,
        };
        assert(g@.foundations =~= Seq::new(4, |i: int| Seq::<Card>::empty()));
        assert(g@.tableau =~= Seq::new(7, |c: int| dealt_column(seed, c)));
        assert(g@ =~= new_game_model(seed, config));
        g
    }

    /// A position set up from its piles, as a game of `seed` and `config` that
    /// has scored nothing, taken no time and recycled no waste yet.
    pub fn from_piles(
        stock: Stock,
        waste: Waste,
        foundations: [Foundation; 4],
        tableau: [TableauColumn; 7],
        seed: u64,
        config: GameConfig,
    ) -> (g: GameState)
        ensures
            g@ == (GameModel {
                stock: stock@,
                waste: waste@,
                foundations: foundations@.map_values(|f: Foundation| f@),
                tableau: tableau@.map_values(|c: TableauColumn| c@),
                seed,
                config,
                points: 0,
                elapsed: 0,
                recycles: 0,
            }),
    {
        GameState {
            stock,
            waste,
            foundations,
            tableau,
            seed,
            config,
            score: Score::new(),
            elapsed_secs: 0,
            recycles_done: 0,
        }
    }

    /// An independent copy of this state.
    pub fn copied(&self) -> (g: GameState)
        ensures
            g@ == self@,
    {
        let g = GameState {
            stock: self.stock.copied(),
            waste: self.waste.copied(),
            foundations: [
                self.foundations[0].copied(),
                self.foundations[1].copied(),
                self.foundations[2].copied(),
                self.foundations[3].copied(),
            ],
            tableau: [
                self.tableau[0].copied(),
                self.tableau[1].copied(),
                self.tableau[2].copied(),
                self.tableau[3].copied(),
                self.tableau[4].copied(),
                self.tableau[5].copied(),
                self.tableau[6].copied(),
            ],
            seed: self.seed,
            config: self.config,
            score: self.score,
            elapsed_secs: self.elapsed_secs,
            recycles_done: self.recycles_done,
        };
        assert(g@.foundations =~= self@.foundations);
        assert(g@.tableau =~= self@.tableau);
        g
    }

    /// The stock pile.
    pub(crate) fn stock_pile(&self) -> (p: &Stock)
        ensures
            p@ == self@.stock,
    {
        &self.stock
    }

    /// The waste pile.
    pub(crate) fn waste_pile(&self) -> (p: &Waste)
        ensures
            p@ == self@.waste,
    {
        &self.waste
    }

    /// Foundation `f`.
    pub(crate) fn foundation(&self, f: usize) -> (p: &Foundation)
        requires
            f < 4,
        ensures
            p@ == self@.foundations[f as int],
    {
        &self.foundations[f]
    }

    /// Tableau column `c`.
    pub(crate) fn column(&self, c: usize) -> (p: &TableauColumn)
        requires
            c < 7,
        ensures
            p@ == self@.tableau[c as int],
    {
        &self.tableau[c]
    }

    /// The piles of every position have the fixed counts: four foundations
    /// and seven columns.
    pub proof fn lemma_pile_counts(&self)
        ensures
            self@.foundations.len() == 4,
            self@.tableau.len() == 7,
    {
    }

    /// Every position has its four foundations and seven columns, each column
    /// within what a `usize` can count.
    pub proof fn lemma_has_all_piles(&self)
        ensures
            has_all_piles(self@),
    {
        assert forall|c: int| 0 <= c < 7 implies (#[trigger] self@.tableau[c]).len() <= usize::MAX by {
            self.tableau@[c].lemma_len_fits();
        }
    }

    /// The seed this game was dealt from.
    pub fn seed(&self) -> (s: u64)
        ensures
            s == self@.seed,
    {
        self.seed
    }

    /// The configuration in effect for this game.
    pub fn config(&self) -> (c: GameConfig)
        ensures
            c == self@.config,
    {
        self.config
    }

    /// The running score object.
    pub fn score(&self) -> (s: Score)
        ensures
            s@ == self@.points,
    {
        self.score
    }

    /// Number of recycles performed so far.
    pub fn recycles_done(&self) -> (n: u32)
        ensures
            n == self@.recycles,
    {
        self.recycles_done
    }

    /// Whether a recycle is currently permitted by the redeal limit.
    pub fn recycle_allowed(&self) -> (b: bool)
        ensures
            b == recycle_allowed(self@),
    {
        match self.config.redeal_limit {
            None => true,
            Some(limit) => self.recycles_done < limit,
        }
    }

    /// Set the elapsed play time in seconds (the caller owns the clock).
    pub fn set_elapsed_secs(&mut self, secs: u64)
        ensures
            final(self)@ == (GameModel { elapsed: secs, ..old(self)@ }),
    {
        self.elapsed_secs = secs;
    }

    /// The elapsed play time in seconds.
    pub fn elapsed_secs(&self) -> (s: u64)
        ensures
            s == self@.elapsed,
    {
        self.elapsed_secs
    }

    /// The current displayable score, accounting for timed play.
    pub fn current_score(&self) -> (s: i64)
        ensures
            s == score::current_score(self@.points, self@.elapsed, self@.config.timed),
            s >= 0,
    {
        self.score.current(self.elapsed_secs, self.config.timed)
    }

    /// Whether the game is won: all four foundations complete (Ace..King).
    pub fn is_won(&self) -> (b: bool)
        ensures
            b == model_is_won(self@),
    {
        let b = self.foundations[0].is_complete() && self.foundations[1].is_complete()
            && self.foundations[2].is_complete() && self.foundations[3].is_complete();
        proof {
            if !b {
                assert(!(self@.foundations[0].len() == 13 && self@.foundations[1].len() == 13
                    && self@.foundations[2].len() == 13 && self@.foundations[3].len() == 13));
            }
        }
        b
    }

    /// The final score, including the timed win bonus if the game is won.
    pub fn final_score(&self) -> (s: i64)
        requires
            self@.config.timed && model_is_won(self@) ==> score::current_score(
                self@.points,
                self@.elapsed,
                self@.config.timed,
            ) + score::win_bonus(self@.elapsed) <= i64::MAX,
        ensures
            s == score::final_score(
                self@.points,
                self@.elapsed,
                self@.config.timed,
                model_is_won(self@),
            ),
    {
        let won = self.is_won();
        self.score.final_score(self.elapsed_secs, self.config.timed, won)
    }

    /// All currently legal moves under the classic ruleset.
    pub fn legal_moves(&self) -> (moves: Vec<Move>)
        ensures
            moves@ == legal_moves_spec(self@),
    {
        crate::model::rules::legal_moves(self)
    }

    /// Apply a move, mutating the state. Illegal moves are rejected and leave
    /// the state unchanged.
    pub fn apply(&mut self, mv: Move) -> (r: Result<(), MoveError>)
        requires
            apply_fits(old(self)@, mv),
        ensures
            match r {
                Ok(()) => apply_spec(old(self)@, mv) == Ok::<GameModel, MoveError>(final(self)@),
                Err(e) => {
                    &&& apply_spec(old(self)@, mv) == Err::<GameModel, MoveError>(e)
                    &&& final(self)@ == old(self)@
                },
            },
    {
        crate::model::rules::apply_move(self, mv)
    }

    /// Restore the score and recycle count (used when undoing a move).
    pub(crate) fn restore_score_and_recycles(&mut self, score: Score, recycles: u32)
        ensures
            final(self)@ == (GameModel { points: score@, recycles, ..old(self)@ }),
    {
        self.score = score;
        self.recycles_done = recycles;
    }

    /// Score an event.
    fn add_event(&mut self, e: ScoreEvent)
        requires
            old(self)@.points + score::event_points(e) <= i64::MAX,
        ensures
            final(self)@ == scored(old(self)@, e),
    {
        self.score.apply(e);
    }

    /// Draw from the stock onto the waste.
    pub(crate) fn step_draw(&mut self) -> (r: Result<(u8, bool), MoveError>)
        ensures
            step_reported(old(self)@, final(self)@, Move::Draw, r),
    {
        if self.stock.is_empty() {
            return Err(MoveError::StockEmpty);
        }
        let c = self.config.draw_mode.count();
        let n = if c <= self.stock.len() {
            c
        } else {
            self.stock.len()
        };
        let ghost m0 = self@;
        let mut i: usize = 0;
        while i < n
            invariant
                n == draw_amount(m0),
                n <= 3,
                i <= n,
                m0.stock.len() > 0,
                self@ == (GameModel {
                    stock: without_top(m0.stock, i as int),
                    waste: m0.waste + all_face_up(top_cards(m0.stock, i as int).reverse()),
                    ..m0
                }),
            decreases n - i,
        {
            match self.stock.draw() {
                Some(card) => {
                    let mut card = card;
                    card.flip_up();
                    self.waste.push(card);
                },
                None => {},
            }
            i = i + 1;
            assert(self@.stock =~= without_top(m0.stock, i as int));
            assert(self@.waste =~= m0.waste + all_face_up(top_cards(m0.stock, i as int).reverse()));
        }
        Ok((n as u8, false))
    }

    /// Recycle the waste back into the stock.
    pub(crate) fn step_recycle(&mut self) -> (r: Result<(u8, bool), MoveError>)
        requires
            apply_fits(old(self)@, Move::Recycle),
        ensures
            step_reported(old(self)@, final(self)@, Move::Recycle, r),
    {
        if !self.stock.is_empty() {
            return Err(MoveError::StockNotEmpty);
        }
        if self.waste.is_empty() {
            return Err(MoveError::EmptySource);
        }
        if !self.recycle_allowed() {
            return Err(MoveError::RedealLimitReached);
        }
        let ghost m0 = self@;
        let drained = self.waste.drain_top_first();
        let mut i: usize = 0;
        while i < drained.len()
            invariant
                drained@ == m0.waste.reverse(),
                i <= drained@.len(),
                self@ == (GameModel {
                    stock: all_face_down(drained@.take(i as int)),
                    waste: Seq::empty(),
                    ..m0
                }),
            decreases drained@.len() - i,
        {
            let mut card = drained[i];
            card.flip_down();
            self.stock.push(card);
            i = i + 1;
            assert(self@.stock =~= all_face_down(drained@.take(i as int)));
        }
        assert(drained@.take(i as int) =~= drained@);
        self.recycles_done = self.recycles_done + 1;
        if self.config.draw_mode == DrawMode::One {
            self.add_event(ScoreEvent::RecycleDrawOne);
        }
        Ok((0, false))
    }

    /// Move the waste's top card onto a foundation.
    pub(crate) fn step_waste_to_foundation(&mut self, foundation: usize) -> (r: Result<
        (u8, bool),
        MoveError,
    >)
        requires
            apply_fits(old(self)@, Move::WasteToFoundation { foundation }),
        ensures
            step_reported(old(self)@, final(self)@, Move::WasteToFoundation { foundation }, r),
    {
        if foundation >= 4 {
            return Err(MoveError::IndexOutOfRange);
        }
        let card = match self.waste.top() {
            Some(c) => c,
            None => {
                return Err(MoveError::EmptySource);
            },
        };
        if !crate::model::rules::can_stack_on_foundation(card, self.foundations[foundation].top()) {
            return Err(MoveError::IllegalFoundationPlacement);
        }
        let ghost m0 = self@;
        self.waste.take_top();
        self.foundations[foundation].push(card);
        self.add_event(ScoreEvent::WasteToFoundation);
        assert(self@.foundations =~= m0.foundations.update(
            foundation as int,
            m0.foundations[foundation as int].push(card),
        ));
        Ok((0, false))
    }

    /// Move the waste's top card onto a tableau column.
    pub(crate) fn step_waste_to_tableau(&mut self, column: usize) -> (r: Result<
        (u8, bool),
        MoveError,
    >)
        requires
            apply_fits(old(self)@, Move::WasteToTableau { column }),
        ensures
            step_reported(old(self)@, final(self)@, Move::WasteToTableau { column }, r),
    {
        if column >= 7 {
            return Err(MoveError::IndexOutOfRange);
        }
        let card = match self.waste.top() {
            Some(c) => c,
            None => {
                return Err(MoveError::EmptySource);
            },
        };
        if !crate::model::rules::can_stack_on_tableau(card, self.tableau[column].top()) {
            return Err(MoveError::IllegalTableauPlacement);
        }
        let ghost m0 = self@;
        self.waste.take_top();
        self.tableau[column].push(card);
        self.add_event(ScoreEvent::WasteToTableau);
        assert(self@.tableau =~= m0.tableau.update(
            column as int,
            m0.tableau[column as int].push(card),
        ));
        Ok((0, false))
    }

    /// Move the top `count` cards of column `from` onto column `to`.
    #[verifier::rlimit(50)]
    pub(crate) fn step_tableau_to_tableau(&mut self, from: usize, to: usize, count: usize) -> (r:
        Result<(u8, bool), MoveError>)
        requires
            apply_fits(old(self)@, Move::TableauToTableau { from, to, count }),
        ensures
            step_reported(old(self)@, final(self)@, Move::TableauToTableau { from, to, count }, r),
    {
        if from >= 7 || to >= 7 {
            return Err(MoveError::IndexOutOfRange);
        }
        if from == to {
            return Err(MoveError::IllegalTableauPlacement);
        }
        let ghost m0 = self@;
        let run = self.tableau[from].face_up_run();
        if count == 0 || count > run.len() {
            return Err(MoveError::InvalidRun);
        }
        proof {
            crate::model::pile::lemma_face_down_prefix(m0.tableau[from as int]);
        }
        let moving = &run[run.len() - count..run.len()];
        assert(moving@ =~= moved_run(m0, from as int, count as int));
        if !crate::model::rules::is_valid_run(moving) {
            return Err(MoveError::InvalidRun);
        }
        let bottom = moving[0];
        if !crate::model::rules::can_stack_on_tableau(bottom, self.tableau[to].top()) {
            return Err(MoveError::IllegalTableauPlacement);
        }
        let taken = self.tableau[from].take_run(count);
        let cards = match taken {
            Some(v) => v,
            None => Vec::new(),
        };
        self.tableau[to].push_run(cards);
        let flipped = self.tableau[from].flip_top_if_face_down();
        if flipped {
            self.add_event(ScoreEvent::FlipTableauCard);
        }
        assert(self@.tableau =~= m0.tableau.update(
            to as int,
            m0.tableau[to as int] + moved_run(m0, from as int, count as int),
        ).update(from as int, flip_top_up(without_top(m0.tableau[from as int], count as int))));
        Ok((0, flipped))
    }

    /// Move the top card of a column onto a foundation.
    pub(crate) fn step_tableau_to_foundation(&mut self, column: usize, foundation: usize) -> (r:
        Result<(u8, bool), MoveError>)
        requires
            apply_fits(old(self)@, Move::TableauToFoundation { column, foundation }),
        ensures
            step_reported(
                old(self)@,
                final(self)@,
                Move::TableauToFoundation { column, foundation },
                r,
            ),
    {
        if column >= 7 || foundation >= 4 {
            return Err(MoveError::IndexOutOfRange);
        }
        let card = match self.tableau[column].top() {
            Some(c) => c,
            None => {
                return Err(MoveError::EmptySource);
            },
        };
        if !crate::model::rules::can_stack_on_foundation(card, self.foundations[foundation].top()) {
            return Err(MoveError::IllegalFoundationPlacement);
        }
        let ghost m0 = self@;
        let ghost mv = Move::TableauToFoundation { column, foundation };
        assert(apply_spec(m0, mv) is Ok);
        self.tableau[column].take_top();
        self.foundations[foundation].push(card);
        self.add_event(ScoreEvent::TableauToFoundation);
        assert(self@.tableau =~= m0.tableau.update(column as int, m0.tableau[column as int].drop_last()));
        let ghost v1 = self@;
        let ghost col_before = self.tableau@[column as int]@;
        let ghost tab_before = self.tableau@;
        assert(m0.tableau[column as int].len() > 0);
        assert(col_before == self@.tableau[column as int]);
        assert(col_before =~= seq_pop(m0.tableau[column as int]));
        let flipped = self.tableau[column].flip_top_if_face_down();
        assert(self.tableau@[column as int]@ == flip_top_up(col_before));
        assert(forall|k: int| 0 <= k < 7 && k != column ==> self.tableau@[k] == tab_before[k]);
        assert(flipped == flipped_by(m0, mv));
        assert forall|k: int| 0 <= k < 7 implies #[trigger] self@.tableau[k] == m0.tableau.update(
            column as int,
            flip_top_up(m0.tableau[column as int].drop_last()),
        )[k] by {
            if k != column {
                assert(self@.tableau[k] == tab_before[k]@);
                assert(tab_before[k]@ == v1.tableau[k]);
            } else {
                assert(self@.tableau[k] == self.tableau@[k]@);
            }
        }
        assert(self@.tableau =~= m0.tableau.update(
            column as int,
            flip_top_up(m0.tableau[column as int].drop_last()),
        ));
        if flipped {
            self.add_event(ScoreEvent::FlipTableauCard);
        }
        assert(self@.foundations =~= m0.foundations.update(
            foundation as int,
            m0.foundations[foundation as int].push(card),
        ));
        Ok((0, flipped))
    }

    /// Move the top card of a foundation back onto a column.
    pub(crate) fn step_foundation_to_tableau(&mut self, foundation: usize, column: usize) -> (r:
        Result<(u8, bool), MoveError>)
        requires
            apply_fits(old(self)@, Move::FoundationToTableau { foundation, column }),
        ensures
            step_reported(
                old(self)@,
                final(self)@,
                Move::FoundationToTableau { foundation, column },
                r,
            ),
    {
        if foundation >= 4 || column >= 7 {
            return Err(MoveError::IndexOutOfRange);
        }
        let card = match self.foundations[foundation].top() {
            Some(c) => c,
            None => {
                return Err(MoveError::EmptySource);
            },
        };
        if !crate::model::rules::can_stack_on_tableau(card, self.tableau[column].top()) {
            return Err(MoveError::IllegalTableauPlacement);
        }
        let ghost m0 = self@;
        self.foundations[foundation].take_top();
        self.tableau[column].push(card);
        self.add_event(ScoreEvent::FoundationToTableau);
        assert(self@.tableau =~= m0.tableau.update(
            column as int,
            m0.tableau[column as int].push(card),
        ));
        assert(self@.foundations =~= m0.foundations.update(
            foundation as int,
            m0.foundations[foundation as int].drop_last(),
        ));
        Ok((0, false))
    }

    /// Reverse `mv`, given the token's draw count and flip flag, then restore
    /// the score and recycle count.
    #[verifier::rlimit(50)]
    pub(crate) fn undo_step(
        &mut self,
        mv: Move,
        drawn: u8,
        flipped: bool,
        prev_score: Score,
        prev_recycles: u32,
    )
        requires
            undo_ok(old(self)@, mv, drawn as nat, flipped),
        ensures
            final(self)@ == undo_spec(
                old(self)@,
                mv,
                drawn as nat,
                flipped,
                prev_score@,
                prev_recycles,
            ),
    {
        let ghost m0 = self@;
        match mv {
            Move::Draw => {
                let mut i: u8 = 0;
                while i < drawn
                    invariant
                        i <= drawn,
                        drawn <= m0.waste.len(),
                        self@ == (GameModel {
                            waste: without_top(m0.waste, i as int),
                            stock: m0.stock + all_face_down(
                                top_cards(m0.waste, i as int).reverse(),
                            ),
                            ..m0
                        }),
                    decreases drawn - i,
                {
                    match self.waste.take_top() {
                        Some(card) => {
                            let mut card = card;
                            card.flip_down();
                            self.stock.push(card);
                        },
                        None => {},
                    }
                    i = i + 1;
                    assert(self@.waste =~= without_top(m0.waste, i as int));
                    assert(self@.stock =~= m0.stock + all_face_down(
                        top_cards(m0.waste, i as int).reverse(),
                    ));
                }
            },
            Move::Recycle => {
                let drained = self.stock.drain_top_first();
                let mut i: usize = 0;
                while i < drained.len()
                    invariant
                        drained@ == m0.stock.reverse(),
                        i <= drained@.len(),
                        self@ == (GameModel {
                            waste: m0.waste + all_face_up(drained@.take(i as int)),
                            stock: Seq::empty(),
                            ..m0
                        }),
                    decreases drained@.len() - i,
                {
                    let mut card = drained[i];
                    card.flip_up();
                    self.waste.push(card);
                    i = i + 1;
                    assert(self@.waste =~= m0.waste + all_face_up(drained@.take(i as int)));
                }
                assert(drained@.take(i as int) =~= drained@);
            },
            Move::WasteToFoundation { foundation } => {
                match self.foundations[foundation].take_top() {
                    Some(card) => self.waste.push(card),
                    None => {},
                }
                assert(self@.foundations =~= m0.foundations.update(
                    foundation as int,
                    m0.foundations[foundation as int].drop_last(),
                ));
            },
            Move::WasteToTableau { column } => {
                match self.tableau[column].take_top() {
                    Some(card) => self.waste.push(card),
                    None => {},
                }
                assert(self@.tableau =~= m0.tableau.update(
                    column as int,
                    m0.tableau[column as int].drop_last(),
                ));
            },
            Move::TableauToTableau { from, to, count } => {
                if flipped {
                    self.tableau[from].flip_top_down();
                }
                assert(self@.tableau =~= unflipped(m0, from as int, flipped));
                let ghost t1 = self@.tableau;
                match self.tableau[to].take_run(count) {
                    Some(run) => self.tableau[from].push_run(run),
                    None => {},
                }
                let ghost t2 = t1.update(to as int, without_top(t1[to as int], count as int));
                assert(self@.tableau =~= t2.update(
                    from as int,
                    t2[from as int] + top_cards(t1[to as int], count as int),
                ));
            },
            Move::TableauToFoundation { column, foundation } => {
                if flipped {
                    self.tableau[column].flip_top_down();
                }
                assert(self@.tableau =~= unflipped(m0, column as int, flipped));
                let ghost t1 = self@.tableau;
                match self.foundations[foundation].take_top() {
                    Some(card) => self.tableau[column].push(card),
                    None => {},
                }
                assert(self@.tableau =~= t1.update(
                    column as int,
                    t1[column as int].push(m0.foundations[foundation as int].last()),
                ));
                assert(self@.foundations =~= m0.foundations.update(
                    foundation as int,
                    m0.foundations[foundation as int].drop_last(),
                ));
            },
            Move::FoundationToTableau { foundation, column } => {
                match self.tableau[column].take_top() {
                    Some(card) => self.foundations[foundation].push(card),
                    None => {},
                }
                assert(self@.tableau =~= m0.tableau.update(
                    column as int,
                    m0.tableau[column as int].drop_last(),
                ));
                assert(self@.foundations =~= m0.foundations.update(
                    foundation as int,
                    m0.foundations[foundation as int].push(m0.tableau[column as int].last()),
                ));
            },
        }
        self.restore_score_and_recycles(prev_score, prev_recycles);
    }
}

} // verus!
