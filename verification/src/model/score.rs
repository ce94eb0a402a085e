//! Microsoft Windows Solitaire "Standard" scoring.
//!
//! The rules engine decides which events fire; this module only knows what
//! each event is worth and keeps the running total.
use vstd::prelude::*;

verus! {

/// Waste → tableau: +5.
pub const SCORE_WASTE_TO_TABLEAU: i32 = 5;

/// Turning over (flipping) a tableau card: +5.
pub const SCORE_FLIP_TABLEAU: i32 = 5;

/// Waste → foundation: +10.
pub const SCORE_WASTE_TO_FOUNDATION: i32 = 10;

/// Tableau → foundation: +10.
pub const SCORE_TABLEAU_TO_FOUNDATION: i32 = 10;

/// Foundation → tableau: −15.
pub const SCORE_FOUNDATION_TO_TABLEAU: i32 = -15;

/// Draw-one recycle penalty (per pass after the first): −100.
pub const RECYCLE_PENALTY_DRAW_ONE: i32 = 100;

/// Timed mode: points deducted per full 10 seconds of play.
pub const TIME_PENALTY_PER_10S: i64 = 2;

/// Timed mode: numerator of the win-time bonus (`bonus = TIME_BONUS_NUMERATOR / seconds`).
pub const TIME_BONUS_NUMERATOR: i64 = 700_000;

/// A discrete scoring event caused by applying a move.
#[derive(Debug, Clone, Copy, PartialEq, Eq, Structural)]
pub enum ScoreEvent {
    WasteToTableau,
    FlipTableauCard,
    WasteToFoundation,
    TableauToFoundation,
    FoundationToTableau,
    /// A draw-one recycle after the first pass (draw-three recycles do not emit this).
    RecycleDrawOne,
}

/// The signed point delta of an event.
pub open spec fn event_points(e: ScoreEvent) -> int {
    match e {
        ScoreEvent::WasteToTableau => 5,
        ScoreEvent::FlipTableauCard => 5,
        ScoreEvent::WasteToFoundation => 10,
        ScoreEvent::TableauToFoundation => 10,
        ScoreEvent::FoundationToTableau => -15,
        ScoreEvent::RecycleDrawOne => -100,
    }
}

/// The running total after an event: the sum, clamped at zero.
pub open spec fn after_event(points: int, e: ScoreEvent) -> int {
    if points + event_points(e) < 0 {
        0
    } else {
        points + event_points(e)
    }
}

/// The timed-mode penalty for `secs` elapsed seconds: 2 points per full 10 seconds.
pub open spec fn time_penalty(secs: u64) -> int {
    (secs / 10) as int * 2
}

/// The timed-mode win bonus for `secs` elapsed seconds: `700000 / secs` with the
/// seconds read as a signed 64-bit count, or zero when no time has elapsed.
pub open spec fn win_bonus(secs: u64) -> int {
    if secs == 0 {
        0
    } else {
        700_000int / (secs as i64) as int
    }
}

/// The displayable score: the event points, less the time penalty in timed
/// mode (clamped at zero).
pub open spec fn current_score(points: int, secs: u64, timed: bool) -> int {
    if timed {
        if points - time_penalty(secs) < 0 {
            0
        } else {
            points - time_penalty(secs)
        }
    } else {
        points
    }
}

/// The final score: the displayable score plus the win bonus for a timed win.
pub open spec fn final_score(points: int, secs: u64, timed: bool, won: bool) -> int {
    if timed && won {
        current_score(points, secs, timed) + win_bonus(secs)
    } else {
        current_score(points, secs, timed)
    }
}

impl ScoreEvent {
    /// The signed point delta this event contributes.
    pub fn points(self) -> (p: i32)
        ensures
            p == event_points(self),
    {
        match self {
            ScoreEvent::WasteToTableau => SCORE_WASTE_TO_TABLEAU,
            ScoreEvent::FlipTableauCard => SCORE_FLIP_TABLEAU,
            ScoreEvent::WasteToFoundation => SCORE_WASTE_TO_FOUNDATION,
            ScoreEvent::TableauToFoundation => SCORE_TABLEAU_TO_FOUNDATION,
            ScoreEvent::FoundationToTableau => SCORE_FOUNDATION_TO_TABLEAU,
            ScoreEvent::RecycleDrawOne => -RECYCLE_PENALTY_DRAW_ONE,
        }
    }
}

/// The running score. Event points accumulate here and are clamped so they
/// never drop below zero. Time penalty and win bonus are computed from injected
/// elapsed seconds so the core stays deterministic.
#[derive(Debug, Clone, Copy, PartialEq, Eq)]
pub struct Score {
    event_points: i64,
}

impl View for Score {
    type V = int;

    /// The accumulated event points.
    closed spec fn view(&self) -> int {
        self.event_points as int
    }
}

impl Score {
    /// The accumulated event points are never negative.
    #[verifier::type_invariant]
    spec fn non_negative(self) -> bool {
        self.event_points >= 0
    }

    /// A fresh score of zero.
    pub fn new() -> (s: Score)
        ensures
            s@ == 0,
    {
        Score { event_points: 0 }
    }

    /// The accumulated event points (never negative), excluding timed effects.
    pub fn event_points(&self) -> (p: i64)
        ensures
            p == self@,
            p >= 0,
    {
        proof {
            use_type_invariant(self);
        }
        self.event_points
    }

    /// Apply a scoring event, clamping the running total at zero.
    pub fn apply(&mut self, event: ScoreEvent)
        requires
            old(self)@ + event_points(event) <= i64::MAX,
        ensures
            final(self)@ == after_event(old(self)@, event),
    {
        proof {
            use_type_invariant(&*self);
        }
        let sum = self.event_points + event.points() as i64;
        self.event_points = if sum < 0 {
            0
        } else {
            sum
        };
    }

    /// The elapsed-time penalty for `elapsed_secs` in timed mode: 2 points per
    /// full 10 seconds.
    pub fn time_penalty(elapsed_secs: u64) -> (p: i64)
        ensures
            p == time_penalty(elapsed_secs),
            p >= 0,
    {
        (elapsed_secs / 10) as i64 * TIME_PENALTY_PER_10S
    }

    /// The win-time bonus for `elapsed_secs` in timed mode. Larger for faster
    /// completions; zero if no time has elapsed.
    pub fn win_bonus(elapsed_secs: u64) -> (b: i64)
        ensures
            b == win_bonus(elapsed_secs),
            -700_000 <= b <= 700_000,
    {
        if elapsed_secs == 0 {
            0
        } else {
            let d = elapsed_secs as i64;
            assert(d != 0) by (bit_vector)
                requires
                    elapsed_secs != 0,
                    d == elapsed_secs as i64,
            ;
            proof {
                if d > 0 {
                    assert(700_000int / d as int <= 700_000) by (nonlinear_arith)
                        requires
                            d > 0,
                    ;
                    assert(700_000int / d as int >= 0) by (nonlinear_arith)
                        requires
                            d > 0,
                    ;
                } else {
                    assert(700_000int / d as int >= -700_000) by (nonlinear_arith)
                        requires
                            d < 0,
                    ;
                    assert(700_000int / d as int <= 0) by (nonlinear_arith)
                        requires
                            d < 0,
                    ;
                }
            }
            TIME_BONUS_NUMERATOR / d
        }
    }

    /// The current displayable score. In timed mode the elapsed-time penalty is
    /// subtracted; the result is clamped at zero. In untimed mode elapsed time
    /// has no effect.
    pub fn current(&self, elapsed_secs: u64, timed: bool) -> (c: i64)
        ensures
            c == current_score(self@, elapsed_secs, timed),
            c >= 0,
    {
        proof {
            use_type_invariant(self);
        }
        if timed {
            let d = self.event_points - Score::time_penalty(elapsed_secs);
            if d < 0 {
                0
            } else {
                d
            }
        } else {
            self.event_points
        }
    }

    /// The final score, including the timed win bonus when the game is won in
    /// timed mode.
    pub fn final_score(&self, elapsed_secs: u64, timed: bool, won: bool) -> (f: i64)
        requires
            timed && won ==> current_score(self@, elapsed_secs, timed) + win_bonus(elapsed_secs)
                <= i64::MAX,
        ensures
            f == final_score(self@, elapsed_secs, timed, won),
    {
        let mut score = self.current(elapsed_secs, timed);
        if timed && won {
            score = score + Score::win_bonus(elapsed_secs);
        }
        score
    }
}

impl Default for Score {
    fn default() -> (s: Score)
        ensures
            s@ == 0,
    {
        Score::new()
    }
}

} // verus!
