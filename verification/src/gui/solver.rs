//! Background solvability assist for the graphical front-end.
//!
//! Drives the solver without blocking the frame: it pumps short node-bounded
//! searches that share one persistent transposition table, so repeated slices
//! converge while the game stays responsive. It tracks the current position's
//! status, remembers decided positions (so undo/redo resolve instantly), and
//! owns the non-nagging unwinnable-dialog policy: the dialog opens once per
//! unwinnable streak, and choosing Continue keeps it shut until solvability
//! returns.
use vstd::prelude::*;

use crate::model::faces::waste_face_up;
use crate::model::state::{GameModel, GameState};
use crate::solver::clock::Clock;
use crate::solver::encode::{encode, encode_spec, PositionKey};
use crate::solver::search::{outcome_holds, solve_reusing};
use crate::solver::table::{ClosedTable, KeySet};
use crate::solver::{default_options, SolveBudget, SolveOptions, SolveResult, Verdict};

verus! {

/// The current position's solvability, as shown by the indicator.
#[derive(Clone, Copy, PartialEq, Eq, Debug, Structural)]
pub enum Status {
    /// Not yet checked / status unknown.
    Unknown,
    /// A background check is running.
    Checking,
    /// A winning line exists.
    Solvable,
    /// The search found no win.
    Unwinnable,
    /// A check ended without a decisive answer.
    Inconclusive,
}

/// The status a verdict shows.
pub open spec fn status_of(v: Verdict) -> Status {
    match v {
        Verdict::Solvable => Status::Solvable,
        Verdict::Unwinnable => Status::Unwinnable,
        Verdict::Inconclusive => Status::Inconclusive,
    }
}

/// The indicator: what it shows, whether the unwinnable dialog is open, and
/// whether the player chose Continue during the current unwinnable streak.
#[derive(Clone, Copy, PartialEq, Eq, Debug, Structural)]
pub struct Indicator {
    pub status: Status,
    pub dialog_open: bool,
    pub dismissed_streak: bool,
}

/// The indicator after a check settles on `v`: solvability re-arms the dialog,
/// and an unwinnable verdict opens it unless this streak was dismissed.
pub open spec fn settled(i: Indicator, v: Verdict) -> Indicator {
    let status = status_of(v);
    Indicator {
        status,
        dismissed_streak: if status == Status::Solvable {
            false
        } else {
            i.dismissed_streak
        },
        dialog_open: if status == Status::Unwinnable && !i.dismissed_streak {
            true
        } else {
            i.dialog_open
        },
    }
}

impl Indicator {
    /// A fresh deal: nothing known, no dialog.
    pub fn new() -> (i: Indicator)
        ensures
            i == (Indicator { status: Status::Unknown, dialog_open: false, dismissed_streak: false }),
    {
        Indicator { status: Status::Unknown, dialog_open: false, dismissed_streak: false }
    }

    /// Show the status that verdict `v` settles, applying the dialog policy.
    pub fn settle(&mut self, v: Verdict)
        ensures
            *final(self) == settled(*old(self), v),
            old(self).dismissed_streak && v != Verdict::Solvable ==> final(self).dialog_open
                == old(self).dialog_open,
    {
        self.status = match v {
            Verdict::Solvable => Status::Solvable,
            Verdict::Unwinnable => Status::Unwinnable,
            Verdict::Inconclusive => Status::Inconclusive,
        };
        match self.status {
            // Solvability returned: re-arm the dialog for a future unwinnable
            // streak (e.g. after an undo back to a winnable position).
            Status::Solvable => self.dismissed_streak = false,
            // Only warn once per unwinnable streak; Continue set the flag.
            Status::Unwinnable => {
                if !self.dismissed_streak {
                    self.dialog_open = true;
                }
            },
            _ => {},
        }
    }

    /// The player chose Continue on the unwinnable dialog.
    pub fn dismiss_dialog(&mut self)
        ensures
            *final(self) == (Indicator { dialog_open: false, dismissed_streak: true, ..*old(self) }),
    {
        self.dialog_open = false;
        self.dismissed_streak = true;
    }

    /// A position not yet checked: its status is unknown. The dismissed streak
    /// is kept, since forward play from an unwinnable position passes through
    /// unknown positions.
    pub fn forget(&mut self)
        ensures
            *final(self) == (Indicator { status: Status::Unknown, ..*old(self) }),
    {
        self.status = Status::Unknown;
    }

    /// A check of the position has started.
    pub fn checking(&mut self)
        ensures
            *final(self) == (Indicator { status: Status::Checking, ..*old(self) }),
    {
        self.status = Status::Checking;
    }

    /// Whether a check should be scheduled for the shown position: only an
    /// uncertain one is (re-)checked.
    pub fn uncertain(&self) -> (b: bool)
        ensures
            b == (self.status == Status::Unknown || self.status == Status::Inconclusive),
    {
        match self.status {
            Status::Unknown | Status::Inconclusive => true,
            _ => false,
        }
    }
}

/// Solver work allowed for a single background check, in milliseconds.
pub const CHECK_BUDGET_MS: u64 = 1000;

/// Idle time before a check is scheduled for the current position, in
/// milliseconds.
pub const IDLE_MS: u64 = 3000;

/// Nodes expanded per per-frame slice. Small enough to keep the frame smooth;
/// the table makes repeated slices cumulative.
pub const SLICE_NODES: u64 = 6000;

/// Transposition-table entry cap (exact-byte keys). Eviction is sound.
pub const TABLE_CAP: usize = 1048576;

/// A check in flight: the position's key and the solver time spent on it.
struct ActiveCheck {
    key: PositionKey,
    spent: u64,
}

/// The assist as values: the positions decided either way, the indicator,
/// the check in flight and when the player was last active (milliseconds on
/// the assist's clock).
#[verifier::ext_equal]
pub struct AssistModel {
    pub solvable: Set<Seq<u8>>,
    pub unwinnable: Set<Seq<u8>>,
    pub indicator: Indicator,
    pub check: Option<(Seq<u8>, u64)>,
    pub last_activity: u64,
}

/// What is known of the position keyed `key`.
pub open spec fn decided(a: AssistModel, key: Seq<u8>) -> Option<Verdict> {
    if a.solvable.contains(key) {
        Some(Verdict::Solvable)
    } else if a.unwinnable.contains(key) {
        Some(Verdict::Unwinnable)
    } else {
        None
    }
}

/// Remember that the position keyed `key` is decided `v` (a decisive
/// verdict), when the set has room for it.
pub open spec fn recorded(a: AssistModel, key: Seq<u8>, v: Verdict) -> AssistModel {
    if v == Verdict::Solvable {
        if a.solvable.len() < usize::MAX {
            AssistModel { solvable: a.solvable.insert(key), unwinnable: a.unwinnable.remove(key), ..a }
        } else {
            a
        }
    } else if a.unwinnable.len() < usize::MAX {
        AssistModel { unwinnable: a.unwinnable.insert(key), solvable: a.solvable.remove(key), ..a }
    } else {
        a
    }
}

/// Start (or instantly resolve) a check of the position keyed `key`.
pub open spec fn begun(a: AssistModel, key: Seq<u8>) -> AssistModel {
    match decided(a, key) {
        Some(v) => AssistModel { indicator: settled(a.indicator, v), ..a },
        None => AssistModel {
            check: Some((key, 0)),
            indicator: Indicator { status: Status::Checking, ..a.indicator },
            ..a
        },
    }
}

/// A move changed the position to the one keyed `key` at `now`: the check in
/// flight is abandoned and the status re-resolved from what is known.
pub open spec fn changed(a: AssistModel, key: Seq<u8>, now: u64) -> AssistModel {
    let b = AssistModel { last_activity: now, check: None, ..a };
    match decided(b, key) {
        Some(v) => AssistModel { indicator: settled(b.indicator, v), ..b },
        None => AssistModel { indicator: Indicator { status: Status::Unknown, ..b.indicator }, ..b },
    }
}

/// One frame of the assist on the position keyed `key`: a check of another
/// position is abandoned; a check in flight is pumped one slice, which took
/// `slice` milliseconds and ended with `verdict`, the clock then reading
/// `now`; with no check, an uncertain position idle for long enough gets one.
pub open spec fn pumped(a: AssistModel, key: Seq<u8>, verdict: Verdict, slice: u64, now: u64) -> AssistModel {
    let a1 = match a.check {
        Some((k, _)) => if k != key {
            AssistModel { check: None, ..a }
        } else {
            a
        },
        None => a,
    };
    match a1.check {
        Some((k, spent0)) => {
            let spent = if spent0 + slice > u64::MAX {
                u64::MAX
            } else {
                (spent0 + slice) as u64
            };
            let idle = AssistModel { check: None, ..a1 };
            match verdict {
                Verdict::Inconclusive => if spent >= CHECK_BUDGET_MS {
                    AssistModel {
                        indicator: Indicator { status: Status::Inconclusive, ..a1.indicator },
                        last_activity: now,
                        ..idle
                    }
                } else {
                    AssistModel { check: Some((k, spent)), ..a1 }
                },
                _ => {
                    let r = recorded(idle, k, verdict);
                    AssistModel { last_activity: now, indicator: settled(r.indicator, verdict), ..r }
                },
            }
        },
        None => if (a1.indicator.status == Status::Unknown || a1.indicator.status == Status::Inconclusive)
            && now > a1.last_activity && now - a1.last_activity > IDLE_MS {
            begun(a1, key)
        } else {
            a1
        },
    }
}

/// The budget of one slice of a check: `SLICE_NODES` nodes, no time limit.
pub open spec fn slice_budget() -> SolveBudget {
    SolveBudget { max_nodes: Some(SLICE_NODES), max_time: None }
}

/// Whether the assist pumps a check of the position keyed `key` this frame.
pub open spec fn pumps(a: AssistModel, key: Seq<u8>) -> bool {
    a.check matches Some((k, _)) && k == key
}

/// What a slice's verdict is: that of a search of the position under
/// [`slice_budget`], with all that [`outcome_holds`] says of it (a solvable
/// verdict comes with a winning line; an unwinnable one only from a search
/// that was not cut off).
pub open spec fn verdict_sound(m: GameModel, verdict: Verdict) -> bool {
    exists|r: SolveResult| #[trigger] outcome_holds(m, slice_budget(), r) && r.verdict == verdict
}

/// The background solvability assist.
pub struct Assist {
    /// The positions searched out without a win, reused across checks and moves.
    table: ClosedTable<PositionKey>,
    /// Positions decided solvable, so revisits and undo resolve at once.
    solvable: KeySet<PositionKey>,
    /// Positions decided unwinnable.
    unwinnable: KeySet<PositionKey>,
    options: SolveOptions,
    indicator: Indicator,
    check: Option<ActiveCheck>,
    last_activity: u64,
    clock: Clock,
}

impl View for Assist {
    type V = AssistModel;

    closed spec fn view(&self) -> AssistModel {
        AssistModel {
            solvable: self.solvable@,
            unwinnable: self.unwinnable@,
            indicator: self.indicator,
            check: match self.check {
                Some(c) => Some((c.key@, c.spent)),
                None => None,
            },
            last_activity: self.last_activity,
        }
    }
}

impl Assist {
    /// The table and both sets are well formed.
    pub closed spec fn wf(&self) -> bool {
        &&& self.table.wf()
        &&& self.solvable.wf()
        &&& self.unwinnable.wf()
        &&& self.options == default_options()
    }

    /// What is known of the position keyed `key`.
    fn decided(&self, key: &PositionKey) -> (r: Option<Verdict>)
        requires
            self.wf(),
        ensures
            r == decided(self@, key@),
    {
        if self.solvable.contains(key) {
            Some(Verdict::Solvable)
        } else if self.unwinnable.contains(key) {
            Some(Verdict::Unwinnable)
        } else {
            None
        }
    }

    /// Remember a decisive verdict for the position keyed `key`.
    fn record(&mut self, key: PositionKey, v: Verdict)
        requires
            old(self).wf(),
            v != Verdict::Inconclusive,
        ensures
            final(self).wf(),
            final(self)@ == recorded(old(self)@, key@, v),
            final(self).clock == old(self).clock,
    {
        let ghost k = key@;
        match v {
            Verdict::Solvable => {
                if self.solvable.len() < usize::MAX {
                    self.unwinnable.remove(&key);
                    self.solvable.insert(key);
                }
            },
            _ => {
                if self.unwinnable.len() < usize::MAX {
                    self.solvable.remove(&key);
                    self.unwinnable.insert(key);
                }
            },
        }
        assert(self@ =~= recorded(old(self)@, k, v));
    }

    /// Start (or instantly resolve) a check of `state`.
    fn begin_check(&mut self, state: &GameState)
        requires
            old(self).wf(),
        ensures
            final(self).wf(),
            final(self)@ == begun(old(self)@, encode_spec(state@)),
            final(self).clock == old(self).clock,
    {
        let key = encode(state);
        match self.decided(&key) {
            Some(v) => {
                // Known: no new search.
                self.indicator.settle(v);
            },
            None => {
                self.check = Some(ActiveCheck { key, spent: 0 });
                self.indicator.checking();
            },
        }
        assert(self@ =~= begun(old(self)@, encode_spec(state@)));
    }

    /// Create the assist for a fresh deal and start the opening check.
    pub fn new(state: &GameState) -> (a: Assist)
        ensures
            a.wf(),
            a@ == begun(
                AssistModel {
                    solvable: Set::empty(),
                    unwinnable: Set::empty(),
                    indicator: Indicator { status: Status::Unknown, dialog_open: false, dismissed_streak: false },
                    check: None,
                    last_activity: a@.last_activity,
                },
                encode_spec(state@),
            ),
    {
        let clock = Clock::start();
        let now = clock.elapsed_millis();
        let mut a = Assist {
            table: ClosedTable::with_capacity(TABLE_CAP),
            solvable: KeySet::new(),
            unwinnable: KeySet::new(),
            options: SolveOptions::default(),
            indicator: Indicator::new(),
            check: None,
            last_activity: now,
            clock,
        };
        a.begin_check(state);
        a
    }

    /// The current position's status.
    pub fn status(&self) -> (s: Status)
        ensures
            s == self@.indicator.status,
    {
        self.indicator.status
    }

    /// Whether the unwinnable dialog is open.
    pub fn dialog_open(&self) -> (b: bool)
        ensures
            b == self@.indicator.dialog_open,
    {
        self.indicator.dialog_open
    }

    /// Reset for a new deal: drop knowledge and start a fresh opening check.
    pub fn reset(&mut self, state: &GameState)
        requires
            old(self).wf(),
        ensures
            final(self).wf(),
            final(self)@ == begun(
                AssistModel {
                    solvable: Set::empty(),
                    unwinnable: Set::empty(),
                    indicator: Indicator { dialog_open: false, dismissed_streak: false, ..old(self)@.indicator },
                    check: None,
                    last_activity: final(self)@.last_activity,
                },
                encode_spec(state@),
            ),
    {
        self.table = ClosedTable::with_capacity(TABLE_CAP);
        self.solvable.clear();
        self.unwinnable.clear();
        self.indicator.dismissed_streak = false;
        self.indicator.dialog_open = false;
        self.check = None;
        self.last_activity = self.clock.elapsed_millis();
        self.begin_check(state);
    }

    /// A move, undo or redo changed the position: record activity, abandon
    /// any check in flight, and re-resolve the status for the new position.
    /// A not-yet-checked position is unknown; the dismissed streak is not
    /// touched here, since forward play from an unwinnable position passes
    /// through unknown positions.
    pub fn on_state_change(&mut self, state: &GameState)
        requires
            old(self).wf(),
        ensures
            final(self).wf(),
            final(self)@ == changed(old(self)@, encode_spec(state@), final(self)@.last_activity),
    {
        self.last_activity = self.clock.elapsed_millis();
        self.check = None;
        let key = encode(state);
        match self.decided(&key) {
            Some(v) => self.indicator.settle(v),
            None => self.indicator.forget(),
        }
        assert(self@ =~= changed(old(self)@, encode_spec(state@), self@.last_activity));
    }

    /// Note non-move interaction (e.g. pointer activity) to reset the idle
    /// timer.
    pub fn note_activity(&mut self)
        requires
            old(self).wf(),
        ensures
            final(self).wf(),
            final(self)@ == (AssistModel { last_activity: final(self)@.last_activity, ..old(self)@ }),
    {
        self.last_activity = self.clock.elapsed_millis();
        assert(self@ =~= AssistModel { last_activity: self@.last_activity, ..old(self)@ });
    }

    /// The player chose Continue on the unwinnable dialog.
    pub fn dismiss_dialog(&mut self)
        requires
            old(self).wf(),
        ensures
            final(self).wf(),
            final(self)@ == (AssistModel {
                indicator: Indicator { dialog_open: false, dismissed_streak: true, ..old(self)@.indicator },
                ..old(self)@
            }),
    {
        self.indicator.dismiss_dialog();
        assert(self@ =~= AssistModel {
            indicator: Indicator { dialog_open: false, dismissed_streak: true, ..old(self)@.indicator },
            ..old(self)@
        });
    }

    /// Per frame: pump the check in flight one slice, or schedule one when
    /// idle. The slice's verdict is the solver's on `state`, with its
    /// guarantees.
    pub fn update(&mut self, state: &GameState)
        requires
            old(self).wf(),
        ensures
            final(self).wf(),
            exists|verdict: Verdict, slice: u64, now: u64|
                #![trigger pumped(old(self)@, encode_spec(state@), verdict, slice, now)]
                final(self)@ == pumped(old(self)@, encode_spec(state@), verdict, slice, now) && (pumps(
                    old(self)@,
                    encode_spec(state@),
                ) ==> verdict_sound(state@, verdict)),
    {
        let ghost a = self@;
        let ghost key = encode_spec(state@);
        let current = encode(state);
        // Abandon a check whose position no longer matches the board.
        let stale = match &self.check {
            Some(c) => !c.key.same(&current),
            None => false,
        };
        if stale {
            self.check = None;
        }
        let ghost a1 = self@;
        assert(a1 =~= match a.check {
            Some((k, _)) => if k != key {
                AssistModel { check: None, ..a }
            } else {
                a
            },
            None => a,
        });
        let mut taken: Option<ActiveCheck> = None;
        core::mem::swap(&mut taken, &mut self.check);
        match taken {
            Some(mut check) => {
                let t0 = self.clock.elapsed_millis();
                let r = solve_reusing(state, Some(SLICE_NODES), self.options, &mut self.table);
                let t1 = self.clock.elapsed_millis();
                let slice: u64 = if t1 >= t0 {
                    t1 - t0
                } else {
                    0
                };
                check.spent = check.spent.saturating_add(slice);
                match r.verdict {
                    Verdict::Inconclusive => {
                        if check.spent >= CHECK_BUDGET_MS {
                            self.indicator.status = Status::Inconclusive;
                            self.last_activity = t1;
                            assert(self@ =~= pumped(a, key, r.verdict, slice, t1));
                        } else {
                            self.check = Some(check);
                            assert(self@ =~= pumped(a, key, r.verdict, slice, t1));
                        }
                    },
                    v => {
                        let ghost k = check.key@;
                        self.record(check.key, v);
                        self.last_activity = t1;
                        self.indicator.settle(v);
                        assert(self@ =~= pumped(a, key, r.verdict, slice, t1));
                    },
                }
                assert(self@ == pumped(a, key, r.verdict, slice, t1));
                assert(outcome_holds(state@, slice_budget(), r));
                assert(verdict_sound(state@, r.verdict));
            },
            None => {
                // Idle: (re-)check an uncertain position. Known-decided
                // positions are not re-searched (they resolved on the state
                // change).
                let now = self.clock.elapsed_millis();
                if self.indicator.uncertain() && now > self.last_activity && now - self.last_activity
                    > IDLE_MS {
                    self.begin_check(state);
                }
                assert(self@ == pumped(a, key, Verdict::Inconclusive, 0, now));
            },
        }
    }
}

} // verus!
