//! The graphical front-end's command line: an optional seed and the game's
//! configuration.
use vstd::prelude::*;

use crate::model::seed::{decode, decode_spec, parse_u64, parse_u64_spec};
use crate::model::state::{DrawMode, GameConfig};
use crate::model::text::same_text;

verus! {

/// What the command line has set so far: seed, cards per draw, timed play and
/// redeal limit.
pub struct ArgsRead {
    pub seed: Option<u64>,
    pub draw: u8,
    pub timed: bool,
    pub redeal: Option<u32>,
}

/// A draw count as `u8`'s `FromStr` reads it, 3 when it does not read.
pub open spec fn draw_value(s: Seq<char>) -> u8 {
    match parse_u64_spec(s) {
        Some(v) => if v <= 255 {
            v as u8
        } else {
            3
        },
        None => 3,
    }
}

/// A redeal limit as `u32`'s `FromStr` reads it, if it does.
pub open spec fn redeal_value(s: Seq<char>) -> Option<u32> {
    match parse_u64_spec(s) {
        Some(v) => if v <= u32::MAX {
            Some(v as u32)
        } else {
            None
        },
        None => None,
    }
}

/// The argument after position `i`, read by `f`, or `none` when there is none.
pub open spec fn value_after<T>(args: Seq<Seq<char>>, i: int, f: spec_fn(Seq<char>) -> T, none: T) -> T {
    if i + 1 < args.len() {
        f(args[i + 1])
    } else {
        none
    }
}

/// The arguments from position `i` on, read into `acc`: `--seed` takes the
/// next argument as a seed (proquint or number), `--draw` as the cards per
/// draw, `--redeal` as the redeal limit, `--timed` turns timed play on, and
/// anything else is passed over.
pub open spec fn read_args(args: Seq<Seq<char>>, i: int, acc: ArgsRead) -> ArgsRead
    decreases args.len() + 2 - i,
{
    if i < 0 || i >= args.len() {
        acc
    } else if args[i] == "--seed"@ {
        read_args(
            args,
            i + 2,
            ArgsRead { seed: value_after(args, i, |s: Seq<char>| decode_spec(s), None), ..acc },
        )
    } else if args[i] == "--draw"@ {
        read_args(
            args,
            i + 2,
            ArgsRead { draw: value_after(args, i, |s: Seq<char>| draw_value(s), 3u8), ..acc },
        )
    } else if args[i] == "--timed"@ {
        read_args(args, i + 1, ArgsRead { timed: true, ..acc })
    } else if args[i] == "--redeal"@ {
        read_args(
            args,
            i + 2,
            ArgsRead { redeal: value_after(args, i, |s: Seq<char>| redeal_value(s), None), ..acc },
        )
    } else {
        read_args(args, i + 1, acc)
    }
}

/// What a command line (the program's name first) asks for: the seed, and the
/// configuration, one card per draw when `--draw` reads as 1, else three.
pub open spec fn args_spec(args: Seq<Seq<char>>) -> (Option<u64>, GameConfig) {
    let a = read_args(args, 1, ArgsRead { seed: None, draw: 3, timed: false, redeal: None });
    (
        a.seed,
        GameConfig {
            draw_mode: if a.draw == 1 {
                DrawMode::One
            } else {
                DrawMode::Three
            },
            redeal_limit: a.redeal,
            timed: a.timed,
        },
    )
}

/// The strings of a list of arguments.
pub open spec fn texts(args: Seq<String>) -> Seq<Seq<char>> {
    args.map_values(|s: String| s@)
}

/// Read `s` as a draw count.
fn read_draw(s: &str) -> (r: u8)
    ensures
        r == draw_value(s@),
{
    match parse_u64(s) {
        Some(v) => if v <= 255 {
            v as u8
        } else {
            3
        },
        None => 3,
    }
}

/// Read `s` as a redeal limit.
fn read_redeal(s: &str) -> (r: Option<u32>)
    ensures
        r == redeal_value(s@),
{
    match parse_u64(s) {
        Some(v) => if v <= u32::MAX as u64 {
            Some(v as u32)
        } else {
            None
        },
        None => None,
    }
}

/// Read the seed and game configuration from the command line (the program's
/// name first, as the process receives it). A `--seed` whose value does not
/// decode leaves no seed; a `--draw` that does not read draws three; unknown
/// arguments are passed over.
pub fn parse_args(args: &Vec<String>) -> (r: (Option<u64>, GameConfig))
    ensures
        r == args_spec(texts(args@)),
{
    let ghost t = texts(args@);
    let mut acc = ArgsRead { seed: None, draw: 3, timed: false, redeal: None };
    let mut i: usize = 1;
    proof {
        reveal_strlit("--seed");
        reveal_strlit("--draw");
        reveal_strlit("--timed");
        reveal_strlit("--redeal");
    }
    while i < args.len()
        invariant
            t == texts(args@),
            t.len() == args@.len(),
            1 <= i,
            read_args(t, i as int, acc) == read_args(
                t,
                1,
                ArgsRead { seed: None, draw: 3, timed: false, redeal: None },
            ),
        decreases args.len() - i,
    {
        let a = args[i].as_str();
        assert(a@ == t[i as int]);
        let ghost i0 = i as int;
        let ghost acc0 = acc;
        if same_text(a, "--seed") {
            let v = if i + 1 < args.len() {
                assert(args[i + 1]@ == t[i + 1]);
                decode(args[i + 1].as_str())
            } else {
                None
            };
            assert(v == value_after(t, i0, |s: Seq<char>| decode_spec(s), None));
            acc = ArgsRead { seed: v, ..acc };
            assert(read_args(t, i0, acc0) == read_args(t, i0 + 2, acc));
            i = if args.len() - i > 2 { i + 2 } else { args.len() };
        } else if same_text(a, "--draw") {
            let v = if i + 1 < args.len() {
                assert(args[i + 1]@ == t[i + 1]);
                read_draw(args[i + 1].as_str())
            } else {
                3
            };
            assert(v == value_after(t, i0, |s: Seq<char>| draw_value(s), 3u8));
            acc = ArgsRead { draw: v, ..acc };
            assert(read_args(t, i0, acc0) == read_args(t, i0 + 2, acc));
            i = if args.len() - i > 2 { i + 2 } else { args.len() };
        } else if same_text(a, "--timed") {
            acc = ArgsRead { timed: true, ..acc };
            i = i + 1;
        } else if same_text(a, "--redeal") {
            let v = if i + 1 < args.len() {
                assert(args[i + 1]@ == t[i + 1]);
                read_redeal(args[i + 1].as_str())
            } else {
                None
            };
            assert(v == value_after(t, i0, |s: Seq<char>| redeal_value(s), None));
            acc = ArgsRead { redeal: v, ..acc };
            assert(read_args(t, i0, acc0) == read_args(t, i0 + 2, acc));
            i = if args.len() - i > 2 { i + 2 } else { args.len() };
        } else {
            i = i + 1;
        }
    }
    let draw_mode = if acc.draw == 1 {
        DrawMode::One
    } else {
        DrawMode::Three
    };
    (acc.seed, GameConfig { draw_mode, redeal_limit: acc.redeal, timed: acc.timed })
}

} // verus!
