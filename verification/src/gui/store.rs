//! The records the graphical front-end keeps between runs, and their text
//! form. Reading and writing the storage is the front-end's own business; here
//! a record is turned into its field text and read back from it.
use vstd::prelude::*;
use vstd::string::StringExecFns;

use crate::model::seed::{
    all_digits, decimal_value, digit_value, is_white_space, leading_white_space,
    lemma_decimal_prefix_grows, parse_u64, parse_u64_spec, trailing_white_space, trim_spec,
    trim_white_space,
};
use crate::model::text::{
    decimal_text, digit_char, push_char, push_decimal, push_signed, signed_text,
};

verus! {

/// The single best result: highest final score, that game's time, and when it
/// was set (unix seconds).
#[derive(Clone, Copy, Debug, PartialEq, Eq, Structural)]
pub struct HighScore {
    pub score: i64,
    pub time_secs: u64,
    pub achieved_at: i64,
}

/// Lifetime play counters.
#[derive(Clone, Copy, Debug, PartialEq, Eq, Structural)]
pub struct Counters {
    pub wins: u64,
    pub new_games: u64,
}

impl Default for Counters {
    /// No games yet: both counters zero.
    fn default() -> (c: Counters)
        ensures
            c == (Counters { wins: 0, new_games: 0 }),
    {
        Counters { wins: 0, new_games: 0 }
    }
}

/// The `|`-separated fields of `s`, in order (one empty field for an empty
/// string), as `str::split('|')` yields them.
pub open spec fn bar_fields(s: Seq<char>) -> Seq<Seq<char>>
    decreases s.len(),
{
    if s.len() == 0 {
        seq![Seq::<char>::empty()]
    } else {
        let f = bar_fields(s.drop_last());
        if s.last() == '|' {
            f.push(Seq::<char>::empty())
        } else {
            f.update(f.len() - 1, f.last().push(s.last()))
        }
    }
}

/// How `i64`'s `FromStr` reads a string: an optional sign, then one or more
/// ASCII digits whose signed value fits in 64 bits; anything else is rejected.
pub open spec fn parse_i64_spec(s: Seq<char>) -> Option<i64> {
    let negative = s.len() > 0 && s[0] == '-';
    let digits = if s.len() > 0 && (s[0] == '+' || s[0] == '-') {
        s.drop_first()
    } else {
        s
    };
    if digits.len() > 0 && all_digits(digits) {
        if negative && decimal_value(digits) <= 0x8000_0000_0000_0000 {
            Some((-decimal_value(digits)) as i64)
        } else if !negative && decimal_value(digits) <= i64::MAX {
            Some(decimal_value(digits) as i64)
        } else {
            None
        }
    } else {
        None
    }
}

/// A high score read from its field text: three fields (score, time, date),
/// each trimmed, that parse; extra fields are ignored.
pub open spec fn high_score_of(s: Seq<char>) -> Option<HighScore> {
    let f = bar_fields(s);
    if f.len() < 3 {
        None
    } else {
        match (
            parse_i64_spec(trim_spec(f[0])),
            parse_u64_spec(trim_spec(f[1])),
            parse_i64_spec(trim_spec(f[2])),
        ) {
            (Some(score), Some(time_secs), Some(achieved_at)) => Some(
                HighScore { score, time_secs, achieved_at },
            ),
            _ => None,
        }
    }
}

/// Field `i` of `f` as a counter: its trimmed value, or 0 when it is missing or
/// does not parse.
pub open spec fn counter_field(f: Seq<Seq<char>>, i: int) -> u64 {
    if i < f.len() {
        match parse_u64_spec(trim_spec(f[i])) {
            Some(v) => v,
            None => 0,
        }
    } else {
        0
    }
}

/// The field text of a high score: `score|time|date`.
pub open spec fn high_score_text(h: HighScore) -> Seq<char> {
    signed_text(h.score as int) + seq!['|'] + decimal_text(h.time_secs as nat) + seq!['|']
        + signed_text(h.achieved_at as int)
}

/// The field text of the counters: `wins|new_games`.
pub open spec fn counters_text(c: Counters) -> Seq<char> {
    decimal_text(c.wins as nat) + seq!['|'] + decimal_text(c.new_games as nat)
}

/// The storage key of the high-score record.
pub open spec fn high_score_key() -> Seq<char> {
    "highscore.v1"@
}

/// The storage key of the play counters.
pub open spec fn counters_key() -> Seq<char> {
    "stats.v1"@
}

/// The high score from what the storage holds under [`high_score_key`]:
/// `None` when nothing is stored there or the text does not read as a record.
pub fn load_high_score(stored: Option<&str>) -> (r: Option<HighScore>)
    ensures
        r == match stored {
            Some(s) => high_score_of(s@),
            None => None,
        },
{
    match stored {
        Some(s) => HighScore::parse(s),
        None => None,
    }
}

/// The key and the text under which a high score is stored.
pub fn save_high_score(h: &HighScore) -> (r: (String, String))
    ensures
        r.0@ == high_score_key(),
        r.1@ == high_score_text(*h),
{
    (String::from_str("highscore.v1"), h.to_field())
}

/// The play counters from what the storage holds under [`counters_key`]:
/// zero counters when nothing is stored there, else the tolerant reading of
/// the text.
pub fn load_counters(stored: Option<&str>) -> (c: Counters)
    ensures
        c == match stored {
            Some(s) => Counters {
                wins: counter_field(bar_fields(s@), 0),
                new_games: counter_field(bar_fields(s@), 1),
            },
            None => Counters { wins: 0, new_games: 0 },
        },
{
    match stored {
        Some(s) => Counters::parse(s),
        None => Counters::default(),
    }
}

/// The key and the text under which the play counters are stored.
pub fn save_counters(c: &Counters) -> (r: (String, String))
    ensures
        r.0@ == counters_key(),
        r.1@ == counters_text(*c),
{
    (String::from_str("stats.v1"), c.to_field())
}

/// Split `s` at every `|`.
fn split_bars(s: &str) -> (r: Vec<String>)
    ensures
        r@.len() == bar_fields(s@).len(),
        forall|i: int| 0 <= i < r@.len() ==> (#[trigger] r@[i])@ == bar_fields(s@)[i],
{
    let n = s.unicode_len();
    let mut fields: Vec<String> = Vec::new();
    let mut current = String::new();
    let mut i: usize = 0;
    while i < n
        invariant
            n == s@.len(),
            i <= n,
            fields@.len() + 1 == bar_fields(s@.take(i as int)).len(),
            forall|k: int| 0 <= k < fields@.len() ==> (#[trigger] fields@[k])@ == bar_fields(s@.take(i as int))[k],
            current@ == bar_fields(s@.take(i as int)).last(),
        decreases n - i,
    {
        let c = s.get_char(i);
        proof {
            assert(s@.take(i + 1).drop_last() =~= s@.take(i as int));
            assert(s@.take(i + 1).last() == c);
        }
        if c == '|' {
            fields.push(current);
            current = String::new();
        } else {
            push_char(&mut current, c);
        }
        i = i + 1;
    }
    proof {
        assert(s@.take(n as int) =~= s@);
    }
    fields.push(current);
    fields
}

/// Parse a string the way `i64`'s `FromStr` does.
pub fn parse_i64(s: &str) -> (r: Option<i64>)
    ensures
        r == parse_i64_spec(s@),
{
    let n = s.unicode_len();
    if n == 0 {
        return None;
    }
    let first = s.get_char(0);
    let negative = first == '-';
    let start: usize = if first == '+' || first == '-' {
        1
    } else {
        0
    };
    let ghost digits = if s@.len() > 0 && (s@[0] == '+' || s@[0] == '-') {
        s@.drop_first()
    } else {
        s@
    };
    assert(digits =~= s@.skip(start as int));
    if start == n {
        return None;
    }
    let limit: u64 = if negative {
        0x8000_0000_0000_0000
    } else {
        0x7fff_ffff_ffff_ffff
    };
    let mut value: u64 = 0;
    let mut i: usize = start;
    while i < n
        invariant
            n == s@.len(),
            start <= i <= n,
            start < n,
            digits == s@.skip(start as int),
            digits == (if s@.len() > 0 && (s@[0] == '+' || s@[0] == '-') {
                s@.drop_first()
            } else {
                s@
            }),
            all_digits(digits.take(i - start)),
            value == decimal_value(digits.take(i - start)),
            value <= limit,
            negative == (s@.len() > 0 && s@[0] == '-'),
            limit == (if negative {
                0x8000_0000_0000_0000u64
            } else {
                0x7fff_ffff_ffff_ffffu64
            }),
        decreases n - i,
    {
        let c = s.get_char(i);
        assert(digits.take(i - start + 1).drop_last() =~= digits.take(i - start));
        assert(digits[i - start] == c);
        if !('0' <= c && c <= '9') {
            assert(!all_digits(digits));
            return None;
        }
        let d = (c as u32 - '0' as u32) as u64;
        assert(all_digits(digits.take(i - start + 1)));
        if value > (limit - d) / 10 {
            proof {
                assert(decimal_value(digits.take(i - start + 1)) > limit) by (nonlinear_arith)
                    requires
                        decimal_value(digits.take(i - start + 1)) == value * 10 + d,
                        value > (limit - d) / 10,
                        d <= 9,
                        limit >= 9,
                ;
                if all_digits(digits) {
                    lemma_decimal_prefix_grows(digits, i - start + 1);
                }
            }
            return None;
        }
        value = value * 10 + d;
        i = i + 1;
    }
    assert(digits.take(i - start) =~= digits);
    if negative {
        if value == 0x8000_0000_0000_0000 {
            Some(i64::MIN)
        } else {
            Some(-(value as i64))
        }
    } else {
        Some(value as i64)
    }
}

impl HighScore {
    /// The record's field text: `score|time|date`.
    pub fn to_field(self) -> (s: String)
        ensures
            s@ == high_score_text(self),
    {
        let mut out = String::new();
        push_signed(&mut out, self.score);
        push_char(&mut out, '|');
        push_decimal(&mut out, self.time_secs);
        push_char(&mut out, '|');
        push_signed(&mut out, self.achieved_at);
        assert(out@ =~= high_score_text(self));
        out
    }

    /// Read a record from its field text; `None` when a field is missing or
    /// does not parse.
    pub fn parse(s: &str) -> (r: Option<HighScore>)
        ensures
            r == high_score_of(s@),
    {
        let fields = split_bars(s);
        if fields.len() < 3 {
            return None;
        }
        let score = match parse_i64(trim_white_space(fields[0].as_str())) {
            Some(v) => v,
            None => {
                return None;
            },
        };
        let time_secs = match parse_u64(trim_white_space(fields[1].as_str())) {
            Some(v) => v,
            None => {
                return None;
            },
        };
        let achieved_at = match parse_i64(trim_white_space(fields[2].as_str())) {
            Some(v) => v,
            None => {
                return None;
            },
        };
        Some(HighScore { score, time_secs, achieved_at })
    }
}

impl Counters {
    /// The counters' field text: `wins|new_games`.
    pub fn to_field(self) -> (s: String)
        ensures
            s@ == counters_text(self),
    {
        let mut out = String::new();
        push_decimal(&mut out, self.wins);
        push_char(&mut out, '|');
        push_decimal(&mut out, self.new_games);
        assert(out@ =~= counters_text(self));
        out
    }

    /// Tolerant parse: any missing/garbled field defaults to 0.
    pub fn parse(s: &str) -> (c: Counters)
        ensures
            c == (Counters {
                wins: counter_field(bar_fields(s@), 0),
                new_games: counter_field(bar_fields(s@), 1),
            }),
    {
        let fields = split_bars(s);
        let wins = if fields.len() > 0 {
            match parse_u64(trim_white_space(fields[0].as_str())) {
                Some(v) => v,
                None => 0,
            }
        } else {
            0
        };
        let new_games = if fields.len() > 1 {
            match parse_u64(trim_white_space(fields[1].as_str())) {
                Some(v) => v,
                None => 0,
            }
        } else {
            0
        };
        Counters { wins, new_games }
    }
}

/// The decimal text of `n` is a non-empty run of digits whose value is `n`.
proof fn lemma_decimal_text(n: nat)
    ensures
        decimal_text(n).len() > 0,
        all_digits(decimal_text(n)),
        decimal_value(decimal_text(n)) == n,
    decreases n,
{
    let d = digit_char(n % 10);
    assert(digit_value(d) == n % 10);
    if n >= 10 {
        lemma_decimal_text(n / 10);
        let t = decimal_text(n / 10);
        assert(decimal_text(n).drop_last() =~= t);
        assert(decimal_text(n).last() == d);
        assert(decimal_value(decimal_text(n)) == decimal_value(t) * 10 + digit_value(d));
        assert((n / 10) * 10 + n % 10 == n);
        assert forall|i: int| 0 <= i < decimal_text(n).len() implies '0' <= #[trigger] decimal_text(n)[i] <= '9' by {
            if i < t.len() {
                assert(decimal_text(n)[i] == t[i]);
            }
        }
    } else {
        assert(decimal_text(n).drop_last() =~= Seq::<char>::empty());
        assert(decimal_value(decimal_text(n)) == decimal_value(Seq::<char>::empty()) * 10 + digit_value(d));
    }
}

/// A field with no white space at either end is its own trim.
proof fn lemma_trim_plain(s: Seq<char>)
    requires
        s.len() > 0,
        !is_white_space(s[0]),
        !is_white_space(s.last()),
    ensures
        trim_spec(s) == s,
{
    assert(leading_white_space(s) == 0);
    assert(s.skip(0) =~= s);
    assert(trailing_white_space(s) == 0);
    assert(s.take(s.len() as int) =~= s);
}

/// The decimal text of `n` reads back as `n`, trimmed and parsed.
proof fn lemma_decimal_reads_back(n: u64)
    ensures
        parse_u64_spec(trim_spec(decimal_text(n as nat))) == Some(n),
        forall|i: int| 0 <= i < decimal_text(n as nat).len() ==> #[trigger] decimal_text(n as nat)[i] != '|',
{
    let t = decimal_text(n as nat);
    lemma_decimal_text(n as nat);
    assert('0' <= t[0] <= '9');
    assert('0' <= t[t.len() - 1] <= '9');
    lemma_trim_plain(t);
}

/// The signed decimal text of `x` reads back as `x`, trimmed and parsed.
proof fn lemma_signed_reads_back(x: i64)
    ensures
        parse_i64_spec(trim_spec(signed_text(x as int))) == Some(x),
        forall|i: int| 0 <= i < signed_text(x as int).len() ==> #[trigger] signed_text(x as int)[i] != '|',
{
    let t = signed_text(x as int);
    if x < 0 {
        let m = (-x) as nat;
        lemma_decimal_text(m);
        let d = decimal_text(m);
        assert(t.drop_first() =~= d);
        assert('0' <= d[d.len() - 1] <= '9');
        assert(t.last() == d.last());
        lemma_trim_plain(t);
        assert forall|i: int| 0 <= i < t.len() implies #[trigger] t[i] != '|' by {
            if i > 0 {
                assert(t[i] == d[i - 1]);
                assert('0' <= d[i - 1] <= '9');
            }
        }
    } else {
        lemma_decimal_reads_back(x as u64);
        let d = decimal_text(x as nat);
        lemma_decimal_text(x as nat);
        assert('0' <= d[0] <= '9');
    }
}

/// Appending text without a `|` extends the last field.
proof fn lemma_bar_fields_extend(s: Seq<char>, t: Seq<char>)
    requires
        forall|i: int| 0 <= i < t.len() ==> #[trigger] t[i] != '|',
    ensures
        bar_fields(s + t) == bar_fields(s).update(
            bar_fields(s).len() - 1,
            bar_fields(s).last() + t,
        ),
        bar_fields(s + t).len() == bar_fields(s).len(),
    decreases t.len(),
{
    lemma_bar_fields_nonempty(s);
    if t.len() == 0 {
        assert(s + t =~= s);
        assert(bar_fields(s).last() + t =~= bar_fields(s).last());
        assert(bar_fields(s).update(bar_fields(s).len() - 1, bar_fields(s).last()) =~= bar_fields(s));
    } else {
        let t0 = t.drop_last();
        lemma_bar_fields_extend(s, t0);
        assert((s + t).drop_last() =~= s + t0);
        assert((s + t).last() == t.last());
        let f = bar_fields(s);
        let g = bar_fields(s + t0);
        assert(g == f.update(f.len() - 1, f.last() + t0));
        assert(g.len() == f.len());
        assert(g.last() == f.last() + t0);
        assert(t.last() != '|');
        assert(bar_fields(s + t) == g.update(g.len() - 1, g.last().push(t.last())));
        assert(f.last() + t0 + seq![t.last()] =~= f.last() + t);
        assert(g.last().push(t.last()) =~= f.last() + t);
        assert(bar_fields(s + t) =~= f.update(f.len() - 1, f.last() + t));
    }
}

/// Every text has at least one field.
proof fn lemma_bar_fields_nonempty(s: Seq<char>)
    ensures
        bar_fields(s).len() >= 1,
    decreases s.len(),
{
    if s.len() > 0 {
        lemma_bar_fields_nonempty(s.drop_last());
    }
}

/// The fields of `a|b|c` (none of them holding a `|`) are `a`, `b` and `c`.
proof fn lemma_three_fields(a: Seq<char>, b: Seq<char>, c: Seq<char>)
    requires
        forall|i: int| 0 <= i < a.len() ==> #[trigger] a[i] != '|',
        forall|i: int| 0 <= i < b.len() ==> #[trigger] b[i] != '|',
        forall|i: int| 0 <= i < c.len() ==> #[trigger] c[i] != '|',
    ensures
        bar_fields(a + seq!['|'] + b + seq!['|'] + c) == seq![a, b, c],
{
    let e = Seq::<char>::empty();
    assert(bar_fields(e) == seq![e]);
    lemma_bar_fields_extend(e, a);
    assert(e + a =~= a);
    assert(bar_fields(a) =~= seq![a]);
    assert((a + seq!['|']).drop_last() =~= a);
    assert(bar_fields(a + seq!['|']) =~= seq![a, e]);
    lemma_bar_fields_extend(a + seq!['|'], b);
    assert(bar_fields(a + seq!['|'] + b) =~= seq![a, b]);
    assert((a + seq!['|'] + b + seq!['|']).drop_last() =~= a + seq!['|'] + b);
    assert(bar_fields(a + seq!['|'] + b + seq!['|']) =~= seq![a, b, e]);
    lemma_bar_fields_extend(a + seq!['|'] + b + seq!['|'], c);
    assert(bar_fields(a + seq!['|'] + b + seq!['|'] + c) =~= seq![a, b, c]);
}

/// The fields of `a|b` (neither holding a `|`) are `a` and `b`.
proof fn lemma_two_fields(a: Seq<char>, b: Seq<char>)
    requires
        forall|i: int| 0 <= i < a.len() ==> #[trigger] a[i] != '|',
        forall|i: int| 0 <= i < b.len() ==> #[trigger] b[i] != '|',
    ensures
        bar_fields(a + seq!['|'] + b) == seq![a, b],
{
    let e = Seq::<char>::empty();
    assert(bar_fields(e) == seq![e]);
    lemma_bar_fields_extend(e, a);
    assert(e + a =~= a);
    assert(bar_fields(a) =~= seq![a]);
    assert((a + seq!['|']).drop_last() =~= a);
    assert(bar_fields(a + seq!['|']) =~= seq![a, e]);
    lemma_bar_fields_extend(a + seq!['|'], b);
    assert(bar_fields(a + seq!['|'] + b) =~= seq![a, b]);
}

/// A high score's field text reads back as the same high score.
pub proof fn lemma_high_score_round_trip(h: HighScore)
    ensures
        high_score_of(high_score_text(h)) == Some(h),
{
    lemma_signed_reads_back(h.score);
    lemma_decimal_reads_back(h.time_secs);
    lemma_signed_reads_back(h.achieved_at);
    lemma_three_fields(
        signed_text(h.score as int),
        decimal_text(h.time_secs as nat),
        signed_text(h.achieved_at as int),
    );
}

/// The counters' field text reads back as the same counters.
pub proof fn lemma_counters_round_trip(c: Counters)
    ensures
        counter_field(bar_fields(counters_text(c)), 0) == c.wins,
        counter_field(bar_fields(counters_text(c)), 1) == c.new_games,
{
    lemma_decimal_reads_back(c.wins);
    lemma_decimal_reads_back(c.new_games);
    lemma_two_fields(decimal_text(c.wins as nat), decimal_text(c.new_games as nat));
}

} // verus!
