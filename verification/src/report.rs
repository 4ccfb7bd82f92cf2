use vstd::prelude::*;

use vstd::arithmetic::div_mod::lemma_div_is_ordered;
use vstd::arithmetic::div_mod::lemma_div_multiples_vanish_fancy;
use vstd::arithmetic::mul::lemma_mul_inequality;
use vstd::string::StrSliceExecFns;
use vstd::string::StringExecFns;

use crate::session::RunSession;

verus! {

/// The decimal digit character for `d` in 0..=9.
pub open spec fn digit_char(d: nat) -> char {
    if d == 0 {
        '0'
    } else if d == 1 {
        '1'
    } else if d == 2 {
        '2'
    } else if d == 3 {
        '3'
    } else if d == 4 {
        '4'
    } else if d == 5 {
        '5'
    } else if d == 6 {
        '6'
    } else if d == 7 {
        '7'
    } else if d == 8 {
        '8'
    } else {
        '9'
    }
}

/// The decimal digits of `n`, most significant first, with no leading zeros
/// except for `n == 0` itself.
pub open spec fn dec_chars(n: nat) -> Seq<char>
    decreases n,
{
    if n < 10 {
        seq![digit_char(n)]
    } else {
        dec_chars(n / 10) + seq![digit_char(n % 10)]
    }
}

/// `s` left-padded with `fill` to width `w`; `s` unchanged when already wide
/// enough.
pub open spec fn left_pad(fill: char, s: Seq<char>, w: nat) -> Seq<char> {
    if s.len() >= w {
        s
    } else {
        Seq::new((w - s.len()) as nat, |i: int| fill) + s
    }
}

/// `wins / trials` as a percentage in thousandths of a percent, rounded to
/// the nearest thousandth with halves rounded up. A session with no trials
/// has no meaningful percentage; it is rendered as zero by convention.
pub open spec fn pct_millis(wins: nat, trials: nat) -> nat {
    if trials == 0 {
        0
    } else {
        (200000 * wins + trials) / (2 * trials)
    }
}

/// The percentage of `wins` out of `trials` with three decimal places,
/// right-aligned with spaces to width seven.
pub open spec fn pct_chars(wins: nat, trials: nat) -> Seq<char> {
    let m = pct_millis(wins, trials);
    left_pad(' ', dec_chars(m / 1000) + seq!['.'] + left_pad('0', dec_chars(m % 1000), 3), 7)
}

/// The whole report: the trial count, then each bucket's absolute count
/// zero-padded to the width of the trial count, with its percentage.
pub open spec fn report_chars(trials: nat, switched: nat, stayed: nat) -> Seq<char> {
    let w = dec_chars(trials).len();
    "Iteration:   "@ + dec_chars(trials) + "\n[Correct]\nchanged=Yes: "@ + left_pad(
        '0',
        dec_chars(switched),
        w,
    ) + " ("@ + pct_chars(switched, trials) + "%)\nchanged=No : "@ + left_pad(
        '0',
        dec_chars(stayed),
        w,
    ) + " ("@ + pct_chars(stayed, trials) + "%)\n"@
}

/// The percentage never exceeds one hundred percent when the wins are at
/// most the trials.
proof fn lemma_pct_millis_bound(wins: nat, trials: nat)
    requires
        wins <= trials,
    ensures
        pct_millis(wins, trials) <= 100000,
{
    if trials > 0 {
        let w = wins as int;
        let t = trials as int;
        lemma_mul_inequality(w, t, 200000);
        assert(200000 * w + t <= 200001 * t);
        lemma_div_multiples_vanish_fancy(100000, t, 2 * t);
        assert((2 * t) * 100000 + t == 200001 * t);
        lemma_div_is_ordered(200000 * w + t, 200001 * t, 2 * t);
    }
}

/// The one-character string for digit `d`.
fn digit_str(d: usize) -> (r: &'static str)
    requires
        d < 10,
    ensures
        r@ == seq![digit_char(d as nat)],
{
    proof {
        reveal_strlit("0");
        reveal_strlit("1");
        reveal_strlit("2");
        reveal_strlit("3");
        reveal_strlit("4");
        reveal_strlit("5");
        reveal_strlit("6");
        reveal_strlit("7");
        reveal_strlit("8");
        reveal_strlit("9");
        assert("0"@ =~= seq![digit_char(0)]);
        assert("1"@ =~= seq![digit_char(1)]);
        assert("2"@ =~= seq![digit_char(2)]);
        assert("3"@ =~= seq![digit_char(3)]);
        assert("4"@ =~= seq![digit_char(4)]);
        assert("5"@ =~= seq![digit_char(5)]);
        assert("6"@ =~= seq![digit_char(6)]);
        assert("7"@ =~= seq![digit_char(7)]);
        assert("8"@ =~= seq![digit_char(8)]);
        assert("9"@ =~= seq![digit_char(9)]);
    }
    if d == 0 {
        "0"
    } else if d == 1 {
        "1"
    } else if d == 2 {
        "2"
    } else if d == 3 {
        "3"
    } else if d == 4 {
        "4"
    } else if d == 5 {
        "5"
    } else if d == 6 {
        "6"
    } else if d == 7 {
        "7"
    } else if d == 8 {
        "8"
    } else {
        "9"
    }
}

/// Renders `n` in decimal.
pub fn dec_string(n: usize) -> (r: String)
    ensures
        r@ == dec_chars(n as nat),
    decreases n,
{
    if n < 10 {
        String::from_str(digit_str(n))
    } else {
        let mut r = dec_string(n / 10);
        r.append(digit_str(n % 10));
        proof {
            assert(r@ =~= dec_chars(n as nat));
        }
        r
    }
}

/// A string of `count` copies of the single character of `fill`.
fn pad_prefix(fill: &str, count: usize) -> (r: String)
    requires
        fill@.len() == 1,
    ensures
        r@ == Seq::new(count as nat, |i: int| fill@[0]),
{
    let mut r = String::new();
    let mut j: usize = 0;
    proof {
        assert(r@ =~= Seq::new(0, |i: int| fill@[0]));
    }
    while j < count
        invariant
            fill@.len() == 1,
            j <= count,
            r@ == Seq::new(j as nat, |i: int| fill@[0]),
        decreases count - j,
    {
        r.append(fill);
        j = j + 1;
        proof {
            assert(r@ =~= Seq::new(j as nat, |i: int| fill@[0]));
        }
    }
    r
}

/// Renders `n` in decimal, zero-padded on the left to `width`.
pub fn zero_padded(n: usize, width: usize) -> (r: String)
    ensures
        r@ == left_pad('0', dec_chars(n as nat), width as nat),
{
    let digits = dec_string(n);
    let len = digits.as_str().unicode_len();
    if len >= width {
        digits
    } else {
        proof {
            reveal_strlit("0");
        }
        let mut r = pad_prefix("0", width - len);
        r.append(digits.as_str());
        proof {
            assert(r@ =~= left_pad('0', dec_chars(n as nat), width as nat));
        }
        r
    }
}

/// Renders the percentage of `wins` out of `trials` with three decimal
/// places, right-aligned with spaces to width seven.
pub fn pct_string(wins: usize, trials: usize) -> (r: String)
    requires
        wins <= trials,
    ensures
        r@ == pct_chars(wins as nat, trials as nat),
{
    let m: usize = if trials == 0 {
        0
    } else {
        let wide: u128 = (200000u128 * (wins as u128) + (trials as u128)) / (2u128 * (trials
            as u128));
        proof {
            lemma_pct_millis_bound(wins as nat, trials as nat);
        }
        wide as usize
    };
    proof {
        assert(m == pct_millis(wins as nat, trials as nat));
    }
    let mut core = dec_string(m / 1000);
    core.append(".");
    let frac = zero_padded(m % 1000, 3);
    core.append(frac.as_str());
    proof {
        reveal_strlit(".");
    }
    let len = core.as_str().unicode_len();
    if len >= 7 {
        proof {
            assert(core@ =~= pct_chars(wins as nat, trials as nat));
        }
        core
    } else {
        proof {
            reveal_strlit(" ");
        }
        let mut r = pad_prefix(" ", 7 - len);
        r.append(core.as_str());
        proof {
            assert(r@ =~= pct_chars(wins as nat, trials as nat));
        }
        r
    }
}

/// Seeded runs are reproducible: two sessions that both realized the seeded
/// outcome for the same seed and trial count hold the same tallies and
/// render byte-identical reports.
pub proof fn lemma_seeded_runs_identical(a: RunSession, b: RunSession, seed: u64, n: usize)
    requires
        a.model() == crate::session::seeded_outcome(seed, n as nat),
        b.model() == crate::session::seeded_outcome(seed, n as nat),
    ensures
        a == b,
        report_chars(
            a.trials_completed as nat,
            a.wins_if_switched as nat,
            a.wins_if_stayed as nat,
        ) == report_chars(
            b.trials_completed as nat,
            b.wins_if_switched as nat,
            b.wins_if_stayed as nat,
        ),
{
}

impl RunSession {
    /// Renders the summary of this session: the trial count, then each
    /// strategy's win count and empirical win percentage. Counts are
    /// zero-padded to the width of the trial count; percentages carry three
    /// decimal places, right-aligned to width seven. With no trials recorded
    /// both percentages are rendered as zero.
    pub fn render_report(&self) -> (r: String)
        requires
            self.inv(),
        ensures
            r@ == report_chars(
                self.trials_completed as nat,
                self.wins_if_switched as nat,
                self.wins_if_stayed as nat,
            ),
    {
        let trial_digits = dec_string(self.trials_completed);
        let width = trial_digits.as_str().unicode_len();
        let mut r = String::from_str("Iteration:   ");
        r.append(trial_digits.as_str());
        r.append("\n[Correct]\nchanged=Yes: ");
        let switched_count = zero_padded(self.wins_if_switched, width);
        r.append(switched_count.as_str());
        r.append(" (");
        let switched_pct = pct_string(self.wins_if_switched, self.trials_completed);
        r.append(switched_pct.as_str());
        r.append("%)\nchanged=No : ");
        let stayed_count = zero_padded(self.wins_if_stayed, width);
        r.append(stayed_count.as_str());
        r.append(" (");
        let stayed_pct = pct_string(self.wins_if_stayed, self.trials_completed);
        r.append(stayed_pct.as_str());
        r.append("%)\n");
        proof {
            assert(r@ =~= report_chars(
                self.trials_completed as nat,
                self.wins_if_switched as nat,
                self.wins_if_stayed as nat,
            ));
        }
        r
    }
}

} // verus!
