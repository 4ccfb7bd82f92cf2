use vstd::prelude::*;

use crate::args::RunArgs;
use crate::generator::chacha_trit;
use crate::generator::TrialGenerator;

verus! {

/// Running tallies of one simulation run.
///
/// Each trial is classified by comparing the contestant's initial pick with
/// the prize door: if they agree, staying would have won; otherwise switching
/// to the remaining unopened door would have won. The tallies therefore
/// always satisfy `wins_if_switched + wins_if_stayed == trials_completed`.
pub struct RunSession {
    pub trials_completed: usize,
    pub wins_if_switched: usize,
    pub wins_if_stayed: usize,
}

impl RunSession {
    /// The session invariant: every trial landed in exactly one bucket.
    pub open spec fn inv(self) -> bool {
        self.wins_if_switched + self.wins_if_stayed == self.trials_completed
    }

    /// A fresh session with no trials recorded.
    pub fn new() -> (s: Self)
        ensures
            s.trials_completed == 0,
            s.wins_if_switched == 0,
            s.wins_if_stayed == 0,
            s.inv(),
    {
        RunSession { trials_completed: 0, wins_if_switched: 0, wins_if_stayed: 0 }
    }

    /// True exactly when the configured number of trials has been recorded.
    pub fn is_finished(&self, run_args: &RunArgs) -> (r: bool)
        ensures
            r == (self.trials_completed >= run_args.num_iter),
    {
        self.trials_completed >= run_args.num_iter
    }

    /// Records one trial: `choice` is the contestant's initial pick and
    /// `correct` the prize door, both in {0, 1, 2}. Staying wins when the
    /// pick already is the prize door; switching wins otherwise.
    pub fn step(&mut self, choice: usize, correct: usize)
        requires
            old(self).inv(),
            old(self).trials_completed < usize::MAX,
            choice <= 2,
            correct <= 2,
        ensures
            final(self).inv(),
            final(self).trials_completed == old(self).trials_completed + 1,
            choice == correct ==> final(self).wins_if_stayed == old(self).wins_if_stayed + 1
                && final(self).wins_if_switched == old(self).wins_if_switched,
            choice != correct ==> final(self).wins_if_switched == old(self).wins_if_switched + 1
                && final(self).wins_if_stayed == old(self).wins_if_stayed,
    {
        self.trials_completed = self.trials_completed + 1;
        if choice == correct {
            self.wins_if_stayed = self.wins_if_stayed + 1;
        } else {
            self.wins_if_switched = self.wins_if_switched + 1;
        }
    }
}

/// How one trial moves the tallies `(trials_completed, wins_if_switched,
/// wins_if_stayed)`: the trial count always grows by one, and the bucket of
/// the winning strategy grows with it.
pub open spec fn model_step(m: (nat, nat, nat), choice: usize, correct: usize) -> (nat, nat, nat) {
    if choice == correct {
        (m.0 + 1, m.1, m.2 + 1)
    } else {
        (m.0 + 1, m.1 + 1, m.2)
    }
}

/// The tallies after `n` trials driven by a generator seeded with `seed`:
/// trial `k` draws the initial pick as draw `2*k` of the stream and the prize
/// door as draw `2*k + 1`.
pub open spec fn seeded_outcome(seed: u64, n: nat) -> (nat, nat, nat)
    decreases n,
{
    if n == 0 {
        (0nat, 0nat, 0nat)
    } else {
        model_step(
            seeded_outcome(seed, (n - 1) as nat),
            chacha_trit(seed, (2 * (n - 1)) as nat),
            chacha_trit(seed, (2 * (n - 1) + 1) as nat),
        )
    }
}

impl RunSession {
    /// The tallies of this session as a mathematical triple.
    pub open spec fn model(self) -> (nat, nat, nat) {
        (self.trials_completed as nat, self.wins_if_switched as nat, self.wins_if_stayed as nat)
    }
}

/// Runs a whole session: builds the generator the configuration asks for,
/// then records trials until the configured count is reached. When a seed is
/// given, the resulting tallies are exactly `seeded_outcome` of that seed and
/// count, which makes seeded runs reproducible.
pub fn run(run_args: &RunArgs) -> (s: RunSession)
    ensures
        s.inv(),
        s.trials_completed == run_args.num_iter,
        run_args.seed matches Some(sd) ==> s.model() == seeded_outcome(
            sd,
            run_args.num_iter as nat,
        ),
{
    let mut session = RunSession::new();
    let mut generator = match run_args.seed {
        Some(sd) => TrialGenerator::seeded(sd),
        None => TrialGenerator::from_entropy(),
    };
    while !session.is_finished(run_args)
        invariant
            session.inv(),
            session.trials_completed <= run_args.num_iter,
            generator.spec_seed() == run_args.seed,
            generator.draws() == 2 * session.trials_completed,
            run_args.seed matches Some(sd) ==> session.model() == seeded_outcome(
                sd,
                session.trials_completed as nat,
            ),
        decreases run_args.num_iter - session.trials_completed,
    {
        let choice = generator.next_uniform_trit();
        let correct = generator.next_uniform_trit();
        session.step(choice, correct);
    }
    session
}

/// After `n` seeded trials the trial count is exactly `n`, and every trial
/// landed in exactly one of the two buckets.
pub proof fn lemma_seeded_outcome_counts(seed: u64, n: nat)
    ensures
        seeded_outcome(seed, n).0 == n,
        seeded_outcome(seed, n).1 + seeded_outcome(seed, n).2 == n,
    decreases n,
{
    if n > 0 {
        lemma_seeded_outcome_counts(seed, (n - 1) as nat);
    }
}

impl Default for RunSession {
    fn default() -> (s: Self)
        ensures
            s.trials_completed == 0,
            s.wins_if_switched == 0,
            s.wins_if_stayed == 0,
            s.inv(),
    {
        RunSession::new()
    }
}

} // verus!
