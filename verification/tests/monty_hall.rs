use monty_hall::{Args, ParseError, RunArgs, RunSession, TrialGenerator};

fn strings(args: &[&str]) -> Vec<String> {
    args.iter().map(|a| a.to_string()).collect()
}

#[test]
fn invariant_holds_along_a_run() {
    let mut session = RunSession::new();
    assert_eq!(session.trials_completed, 0);
    assert_eq!(session.wins_if_switched, 0);
    assert_eq!(session.wins_if_stayed, 0);
    let draws = [(0, 0), (1, 2), (2, 2), (0, 1), (1, 1), (2, 0)];
    for (choice, correct) in draws {
        session.step(choice, correct);
        assert_eq!(
            session.wins_if_switched + session.wins_if_stayed,
            session.trials_completed
        );
    }
    assert_eq!(session.trials_completed, 6);
    assert_eq!(session.wins_if_stayed, 3);
    assert_eq!(session.wins_if_switched, 3);
}

#[test]
fn seeded_runs_are_byte_identical() {
    let args = RunArgs { seed: Some(42), num_iter: 1000 };
    let first = monty_hall::run(&args);
    let second = monty_hall::run(&args);
    assert_eq!(first.trials_completed, second.trials_completed);
    assert_eq!(first.wins_if_switched, second.wins_if_switched);
    assert_eq!(first.wins_if_stayed, second.wins_if_stayed);
    assert_eq!(first.render_report(), second.render_report());
}

#[test]
fn seeded_generators_repeat_the_same_sequence() {
    let mut a = TrialGenerator::seeded(5);
    let mut b = TrialGenerator::seeded(5);
    for _ in 0..100 {
        assert_eq!(a.next_uniform_trit(), b.next_uniform_trit());
    }
}

#[test]
fn trits_are_in_range_and_roughly_uniform() {
    let mut generator = TrialGenerator::seeded(7);
    let mut counts = [0usize; 3];
    let total = 100_000;
    for _ in 0..total {
        let t = generator.next_uniform_trit();
        assert!(t <= 2);
        counts[t] += 1;
    }
    // each frequency within two percentage points of one third
    for c in counts {
        assert!(c >= 31_333, "frequency too low: {c}");
        assert!(c <= 35_333, "frequency too high: {c}");
    }
}

#[test]
fn entropy_seeded_trits_are_in_range() {
    let mut generator = TrialGenerator::from_entropy();
    for _ in 0..1000 {
        assert!(generator.next_uniform_trit() <= 2);
    }
}

#[test]
fn is_finished_after_exactly_the_trial_count() {
    let args = RunArgs { seed: None, num_iter: 5 };
    let mut session = RunSession::new();
    for k in 0..5 {
        assert!(!session.is_finished(&args), "finished too early at {k}");
        session.step(0, 0);
    }
    assert!(session.is_finished(&args));
}

#[test]
fn run_performs_the_configured_number_of_trials() {
    let args = RunArgs { seed: None, num_iter: 10 };
    let session = monty_hall::run(&args);
    assert_eq!(session.trials_completed, 10);
    assert_eq!(
        session.wins_if_switched + session.wins_if_stayed,
        session.trials_completed
    );
}

#[test]
fn switching_wins_about_two_thirds_of_trials() {
    let args = RunArgs { seed: Some(12345), num_iter: 100_000 };
    let session = monty_hall::run(&args);
    assert_eq!(session.trials_completed, 100_000);
    // pct_switched within one percentage point of 66.667
    assert!(session.wins_if_switched >= 65_667, "switched wins too few: {}", session.wins_if_switched);
    assert!(session.wins_if_switched <= 67_667, "switched wins too many: {}", session.wins_if_switched);
    // pct_stayed within one percentage point of 33.333
    assert!(session.wins_if_stayed >= 32_333);
    assert!(session.wins_if_stayed <= 34_333);
}

#[test]
fn report_for_seven_trials() {
    let session = RunSession { trials_completed: 7, wins_if_switched: 5, wins_if_stayed: 2 };
    let report = session.render_report();
    assert_eq!(
        report,
        "Iteration:   7\n[Correct]\nchanged=Yes: 5 ( 71.429%)\nchanged=No : 2 ( 28.571%)\n"
    );
}

#[test]
fn report_zero_pads_counts_to_the_trial_count_width() {
    let session = RunSession { trials_completed: 100, wins_if_switched: 37, wins_if_stayed: 63 };
    let report = session.render_report();
    assert_eq!(
        report,
        "Iteration:   100\n[Correct]\nchanged=Yes: 037 ( 37.000%)\nchanged=No : 063 ( 63.000%)\n"
    );
}

#[test]
fn report_with_no_trials_renders_zero_percentages() {
    let session = RunSession { trials_completed: 0, wins_if_switched: 0, wins_if_stayed: 0 };
    let report = session.render_report();
    assert_eq!(
        report,
        "Iteration:   0\n[Correct]\nchanged=Yes: 0 (  0.000%)\nchanged=No : 0 (  0.000%)\n"
    );
}

#[test]
fn report_aligns_full_percentage() {
    let session = RunSession { trials_completed: 4, wins_if_switched: 4, wins_if_stayed: 0 };
    let report = session.render_report();
    assert_eq!(
        report,
        "Iteration:   4\n[Correct]\nchanged=Yes: 4 (100.000%)\nchanged=No : 0 (  0.000%)\n"
    );
}

#[test]
fn help_flag_prints_usage_and_runs_no_trials() {
    assert!(matches!(Args::parse(&strings(&["-h"])), Ok(Args::Help)));
    assert!(matches!(Args::parse(&strings(&["--help"])), Ok(Args::Help)));
    assert!(matches!(
        Args::parse(&strings(&["--bogus", "--help", "-n", "5"])),
        Ok(Args::Help)
    ));
    assert!(matches!(
        Args::parse(&strings(&["-n", "3", "-h"])),
        Ok(Args::Help)
    ));
}

#[test]
fn help_text_lists_the_three_flags() {
    let help = Args::help();
    assert_eq!(
        help,
        "-h,--help         show help\n-s,--seed SEED    set seed\n-n NUM_ITER       set num iterations"
    );
    assert_eq!(help.lines().count(), 3);
}

#[test]
fn unrecognized_tokens_are_ignored() {
    let with_bogus = Args::parse(&strings(&["--bogus", "-n", "5", "extra"]));
    let without = Args::parse(&strings(&["-n", "5"]));
    match (with_bogus, without) {
        (Ok(Args::Run(a)), Ok(Args::Run(b))) => {
            assert_eq!(a.seed, b.seed);
            assert_eq!(a.num_iter, b.num_iter);
            assert_eq!(a.num_iter, 5);
        }
        _ => panic!("expected run configurations"),
    }
}

#[test]
fn default_configuration_is_one_unseeded_trial() {
    match Args::parse(&strings(&[])) {
        Ok(Args::Run(args)) => {
            assert_eq!(args.seed, None);
            assert_eq!(args.num_iter, 1);
        }
        _ => panic!("expected a run configuration"),
    }
}

#[test]
fn seed_and_trial_count_flags_are_read() {
    match Args::parse(&strings(&["--seed", "9", "-n", "3"])) {
        Ok(Args::Run(args)) => {
            assert_eq!(args.seed, Some(9));
            assert_eq!(args.num_iter, 3);
        }
        _ => panic!("expected a run configuration"),
    }
    match Args::parse(&strings(&["-s", "1", "-s", "2"])) {
        Ok(Args::Run(args)) => {
            assert_eq!(args.seed, Some(2));
        }
        _ => panic!("expected a run configuration"),
    }
}

#[test]
fn missing_seed_value_is_a_fatal_error() {
    assert!(matches!(
        Args::parse(&strings(&["-s"])),
        Err(ParseError::SeedMissing)
    ));
}

#[test]
fn malformed_seed_value_is_a_fatal_error() {
    match Args::parse(&strings(&["-s", "abc"])) {
        Err(ParseError::SeedInvalid(t)) => assert_eq!(t, "abc"),
        _ => panic!("expected an invalid-seed error"),
    }
    // a seed flag consumes the next token, even a would-be help flag
    match Args::parse(&strings(&["-s", "-h"])) {
        Err(ParseError::SeedInvalid(t)) => assert_eq!(t, "-h"),
        _ => panic!("expected an invalid-seed error"),
    }
    // one past u64::MAX
    match Args::parse(&strings(&["-s", "18446744073709551616"])) {
        Err(ParseError::SeedInvalid(t)) => assert_eq!(t, "18446744073709551616"),
        _ => panic!("expected an invalid-seed error"),
    }
}

#[test]
fn largest_seed_is_accepted() {
    match Args::parse(&strings(&["-s", "18446744073709551615"])) {
        Ok(Args::Run(args)) => assert_eq!(args.seed, Some(u64::MAX)),
        _ => panic!("expected a run configuration"),
    }
}

#[test]
fn missing_trial_count_value_is_a_fatal_error() {
    assert!(matches!(
        Args::parse(&strings(&["-n"])),
        Err(ParseError::IterMissing)
    ));
}

#[test]
fn malformed_trial_count_value_is_a_fatal_error() {
    match Args::parse(&strings(&["-n", "12x"])) {
        Err(ParseError::IterInvalid(t)) => assert_eq!(t, "12x"),
        _ => panic!("expected an invalid-trial-count error"),
    }
}

#[test]
fn error_messages_name_the_offending_input() {
    assert_eq!(ParseError::SeedMissing.message(), "no seed given");
    assert_eq!(
        ParseError::SeedInvalid("abc".to_string()).message(),
        "invalid seed: abc"
    );
    assert_eq!(ParseError::IterMissing.message(), "no num iteration given");
    assert_eq!(
        ParseError::IterInvalid("12x".to_string()).message(),
        "invalid num iteration: 12x"
    );
}
