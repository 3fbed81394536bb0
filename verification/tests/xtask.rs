use mado::{
    cargo_fuzz_command_args, exit_status_byte, fuzz_run_arguments, gate_exit_code, gate_outcome,
    max_total_time, missing_outcomes_status, mutants_status, FuzzTarget, GateOutcome,
    MutationSummary, DEFAULT_MUTATION_THRESHOLD, DEFAULT_NIGHTLY_FUZZ_SECONDS,
};

#[test]
fn score_uses_integer_percentage_like_the_shell_gate() {
    let summary = MutationSummary {
        caught: 2,
        missed: 1,
        timeout: 1,
    };

    assert_eq!(summary.score(), 50);
}

#[test]
fn summary_total_includes_all_viable_outcomes() {
    let summary = MutationSummary {
        caught: 3,
        missed: 2,
        timeout: 1,
    };

    assert_eq!(summary.total(), 6);
}

#[test]
fn tally_counts_only_viable_summaries() {
    let summaries = vec![
        Some("CaughtMutant".to_string()),
        Some("MissedMutant".to_string()),
        Some("Timeout".to_string()),
        Some("Unviable".to_string()),
        None,
        Some("CaughtMutant".to_string()),
    ];
    assert_eq!(
        MutationSummary::tally(&summaries),
        Some(MutationSummary {
            caught: 2,
            missed: 1,
            timeout: 1,
        })
    );
}

#[test]
fn gate_outcomes() {
    let none = MutationSummary::default();
    assert_eq!(gate_outcome(&none, 50), GateOutcome::NothingTested);
    assert_eq!(gate_exit_code(GateOutcome::NothingTested), 1);
    let low = MutationSummary {
        caught: 1,
        missed: 2,
        timeout: 0,
    };
    assert_eq!(
        gate_outcome(&low, DEFAULT_MUTATION_THRESHOLD),
        GateOutcome::BelowThreshold { score: 33 }
    );
    let high = MutationSummary {
        caught: 3,
        missed: 1,
        timeout: 0,
    };
    assert_eq!(gate_outcome(&high, 75), GateOutcome::Passed { score: 75 });
    assert_eq!(gate_exit_code(GateOutcome::Passed { score: 75 }), 0);
}

#[test]
fn statuses_and_exit_bytes() {
    assert_eq!(mutants_status(0), 0);
    assert_eq!(mutants_status(2), 0);
    assert_eq!(mutants_status(3), 3);
    assert_eq!(missing_outcomes_status(0), 1);
    assert_eq!(missing_outcomes_status(4), 4);
    assert_eq!(exit_status_byte(0), Some(0));
    assert_eq!(exit_status_byte(255), Some(255));
    assert_eq!(exit_status_byte(256), None);
    assert_eq!(exit_status_byte(-1), None);
}

#[test]
fn fuzz_target_arguments() {
    assert_eq!(
        FuzzTarget::all(),
        vec![FuzzTarget::IconName, FuzzTarget::JavaRuntimeMetadata]
    );
    assert_eq!(FuzzTarget::IconName.cargo_name(), "icon_name");
    assert_eq!(FuzzTarget::JavaRuntimeMetadata.smoke_args(), vec!["-runs=256"]);
    assert_eq!(FuzzTarget::IconName.nightly_seconds(), DEFAULT_NIGHTLY_FUZZ_SECONDS);
    assert_eq!(max_total_time(300), "-max_total_time=300");
    assert_eq!(
        fuzz_run_arguments(FuzzTarget::JavaRuntimeMetadata, Some(300)),
        vec!["-max_len=131072".to_string(), "-max_total_time=300".to_string()]
    );
    assert!(fuzz_run_arguments(FuzzTarget::IconName, None).is_empty());
    assert_eq!(
        cargo_fuzz_command_args(
            FuzzTarget::JavaRuntimeMetadata,
            &vec!["-runs=256".to_string()]
        ),
        vec![
            "+nightly",
            "fuzz",
            "run",
            "java_runtime_metadata",
            "fuzz/corpus/java_runtime_metadata",
            "fuzz/seeds/java_runtime_metadata",
            "--",
            "-runs=256",
        ]
    );
    assert_eq!(
        cargo_fuzz_command_args(FuzzTarget::IconName, &Vec::new()),
        vec!["+nightly", "fuzz", "run", "icon_name"]
    );
}
