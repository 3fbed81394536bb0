//! The decisions of the workspace maintenance tasks: which fuzz targets run
//! with which arguments, how mutation-testing outcomes are tallied and scored,
//! and what exit status each task ends with.
use vstd::prelude::*;

use crate::text::{chars_of, decimal, decimal_chars, str_eq, string_from_chars};

verus! {

/// Where cargo-mutants writes its results by default.
pub const DEFAULT_MUTANTS_DIR: &'static str = "target/mutants";

/// The mutation score, in percent, required by default.
pub const DEFAULT_MUTATION_THRESHOLD: u32 = 50;

/// How long each nightly fuzz run lasts, in seconds.
pub const DEFAULT_NIGHTLY_FUZZ_SECONDS: u32 = 300;

/// The fuzz targets of the workspace.
#[derive(Debug, Clone, Copy, PartialEq, Eq, Structural)]
pub enum FuzzTarget {
    IconName,
    JavaRuntimeMetadata,
}

impl FuzzTarget {
    /// Every target, in the order the smoke and nightly runs take them.
    pub fn all() -> (r: Vec<FuzzTarget>)
        ensures
            r@ == seq![FuzzTarget::IconName, FuzzTarget::JavaRuntimeMetadata],
    {
        vec![FuzzTarget::IconName, FuzzTarget::JavaRuntimeMetadata]
    }

    /// The target's name for `cargo fuzz`.
    pub fn cargo_name(self) -> (r: &'static str)
        ensures
            r@ == fuzz_cargo_name(self),
    {
        match self {
            FuzzTarget::IconName => "icon_name",
            FuzzTarget::JavaRuntimeMetadata => "java_runtime_metadata",
        }
    }

    /// The corpus directories the target reads.
    pub fn corpus_paths(self) -> (r: Vec<&'static str>)
        ensures
            r@.len() == fuzz_corpus_paths(self).len(),
            forall|i: int| 0 <= i < r@.len() ==> (#[trigger] r@[i])@ == fuzz_corpus_paths(self)[i],
    {
        match self {
            FuzzTarget::IconName => Vec::new(),
            FuzzTarget::JavaRuntimeMetadata => vec![
                "fuzz/corpus/java_runtime_metadata",
                "fuzz/seeds/java_runtime_metadata",
            ],
        }
    }

    /// The libFuzzer arguments of a smoke run.
    pub fn smoke_args(self) -> (r: Vec<&'static str>)
        ensures
            r@.len() == 1,
            r@[0]@ == "-runs=256"@,
    {
        vec!["-runs=256"]
    }

    /// The libFuzzer arguments of every longer run.
    pub fn run_args(self) -> (r: Vec<&'static str>)
        ensures
            r@.len() == fuzz_run_args(self).len(),
            forall|i: int| 0 <= i < r@.len() ==> (#[trigger] r@[i])@ == fuzz_run_args(self)[i],
    {
        match self {
            FuzzTarget::IconName => Vec::new(),
            FuzzTarget::JavaRuntimeMetadata => vec!["-max_len=131072"],
        }
    }

    /// How long a nightly run of the target lasts, in seconds.
    pub fn nightly_seconds(self) -> (r: u32)
        ensures
            r == DEFAULT_NIGHTLY_FUZZ_SECONDS,
    {
        DEFAULT_NIGHTLY_FUZZ_SECONDS
    }
}

pub open spec fn fuzz_cargo_name(t: FuzzTarget) -> Seq<char> {
    match t {
        FuzzTarget::IconName => "icon_name"@,
        FuzzTarget::JavaRuntimeMetadata => "java_runtime_metadata"@,
    }
}

pub open spec fn fuzz_corpus_paths(t: FuzzTarget) -> Seq<Seq<char>> {
    match t {
        FuzzTarget::IconName => Seq::empty(),
        FuzzTarget::JavaRuntimeMetadata => seq![
            "fuzz/corpus/java_runtime_metadata"@,
            "fuzz/seeds/java_runtime_metadata"@,
        ],
    }
}

pub open spec fn fuzz_run_args(t: FuzzTarget) -> Seq<Seq<char>> {
    match t {
        FuzzTarget::IconName => Seq::empty(),
        FuzzTarget::JavaRuntimeMetadata => seq!["-max_len=131072"@],
    }
}

/// `-max_total_time=` followed by `seconds` in decimal.
pub open spec fn max_total_time_arg(seconds: u32) -> Seq<char> {
    "-max_total_time="@ + decimal(seconds as nat)
}

/// The `-max_total_time` argument for `seconds`.
pub fn max_total_time(seconds: u32) -> (r: String)
    ensures
        r@ == max_total_time_arg(seconds),
{
    let mut v = chars_of("-max_total_time=");
    let mut d = decimal_chars(seconds as usize);
    v.append(&mut d);
    string_from_chars(v.as_slice())
}

/// The libFuzzer arguments of a target's run: its run arguments, then a time
/// limit when one is given.
pub open spec fn fuzz_args_for(t: FuzzTarget, seconds: Option<u32>) -> Seq<Seq<char>> {
    match seconds {
        Some(s) => fuzz_run_args(t).push(max_total_time_arg(s)),
        None => fuzz_run_args(t),
    }
}

/// The libFuzzer arguments of `xtask fuzz run` (no time limit unless given) and,
/// with the nightly time, of the nightly run.
pub fn fuzz_run_arguments(t: FuzzTarget, seconds: Option<u32>) -> (r: Vec<String>)
    ensures
        r@.len() == fuzz_args_for(t, seconds).len(),
        forall|i: int| 0 <= i < r@.len() ==> (#[trigger] r@[i])@ == fuzz_args_for(t, seconds)[i],
{
    let base = t.run_args();
    let mut r: Vec<String> = Vec::new();
    let n = base.len();
    let mut i: usize = 0;
    while i < n
        invariant
            i <= n,
            n == base@.len(),
            base@.len() == fuzz_run_args(t).len(),
            forall|k: int| 0 <= k < n ==> (#[trigger] base@[k])@ == fuzz_run_args(t)[k],
            r@.len() == i,
            forall|k: int| 0 <= k < i ==> (#[trigger] r@[k])@ == fuzz_run_args(t)[k],
        decreases n - i,
    {
        r.push(base[i].to_owned());
        i += 1;
    }
    if let Some(s) = seconds {
        r.push(max_total_time(s));
    }
    r
}

/// The arguments of `cargo` for running target `t` with `libfuzzer_args`:
/// `+nightly fuzz run <name>`, the corpus directories, then `--` and the
/// libFuzzer arguments when there are any.
pub open spec fn cargo_fuzz_args(t: FuzzTarget, libfuzzer_args: Seq<Seq<char>>) -> Seq<Seq<char>> {
    let head = seq!["+nightly"@, "fuzz"@, "run"@, fuzz_cargo_name(t)] + fuzz_corpus_paths(t);
    if libfuzzer_args.len() == 0 {
        head
    } else {
        head.push("--"@) + libfuzzer_args
    }
}

/// The arguments of the `cargo` command that runs target `t`.
pub fn cargo_fuzz_command_args(t: FuzzTarget, libfuzzer_args: &Vec<String>) -> (r: Vec<String>)
    ensures
        r@.len() == cargo_fuzz_args(t, libfuzzer_args@.map_values(|s: String| s@)).len(),
        forall|i: int|
            0 <= i < r@.len() ==> (#[trigger] r@[i])@ == cargo_fuzz_args(
                t,
                libfuzzer_args@.map_values(|s: String| s@),
            )[i],
{
    let ghost lib = libfuzzer_args@.map_values(|s: String| s@);
    let mut r: Vec<String> = Vec::new();
    r.push("+nightly".to_owned());
    r.push("fuzz".to_owned());
    r.push("run".to_owned());
    r.push(t.cargo_name().to_owned());
    let corpus = t.corpus_paths();
    let ghost head_spec = seq!["+nightly"@, "fuzz"@, "run"@, fuzz_cargo_name(t)] + fuzz_corpus_paths(t);
    let n = corpus.len();
    let mut i: usize = 0;
    while i < n
        invariant
            i <= n,
            n == corpus@.len(),
            corpus@.len() == fuzz_corpus_paths(t).len(),
            forall|k: int| 0 <= k < n ==> (#[trigger] corpus@[k])@ == fuzz_corpus_paths(t)[k],
            head_spec == seq!["+nightly"@, "fuzz"@, "run"@, fuzz_cargo_name(t)] + fuzz_corpus_paths(t),
            r@.len() == 4 + i,
            forall|k: int| 0 <= k < 4 + i ==> (#[trigger] r@[k])@ == head_spec[k],
        decreases n - i,
    {
        r.push(corpus[i].to_owned());
        i += 1;
    }
    let m = libfuzzer_args.len();
    if m > 0 {
        r.push("--".to_owned());
        let mut j: usize = 0;
        while j < m
            invariant
                j <= m,
                m == libfuzzer_args@.len(),
                lib == libfuzzer_args@.map_values(|s: String| s@),
                head_spec == seq!["+nightly"@, "fuzz"@, "run"@, fuzz_cargo_name(t)]
                    + fuzz_corpus_paths(t),
                r@.len() == head_spec.len() + 1 + j,
                forall|k: int|
                    0 <= k < r@.len() ==> (#[trigger] r@[k])@ == (head_spec.push("--"@) + lib)[k],
            decreases m - j,
        {
            r.push(libfuzzer_args[j].clone());
            j += 1;
        }
    }
    r
}

/// The tally of mutation-testing outcomes that count: caught, missed, timed out.
#[derive(Debug, Default, Clone, Copy, PartialEq, Eq, Structural)]
pub struct MutationSummary {
    pub caught: u32,
    pub missed: u32,
    pub timeout: u32,
}

impl MutationSummary {
    /// Every viable mutant: caught, missed or timed out.
    pub fn total(&self) -> (r: u32)
        requires
            self.caught + self.missed + self.timeout <= u32::MAX,
        ensures
            r == self.caught + self.missed + self.timeout,
    {
        self.caught + self.missed + self.timeout
    }

    /// The share of viable mutants caught, in whole percent, rounded down.
    pub fn score(&self) -> (r: u32)
        requires
            0 < self.caught + self.missed + self.timeout <= u32::MAX,
            self.caught * 100 <= u32::MAX,
        ensures
            r == self.caught * 100 / (self.caught + self.missed + self.timeout),
    {
        self.caught * 100 / self.total()
    }

    /// Counts the outcome summaries: `CaughtMutant`, `MissedMutant` and
    /// `Timeout` are tallied, anything else (or none) is skipped.
    pub fn tally(summaries: &Vec<Option<String>>) -> (r: Option<Self>)
        ensures
            match r {
                Some(s) => s.caught == count_summary(summaries@, "CaughtMutant"@) && s.missed
                    == count_summary(summaries@, "MissedMutant"@) && s.timeout == count_summary(
                    summaries@,
                    "Timeout"@,
                ),
                None => count_summary(summaries@, "CaughtMutant"@) > u32::MAX || count_summary(
                    summaries@,
                    "MissedMutant"@,
                ) > u32::MAX || count_summary(summaries@, "Timeout"@) > u32::MAX,
            },
    {
        let mut s = MutationSummary { caught: 0, missed: 0, timeout: 0 };
        let n = summaries.len();
        let mut i: usize = 0;
        while i < n
            invariant
                i <= n,
                n == summaries@.len(),
                s.caught == count_summary(summaries@.subrange(0, i as int), "CaughtMutant"@),
                s.missed == count_summary(summaries@.subrange(0, i as int), "MissedMutant"@),
                s.timeout == count_summary(summaries@.subrange(0, i as int), "Timeout"@),
            decreases n - i,
        {
            proof {
                let pre = summaries@.subrange(0, i + 1);
                assert(pre.drop_last() =~= summaries@.subrange(0, i as int));
                reveal_strlit("CaughtMutant");
                reveal_strlit("MissedMutant");
                reveal_strlit("Timeout");
                assert("CaughtMutant"@[0] != "MissedMutant"@[0]);
                assert("CaughtMutant"@.len() != "Timeout"@.len());
                assert("MissedMutant"@.len() != "Timeout"@.len());
                lemma_count_summary_le(summaries@, i as int + 1, "CaughtMutant"@);
                lemma_count_summary_le(summaries@, i as int + 1, "MissedMutant"@);
                lemma_count_summary_le(summaries@, i as int + 1, "Timeout"@);
            }
            match &summaries[i] {
                Some(text) => {
                    if str_eq(text.as_str(), "CaughtMutant") {
                        if s.caught == u32::MAX {
                            proof { lemma_count_summary_prefix(summaries@, i as int + 1, "CaughtMutant"@); }
                            return None;
                        }
                        s.caught = s.caught + 1;
                    } else if str_eq(text.as_str(), "MissedMutant") {
                        if s.missed == u32::MAX {
                            proof { lemma_count_summary_prefix(summaries@, i as int + 1, "MissedMutant"@); }
                            return None;
                        }
                        s.missed = s.missed + 1;
                    } else if str_eq(text.as_str(), "Timeout") {
                        if s.timeout == u32::MAX {
                            proof { lemma_count_summary_prefix(summaries@, i as int + 1, "Timeout"@); }
                            return None;
                        }
                        s.timeout = s.timeout + 1;
                    }
                },
                None => {},
            }
            i += 1;
        }
        proof {
            assert(summaries@.subrange(0, n as int) =~= summaries@);
        }
        Some(s)
    }
}

/// How many of `summaries` are exactly `word`.
pub open spec fn count_summary(summaries: Seq<Option<String>>, word: Seq<char>) -> nat
    decreases summaries.len(),
{
    if summaries.len() == 0 {
        0
    } else {
        count_summary(summaries.drop_last(), word) + match summaries.last() {
            Some(s) => if s@ == word {
                1nat
            } else {
                0nat
            },
            None => 0nat,
        }
    }
}

proof fn lemma_count_summary_le(summaries: Seq<Option<String>>, k: int, word: Seq<char>)
    requires
        0 <= k <= summaries.len(),
    ensures
        count_summary(summaries.subrange(0, k), word) <= k,
    decreases k,
{
    if k > 0 {
        assert(summaries.subrange(0, k).drop_last() =~= summaries.subrange(0, k - 1));
        lemma_count_summary_le(summaries, k - 1, word);
    }
}

/// A count over all summaries is at least the count over a prefix.
proof fn lemma_count_summary_prefix(summaries: Seq<Option<String>>, k: int, word: Seq<char>)
    requires
        0 <= k <= summaries.len(),
    ensures
        count_summary(summaries.subrange(0, k), word) <= count_summary(summaries, word),
    decreases summaries.len() - k,
{
    if k < summaries.len() {
        lemma_count_summary_prefix(summaries, k + 1, word);
        assert(summaries.subrange(0, k + 1).drop_last() =~= summaries.subrange(0, k));
    } else {
        assert(summaries.subrange(0, k) =~= summaries);
    }
}

/// The status `xtask mutants` ends with: cargo-mutants' 2 (mutants missed) is
/// still success, any other status stands.
pub fn mutants_status(code: i32) -> (r: i32)
    ensures
        r == if code == 0 || code == 2 {
            0i32
        } else {
            code
        },
{
    if code == 0 || code == 2 {
        0
    } else {
        code
    }
}

/// The status of the mutation score check when cargo-mutants left no outcomes file: its own
/// failure status, or 1 when it reported success.
pub fn missing_outcomes_status(mutants_status: i32) -> (r: i32)
    ensures
        r == if mutants_status == 0 {
            1i32
        } else {
            mutants_status
        },
{
    if mutants_status == 0 {
        1
    } else {
        mutants_status
    }
}

/// What the mutation score check concludes.
#[derive(Debug, Clone, Copy, PartialEq, Eq, Structural)]
pub enum GateOutcome {
    /// No viable mutant was tested: a failure.
    NothingTested,
    /// The score is below the threshold: a failure.
    BelowThreshold { score: u32 },
    /// The score meets the threshold.
    Passed { score: u32 },
}

/// The conclusion of the mutation score check for `summary` against `threshold`.
pub fn gate_outcome(summary: &MutationSummary, threshold: u32) -> (r: GateOutcome)
    requires
        summary.caught + summary.missed + summary.timeout <= u32::MAX,
        summary.caught * 100 <= u32::MAX,
    ensures
        summary.caught + summary.missed + summary.timeout == 0 ==> r == GateOutcome::NothingTested,
        summary.caught + summary.missed + summary.timeout > 0 ==> ({
            let score = summary.caught * 100 / (summary.caught + summary.missed + summary.timeout);
            &&& score < threshold ==> r == GateOutcome::BelowThreshold { score: score as u32 }
            &&& score >= threshold ==> r == GateOutcome::Passed { score: score as u32 }
        }),
{
    if summary.total() == 0 {
        return GateOutcome::NothingTested;
    }
    let score = summary.score();
    if score < threshold {
        GateOutcome::BelowThreshold { score }
    } else {
        GateOutcome::Passed { score }
    }
}

/// The exit status of the mutation score check: 0 when it passed, else 1.
pub fn gate_exit_code(outcome: GateOutcome) -> (r: i32)
    ensures
        r == if outcome is Passed {
            0i32
        } else {
            1i32
        },
{
    match outcome {
        GateOutcome::Passed { .. } => 0,
        _ => 1,
    }
}

/// The process exit byte for a task's status: the status itself when it fits
/// in a byte, else none (a failure).
pub fn exit_status_byte(code: i32) -> (r: Option<u8>)
    ensures
        0 <= code <= 255 ==> r == Some(code as u8),
        !(0 <= code <= 255) ==> r is None,
{
    if 0 <= code && code <= 255 {
        Some(code as u8)
    } else {
        None
    }
}

} // verus!
