use chatsounds_loader::fetcher::{FetchMode, FetchStep, Fetcher};
use chatsounds_loader::loader::Merge;
use chatsounds_loader::orchestrator::{Pipeline, PipelineError, Report, Stage};
use chatsounds_loader::outcome::{FailurePolicy, FetchFailure, FetchOutcome, Retrieved};
use chatsounds_loader::source::{GitHubRepo, Source};

type Run = Pipeline<String, Vec<u8>, String, String>;
type Outcome = FetchOutcome<String, Vec<u8>, String>;
type Ended = Option<Result<Report<String>, PipelineError<String, String>>>;

fn registry() -> Vec<Source> {
    vec![
        Source::api("r/zero", "dir0"),
        Source::msgpack("r/one", "dir1"),
        Source::api("r/two", "dir2"),
        Source::msgpack("r/three", "dir3"),
    ]
}

fn fetched(source: &Source) -> Outcome {
    match source {
        Source::Api(repo) => FetchOutcome::Tree(*repo, format!("tree of {}", repo.path)),
        Source::MsgPack(repo) => FetchOutcome::Entries(*repo, repo.path.as_bytes().to_vec()),
    }
}

fn outcomes_with_failure(at: Option<usize>) -> Vec<Outcome> {
    registry()
        .iter()
        .enumerate()
        .map(|(i, source)| {
            if Some(i) == at {
                FetchOutcome::Failed(*source, format!("fetch {} failed", i))
            } else {
                fetched(source)
            }
        })
        .collect()
}

/// Drives the loading stage; the merge numbered `bad` fails.
fn load(mut run: Run, bad: Option<usize>) -> (Ended, Vec<Merge<String, Vec<u8>>>) {
    let mut handed = Vec::new();
    loop {
        let (next, merge) = run.next_merge();
        run = next;
        match merge {
            Some(merge) => {
                let result = if Some(handed.len()) == bad {
                    Err(format!("cannot merge {}", merge.origin().location().path))
                } else {
                    Ok(())
                };
                handed.push(merge);
                run = run.merge_finished(result);
            },
            None => break,
        }
    }
    (run.finish(), handed)
}

#[test]
fn policy_picks_the_fetch_mode() {
    assert_eq!(FailurePolicy::FailFast.fetch_mode(), FetchMode::OrderedAbort);
    assert_eq!(FailurePolicy::BestEffort.fetch_mode(), FetchMode::UnorderedExhaustive);
}

#[test]
fn a_new_run_is_fetching() {
    let run = Run::new(FailurePolicy::BestEffort);
    assert_eq!(run.stage(), Stage::Fetching);
    let (run, merge) = run.next_merge();
    assert_eq!(merge, None);
    assert_eq!(run.stage(), Stage::Fetching);
    let run = run.merge_finished(Ok(()));
    assert_eq!(run.stage(), Stage::Fetching);
    assert_eq!(run.finish(), None);
}

#[test]
fn all_sources_are_merged_under_either_policy() {
    for policy in [FailurePolicy::FailFast, FailurePolicy::BestEffort] {
        let run = Run::new(policy).fetched(outcomes_with_failure(None));
        assert_eq!(run.stage(), Stage::Loading);
        let (ended, handed) = load(run, None);
        assert_eq!(ended, Some(Ok(Report { merged: registry(), skipped: vec![] })));
        assert_eq!(handed.len(), 4);
        assert_eq!(
            handed[0],
            Merge::Tree(GitHubRepo { name: "r/zero", path: "dir0" }, "tree of dir0".to_string())
        );
        assert_eq!(
            handed[1],
            Merge::Entries(GitHubRepo { name: "r/one", path: "dir1" }, b"dir1".to_vec())
        );
    }
}

#[test]
fn every_payload_takes_the_path_of_its_format() {
    let run = Run::new(FailurePolicy::BestEffort).fetched(outcomes_with_failure(None));
    let (_, handed) = load(run, None);
    for (merge, source) in handed.iter().zip(registry()) {
        match (merge, source) {
            (Merge::Tree(repo, _), Source::Api(from)) => assert_eq!(*repo, from),
            (Merge::Entries(repo, _), Source::MsgPack(from)) => assert_eq!(*repo, from),
            _ => panic!("a payload took the path of the other format"),
        }
    }
}

#[test]
fn fail_fast_returns_the_fetch_error_and_merges_nothing() {
    for at in 0..4usize {
        let run = Run::new(FailurePolicy::FailFast).fetched(outcomes_with_failure(Some(at)));
        assert_eq!(run.stage(), Stage::Failed);
        let (ended, handed) = load(run, None);
        assert!(handed.is_empty());
        assert_eq!(
            ended,
            Some(Err(PipelineError::Fetch(FetchFailure {
                source: registry()[at],
                error: format!("fetch {} failed", at),
            })))
        );
    }
}

#[test]
fn fail_fast_returns_the_earliest_of_two_failures() {
    let mut outcomes = outcomes_with_failure(Some(2));
    outcomes[3] = FetchOutcome::Failed(registry()[3], "later".to_string());
    let run = Run::new(FailurePolicy::FailFast).fetched(outcomes);
    assert_eq!(
        run.finish(),
        Some(Err(PipelineError::Fetch(FetchFailure {
            source: registry()[2],
            error: "fetch 2 failed".to_string(),
        })))
    );
}

#[test]
fn best_effort_skips_the_failed_source() {
    for at in 0..4usize {
        let run = Run::new(FailurePolicy::BestEffort).fetched(outcomes_with_failure(Some(at)));
        assert_eq!(run.stage(), Stage::Loading);
        let (ended, handed) = load(run, None);
        let mut others = registry();
        others.remove(at);
        assert_eq!(handed.len(), 3);
        assert_eq!(
            ended,
            Some(Ok(Report {
                merged: others,
                skipped: vec![FetchFailure {
                    source: registry()[at],
                    error: format!("fetch {} failed", at),
                }],
            }))
        );
    }
}

#[test]
fn best_effort_with_no_success_is_done_and_empty() {
    let outcomes: Vec<Outcome> = registry()
        .iter()
        .map(|source| FetchOutcome::Failed(*source, "down".to_string()))
        .collect();
    let run = Run::new(FailurePolicy::BestEffort).fetched(outcomes);
    let (ended, handed) = load(run, None);
    assert!(handed.is_empty());
    let report = ended.unwrap().unwrap();
    assert!(report.merged.is_empty());
    assert_eq!(report.skipped.len(), 4);
}

#[test]
fn an_empty_registry_is_done() {
    for policy in [FailurePolicy::FailFast, FailurePolicy::BestEffort] {
        let run = Run::new(policy).fetched(Vec::new());
        let (ended, _) = load(run, None);
        assert_eq!(ended, Some(Ok(Report { merged: vec![], skipped: vec![] })));
    }
}

#[test]
fn a_load_error_aborts_under_either_policy() {
    for policy in [FailurePolicy::FailFast, FailurePolicy::BestEffort] {
        for bad in 0..4usize {
            let run = Run::new(policy).fetched(outcomes_with_failure(None));
            let (ended, handed) = load(run, Some(bad));
            assert_eq!(handed.len(), bad + 1);
            assert_eq!(
                ended,
                Some(Err(PipelineError::Load(
                    registry()[bad],
                    format!("cannot merge dir{}", bad),
                )))
            );
        }
    }
}

#[test]
fn a_load_error_aborts_after_a_skipped_fetch() {
    let run = Run::new(FailurePolicy::BestEffort).fetched(outcomes_with_failure(Some(0)));
    let (ended, handed) = load(run, Some(1));
    assert_eq!(handed.len(), 2);
    assert_eq!(
        ended,
        Some(Err(PipelineError::Load(registry()[2], "cannot merge dir2".to_string())))
    );
}

#[test]
fn one_merge_at_a_time() {
    let run = Run::new(FailurePolicy::BestEffort).fetched(outcomes_with_failure(None));
    let (run, first) = run.next_merge();
    assert!(first.is_some());
    let (run, second) = run.next_merge();
    assert_eq!(second, None);
    assert_eq!(run.stage(), Stage::Loading);
    assert_eq!(run.finish(), None);
}

#[test]
fn outcomes_are_taken_only_once() {
    let run = Run::new(FailurePolicy::BestEffort).fetched(outcomes_with_failure(None));
    let run = run.fetched(outcomes_with_failure(Some(1)));
    let (ended, handed) = load(run, None);
    assert_eq!(handed.len(), 4);
    assert_eq!(ended, Some(Ok(Report { merged: registry(), skipped: vec![] })));
}

#[test]
fn a_finished_run_stays_finished() {
    let run = Run::new(FailurePolicy::FailFast).fetched(outcomes_with_failure(Some(1)));
    let run = run.merge_finished(Ok(()));
    let (run, merge) = run.next_merge();
    assert_eq!(merge, None);
    let run = run.fetched(outcomes_with_failure(None));
    assert_eq!(run.stage(), Stage::Failed);
}

#[test]
fn fetch_and_load_end_to_end() {
    for (policy, limit) in [
        (FailurePolicy::FailFast, 5usize),
        (FailurePolicy::BestEffort, 8),
        (FailurePolicy::BestEffort, 1),
    ] {
        let sources = registry();
        let mut stage: Fetcher<String, Vec<u8>, String> =
            Fetcher::new(sources.clone(), limit, policy.fetch_mode()).unwrap();
        let mut running: Vec<usize> = Vec::new();
        loop {
            match stage.step() {
                FetchStep::Launch(index, _) => running.push(index),
                FetchStep::Wait => {
                    let index = running.remove(0);
                    let retrieved = match fetched(&sources[index]) {
                        FetchOutcome::Tree(_, tree) => Retrieved::Tree(tree),
                        FetchOutcome::Entries(_, entries) => Retrieved::Entries(entries),
                        FetchOutcome::Failed(_, error) => Retrieved::Failed(error),
                    };
                    assert!(stage.complete(index, retrieved));
                },
                FetchStep::Finished => break,
            }
        }
        let run = Run::new(policy).fetched(stage.finish());
        let (ended, _) = load(run, None);
        assert_eq!(ended, Some(Ok(Report { merged: registry(), skipped: vec![] })));
    }
}

#[test]
fn start_refuses_a_limit_of_zero() {
    assert!(Run::start(FailurePolicy::BestEffort, registry(), 0).is_none());
    assert!(Run::start(FailurePolicy::FailFast, registry(), 0).is_none());
}

#[test]
fn start_gives_the_fetcher_of_the_policy() {
    let (run, mut stage) = Run::start(FailurePolicy::FailFast, registry(), 2).unwrap();
    assert_eq!(run.stage(), Stage::Fetching);
    assert_eq!(stage.step(), FetchStep::Launch(0, registry()[0]));
    assert_eq!(stage.step(), FetchStep::Launch(1, registry()[1]));
    assert_eq!(stage.step(), FetchStep::Wait);
    assert!(stage.complete(1, Retrieved::Failed("gone".to_string())));
    assert!(stage.is_finished());
    let run = match run.hand_over(stage) {
        Ok(run) => run,
        Err(_) => panic!("a finished fetch stage was handed back"),
    };
    assert_eq!(
        run.finish(),
        Some(Err(PipelineError::Fetch(FetchFailure {
            source: registry()[1],
            error: "gone".to_string(),
        })))
    );
}

#[test]
fn hand_over_waits_for_the_fetch_stage() {
    let (run, mut stage) = Run::start(FailurePolicy::BestEffort, registry(), 1).unwrap();
    assert_eq!(stage.step(), FetchStep::Launch(0, registry()[0]));
    let (run, mut stage) = match run.hand_over(stage) {
        Ok(_) => panic!("an unfinished fetch stage was taken"),
        Err(back) => back,
    };
    assert_eq!(run.stage(), Stage::Fetching);
    assert_eq!(stage.outstanding(), 1);
    assert!(stage.complete(0, Retrieved::Tree("t".to_string())));
    while let FetchStep::Launch(index, source) = stage.step() {
        let retrieved = match source {
            Source::Api(_) => Retrieved::Tree(format!("t{}", index)),
            Source::MsgPack(_) => Retrieved::Failed(format!("e{}", index)),
        };
        assert!(stage.complete(index, retrieved));
    }
    let run = match run.hand_over(stage) {
        Ok(run) => run,
        Err(_) => panic!("a finished fetch stage was handed back"),
    };
    let (ended, handed) = load(run, None);
    assert_eq!(handed.len(), 2);
    let report = ended.unwrap().unwrap();
    assert_eq!(report.merged, vec![registry()[0], registry()[2]]);
    assert_eq!(report.skipped.len(), 2);
    assert_eq!(report.skipped[0].source, registry()[1]);
    assert_eq!(report.skipped[1].error, "e3");
}
