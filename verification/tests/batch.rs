use grt::batch::{chain, command_for, plan, Batch, BatchAction, BatchEvent, BatchState, Commit};
use grt::repo_info::RepoType;
use grt::selection::RefSet;
use grt::settings::Method;

fn three() -> Vec<Commit> {
    vec![
        Commit::new("first".to_string(), "git fetch origin r1 && git checkout FETCH_HEAD".to_string()),
        Commit::new("second".to_string(), "git fetch origin r2 && git checkout FETCH_HEAD".to_string()),
        Commit::new("third".to_string(), "git fetch origin r3 && git checkout FETCH_HEAD".to_string()),
    ]
}

fn commands(list: &Vec<Commit>) -> Vec<(String, String)> {
    list.iter().map(|c| (c.title.clone(), c.command.clone())).collect()
}

fn run(action: BatchAction) -> String {
    match action {
        BatchAction::Run(c) => c.title,
        BatchAction::Start => "<start>".to_string(),
        BatchAction::AskContinue => "<ask>".to_string(),
        BatchAction::Stop => "<stop>".to_string(),
        BatchAction::Ignored => "<ignored>".to_string(),
    }
}

#[test]
fn git_command_fetches_and_applies() {
    assert_eq!(
        command_for("refs/changes/41/41/1", RepoType::Git, Method::Checkout),
        "git fetch origin refs/changes/41/41/1 && git checkout FETCH_HEAD"
    );
    assert_eq!(
        command_for("refs/changes/41/41/1", RepoType::Git, Method::CherryPick),
        "git fetch origin refs/changes/41/41/1 && git cherry-pick FETCH_HEAD"
    );
}

#[test]
fn repo_command_downloads() {
    assert_eq!(
        command_for("dummy.git 41/1", RepoType::Repo, Method::CherryPick),
        "repo download dummy.git 41/1 --cherry-pick"
    );
    assert_eq!(
        command_for("dummy.git 41/1", RepoType::GitInRepo, Method::CherryPick),
        "repo download dummy.git 41/1 --cherry-pick"
    );
    assert_eq!(
        command_for("dummy.git 41/1", RepoType::Repo, Method::Checkout),
        "repo download dummy.git 41/1"
    );
    assert_eq!(
        command_for("dummy.git 41/1", RepoType::GitInRepo, Method::Checkout),
        "repo download dummy.git 41/1"
    );
}

#[test]
fn plan_has_one_command_for_each_pair() {
    let mut set = RefSet::new();
    set.insert("one".to_string(), "refs/changes/41/41/1".to_string());
    set.insert("two".to_string(), "refs/changes/02/2/2".to_string());
    set.insert("one".to_string(), "refs/changes/41/41/1".to_string());
    let planned = plan(&set, RepoType::Git, Method::CherryPick);
    assert_eq!(
        commands(&planned),
        vec![
            ("one".to_string(), "git fetch origin refs/changes/41/41/1 && git cherry-pick FETCH_HEAD".to_string()),
            ("two".to_string(), "git fetch origin refs/changes/02/2/2 && git cherry-pick FETCH_HEAD".to_string()),
        ]
    );
    assert_eq!(plan(&RefSet::new(), RepoType::Git, Method::Checkout).len(), 0);
}

#[test]
fn status_line_says_ok_or_failed() {
    let c = Commit::new("dummy - one - Administrator".to_string(), "true".to_string());
    assert_eq!(c.status_line(true), "dummy - one - Administrator: Ok");
    assert_eq!(c.status_line(false), "dummy - one - Administrator: Failed");
}

#[test]
fn chain_joins_with_and() {
    assert_eq!(chain(&vec![]), None);
    assert_eq!(chain(&three()[..1].iter().map(|c| Commit::new(c.title.clone(), c.command.clone())).collect()),
        Some("git fetch origin r1 && git checkout FETCH_HEAD".to_string()));
    assert_eq!(
        chain(&three()),
        Some("git fetch origin r1 && git checkout FETCH_HEAD && git fetch origin r2 && git checkout FETCH_HEAD && git fetch origin r3 && git checkout FETCH_HEAD".to_string())
    );
}

#[test]
fn abort_after_the_second_command_leaves_the_third() {
    let mut batch = Batch::new(three());
    assert_eq!(batch.state(), BatchState::Planned);
    assert_eq!(run(batch.step(BatchEvent::Answer(true))), "<start>");
    assert_eq!(batch.state(), BatchState::Confirmed);
    assert_eq!(run(batch.step(BatchEvent::Ready)), "first");
    assert_eq!(batch.state(), BatchState::Running);
    assert_eq!(run(batch.step(BatchEvent::Outcome(true))), "second");
    assert_eq!(batch.state(), BatchState::Running);
    assert_eq!(run(batch.step(BatchEvent::Outcome(false))), "<ask>");
    assert_eq!(batch.state(), BatchState::Asking);
    assert_eq!(run(batch.step(BatchEvent::Answer(false))), "<stop>");
    assert_eq!(batch.state(), BatchState::AbortedWithRemainder);
    assert_eq!(
        commands(&batch.remaining()),
        vec![("third".to_string(), "git fetch origin r3 && git checkout FETCH_HEAD".to_string())]
    );
    assert_eq!(batch.resume_line(), Some("git fetch origin r3 && git checkout FETCH_HEAD".to_string()));
}

#[test]
fn abort_after_the_first_command_leaves_two_joined() {
    let mut batch = Batch::new(three());
    batch.step(BatchEvent::Answer(true));
    assert_eq!(run(batch.step(BatchEvent::Ready)), "first");
    assert_eq!(run(batch.step(BatchEvent::Outcome(false))), "<ask>");
    assert_eq!(run(batch.step(BatchEvent::Answer(false))), "<stop>");
    assert_eq!(batch.state(), BatchState::AbortedWithRemainder);
    assert_eq!(
        batch.resume_line(),
        Some("git fetch origin r2 && git checkout FETCH_HEAD && git fetch origin r3 && git checkout FETCH_HEAD".to_string())
    );
}

#[test]
fn going_on_after_a_failure_runs_the_rest() {
    let mut batch = Batch::new(three());
    batch.step(BatchEvent::Answer(true));
    assert_eq!(run(batch.step(BatchEvent::Ready)), "first");
    assert_eq!(run(batch.step(BatchEvent::Outcome(false))), "<ask>");
    assert_eq!(run(batch.step(BatchEvent::Answer(true))), "second");
    assert_eq!(run(batch.step(BatchEvent::Outcome(false))), "<ask>");
    assert_eq!(run(batch.step(BatchEvent::Answer(true))), "third");
    assert_eq!(run(batch.step(BatchEvent::Outcome(false))), "<stop>");
    assert_eq!(batch.state(), BatchState::Completed);
    assert_eq!(batch.resume_line(), None);
    assert_eq!(batch.remaining().len(), 0);
}

#[test]
fn all_succeeding_completes_without_questions() {
    let mut batch = Batch::new(three());
    assert_eq!(run(batch.step(BatchEvent::Answer(true))), "<start>");
    assert_eq!(run(batch.step(BatchEvent::Ready)), "first");
    assert_eq!(run(batch.step(BatchEvent::Outcome(true))), "second");
    assert_eq!(run(batch.step(BatchEvent::Outcome(true))), "third");
    assert_eq!(run(batch.step(BatchEvent::Outcome(true))), "<stop>");
    assert_eq!(batch.state(), BatchState::Completed);
    assert_eq!(batch.resume_line(), None);
}

#[test]
fn declining_runs_nothing_and_shows_everything() {
    let mut batch = Batch::new(three());
    assert_eq!(run(batch.step(BatchEvent::Answer(false))), "<stop>");
    assert_eq!(batch.state(), BatchState::Declined);
    assert_eq!(commands(&batch.remaining()), commands(&three()));
    assert_eq!(
        batch.resume_line(),
        Some("git fetch origin r1 && git checkout FETCH_HEAD && git fetch origin r2 && git checkout FETCH_HEAD && git fetch origin r3 && git checkout FETCH_HEAD".to_string())
    );
    assert_eq!(run(batch.step(BatchEvent::Answer(true))), "<ignored>");
    assert_eq!(run(batch.step(BatchEvent::Ready)), "<ignored>");
    assert_eq!(batch.state(), BatchState::Declined);
}

#[test]
fn an_empty_batch_completes_at_once() {
    let mut batch = Batch::new(vec![]);
    assert_eq!(batch.resume_line(), None);
    assert_eq!(run(batch.step(BatchEvent::Answer(true))), "<start>");
    assert_eq!(run(batch.step(BatchEvent::Ready)), "<stop>");
    assert_eq!(batch.state(), BatchState::Completed);
    let mut declined = Batch::new(vec![]);
    assert_eq!(run(declined.step(BatchEvent::Answer(false))), "<stop>");
    assert_eq!(declined.state(), BatchState::Declined);
    assert_eq!(declined.resume_line(), None);
}

#[test]
fn events_that_do_not_fit_are_ignored() {
    let mut batch = Batch::new(three());
    assert_eq!(run(batch.step(BatchEvent::Ready)), "<ignored>");
    assert_eq!(run(batch.step(BatchEvent::Outcome(true))), "<ignored>");
    assert_eq!(batch.state(), BatchState::Planned);
    batch.step(BatchEvent::Answer(true));
    assert_eq!(run(batch.step(BatchEvent::Answer(true))), "<ignored>");
    assert_eq!(run(batch.step(BatchEvent::Outcome(false))), "<ignored>");
    assert_eq!(batch.state(), BatchState::Confirmed);
    batch.step(BatchEvent::Ready);
    assert_eq!(run(batch.step(BatchEvent::Answer(false))), "<ignored>");
    assert_eq!(run(batch.step(BatchEvent::Ready)), "<ignored>");
    assert_eq!(batch.state(), BatchState::Running);
    assert_eq!(batch.remaining().len(), 2);
    batch.step(BatchEvent::Outcome(false));
    assert_eq!(run(batch.step(BatchEvent::Outcome(true))), "<ignored>");
    assert_eq!(run(batch.step(BatchEvent::Ready)), "<ignored>");
    assert_eq!(batch.state(), BatchState::Asking);
}

#[test]
fn a_failure_of_the_last_command_asks_nothing() {
    let mut batch = Batch::new(three().into_iter().take(1).collect());
    batch.step(BatchEvent::Answer(true));
    assert_eq!(run(batch.step(BatchEvent::Ready)), "first");
    assert_eq!(run(batch.step(BatchEvent::Outcome(false))), "<stop>");
    assert_eq!(batch.state(), BatchState::Completed);
    assert_eq!(batch.resume_line(), None);
}

#[test]
fn method_names() {
    assert_eq!(Method::Checkout.display_name(), "Checkout");
    assert_eq!(Method::CherryPick.display_name(), "Cherry-Pick");
    assert_eq!(Method::Checkout.subcommand(), "checkout");
    assert_eq!(Method::CherryPick.subcommand(), "cherry-pick");
}

#[test]
fn declining_a_repo_batch_shows_the_download_in_the_resume_line() {
    for (method, line) in [
        (Method::CherryPick, "repo download dummy.git 41/1 --cherry-pick"),
        (Method::Checkout, "repo download dummy.git 41/1"),
    ] {
        let mut set = RefSet::new();
        set.insert("dummy - A - X".to_string(), "dummy.git 41/1".to_string());
        let mut batch = Batch::new(plan(&set, RepoType::Repo, method));
        assert_eq!(run(batch.step(BatchEvent::Answer(false))), "<stop>");
        assert_eq!(batch.resume_line(), Some(line.to_string()));
    }
}
