use grt::batch::Commit;
use grt::commit_info::{Field, ParseError, Schema};
use grt::remote::{QueryError, RemoteUrl};
use grt::repo_info::RepoType;
use grt::session::{Candidate, Failure, Phase, Session, SessionAction, SessionEvent};
use grt::settings::Method;

const ANSWER: &str = "{\"project\":\"dummy\",\"branch\":\"main\",\"subject\":\"one\",\"topic\":\"T1\",\"commitMessage\":\"one\\n\",\"currentPatchSet\":{\"ref\":\"refs/changes/41/41/1\",\"author\":{\"name\":\"Administrator\"},\"files\":[]}}\n{\"project\":\"dummy\",\"branch\":\"main\",\"subject\":\"two\",\"commitMessage\":\"two\\n\",\"currentPatchSet\":{\"ref\":\"refs/changes/02/2/2\",\"author\":{\"name\":\"Administrator\"},\"files\":[{\"file\":\"/COMMIT_MSG\"},{\"file\":\"a.rs\",\"type\":\"MODIFIED\",\"insertions\":3,\"deletions\":-1}]}}\n{\"type\":\"stats\",\"rowCount\":2}\n";

const TOPIC_ANSWER: &str = "{\"project\":\"dummy\",\"branch\":\"main\",\"subject\":\"one\",\"topic\":\"T1\",\"commitMessage\":\"one\\n\",\"currentPatchSet\":{\"ref\":\"refs/changes/41/41/1\",\"author\":{\"name\":\"Administrator\"},\"files\":[]}}\n{\"project\":\"other\",\"branch\":\"main\",\"subject\":\"sibling\",\"topic\":\"T1\",\"commitMessage\":\"sibling\\n\",\"currentPatchSet\":{\"ref\":\"refs/changes/42/42/3\",\"author\":{\"name\":\"Administrator\"},\"files\":[]}}\n{\"type\":\"stats\",\"rowCount\":2}\n";

fn strings(words: &[&str]) -> Vec<String> {
    words.iter().map(|w| w.to_string()).collect()
}

fn show(action: SessionAction) -> String {
    match action {
        SessionAction::Query(argv) => format!("query {}", argv.join(" ")),
        SessionAction::Choose(list) => format!(
            "choose {}",
            list.iter()
                .map(|c: &Candidate| format!("[{}|{}|{}]", c.text, c.preview, c.output))
                .collect::<Vec<String>>()
                .join("")
        ),
        SessionAction::AskExpand(topics) => format!("expand? {}", topics.join(",")),
        SessionAction::AskProceed(titles) => format!("proceed? {}", titles.join(",")),
        SessionAction::Start => "start".to_string(),
        SessionAction::Run(Commit { title, command }) => format!("run {}: {}", title, command),
        SessionAction::AskContinue => "continue?".to_string(),
        SessionAction::Stop(Some(line)) => format!("stop: {}", line),
        SessionAction::Stop(None) => "stop".to_string(),
        SessionAction::Fail(Failure::Cancelled) => "fail: cancelled".to_string(),
        SessionAction::Fail(Failure::Query(e)) => format!("fail: {}", e.message()),
        SessionAction::Fail(Failure::Record(e)) => format!("fail: {}", e.message()),
        SessionAction::Ignored => "ignored".to_string(),
    }
}

fn response(output: &str) -> SessionEvent {
    SessionEvent::Response { success: true, output: output.to_string() }
}

const QUERY: &str = "query ssh ssh://h gerrit query --format=JSON --current-patch-set --files --commit-message";

#[test]
fn a_run_in_a_repo_workspace_with_a_topic() {
    let remote = RemoteUrl::new("ssh://h");
    let (mut s, first) = Session::new(&remote, RepoType::Repo, Method::CherryPick, "limit:200 status:open fix");
    assert_eq!(show(first), format!("{} limit:200 status:open fix", QUERY));
    assert_eq!(s.phase(), Phase::Fetching);
    assert_eq!(
        show(s.step(response(ANSWER))),
        "choose [dummy - one - Administrator|one\n\n---\n\nBranch: main\n\n|dummy.git 41/1][dummy - two - Administrator|two\n\n---\n\nBranch: main\n\nM a.rs +3 --1|dummy.git 2/2]"
    );
    assert_eq!(s.phase(), Phase::Choosing);
    assert_eq!(show(s.step(SessionEvent::Chosen(vec![0]))), "expand? T1");
    assert_eq!(s.phase(), Phase::AskingTopics);
    assert_eq!(show(s.step(SessionEvent::Answer(true))), format!("{} status:open topic:T1", QUERY));
    assert_eq!(s.phase(), Phase::Querying);
    assert_eq!(
        show(s.step(response(TOPIC_ANSWER))),
        "proceed? dummy - one - Administrator,other - sibling - Administrator"
    );
    assert_eq!(s.phase(), Phase::Executing);
    assert_eq!(show(s.step(SessionEvent::Answer(true))), "start");
    assert_eq!(
        show(s.step(SessionEvent::Ready)),
        "run dummy - one - Administrator: repo download dummy.git 41/1 --cherry-pick"
    );
    assert_eq!(
        show(s.step(SessionEvent::Outcome(true))),
        "run other - sibling - Administrator: repo download other.git 42/3 --cherry-pick"
    );
    assert_eq!(s.phase(), Phase::Executing);
    assert_eq!(show(s.step(SessionEvent::Outcome(true))), "stop");
    assert_eq!(s.phase(), Phase::Ended);
    assert_eq!(show(s.step(SessionEvent::Ready)), "ignored");
    assert_eq!(show(s.step(response(ANSWER))), "ignored");
}

#[test]
fn a_run_in_a_git_workspace_without_topics() {
    let remote = RemoteUrl::new("ssh://h");
    let (mut s, _) = Session::new(&remote, RepoType::Git, Method::Checkout, "x");
    assert_eq!(
        show(s.step(response(ANSWER))),
        "choose [one - Administrator|one\n\n---\n\nBranch: main\n\n|refs/changes/41/41/1][two - Administrator|two\n\n---\n\nBranch: main\n\nM a.rs +3 --1|refs/changes/02/2/2]"
    );
    assert_eq!(
        show(s.step(SessionEvent::Chosen(vec![1, 7, 1]))),
        "proceed? two - Administrator"
    );
    assert_eq!(show(s.step(SessionEvent::Answer(true))), "start");
    assert_eq!(
        show(s.step(SessionEvent::Ready)),
        "run two - Administrator: git fetch origin refs/changes/02/2/2 && git checkout FETCH_HEAD"
    );
    assert_eq!(show(s.step(SessionEvent::Outcome(false))), "stop");
    assert_eq!(s.phase(), Phase::Ended);
}

#[test]
fn declining_the_topics_keeps_the_choice() {
    let remote = RemoteUrl::new("ssh://h");
    let (mut s, _) = Session::new(&remote, RepoType::Git, Method::Checkout, "x");
    s.step(response(ANSWER));
    assert_eq!(show(s.step(SessionEvent::Chosen(vec![1, 0]))), "expand? T1");
    assert_eq!(
        show(s.step(SessionEvent::Answer(false))),
        "proceed? two - Administrator,one - Administrator"
    );
    assert_eq!(
        show(s.step(SessionEvent::Answer(false))),
        "stop: git fetch origin refs/changes/02/2/2 && git checkout FETCH_HEAD && git fetch origin refs/changes/41/41/1 && git checkout FETCH_HEAD"
    );
    assert_eq!(s.phase(), Phase::Ended);
}

#[test]
fn a_topic_query_without_answer_finds_nothing() {
    let remote = RemoteUrl::new("ssh://h");
    for event in [
        SessionEvent::Response { success: false, output: TOPIC_ANSWER.to_string() },
        SessionEvent::Response { success: true, output: "no json\nat all\nstats\n".to_string() },
        SessionEvent::Response { success: false, output: String::new() },
    ] {
        let (mut s, _) = Session::new(&remote, RepoType::Repo, Method::Checkout, "x");
        s.step(response(ANSWER));
        s.step(SessionEvent::Chosen(vec![0]));
        s.step(SessionEvent::Answer(true));
        assert_eq!(show(s.step(event)), "proceed? dummy - one - Administrator");
    }
}

#[test]
fn a_topic_answer_with_a_broken_record_ends_the_run() {
    let remote = RemoteUrl::new("ssh://h");
    let (mut s, _) = Session::new(&remote, RepoType::Repo, Method::Checkout, "x");
    s.step(response(ANSWER));
    s.step(SessionEvent::Chosen(vec![0]));
    s.step(SessionEvent::Answer(true));
    assert_eq!(
        show(s.step(response("{\"project\":\"dummy\"}\nstats\n"))),
        "fail: Failed to find commit subject (SSH schema)"
    );
    assert_eq!(s.phase(), Phase::Ended);
}

#[test]
fn the_first_query_must_have_an_answer() {
    let remote = RemoteUrl::new("https://h");
    let (mut s, first) = Session::new(&remote, RepoType::Git, Method::Checkout, "a b");
    assert_eq!(
        show(first),
        "query curl --netrc --request GET --url https://h/changes/?q=a+b&o=CURRENT_REVISION&o=CURRENT_COMMIT&o=CURRENT_FILES --header Content-Type: application/json"
    );
    assert_eq!(
        show(s.step(SessionEvent::Response { success: false, output: ")]}'\n[]".to_string() })),
        "fail: Failed to fetch commit data"
    );
    assert_eq!(s.phase(), Phase::Ended);
    let (mut s, _) = Session::new(&remote, RepoType::Git, Method::Checkout, "a b");
    assert_eq!(show(s.step(response("<html>"))), "fail: Failed to parse commit data");
    let (mut s, _) = Session::new(&remote, RepoType::Git, Method::Checkout, "a b");
    assert_eq!(
        show(s.step(response(")]}'\n[{\"project\":\"p\",\"subject\":\"s\",\"branch\":\"b\"}]"))),
        "fail: Failed to find commit author (HTTP schema)"
    );
    let (mut s, _) = Session::new(&remote, RepoType::Git, Method::Checkout, "a b");
    assert_eq!(show(s.step(response(")]}'\n[]"))), "choose ");
    assert_eq!(show(s.step(SessionEvent::Chosen(vec![]))), "proceed? ");
    assert_eq!(show(s.step(SessionEvent::Answer(true))), "start");
    assert_eq!(show(s.step(SessionEvent::Ready)), "stop");
}

#[test]
fn leaving_the_chooser_ends_the_run() {
    let remote = RemoteUrl::new("ssh://h");
    let (mut s, _) = Session::new(&remote, RepoType::Git, Method::Checkout, "x");
    s.step(response(ANSWER));
    assert_eq!(show(s.step(SessionEvent::Cancelled)), "fail: cancelled");
    assert_eq!(s.phase(), Phase::Ended);
    assert_eq!(show(s.step(SessionEvent::Chosen(vec![0]))), "ignored");
}

#[test]
fn two_topics_are_asked_for_in_turn() {
    let remote = RemoteUrl::new("ssh://h");
    let answer = "{\"project\":\"p\",\"branch\":\"b\",\"subject\":\"a\",\"topic\":\"T1\",\"commitMessage\":\"m\",\"currentPatchSet\":{\"ref\":\"refs/changes/01/1/1\",\"author\":{\"name\":\"A\"}}}\n{\"project\":\"p\",\"branch\":\"b\",\"subject\":\"b\",\"topic\":\"T2\",\"commitMessage\":\"m\",\"currentPatchSet\":{\"ref\":\"refs/changes/02/2/1\",\"author\":{\"name\":\"A\"}}}\n{\"project\":\"p\",\"branch\":\"b\",\"subject\":\"c\",\"topic\":\"T1\",\"commitMessage\":\"m\",\"currentPatchSet\":{\"ref\":\"refs/changes/03/3/1\",\"author\":{\"name\":\"A\"}}}\nstats\n";
    let (mut s, _) = Session::new(&remote, RepoType::GitInRepo, Method::Checkout, "");
    s.step(response(answer));
    assert_eq!(show(s.step(SessionEvent::Chosen(vec![2, 1, 0]))), "expand? T1,T2");
    assert_eq!(show(s.step(SessionEvent::Answer(true))), format!("{} status:open topic:T1", QUERY));
    assert_eq!(show(s.step(SessionEvent::Answer(true))), "ignored");
    assert_eq!(show(s.step(response("stats\n"))), format!("{} status:open topic:T2", QUERY));
    assert_eq!(
        show(s.step(response(answer))),
        "proceed? p - c - A,p - b - A,p - a - A"
    );
    assert_eq!(show(s.step(SessionEvent::Answer(true))), "start");
    assert_eq!(show(s.step(SessionEvent::Ready)), "run p - c - A: repo download p.git 3/1");
    assert_eq!(show(s.step(SessionEvent::Outcome(false))), "continue?");
    assert_eq!(
        show(s.step(SessionEvent::Answer(false))),
        "stop: repo download p.git 2/1 && repo download p.git 1/1"
    );
    assert_eq!(strings(&["x"]), vec!["x".to_string()]);
    assert!(matches!(Failure::Query(QueryError::Parse), Failure::Query(_)));
    assert_eq!(
        Failure::Record(ParseError { schema: Schema::Ssh, field: Field::Branch }),
        Failure::Record(ParseError { schema: Schema::Ssh, field: Field::Branch })
    );
}

#[test]
fn declining_in_a_repo_workspace_shows_the_download_to_run_later() {
    let remote = RemoteUrl::new("ssh://h");
    let answer = "{\"project\":\"dummy\",\"branch\":\"main\",\"subject\":\"A\",\"commitMessage\":\"m\",\"currentPatchSet\":{\"ref\":\"refs/changes/41/41/1\",\"author\":{\"name\":\"X\"}}}\nstats\n";
    for (method, line) in [
        (Method::CherryPick, "stop: repo download dummy.git 41/1 --cherry-pick"),
        (Method::Checkout, "stop: repo download dummy.git 41/1"),
    ] {
        let (mut s, _) = Session::new(&remote, RepoType::Repo, method, "x");
        s.step(response(answer));
        assert_eq!(show(s.step(SessionEvent::Chosen(vec![0]))), "proceed? dummy - A - X");
        assert_eq!(show(s.step(SessionEvent::Answer(false))), line);
    }
}

#[test]
fn an_answer_with_too_long_a_run_of_digits_is_a_parse_error() {
    let remote = RemoteUrl::new("https://h");
    let (mut s, _) = Session::new(&remote, RepoType::Git, Method::Checkout, "x");
    let body = format!(")]}}'\n[0.{}]", "0".repeat(40000));
    assert_eq!(show(s.step(response(&body))), "fail: Failed to parse commit data");
}
