use grt::commit_info::CommitInfo;
use grt::remote::{QueryError, RemoteUrl};

fn address(url: &RemoteUrl) -> (&'static str, String) {
    match url {
        RemoteUrl::SSH(a) => ("ssh", a.clone()),
        RemoteUrl::HTTP(b) => ("http", b.clone()),
    }
}

#[test]
fn new_keeps_an_ssh_url_as_it_is() {
    assert_eq!(
        address(&RemoteUrl::new("ssh://gerrit.example.com:29418")),
        ("ssh", "ssh://gerrit.example.com:29418".to_string())
    );
    assert_eq!(address(&RemoteUrl::new("ssh://")), ("ssh", "ssh://".to_string()));
}

#[test]
fn new_ends_an_http_url_with_a_slash() {
    assert_eq!(
        address(&RemoteUrl::new("http://gerrit.example.com")),
        ("http", "http://gerrit.example.com/".to_string())
    );
    assert_eq!(
        address(&RemoteUrl::new("https://gerrit.example.com/a")),
        ("http", "https://gerrit.example.com/a/".to_string())
    );
    assert_eq!(
        address(&RemoteUrl::new("https://gerrit.example.com/a/")),
        ("http", "https://gerrit.example.com/a/".to_string())
    );
    assert_eq!(address(&RemoteUrl::new("http://")), ("http", "http://".to_string()));
}

#[test]
fn supports_only_the_three_schemes() {
    assert!(RemoteUrl::supports("ssh://host"));
    assert!(RemoteUrl::supports("http://host"));
    assert!(RemoteUrl::supports("https://host"));
    assert!(!RemoteUrl::supports("git://host"));
    assert!(!RemoteUrl::supports("ssh:/host"));
    assert!(!RemoteUrl::supports(" https://host"));
    assert!(!RemoteUrl::supports("HTTP://host"));
    assert!(!RemoteUrl::supports(""));
}

#[test]
fn full_url_for_ssh_is_the_query_command() {
    let url = RemoteUrl::new("ssh://gerrit.example.com:29418");
    assert_eq!(
        url.full_url("limit:200 status:open project:dummy fix"),
        "ssh://gerrit.example.com:29418 gerrit query --format=JSON --current-patch-set --files --commit-message limit:200 status:open project:dummy fix"
    );
    assert_eq!(
        url.full_url(""),
        "ssh://gerrit.example.com:29418 gerrit query --format=JSON --current-patch-set --files --commit-message "
    );
}

#[test]
fn full_url_for_http_puts_plus_for_space() {
    let url = RemoteUrl::new("https://gerrit.example.com");
    assert_eq!(
        url.full_url("status:open topic:T1"),
        "https://gerrit.example.com/changes/?q=status:open+topic:T1&o=CURRENT_REVISION&o=CURRENT_COMMIT&o=CURRENT_FILES"
    );
    assert_eq!(
        url.full_url("a  b+c "),
        "https://gerrit.example.com/changes/?q=a++b+c+&o=CURRENT_REVISION&o=CURRENT_COMMIT&o=CURRENT_FILES"
    );
}

#[test]
fn ssh_document_drops_the_statistics_line() {
    let url = RemoteUrl::new("ssh://h");
    let out = "{\"a\":1}\n{\"b\":2}\n{\"type\":\"stats\",\"rowCount\":2}\n";
    assert_eq!(url.document(out), "[{\"a\":1},{\"b\":2}]");
    assert_eq!(url.document("{\"a\":1}\r\n{\"b\":2}\r\nstats"), "[{\"a\":1},{\"b\":2}]");
    assert_eq!(url.document("{\"type\":\"stats\"}\n"), "[]");
    assert_eq!(url.document(""), "[]");
    assert_eq!(url.document("\n\n"), "[]");
    assert_eq!(url.document("a\n\nb\n"), "[a,]");
}

#[test]
fn http_document_drops_the_first_line() {
    let url = RemoteUrl::new("http://h");
    assert_eq!(url.document(")]}'\n[{\"a\":1}]\n"), "[{\"a\":1}]\n");
    assert_eq!(url.document(")]}'\n[{\"a\":1}]"), "[{\"a\":1}]");
    assert_eq!(
        url.document(")]}'\n[\n  {\"a\": 1},\n  {\"b\": 2}\n]\n"),
        "[\n  {\"a\": 1},\n  {\"b\": 2}\n]\n"
    );
    assert_eq!(url.document("x\na\nb"), "a\nb");
    assert_eq!(url.document(")]}'"), "");
    assert_eq!(url.document(""), "");
    assert_eq!(url.document("[1]"), "");
    assert_eq!(url.document("\n[1]\r\n"), "[1]\r\n");
    assert_eq!(url.document("\n"), "");
    assert_eq!(url.document("\n\n"), "\n");
}

#[test]
fn http_body_behind_the_marker_parses() {
    let url = RemoteUrl::new("https://gerrit.example.com/");
    let body = ")]}'\n[\n  {\n    \"project\": \"dummy\",\n    \"branch\": \"main\",\n    \"subject\": \"follow-up commit\",\n    \"current_revision\": \"abc\",\n    \"revisions\": {\n      \"abc\": {\n        \"ref\": \"refs/changes/41/41/1\",\n        \"commit\": {\"author\": {\"name\": \"Administrator\"}, \"message\": \"follow-up commit\\n\"},\n        \"files\": {}\n      }\n    }\n  }\n]\n";
    let value = url.read_response(true, body).unwrap();
    assert!(value.is_array());
    assert_eq!(value.len(), 1);
    let commits = CommitInfo::parse_json(&url, &value).unwrap();
    assert_eq!(
        commits,
        vec![CommitInfo::new(
            "dummy",
            "follow-up commit",
            "follow-up commit\n",
            "Administrator",
            "main",
            "refs/changes/41/41/1",
            vec![],
            None
        )]
    );
}

#[test]
fn http_body_with_the_marker_left_in_would_not_parse() {
    assert!(json::parse(")]}'\n[1]").is_err());
    let url = RemoteUrl::new("https://gerrit.example.com/");
    assert_eq!(url.read_response(true, ")]}'\n[1]"), Ok(json::parse("[1]").unwrap()));
}

#[test]
fn ssh_answer_parses_to_its_records() {
    let url = RemoteUrl::new("ssh://gerrit.example.com");
    let out = "{\"project\":\"dummy\",\"branch\":\"main\",\"subject\":\"s\",\"commitMessage\":\"m\",\"currentPatchSet\":{\"ref\":\"refs/changes/02/2/2\",\"author\":{\"name\":\"A\"},\"files\":[]}}\n{\"type\":\"stats\",\"rowCount\":1,\"runTimeMilliseconds\":3,\"moreChanges\":false}\n";
    let value = url.read_response(true, out).unwrap();
    let commits = CommitInfo::parse_json(&url, &value).unwrap();
    assert_eq!(
        commits,
        vec![CommitInfo::new("dummy", "s", "m", "A", "main", "refs/changes/02/2/2", vec![], None)]
    );
}

#[test]
fn an_answer_that_is_no_json_is_a_parse_error() {
    let ssh = RemoteUrl::new("ssh://h");
    assert_eq!(ssh.read_response(true, "fatal: not found\nmore\nstats\n"), Err(QueryError::Parse));
    let http = RemoteUrl::new("http://h");
    assert_eq!(http.read_response(true, "<html>no</html>"), Err(QueryError::Parse));
    assert_eq!(http.read_response(true, ""), Err(QueryError::Parse));
    assert_eq!(ssh.read_response(true, ""), Ok(json::JsonValue::new_array()));
}

#[test]
fn a_transport_that_failed_is_a_transport_error() {
    let ssh = RemoteUrl::new("ssh://h");
    assert_eq!(ssh.read_response(false, "{\"a\":1}\nstats\n"), Err(QueryError::Transport));
    assert_eq!(ssh.read_response(false, ""), Err(QueryError::Transport));
    let http = RemoteUrl::new("http://h");
    assert_eq!(http.read_response(false, ")]}'\n[1]"), Err(QueryError::Transport));
    assert_eq!(QueryError::Transport.message(), "Failed to fetch commit data");
    assert_eq!(QueryError::Parse.message(), "Failed to parse commit data");
}

#[test]
fn an_optional_query_without_answer_holds_no_change() {
    let ssh = RemoteUrl::new("ssh://h");
    for (success, output) in [(false, "{\"a\":1}\nstats\n"), (true, "fatal\nmore\nstats\n"), (false, "")] {
        let value = ssh.read_optional_response(success, output);
        assert!(value.is_object());
        assert_eq!(value.len(), 0);
        assert_eq!(CommitInfo::parse_json(&ssh, &value), Ok(vec![]));
    }
    let http = RemoteUrl::new("http://h");
    let value = http.read_optional_response(true, "<html>no</html>");
    assert!(value.is_object());
    assert_eq!(value.len(), 0);
    assert_eq!(http.read_optional_response(true, ")]}'\n[1,2]"), json::parse("[1,2]").unwrap());
}

#[test]
fn command_for_ssh_is_ssh_with_the_words_of_the_request() {
    let url = RemoteUrl::new("ssh://gerrit.example.com:29418");
    assert_eq!(
        url.command("status:open  topic:T1 "),
        vec![
            "ssh",
            "ssh://gerrit.example.com:29418",
            "gerrit",
            "query",
            "--format=JSON",
            "--current-patch-set",
            "--files",
            "--commit-message",
            "status:open",
            "topic:T1",
        ]
    );
    assert_eq!(url.command("").len(), 8);
}

#[test]
fn command_for_http_is_curl_with_the_url() {
    let url = RemoteUrl::new("https://gerrit.example.com");
    assert_eq!(
        url.command("status:open topic:T1"),
        vec![
            "curl",
            "--netrc",
            "--request",
            "GET",
            "--url",
            "https://gerrit.example.com/changes/?q=status:open+topic:T1&o=CURRENT_REVISION&o=CURRENT_COMMIT&o=CURRENT_FILES",
            "--header",
            "Content-Type: application/json",
        ]
    );
}

#[test]
fn a_raw_line_feed_inside_a_string_is_no_json() {
    let url = RemoteUrl::new("https://gerrit.example.com/");
    assert_eq!(url.read_response(true, ")]}'\n[\"a\nb\"]"), Err(QueryError::Parse));
    assert_eq!(
        url.read_response(true, ")]}'\n[\"a\\nb\",\n1]"),
        Ok(json::parse("[\"a\\nb\",1]").unwrap())
    );
}

#[test]
fn the_first_line_of_an_http_body_does_not_count() {
    let url = RemoteUrl::new("https://gerrit.example.com/");
    let rest = "[\n {\"a\": [1, 2]},\n \"x\"\n]\n";
    for first in [")]}'", "", "[1]", "{\"not\": \"read\"}", "\"", "\r"] {
        let body = format!("{}\n{}", first, rest);
        assert_eq!(url.document(&body), rest);
        assert_eq!(url.read_response(true, &body), Ok(json::parse(rest).unwrap()));
    }
}

#[test]
fn a_document_with_too_long_a_run_of_digits_is_kept_from_the_parser() {
    let ssh = RemoteUrl::new("ssh://h");
    let long = format!("{{\"n\":0.{}}}\nstats\n", "0".repeat(32768));
    assert_eq!(ssh.read_response(true, &long), Err(QueryError::Parse));
    let value = ssh.read_optional_response(true, &long);
    assert!(value.is_object());
    assert_eq!(value.len(), 0);
    let in_a_string = format!("{{\"n\":\"{}\"}}\nstats\n", "7".repeat(32768));
    assert_eq!(ssh.read_response(true, &in_a_string), Err(QueryError::Parse));
    let short = format!("{{\"n\":0.{}}}\nstats\n", "0".repeat(32766));
    assert!(ssh.read_response(true, &short).is_ok());
    let parted = format!("[{}]\nstats\n", vec!["1".repeat(30000); 3].join(","));
    assert!(ssh.read_response(true, &parted).is_ok());
    let http = RemoteUrl::new("http://h");
    let body = format!(")]}}'\n[1e{}]", "9".repeat(40000));
    assert_eq!(http.read_response(true, &body), Err(QueryError::Parse));
}
