//! The review server and its two transports: how a query is put to each, and
//! how the raw answer of each becomes one JSON document.

use crate::json_spec::{json_model, parsed, readable, JsonModel, MAX_DIGITS};
use crate::text::{
    digit_runs_within_str, ends_with, join, join_strs, lemma_join_split, lemma_split_around,
    lemma_split_pieces, lemma_split_whole, lines, lines_of, replace_char, replace_char_str, split,
    split_str, starts_with, texts, words, words_of,
};
use vstd::prelude::*;

verus! {

/// Where the review server is reached, as mathematics.
pub enum RemoteEndpoint {
    /// The address of the server's SSH command interface.
    Ssh(Seq<char>),
    /// The base URL of the server's REST interface; it ends with `/`.
    Http(Seq<char>),
}

/// Where the review server is reached.
pub enum RemoteUrl {
    SSH(String),
    HTTP(String),
}

impl View for RemoteUrl {
    type V = RemoteEndpoint;

    open spec fn view(&self) -> RemoteEndpoint {
        match self {
            RemoteUrl::SSH(address) => RemoteEndpoint::Ssh(address@),
            RemoteUrl::HTTP(base) => RemoteEndpoint::Http(base@),
        }
    }
}

/// Whether `url` names a transport that this crate speaks.
pub open spec fn is_supported(url: Seq<char>) -> bool {
    "ssh://"@.is_prefix_of(url) || "http://"@.is_prefix_of(url) || "https://"@.is_prefix_of(url)
}

/// The endpoint that a supported `url` stands for. An HTTP URL gets a `/` at
/// its end unless it has one.
pub open spec fn endpoint_of(url: Seq<char>) -> RemoteEndpoint {
    if "ssh://"@.is_prefix_of(url) {
        RemoteEndpoint::Ssh(url)
    } else if "/"@.is_suffix_of(url) {
        RemoteEndpoint::Http(url)
    } else {
        RemoteEndpoint::Http(url + "/"@)
    }
}

/// What is handed to the transport to put `query` to `endpoint`: for SSH the
/// remote command line behind the address, for HTTP the URL to get.
pub open spec fn request(endpoint: RemoteEndpoint, query: Seq<char>) -> Seq<char> {
    match endpoint {
        RemoteEndpoint::Ssh(address) => address
            + " gerrit query --format=JSON --current-patch-set --files --commit-message "@ + query,
        RemoteEndpoint::Http(base) => base + "changes/?q="@ + replace_char(query, ' ', '+')
            + "&o=CURRENT_REVISION&o=CURRENT_COMMIT&o=CURRENT_FILES"@,
    }
}

/// The program to run, and its arguments, to put `query` to `endpoint`:
/// `ssh` with the words of the request, or `curl` with the URL to get.
pub open spec fn command(endpoint: RemoteEndpoint, query: Seq<char>) -> Seq<Seq<char>> {
    match endpoint {
        RemoteEndpoint::Ssh(_) => seq!["ssh"@] + words(request(endpoint, query)),
        RemoteEndpoint::Http(_) => seq![
            "curl"@,
            "--netrc"@,
            "--request"@,
            "GET"@,
            "--url"@,
            request(endpoint, query),
            "--header"@,
            "Content-Type: application/json"@,
        ],
    }
}

/// The JSON array in the answer to an SSH query. The server writes one
/// object per line and a line of statistics after them: that last line is
/// left out, and the others become the members of an array.
pub open spec fn ssh_document(output: Seq<char>) -> Seq<char> {
    let all = lines(output);
    let records = if all.len() == 0 {
        all
    } else {
        all.drop_last()
    };
    "["@ + join(records, ","@) + "]"@
}

/// The JSON in the body of an HTTP answer. The server puts a line in front
/// of every body that is no JSON: all up to and including the first line
/// feed is left out, and the rest stays as it is. A body of one line holds
/// no document.
pub open spec fn http_document(body: Seq<char>) -> Seq<char> {
    join(split(body, '\n').skip(1), "\n"@)
}

/// The JSON document in the raw answer that came over `endpoint`.
pub open spec fn document(endpoint: RemoteEndpoint, output: Seq<char>) -> Seq<char> {
    match endpoint {
        RemoteEndpoint::Ssh(_) => ssh_document(output),
        RemoteEndpoint::Http(_) => http_document(output),
    }
}

/// Why a query has no answer.
#[derive(Clone, Copy, Debug, PartialEq, Eq, Structural)]
pub enum QueryError {
    /// The transport did not run or reported a failure.
    Transport,
    /// What the server wrote holds no JSON document.
    Parse,
}

/// What the answer to a query holds, from whether the transport reported
/// success and what it wrote. A document that the parser cannot be handed,
/// for the length of a run of digits in it, counts as one that is no JSON.
pub open spec fn answer(endpoint: RemoteEndpoint, success: bool, output: Seq<char>) -> Result<
    JsonModel,
    QueryError,
> {
    if !success {
        Err(QueryError::Transport)
    } else if !readable(document(endpoint, output)) {
        Err(QueryError::Parse)
    } else {
        match parsed(document(endpoint, output)) {
            Some(m) => Ok(m),
            None => Err(QueryError::Parse),
        }
    }
}

/// What the answer to a query that may fail holds: an object without
/// entries, and so no change, where there is no answer.
pub open spec fn lenient(answer: Result<JsonModel, QueryError>) -> JsonModel {
    match answer {
        Ok(m) => m,
        Err(_) => JsonModel::Object(Seq::empty()),
    }
}

/// Of a body that begins with a line that is no JSON, the document is what
/// follows that line: exactly the first line is dropped, whatever it holds.
pub proof fn lemma_http_document_drops_first_line(first: Seq<char>, rest: Seq<char>)
    requires
        !first.contains('\n'),
    ensures
        http_document(first + seq!['\n'] + rest) == rest,
{
    lemma_split_around(first, rest, '\n');
    lemma_split_whole(first, '\n');
    assert((seq![first] + split(rest, '\n')).skip(1) == split(rest, '\n'));
    lemma_join_split(rest, '\n');
    reveal_strlit("\n");
    assert("\n"@ == seq!['\n']);
}

/// What the answer to an HTTP query holds does not depend on the first
/// line of the body: it is what the rest of the body parses to.
pub proof fn lemma_http_answer_ignores_first_line(
    base: Seq<char>,
    first: Seq<char>,
    rest: Seq<char>,
)
    requires
        !first.contains('\n'),
    ensures
        answer(RemoteEndpoint::Http(base), true, first + seq!['\n'] + rest) == (if !readable(rest) {
            Err::<JsonModel, QueryError>(QueryError::Parse)
        } else {
            match parsed(rest) {
                Some(m) => Ok(m),
                None => Err(QueryError::Parse),
            }
        }),
{
    lemma_http_document_drops_first_line(first, rest);
}

impl QueryError {
    /// What to tell the user.
    pub fn message(&self) -> (r: &'static str)
        ensures
            r@ == match self {
                QueryError::Transport => "Failed to fetch commit data"@,
                QueryError::Parse => "Failed to parse commit data"@,
            },
    {
        match self {
            QueryError::Transport => "Failed to fetch commit data",
            QueryError::Parse => "Failed to parse commit data",
        }
    }
}

impl RemoteUrl {
    /// Whether the endpoint is what a supported URL gives: an SSH address
    /// begins with `ssh://`, an HTTP base begins with `http://` or `https://`
    /// and ends with `/`.
    pub open spec fn wf(&self) -> bool {
        match self {
            RemoteUrl::SSH(address) => "ssh://"@.is_prefix_of(address@),
            RemoteUrl::HTTP(base) => ("http://"@.is_prefix_of(base@) || "https://"@.is_prefix_of(
                base@,
            )) && "/"@.is_suffix_of(base@),
        }
    }

    /// Whether `url` can be handed to `new`.
    pub fn supports(url: &str) -> (r: bool)
        ensures
            r == is_supported(url@),
    {
        starts_with(url, "ssh://") || starts_with(url, "http://") || starts_with(url, "https://")
    }

    /// The endpoint for a URL that begins with `ssh://`, `http://` or
    /// `https://`.
    pub fn new(url: &str) -> (r: Self)
        requires
            is_supported(url@),
        ensures
            r@ == endpoint_of(url@),
            r.wf(),
    {
        if starts_with(url, "ssh://") {
            RemoteUrl::SSH(String::from_str(url))
        } else if ends_with(url, "/") {
            RemoteUrl::HTTP(String::from_str(url))
        } else {
            let mut base = String::from_str(url);
            base.append("/");
            proof {
                let slash = "/"@;
                assert((url@ + slash).skip((url@ + slash).len() - slash.len()) == slash);
                if "http://"@.is_prefix_of(url@) {
                    assert((url@ + slash).take("http://"@.len() as int) == url@.take(
                        "http://"@.len() as int,
                    ));
                } else {
                    assert((url@ + slash).take("https://"@.len() as int) == url@.take(
                        "https://"@.len() as int,
                    ));
                }
            }
            RemoteUrl::HTTP(base)
        }
    }

    /// What to hand to the transport to put `query` to the server.
    pub fn full_url(&self, query: &str) -> (r: String)
        ensures
            r@ == request(self@, query@),
    {
        match self {
            RemoteUrl::SSH(address) => {
                let mut out = address.clone();
                out.append(" gerrit query --format=JSON --current-patch-set --files --commit-message ");
                out.append(query);
                out
            },
            RemoteUrl::HTTP(base) => {
                let mut out = base.clone();
                out.append("changes/?q=");
                let escaped = replace_char_str(query, ' ', '+');
                out.append(escaped.as_str());
                out.append("&o=CURRENT_REVISION&o=CURRENT_COMMIT&o=CURRENT_FILES");
                out
            },
        }
    }

    /// The program to run, and its arguments, to put `query` to the server.
    /// What the program writes to its standard output is the raw answer.
    pub fn command(&self, query: &str) -> (r: Vec<String>)
        ensures
            texts(r@) == command(self@, query@),
    {
        let url = self.full_url(query);
        match self {
            RemoteUrl::SSH(_) => {
                let arguments = words_of(url.as_str());
                let mut argv: Vec<String> = Vec::new();
                argv.push(String::from_str("ssh"));
                assert(texts(argv@) == seq!["ssh"@]);
                let mut i: usize = 0;
                assert(texts(arguments@).take(0) == Seq::<Seq<char>>::empty());
                while i < arguments.len()
                    invariant
                        i <= arguments.len(),
                        texts(argv@) == seq!["ssh"@] + texts(arguments@).take(i as int),
                    decreases arguments.len() - i,
                {
                    let word = arguments[i].clone();
                    assert(texts(arguments@).take(i + 1) == texts(arguments@).take(i as int).push(
                        word@,
                    ));
                    assert(texts(argv@.push(word)) == texts(argv@).push(word@));
                    argv.push(word);
                    i += 1;
                }
                assert(texts(arguments@).take(arguments.len() as int) == texts(arguments@));
                argv
            },
            RemoteUrl::HTTP(_) => {
                let mut argv: Vec<String> = Vec::new();
                argv.push(String::from_str("curl"));
                argv.push(String::from_str("--netrc"));
                argv.push(String::from_str("--request"));
                argv.push(String::from_str("GET"));
                argv.push(String::from_str("--url"));
                argv.push(url);
                argv.push(String::from_str("--header"));
                argv.push(String::from_str("Content-Type: application/json"));
                assert(texts(argv@) == command(self@, query@));
                argv
            },
        }
    }

    /// The JSON document in the raw answer of the transport.
    pub fn document(&self, output: &str) -> (r: String)
        ensures
            r@ == document(self@, output@),
    {
        match self {
            RemoteUrl::SSH(_) => {
                let mut records = lines_of(output);
                let ghost all = texts(records@);
                if records.len() > 0 {
                    records.pop();
                    assert(texts(records@) == all.drop_last());
                }
                let body = join_strs(&records, ",");
                let mut out = String::from_str("[");
                out.append(body.as_str());
                out.append("]");
                out
            },
            RemoteUrl::HTTP(_) => {
                let pieces = split_str(output, '\n');
                proof {
                    lemma_split_pieces(output@, '\n');
                }
                let mut rest: Vec<String> = Vec::new();
                let mut i: usize = 1;
                assert(texts(pieces@).skip(1).take(0) == Seq::<Seq<char>>::empty());
                while i < pieces.len()
                    invariant
                        1 <= i <= pieces.len(),
                        texts(rest@) == texts(pieces@).skip(1).take(i - 1),
                    decreases pieces.len() - i,
                {
                    let piece = pieces[i].clone();
                    assert(texts(pieces@).skip(1).take(i as int) == texts(pieces@).skip(1).take(
                        i - 1,
                    ).push(piece@));
                    assert(texts(rest@.push(piece)) == texts(rest@).push(piece@));
                    rest.push(piece);
                    i += 1;
                }
                assert(texts(pieces@).skip(1).take(pieces.len() - 1) == texts(pieces@).skip(1));
                join_strs(&rest, "\n")
            },
        }
    }

    /// The answer to a query, from whether the transport reported success and
    /// what it wrote to its standard output.
    pub fn read_response(&self, success: bool, output: &str) -> (r: Result<
        json::JsonValue,
        QueryError,
    >)
        ensures
            match r {
                Ok(v) => Ok::<JsonModel, QueryError>(json_model(v)),
                Err(e) => Err(e),
            } == answer(self@, success, output@),
    {
        if !success {
            return Err(QueryError::Transport);
        }
        let text = self.document(output);
        if !digit_runs_within_str(text.as_str(), MAX_DIGITS) {
            return Err(QueryError::Parse);
        }
        match json::parse(text.as_str()) {
            Ok(value) => Ok(value),
            Err(_) => Err(QueryError::Parse),
        }
    }

    /// The answer to a query that may fail, such as the query for the
    /// changes of a topic: where there is no answer, it holds no change.
    pub fn read_optional_response(&self, success: bool, output: &str) -> (r: json::JsonValue)
        ensures
            json_model(r) == lenient(answer(self@, success, output@)),
    {
        match self.read_response(success, output) {
            Ok(value) => value,
            Err(_) => json::JsonValue::new_object(),
        }
    }
}

} // verus!
