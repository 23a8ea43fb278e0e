//! One reviewed change: how it is read from either wire schema, and the
//! texts that are derived from it.

use crate::json_spec::{
    entries, json_model, member, members, number_parts, render, text_of, JsonModel,
};
use crate::remote::{RemoteEndpoint, RemoteUrl};
use crate::repo_info::RepoType;
use crate::text::{
    copy_strs, decimal, decimal_str, join, join_strs, lemma_join_split, lemma_split_around,
    lemma_split_pieces, lemma_split_whole, same_text, split, split_str, texts,
};
use vstd::prelude::*;

verus! {

/// A change as mathematics.
pub struct CommitView {
    pub project: Seq<char>,
    pub subject: Seq<char>,
    pub message: Seq<char>,
    pub author: Seq<char>,
    pub branch: Seq<char>,
    pub reference: Seq<char>,
    pub files: Seq<Seq<char>>,
    pub topic: Option<Seq<char>>,
}

/// One reviewed change.
#[derive(Debug, Eq)]
pub struct CommitInfo {
    project: String,
    pub subject: String,
    message: String,
    author: String,
    branch: String,
    reference: String,
    files: Vec<String>,
    pub topic: Option<String>,
}

/// The wire schema of a record.
#[derive(Clone, Copy, Debug, PartialEq, Eq, Structural)]
pub enum Schema {
    Ssh,
    Http,
}

/// A field that every record must hold as a string.
#[derive(Clone, Copy, Debug, PartialEq, Eq, Structural)]
pub enum Field {
    Project,
    Subject,
    Author,
    Message,
    Reference,
    Branch,
}

/// A record lacks a required field.
#[derive(Clone, Copy, Debug, PartialEq, Eq, Structural)]
pub struct ParseError {
    pub schema: Schema,
    pub field: Field,
}

/// The schema that the server speaks over an endpoint.
pub open spec fn schema_of(endpoint: RemoteEndpoint) -> Schema {
    match endpoint {
        RemoteEndpoint::Ssh(_) => Schema::Ssh,
        RemoteEndpoint::Http(_) => Schema::Http,
    }
}

/// What is shown for a change in a list: project, subject and author, the
/// project only where the workspace holds more than one.
pub open spec fn title(c: CommitView, repo_type: RepoType) -> Seq<char> {
    let prefix = if repo_type == RepoType::Git {
        Seq::empty()
    } else {
        c.project + " - "@
    };
    prefix + c.subject + " - "@ + c.author
}

/// What is shown for a change in full: message, branch and files.
pub open spec fn body(c: CommitView) -> Seq<char> {
    c.message + "\n---\n\nBranch: "@ + c.branch + "\n\n"@ + join(c.files, "\n"@)
}

/// `parts` without its first `n` members; empty if it has no more.
pub open spec fn without_first(parts: Seq<Seq<char>>, n: nat) -> Seq<Seq<char>> {
    if parts.len() <= n {
        Seq::empty()
    } else {
        parts.skip(n as int)
    }
}

/// The reference in the form that the multi-repository tool takes: the
/// project, and the reference without its first three segments.
pub open spec fn repo_reference(c: CommitView) -> Seq<char> {
    c.project + ".git "@ + join(without_first(split(c.reference, '/'), 3), "/"@)
}

/// The reference in the form that the workspace takes.
pub open spec fn reference(c: CommitView, repo_type: RepoType) -> Seq<char> {
    if repo_type == RepoType::Git {
        c.reference
    } else {
        repo_reference(c)
    }
}

/// Of a reference with at least four segments, the form for the
/// multi-repository tool keeps what follows the third: for the project
/// `dummy`, `refs/changes/41/41/1` becomes `dummy.git 41/1`.
pub proof fn lemma_repo_reference(
    c: CommitView,
    first: Seq<char>,
    second: Seq<char>,
    third: Seq<char>,
    tail: Seq<char>,
)
    requires
        !first.contains('/'),
        !second.contains('/'),
        !third.contains('/'),
        c.reference == first + seq!['/'] + second + seq!['/'] + third + seq!['/'] + tail,
    ensures
        repo_reference(c) == c.project + ".git "@ + tail,
{
    let slash = seq!['/'];
    let after_second = third + slash + tail;
    let after_first = second + slash + after_second;
    assert(c.reference == first + slash + after_first);
    lemma_split_around(first, after_first, '/');
    lemma_split_around(second, after_second, '/');
    lemma_split_around(third, tail, '/');
    lemma_split_whole(first, '/');
    lemma_split_whole(second, '/');
    lemma_split_whole(third, '/');
    lemma_split_pieces(tail, '/');
    let rest = split(tail, '/');
    let parts = split(c.reference, '/');
    assert(parts == seq![first] + (seq![second] + (seq![third] + rest)));
    assert(parts.skip(3) == rest);
    lemma_join_split(tail, '/');
    reveal_strlit("/");
    assert("/"@ == slash);
}

/// The first entry of the file list of the SSH schema never shows among
/// the files of a change; every other entry does, in order.
pub proof fn lemma_ssh_files_skip_first(first: JsonModel, others: Seq<JsonModel>)
    ensures
        ssh_files(seq![first] + others) == others.map_values(|file: JsonModel| ssh_file_line(file)),
{
    assert((seq![first] + others).skip(1) == others);
}

/// Whether a required field is missing: a record must hold it, as a string
/// that is not empty.
pub open spec fn missing(field: Option<Seq<char>>) -> bool {
    match field {
        Some(s) => s.len() == 0,
        None => true,
    }
}

/// Whether a change holds all that a record must hold: project, subject,
/// author, message, reference and branch, none of them empty.
pub open spec fn complete(c: CommitView) -> bool {
    &&& c.project.len() > 0
    &&& c.subject.len() > 0
    &&& c.author.len() > 0
    &&& c.message.len() > 0
    &&& c.reference.len() > 0
    &&& c.branch.len() > 0
}

/// The record made of the fields read, or the first required field, in
/// the order project, subject, author, message, reference, branch, that
/// is missing.
pub open spec fn assembled(
    schema: Schema,
    project: Option<Seq<char>>,
    subject: Option<Seq<char>>,
    author: Option<Seq<char>>,
    message: Option<Seq<char>>,
    reference: Option<Seq<char>>,
    branch: Option<Seq<char>>,
    files: Seq<Seq<char>>,
    topic: Option<Seq<char>>,
) -> Result<CommitView, ParseError> {
    if missing(project) {
        Err(ParseError { schema, field: Field::Project })
    } else if missing(subject) {
        Err(ParseError { schema, field: Field::Subject })
    } else if missing(author) {
        Err(ParseError { schema, field: Field::Author })
    } else if missing(message) {
        Err(ParseError { schema, field: Field::Message })
    } else if missing(reference) {
        Err(ParseError { schema, field: Field::Reference })
    } else if missing(branch) {
        Err(ParseError { schema, field: Field::Branch })
    } else {
        Ok(
            CommitView {
                project: project->0,
                subject: subject->0,
                message: message->0,
                author: author->0,
                branch: branch->0,
                reference: reference->0,
                files,
                topic,
            },
        )
    }
}

/// A record that was read holds all that it must.
pub proof fn lemma_record_complete(schema: Schema, data: JsonModel)
    ensures
        record(schema, data) matches Ok(c) ==> complete(c),
{
}

/// Every record of an array that was read holds all that it must, and
/// there is one for each member of the array.
pub proof fn lemma_records_complete(schema: Schema, items: Seq<JsonModel>)
    ensures
        records(schema, items) matches Ok(cs) ==> cs.len() == items.len() && forall|i: int|
            0 <= i < cs.len() ==> complete(#[trigger] cs[i]) && record(schema, items[i]) == Ok::<
                CommitView,
                ParseError,
            >(cs[i]),
    decreases items.len(),
{
    if items.len() > 0 {
        lemma_records_complete(schema, items.drop_last());
        lemma_record_complete(schema, items.last());
    }
}

/// The status character of a file in the SSH schema: the first character
/// of its type, a space where it has none.
pub open spec fn ssh_status(kind: Option<Seq<char>>) -> char {
    match kind {
        Some(s) => if s.len() > 0 {
            s[0]
        } else {
            ' '
        },
        None => ' ',
    }
}

/// The line for one file of the SSH schema.
pub open spec fn ssh_file_line(file: JsonModel) -> Seq<char> {
    seq![ssh_status(file.member("type"@).as_text())] + " "@ + text_of(file.member("file"@))
        + " +"@ + text_of(file.member("insertions"@)) + " -"@ + text_of(
        file.member("deletions"@),
    )
}

/// The lines for the files of the SSH schema. The first entry stands for
/// the commit message and is no file: it is left out.
pub open spec fn ssh_files(items: Seq<JsonModel>) -> Seq<Seq<char>> {
    if items.len() == 0 {
        Seq::empty()
    } else {
        items.skip(1).map_values(|file: JsonModel| ssh_file_line(file))
    }
}

/// The record in an object of the SSH schema.
pub open spec fn ssh_record(data: JsonModel) -> Result<CommitView, ParseError> {
    let patch = data.member("currentPatchSet"@);
    assembled(
        Schema::Ssh,
        data.member("project"@).as_text(),
        data.member("subject"@).as_text(),
        patch.member("author"@).member("name"@).as_text(),
        data.member("commitMessage"@).as_text(),
        patch.member("ref"@).as_text(),
        data.member("branch"@).as_text(),
        ssh_files(patch.member("files"@).items()),
        data.member("topic"@).as_text(),
    )
}

/// The integer that a number with these parts stands for where its
/// exponent is zero: the mantissa, taken as a signed number of 64 bits,
/// with the sign applied.
pub open spec fn signed(positive: bool, mantissa: u64) -> int {
    let magnitude: int = if mantissa < 0x8000_0000_0000_0000 {
        mantissa as int
    } else {
        mantissa - 0x1_0000_0000_0000_0000
    };
    if positive {
        magnitude
    } else {
        -magnitude
    }
}

/// A value as a number of 32 bits: that of a number without exponent which
/// fits.
pub open spec fn as_i32(m: JsonModel) -> Option<i32> {
    match m.parts() {
        Some((positive, mantissa, exponent)) => if exponent == 0 && i32::MIN <= signed(
            positive,
            mantissa,
        ) <= i32::MAX {
            Some(signed(positive, mantissa) as i32)
        } else {
            None
        },
        None => None,
    }
}

/// The count in a field of a file of the HTTP schema; zero where the field
/// holds no number of 32 bits.
pub open spec fn count(m: JsonModel) -> int {
    match as_i32(m) {
        Some(n) => n as int,
        None => 0,
    }
}

/// The line for one file of the HTTP schema, which is an entry of an
/// object: the path is its key. A file without status has an empty one.
pub open spec fn http_file_line(path: Seq<char>, file: JsonModel) -> Seq<char> {
    let status = match file.member("status"@).as_text() {
        Some(s) => s,
        None => Seq::empty(),
    };
    status + " "@ + path + " +"@ + decimal(count(file.member("lines_inserted"@))) + " -"@
        + decimal(count(file.member("lines_deleted"@)))
}

/// The lines for the files of the HTTP schema.
pub open spec fn http_files(entries: Seq<(Seq<char>, JsonModel)>) -> Seq<Seq<char>> {
    entries.map_values(|e: (Seq<char>, JsonModel)| http_file_line(e.0, e.1))
}

/// The revision that an object of the HTTP schema names as its current one;
/// `Null` where it names none.
pub open spec fn current_revision(data: JsonModel) -> JsonModel {
    let name = match data.member("current_revision"@).as_text() {
        Some(s) => s,
        None => Seq::empty(),
    };
    data.member("revisions"@).member(name)
}

/// The record in an object of the HTTP schema.
pub open spec fn http_record(data: JsonModel) -> Result<CommitView, ParseError> {
    let revision = current_revision(data);
    let commit = revision.member("commit"@);
    assembled(
        Schema::Http,
        data.member("project"@).as_text(),
        data.member("subject"@).as_text(),
        commit.member("author"@).member("name"@).as_text(),
        commit.member("message"@).as_text(),
        revision.member("ref"@).as_text(),
        data.member("branch"@).as_text(),
        http_files(revision.member("files"@).entries()),
        data.member("topic"@).as_text(),
    )
}

/// The record in an object of the given schema.
pub open spec fn record(schema: Schema, data: JsonModel) -> Result<CommitView, ParseError> {
    match schema {
        Schema::Ssh => ssh_record(data),
        Schema::Http => http_record(data),
    }
}

/// The records in the members of an array, in order, or the error of the
/// first member that holds none.
pub open spec fn records(schema: Schema, items: Seq<JsonModel>) -> Result<
    Seq<CommitView>,
    ParseError,
>
    decreases items.len(),
{
    if items.len() == 0 {
        Ok(Seq::empty())
    } else {
        match records(schema, items.drop_last()) {
            Err(e) => Err(e),
            Ok(done) => match record(schema, items.last()) {
                Err(e) => Err(e),
                Ok(c) => Ok(done.push(c)),
            },
        }
    }
}

/// The views of a sequence of changes.
pub open spec fn views(commits: Seq<CommitInfo>) -> Seq<CommitView> {
    commits.map_values(|c: CommitInfo| c@)
}

impl View for CommitInfo {
    type V = CommitView;

    closed spec fn view(&self) -> CommitView {
        CommitView {
            project: self.project@,
            subject: self.subject@,
            message: self.message@,
            author: self.author@,
            branch: self.branch@,
            reference: self.reference@,
            files: texts(self.files@),
            topic: match self.topic {
                Some(t) => Some(t@),
                None => None,
            },
        }
    }
}

fn same_list(a: &Vec<String>, b: &Vec<String>) -> (r: bool)
    ensures
        r == (texts(a@) == texts(b@)),
{
    if a.len() != b.len() {
        assert(texts(a@).len() != texts(b@).len());
        return false;
    }
    let mut i: usize = 0;
    while i < a.len()
        invariant
            i <= a.len(),
            a.len() == b.len(),
            forall|k: int| 0 <= k < i ==> texts(a@)[k] == texts(b@)[k],
        decreases a.len() - i,
    {
        if !same_text(a[i].as_str(), b[i].as_str()) {
            assert(texts(a@)[i as int] != texts(b@)[i as int]);
            return false;
        }
        i += 1;
    }
    assert(texts(a@) =~= texts(b@));
    true
}

fn same_option(a: &Option<String>, b: &Option<String>) -> (r: bool)
    ensures
        r == (match (a, b) {
            (Some(x), Some(y)) => x@ == y@,
            (None, None) => true,
            _ => false,
        }),
{
    match (a, b) {
        (Some(x), Some(y)) => same_text(x.as_str(), y.as_str()),
        (None, None) => true,
        _ => false,
    }
}

impl Clone for CommitInfo {
    /// A copy holds the same fields.
    fn clone(&self) -> (r: Self)
        ensures
            r@ == self@,
    {
        CommitInfo {
            project: self.project.clone(),
            subject: self.subject.clone(),
            message: self.message.clone(),
            author: self.author.clone(),
            branch: self.branch.clone(),
            reference: self.reference.clone(),
            files: copy_strs(&self.files),
            topic: match &self.topic {
                Some(t) => Some(t.clone()),
                None => None,
            },
        }
    }
}

impl PartialEq for CommitInfo {
    /// Two changes are equal if and only if all their fields are.
    fn eq(&self, other: &Self) -> (r: bool) {
        same_text(self.project.as_str(), other.project.as_str()) && same_text(
            self.subject.as_str(),
            other.subject.as_str(),
        ) && same_text(self.message.as_str(), other.message.as_str()) && same_text(
            self.author.as_str(),
            other.author.as_str(),
        ) && same_text(self.branch.as_str(), other.branch.as_str()) && same_text(
            self.reference.as_str(),
            other.reference.as_str(),
        ) && same_list(&self.files, &other.files) && same_option(&self.topic, &other.topic)
    }
}

impl vstd::std_specs::cmp::PartialEqSpecImpl for CommitInfo {
    open spec fn obeys_eq_spec() -> bool {
        true
    }

    open spec fn eq_spec(&self, other: &Self) -> bool {
        self@ == other@
    }
}

fn required<'a>(field: Option<&'a str>) -> (r: Option<&'a str>)
    ensures
        r is None == missing(text_view(field)),
        r matches Some(s) ==> field == Some(s),
{
    match field {
        Some(s) => if s.unicode_len() == 0 {
            None
        } else {
            Some(s)
        },
        None => None,
    }
}

fn owned(s: Option<&str>) -> (r: Option<String>)
    ensures
        r is Some == s is Some,
        s matches Some(t) ==> r->0@ == t@,
{
    match s {
        Some(t) => Some(String::from_str(t)),
        None => None,
    }
}

impl ParseError {
    /// What to tell the user.
    pub fn message(&self) -> (r: String)
        ensures
            r@ == (match self.field {
                Field::Project => "Failed to get project name"@,
                Field::Subject => "Failed to find commit subject"@,
                Field::Author => "Failed to find commit author"@,
                Field::Message => "Failed to find commit message"@,
                Field::Reference => "Failed to find ref"@,
                Field::Branch => "Failed to find branch"@,
            }) + (match self.schema {
                Schema::Ssh => " (SSH schema)"@,
                Schema::Http => " (HTTP schema)"@,
            }),
    {
        let mut out = String::from_str(
            match self.field {
                Field::Project => "Failed to get project name",
                Field::Subject => "Failed to find commit subject",
                Field::Author => "Failed to find commit author",
                Field::Message => "Failed to find commit message",
                Field::Reference => "Failed to find ref",
                Field::Branch => "Failed to find branch",
            },
        );
        out.append(
            match self.schema {
                Schema::Ssh => " (SSH schema)",
                Schema::Http => " (HTTP schema)",
            },
        );
        out
    }
}

impl CommitInfo {
    /// A change with the given fields.
    pub fn new(
        project: &str,
        subject: &str,
        message: &str,
        author: &str,
        branch: &str,
        reference: &str,
        files: Vec<String>,
        topic: Option<&str>,
    ) -> (r: Self)
        ensures
            r@ == (CommitView {
                project: project@,
                subject: subject@,
                message: message@,
                author: author@,
                branch: branch@,
                reference: reference@,
                files: texts(files@),
                topic: match topic {
                    Some(t) => Some(t@),
                    None => None,
                },
            }),
    {
        CommitInfo {
            project: String::from_str(project),
            subject: String::from_str(subject),
            message: String::from_str(message),
            author: String::from_str(author),
            branch: String::from_str(branch),
            reference: String::from_str(reference),
            files,
            topic: owned(topic),
        }
    }

    /// The title of the change in a workspace of the given kind.
    pub fn get_title(&self, repo_type: RepoType) -> (r: String)
        ensures
            r@ == title(self@, repo_type),
    {
        let mut out = String::new();
        if repo_type != RepoType::Git {
            out.append(self.project.as_str());
            out.append(" - ");
        }
        out.append(self.subject.as_str());
        out.append(" - ");
        out.append(self.author.as_str());
        out
    }

    /// Message, branch and files of the change.
    pub fn get_body(&self) -> (r: String)
        ensures
            r@ == body(self@),
    {
        let mut out = self.message.clone();
        out.append("\n---\n\nBranch: ");
        out.append(self.branch.as_str());
        out.append("\n\n");
        let files = join_strs(&self.files, "\n");
        out.append(files.as_str());
        out
    }

    /// The topic that the change belongs to, if it has one.
    pub fn topic(&self) -> (r: Option<&str>)
        ensures
            text_view(r) == self@.topic,
    {
        match &self.topic {
            Some(t) => Some(t.as_str()),
            None => None,
        }
    }

    /// The reference as Git takes it.
    pub fn get_git_reference(&self) -> (r: String)
        ensures
            r@ == self@.reference,
    {
        self.reference.clone()
    }

    /// The reference as the multi-repository tool takes it.
    pub fn get_repo_reference(&self) -> (r: String)
        ensures
            r@ == repo_reference(self@),
    {
        let parts = split_str(self.reference.as_str(), '/');
        let mut rest: Vec<String> = Vec::new();
        let mut i: usize = 3;
        let ghost kept = without_first(texts(parts@), 3);
        assert(kept.take(0) == Seq::<Seq<char>>::empty());
        while i < parts.len()
            invariant
                3 <= i,
                parts.len() > 3 ==> i <= parts.len(),
                kept == without_first(texts(parts@), 3),
                parts.len() > 3 ==> texts(rest@) == kept.take(i - 3),
                parts.len() <= 3 ==> texts(rest@) == kept,
            decreases parts.len() - i,
        {
            let part = parts[i].clone();
            assert(kept.take(i - 3 + 1) == kept.take(i - 3).push(part@));
            assert(texts(rest@.push(part)) == texts(rest@).push(part@));
            rest.push(part);
            i += 1;
        }
        assert(parts.len() > 3 ==> kept.take(parts.len() - 3) == kept);
        let tail = join_strs(&rest, "/");
        let mut out = self.project.clone();
        out.append(".git ");
        out.append(tail.as_str());
        out
    }

    /// The reference in the form for a workspace of the given kind.
    pub fn get_reference(&self, repo_type: RepoType) -> (r: String)
        ensures
            r@ == reference(self@, repo_type),
    {
        if repo_type == RepoType::Git {
            self.get_git_reference()
        } else {
            self.get_repo_reference()
        }
    }

    /// The change made of the fields that were read from a record, or the
    /// first required field that is missing.
    pub fn assemble(
        schema: Schema,
        project: Option<&str>,
        subject: Option<&str>,
        author: Option<&str>,
        message: Option<&str>,
        reference: Option<&str>,
        branch: Option<&str>,
        files: Vec<String>,
        topic: Option<&str>,
    ) -> (r: Result<Self, ParseError>)
        ensures
            match r {
                Ok(c) => Ok::<CommitView, ParseError>(c@),
                Err(e) => Err(e),
            } == assembled(
                schema,
                text_view(project),
                text_view(subject),
                text_view(author),
                text_view(message),
                text_view(reference),
                text_view(branch),
                texts(files@),
                text_view(topic),
            ),
            r matches Ok(c) ==> complete(c@),
    {
        let project = match required(project) {
            Some(s) => s,
            None => return Err(ParseError { schema, field: Field::Project }),
        };
        let subject = match required(subject) {
            Some(s) => s,
            None => return Err(ParseError { schema, field: Field::Subject }),
        };
        let author = match required(author) {
            Some(s) => s,
            None => return Err(ParseError { schema, field: Field::Author }),
        };
        let message = match required(message) {
            Some(s) => s,
            None => return Err(ParseError { schema, field: Field::Message }),
        };
        let reference = match required(reference) {
            Some(s) => s,
            None => return Err(ParseError { schema, field: Field::Reference }),
        };
        let branch = match required(branch) {
            Some(s) => s,
            None => return Err(ParseError { schema, field: Field::Branch }),
        };
        Ok(Self::new(project, subject, message, author, branch, reference, files, topic))
    }

    /// The change in an object of the SSH schema.
    pub fn from_ssh_json(data: &json::JsonValue) -> (r: Result<Self, ParseError>)
        ensures
            match r {
                Ok(c) => Ok::<CommitView, ParseError>(c@),
                Err(e) => Err(e),
            } == ssh_record(json_model(*data)),
            r matches Ok(c) ==> complete(c@),
    {
        let patch = member(data, "currentPatchSet");
        let project = member(data, "project").as_str();
        let subject = member(data, "subject").as_str();
        let author = member(member(patch, "author"), "name").as_str();
        let message = member(data, "commitMessage").as_str();
        let reference = member(patch, "ref").as_str();
        let branch = member(data, "branch").as_str();

        let items = members(member(patch, "files"));
        let ghost all = json_model(*patch).member("files"@).items();
        let mut files: Vec<String> = Vec::new();
        let mut i: usize = 1;
        assert(all.len() > 0 ==> all.skip(1).take(0) == Seq::<JsonModel>::empty());
        while i < items.len()
            invariant
                1 <= i,
                items.len() > 0 ==> i <= items.len(),
                items@.len() == all.len(),
                forall|k: int| 0 <= k < items@.len() ==> json_model(*#[trigger] items@[k]) == all[k],
                items.len() > 0 ==> texts(files@) == all.skip(1).take(i - 1).map_values(
                    |file: JsonModel| ssh_file_line(file),
                ),
                items.len() == 0 ==> files@.len() == 0,
            decreases items.len() - i,
        {
            let file = items[i];
            let line = ssh_line(
                member(file, "type").as_str(),
                render(member(file, "file")).as_str(),
                render(member(file, "insertions")).as_str(),
                render(member(file, "deletions")).as_str(),
            );
            proof {
                assert(line@ == ssh_file_line(all[i as int]));
                assert(all.skip(1).take(i as int) == all.skip(1).take(i - 1).push(all[i as int]));
                assert(texts(files@.push(line)) == texts(files@).push(line@));
            }
            files.push(line);
            i += 1;
        }
        proof {
            if items.len() > 0 {
                assert(all.skip(1).take(items.len() - 1) == all.skip(1));
            } else {
                assert(texts(files@) == Seq::<Seq<char>>::empty());
            }
        }
        let topic = member(data, "topic").as_str();
        Self::assemble(
            Schema::Ssh,
            project,
            subject,
            author,
            message,
            reference,
            branch,
            files,
            topic,
        )
    }

    /// The change in an object of the HTTP schema.
    pub fn from_http_json(data: &json::JsonValue) -> (r: Result<Self, ParseError>)
        ensures
            match r {
                Ok(c) => Ok::<CommitView, ParseError>(c@),
                Err(e) => Err(e),
            } == http_record(json_model(*data)),
            r matches Ok(c) ==> complete(c@),
    {
        proof {
            reveal_strlit("");
            assert(""@ == Seq::<char>::empty());
        }
        let name = match member(data, "current_revision").as_str() {
            Some(s) => s,
            None => "",
        };
        let revision = member(member(data, "revisions"), name);
        let commit = member(revision, "commit");
        let project = member(data, "project").as_str();
        let subject = member(data, "subject").as_str();
        let author = member(member(commit, "author"), "name").as_str();
        let message = member(commit, "message").as_str();
        let reference = member(revision, "ref").as_str();
        let branch = member(data, "branch").as_str();

        let listed = entries(member(revision, "files"));
        let ghost all = json_model(*revision).member("files"@).entries();
        let mut files: Vec<String> = Vec::new();
        let mut i: usize = 0;
        assert(all.take(0) == Seq::<(Seq<char>, JsonModel)>::empty());
        while i < listed.len()
            invariant
                i <= listed.len(),
                listed@.len() == all.len(),
                forall|k: int|
                    0 <= k < listed@.len() ==> (#[trigger] listed@[k]).0@ == all[k].0 && json_model(
                        *listed@[k].1,
                    ) == all[k].1,
                texts(files@) == http_files(all.take(i as int)),
            decreases listed.len() - i,
        {
            let path = listed[i].0;
            let file = listed[i].1;
            let line = http_line(
                member(file, "status").as_str(),
                path,
                to_i32(number_parts(member(file, "lines_inserted"))),
                to_i32(number_parts(member(file, "lines_deleted"))),
            );
            proof {
                assert(line@ == http_file_line(all[i as int].0, all[i as int].1));
                assert(all.take(i + 1) == all.take(i as int).push(all[i as int]));
                assert(texts(files@.push(line)) == texts(files@).push(line@));
            }
            files.push(line);
            i += 1;
        }
        assert(all.take(listed.len() as int) == all);
        let topic = member(data, "topic").as_str();
        Self::assemble(
            Schema::Http,
            project,
            subject,
            author,
            message,
            reference,
            branch,
            files,
            topic,
        )
    }

    /// The change in an object that came over `endpoint`.
    pub fn from_json(endpoint: &RemoteUrl, data: &json::JsonValue) -> (r: Result<Self, ParseError>)
        ensures
            match r {
                Ok(c) => Ok::<CommitView, ParseError>(c@),
                Err(e) => Err(e),
            } == record(schema_of(endpoint@), json_model(*data)),
            r matches Ok(c) ==> complete(c@),
    {
        match endpoint {
            RemoteUrl::SSH(_) => Self::from_ssh_json(data),
            RemoteUrl::HTTP(_) => Self::from_http_json(data),
        }
    }

    /// The changes in the members of an array that came over `endpoint`, in
    /// order; the error of the first member that holds no change. A value
    /// that is no array holds no changes.
    pub fn parse_json(endpoint: &RemoteUrl, commit_data: &json::JsonValue) -> (r: Result<
        Vec<Self>,
        ParseError,
    >)
        ensures
            match r {
                Ok(commits) => Ok::<Seq<CommitView>, ParseError>(views(commits@)),
                Err(e) => Err(e),
            } == records(schema_of(endpoint@), json_model(*commit_data).items()),
            r matches Ok(commits) ==> commits@.len() == json_model(*commit_data).items().len()
                && forall|i: int| 0 <= i < commits@.len() ==> complete(#[trigger] commits@[i]@),
    {
        let items = members(commit_data);
        let ghost all = json_model(*commit_data).items();
        let ghost schema = schema_of(endpoint@);
        let mut commits: Vec<Self> = Vec::new();
        let mut i: usize = 0;
        assert(all.take(0) == Seq::<JsonModel>::empty());
        assert(views(commits@) == Seq::<CommitView>::empty());
        while i < items.len()
            invariant
                i <= items.len(),
                items@.len() == all.len(),
                schema == schema_of(endpoint@),
                all == json_model(*commit_data).items(),
                forall|k: int| 0 <= k < items@.len() ==> json_model(*#[trigger] items@[k]) == all[k],
                records(schema, all.take(i as int)) == Ok::<Seq<CommitView>, ParseError>(
                    views(commits@),
                ),
            decreases items.len() - i,
        {
            proof {
                assert(all.take(i + 1).drop_last() == all.take(i as int));
                assert(all.take(i + 1).last() == all[i as int]);
            }
            match Self::from_json(endpoint, items[i]) {
                Ok(c) => {
                    assert(views(commits@.push(c)) == views(commits@).push(c@));
                    commits.push(c);
                },
                Err(e) => {
                    proof {
                        assert(record(schema, all[i as int]) == Err::<CommitView, ParseError>(e));
                        assert(records(schema, all.take(i + 1)) == Err::<Seq<CommitView>, ParseError>(e));
                        lemma_records_fail(schema, all, i + 1);
                    }
                    return Err(e);
                },
            }
            i += 1;
        }
        proof {
            assert(all.take(items.len() as int) == all);
            lemma_records_complete(schema, all);
            assert forall|i: int| 0 <= i < commits@.len() implies complete(
                #[trigger] commits@[i]@,
            ) by {
                assert(views(commits@)[i] == commits@[i]@);
            }
        }
        Ok(commits)
    }
}

/// Once a member fails, the whole array fails with the same error.
proof fn lemma_records_fail(schema: Schema, items: Seq<JsonModel>, n: int)
    requires
        0 <= n <= items.len(),
        records(schema, items.take(n)) is Err,
    ensures
        records(schema, items) == records(schema, items.take(n)),
    decreases items.len() - n,
{
    if n < items.len() {
        assert(items.take(n + 1).drop_last() == items.take(n));
        lemma_records_fail(schema, items, n + 1);
    } else {
        assert(items.take(n) == items);
    }
}

/// The view of a text that may be missing.
pub open spec fn text_view(s: Option<&str>) -> Option<Seq<char>> {
    match s {
        Some(t) => Some(t@),
        None => None,
    }
}

/// The line for a file of the SSH schema, from its type and from what its
/// path and its two counts print as.
pub fn ssh_line(kind: Option<&str>, path: &str, insertions: &str, deletions: &str) -> (r: String)
    ensures
        r@ == seq![ssh_status(text_view(kind))] + " "@ + path@ + " +"@ + insertions@ + " -"@
            + deletions@,
{
    let status = match kind {
        Some(s) => if s.unicode_len() > 0 {
            s.get_char(0)
        } else {
            ' '
        },
        None => ' ',
    };
    let mut out = String::new();
    out.push(status);
    assert(out@ == seq![status]);
    out.append(" ");
    out.append(path);
    out.append(" +");
    out.append(insertions);
    out.append(" -");
    out.append(deletions);
    out
}

/// The line for a file of the HTTP schema, from its status, its path and
/// its two counts; a missing status is empty and a missing count is zero.
pub fn http_line(status: Option<&str>, path: &str, inserted: Option<i32>, deleted: Option<i32>) -> (r:
    String)
    ensures
        r@ == (match status {
            Some(s) => s@,
            None => Seq::empty(),
        }) + " "@ + path@ + " +"@ + decimal(
            match inserted {
                Some(n) => n as int,
                None => 0,
            },
        ) + " -"@ + decimal(
            match deleted {
                Some(n) => n as int,
                None => 0,
            },
        ),
{
    let mut out = String::new();
    match status {
        Some(s) => out.append(s),
        None => {},
    }
    out.append(" ");
    out.append(path);
    out.append(" +");
    let inserted = match inserted {
        Some(n) => n,
        None => 0,
    };
    out.append(decimal_str(inserted).as_str());
    out.append(" -");
    let deleted = match deleted {
        Some(n) => n,
        None => 0,
    };
    out.append(decimal_str(deleted).as_str());
    out
}

/// The number of 32 bits that the parts of a number stand for, if they
/// stand for one.
pub fn to_i32(parts: Option<(bool, u64, i16)>) -> (r: Option<i32>)
    ensures
        r == match parts {
            Some((positive, mantissa, exponent)) => if exponent == 0 && i32::MIN <= signed(
                positive,
                mantissa,
            ) <= i32::MAX {
                Some(signed(positive, mantissa) as i32)
            } else {
                None
            },
            None => None,
        },
{
    match parts {
        Some((positive, mantissa, exponent)) => {
            if exponent != 0 {
                None
            } else if mantissa < 0x8000_0000_0000_0000 {
                if positive {
                    if mantissa <= 0x7fff_ffff {
                        Some(mantissa as i32)
                    } else {
                        None
                    }
                } else if mantissa <= 0x8000_0000 {
                    Some((-(mantissa as i64)) as i32)
                } else {
                    None
                }
            } else {
                // The mantissa stands for a negative number of 64 bits.
                let below: u64 = 0xffff_ffff_ffff_ffff - mantissa + 1;
                if positive {
                    if below <= 0x8000_0000 {
                        Some((-(below as i64)) as i32)
                    } else {
                        None
                    }
                } else if below <= 0x7fff_ffff {
                    Some(below as i32)
                } else {
                    None
                }
            }
        },
        None => None,
    }
}

} // verus!
