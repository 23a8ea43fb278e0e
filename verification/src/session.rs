//! One run of the tool from the first query to the last command, as a
//! machine that is told what happened outside and says what to do next.
//! Whoever drives it reads the terminal and runs the programs; every
//! decision is taken here.

use crate::batch::{
    consistent, ended, lemma_step_consistent, lemma_step_remaining, lemma_stop_means_ended, plan,
    planned, resume_line, step, steps, ActionView, Batch, BatchAction, BatchEvent, BatchState,
    Commit, Progress, Step,
};
use crate::commit_info::{
    body, records, reference, schema_of, title, views, CommitInfo, CommitView, ParseError,
};
use crate::json_spec::json_model;
use crate::remote::{answer, command, lenient, QueryError, RemoteEndpoint, RemoteUrl};
use crate::repo_info::RepoType;
use crate::selection::{
    chosen_pair, collect_topics, lemma_inserted_all, lemma_merged_size, merge, merged, resolve,
    resolved, topic_query, topic_query_str, topics, Pair, RefSet,
};
use crate::settings::Method;
use crate::text::{copy_strs, texts};
use vstd::prelude::*;

verus! {

/// What the chooser shows of a change, as mathematics.
pub struct CandidateView {
    pub text: Seq<char>,
    pub preview: Seq<char>,
    pub output: Seq<char>,
}

/// What the chooser shows of a change: the line in the list, the text
/// beside the list, and what stands for the change once it is chosen.
pub struct Candidate {
    pub text: String,
    pub preview: String,
    pub output: String,
}

impl View for Candidate {
    type V = CandidateView;

    open spec fn view(&self) -> CandidateView {
        CandidateView { text: self.text@, preview: self.preview@, output: self.output@ }
    }
}

/// Why a run ended before any command was planned.
#[derive(Clone, Copy, Debug, PartialEq, Eq, Structural)]
pub enum Failure {
    /// The query that the user asked for has no answer.
    Query(QueryError),
    /// A record in an answer lacks a field.
    Record(ParseError),
    /// The user left the chooser without choosing.
    Cancelled,
}

/// Where a run stands.
#[derive(Clone, Copy, Debug, PartialEq, Eq, Structural)]
pub enum Phase {
    /// The query that the user asked for is with the server.
    Fetching,
    /// The changes found are with the chooser.
    Choosing,
    /// The user is asked whether to fetch the topics of the choice too.
    AskingTopics,
    /// The query for a topic is with the server.
    Querying,
    /// The commands are planned; the batch says how far they are.
    Executing,
    /// The run is over.
    Ended,
}

/// A run as mathematics.
pub struct SessionView {
    pub endpoint: RemoteEndpoint,
    pub repo_type: RepoType,
    pub method: Method,
    pub phase: Phase,
    /// The changes that the first query found.
    pub commits: Seq<CommitView>,
    /// What is to be fetched, as far as it is known.
    pub refs: Seq<Pair>,
    /// The topics that are still to be asked for.
    pub topics: Seq<Seq<char>>,
    pub batch: Progress,
}

/// What happened outside, as mathematics.
pub enum Occurrence {
    Response(bool, Seq<char>),
    Chosen(Seq<usize>),
    Cancelled,
    Answer(bool),
    Ready,
    Outcome(bool),
}

/// What happened outside since the last action.
pub enum SessionEvent {
    /// The transport has run: whether it reported success, and what it wrote
    /// to its standard output.
    Response { success: bool, output: String },
    /// The user chose the candidates at these places of the list.
    Chosen(Vec<usize>),
    /// The user left the chooser without choosing.
    Cancelled,
    /// The user answered a question with yes (`true`) or no.
    Answer(bool),
    /// The last action was carried out and has nothing to report.
    Ready,
    /// The command handed out has run, with success (`true`) or not.
    Outcome(bool),
}

impl View for SessionEvent {
    type V = Occurrence;

    open spec fn view(&self) -> Occurrence {
        match self {
            SessionEvent::Response { success, output } => Occurrence::Response(*success, output@),
            SessionEvent::Chosen(places) => Occurrence::Chosen(places@),
            SessionEvent::Cancelled => Occurrence::Cancelled,
            SessionEvent::Answer(yes) => Occurrence::Answer(*yes),
            SessionEvent::Ready => Occurrence::Ready,
            SessionEvent::Outcome(success) => Occurrence::Outcome(*success),
        }
    }
}

/// What to do next, as mathematics.
pub enum Request {
    Query(Seq<Seq<char>>),
    Choose(Seq<CandidateView>),
    AskExpand(Seq<Seq<char>>),
    AskProceed(Seq<Seq<char>>),
    Start,
    Run(Step),
    AskContinue,
    Stop(Option<Seq<char>>),
    Fail(Failure),
    Ignored,
}

/// What to do next.
pub enum SessionAction {
    /// Run the program named first with the arguments that follow, then
    /// report the `Response`.
    Query(Vec<String>),
    /// Let the user choose among the candidates, then report what was
    /// `Chosen`, or `Cancelled`.
    Choose(Vec<Candidate>),
    /// Show the topics and ask whether to fetch their changes too, then
    /// report the `Answer`.
    AskExpand(Vec<String>),
    /// Show the titles and ask whether to fetch them now, then report the
    /// `Answer`.
    AskProceed(Vec<String>),
    /// Tell the user that execution begins, then report `Ready`.
    Start,
    /// Run the command, then report its `Outcome`.
    Run(Commit),
    /// Ask the user whether to go on, then report the `Answer`.
    AskContinue,
    /// The run is over. If a command line comes with it, it runs what was
    /// not run: show it.
    Stop(Option<String>),
    /// The run is over: tell the user why.
    Fail(Failure),
    /// The event does not fit the state; nothing has changed.
    Ignored,
}

/// The views of a list of candidates.
pub open spec fn candidate_views(list: Seq<Candidate>) -> Seq<CandidateView> {
    list.map_values(|c: Candidate| c@)
}

impl View for SessionAction {
    type V = Request;

    open spec fn view(&self) -> Request {
        match self {
            SessionAction::Query(argv) => Request::Query(texts(argv@)),
            SessionAction::Choose(list) => Request::Choose(candidate_views(list@)),
            SessionAction::AskExpand(names) => Request::AskExpand(texts(names@)),
            SessionAction::AskProceed(titles) => Request::AskProceed(texts(titles@)),
            SessionAction::Start => Request::Start,
            SessionAction::Run(c) => Request::Run(c@),
            SessionAction::AskContinue => Request::AskContinue,
            SessionAction::Stop(line) => Request::Stop(
                match line {
                    Some(l) => Some(l@),
                    None => None,
                },
            ),
            SessionAction::Fail(f) => Request::Fail(*f),
            SessionAction::Ignored => Request::Ignored,
        }
    }
}

/// What the chooser shows of a change in a workspace of the given kind.
pub open spec fn candidate(c: CommitView, repo_type: RepoType) -> CandidateView {
    CandidateView {
        text: title(c, repo_type),
        preview: body(c),
        output: reference(c, repo_type),
    }
}

/// The changes at the given places of a list, in the order of the places.
/// A place beyond the list stands for nothing.
pub open spec fn picked(commits: Seq<CommitView>, places: Seq<usize>) -> Seq<CommitView>
    decreases places.len(),
{
    if places.len() == 0 {
        Seq::empty()
    } else {
        let before = picked(commits, places.drop_last());
        if places.last() < commits.len() {
            before.push(commits[places.last() as int])
        } else {
            before
        }
    }
}

/// The titles of the pairs of a set.
pub open spec fn titles(set: Seq<Pair>) -> Seq<Seq<char>> {
    set.map_values(|p: Pair| p.0)
}

/// The run at its start, and the first thing to do: put the query that the
/// user asked for to the server.
pub open spec fn begun(
    endpoint: RemoteEndpoint,
    repo_type: RepoType,
    method: Method,
    query: Seq<char>,
) -> (SessionView, Request) {
    (
        SessionView {
            endpoint,
            repo_type,
            method,
            phase: Phase::Fetching,
            commits: Seq::empty(),
            refs: Seq::empty(),
            topics: Seq::empty(),
            batch: Progress { state: BatchState::Planned, remaining: Seq::empty() },
        },
        Request::Query(command(endpoint, query)),
    )
}

/// The run ends without a plan.
pub open spec fn failed(s: SessionView, why: Failure) -> (SessionView, Request) {
    (SessionView { phase: Phase::Ended, ..s }, Request::Fail(why))
}

/// What is to be fetched is settled: one command is planned for each pair,
/// and the user is asked once whether to run them all.
pub open spec fn settled(s: SessionView, refs: Seq<Pair>) -> (SessionView, Request) {
    (
        SessionView {
            phase: Phase::Executing,
            refs,
            topics: Seq::empty(),
            batch: Progress {
                state: BatchState::Planned,
                remaining: planned(refs, s.repo_type, s.method),
            },
            ..s
        },
        Request::AskProceed(titles(refs)),
    )
}

/// Asks the server for the first of the topics that are left; with none
/// left, what is to be fetched is settled.
pub open spec fn expanding(s: SessionView, refs: Seq<Pair>, left: Seq<Seq<char>>) -> (
    SessionView,
    Request,
) {
    if left.len() == 0 {
        settled(s, refs)
    } else {
        (
            SessionView { phase: Phase::Querying, refs, topics: left, ..s },
            Request::Query(command(s.endpoint, topic_query(left[0]))),
        )
    }
}

/// What an action of the batch means for the run. When the batch stops,
/// the command line for what was not run goes with it.
pub open spec fn lifted(action: ActionView, batch: Progress) -> Request {
    match action {
        ActionView::Start => Request::Start,
        ActionView::Run(s) => Request::Run(s),
        ActionView::AskContinue => Request::AskContinue,
        ActionView::Stop => Request::Stop(resume_line(batch)),
        ActionView::Ignored => Request::Ignored,
    }
}

/// The run after an event of the batch.
pub open spec fn executing(s: SessionView, event: BatchEvent) -> (SessionView, Request) {
    let (batch, action) = step(s.batch, event);
    (
        SessionView {
            phase: if action is Stop {
                Phase::Ended
            } else {
                Phase::Executing
            },
            batch,
            ..s
        },
        lifted(action, batch),
    )
}

/// The run after an event, and what to do next.
///
/// The answer to the first query must be there and every record in it must
/// be whole, else the run fails. The user chooses among the changes found.
/// If the choice touches topics, the user is asked whether to fetch them
/// too; on yes each topic is asked for in turn and what is found is taken
/// in, a query without answer counting as one that found nothing. Then the
/// batch runs.
pub open spec fn session_step(s: SessionView, event: Occurrence) -> (SessionView, Request) {
    match (s.phase, event) {
        (Phase::Fetching, Occurrence::Response(success, output)) => match answer(
            s.endpoint,
            success,
            output,
        ) {
            Err(e) => failed(s, Failure::Query(e)),
            Ok(m) => match records(schema_of(s.endpoint), m.items()) {
                Err(e) => failed(s, Failure::Record(e)),
                Ok(found) => (
                    SessionView { phase: Phase::Choosing, commits: found, ..s },
                    Request::Choose(found.map_values(|c: CommitView| candidate(c, s.repo_type))),
                ),
            },
        },
        (Phase::Choosing, Occurrence::Chosen(places)) => {
            let chosen = picked(s.commits, places);
            let refs = resolved(chosen, s.repo_type);
            let named = topics(chosen);
            if named.len() > 0 {
                (
                    SessionView { phase: Phase::AskingTopics, refs, topics: named, ..s },
                    Request::AskExpand(named),
                )
            } else {
                settled(s, refs)
            }
        },
        (Phase::Choosing, Occurrence::Cancelled) => failed(s, Failure::Cancelled),
        (Phase::AskingTopics, Occurrence::Answer(yes)) => if yes {
            expanding(s, s.refs, s.topics)
        } else {
            settled(s, s.refs)
        },
        (Phase::Querying, Occurrence::Response(success, output)) => if s.topics.len() == 0 {
            settled(s, s.refs)
        } else {
            match records(
                schema_of(s.endpoint),
                lenient(answer(s.endpoint, success, output)).items(),
            ) {
                Err(e) => failed(s, Failure::Record(e)),
                Ok(found) => expanding(
                    s,
                    merged(s.refs, found, s.repo_type),
                    s.topics.drop_first(),
                ),
            }
        },
        (Phase::Executing, Occurrence::Answer(yes)) => executing(s, BatchEvent::Answer(yes)),
        (Phase::Executing, Occurrence::Ready) => executing(s, BatchEvent::Ready),
        (Phase::Executing, Occurrence::Outcome(success)) => executing(
            s,
            BatchEvent::Outcome(success),
        ),
        _ => (s, Request::Ignored),
    }
}

/// What holds of every run that was made by `Session::new` and moved by
/// `step`: no pair is to be fetched twice, the batch is consistent, topics
/// are left while the user is asked about them or the server is, and the
/// batch has not ended while commands are executed.
pub open spec fn session_consistent(s: SessionView) -> bool {
    &&& s.refs.no_duplicates()
    &&& consistent(s.batch)
    &&& (s.phase == Phase::AskingTopics || s.phase == Phase::Querying) ==> s.topics.len() > 0
    &&& s.phase == Phase::Executing ==> !ended(s.batch.state)
}

/// A run is consistent at its start.
pub proof fn lemma_begun_consistent(
    endpoint: RemoteEndpoint,
    repo_type: RepoType,
    method: Method,
    query: Seq<char>,
)
    ensures
        session_consistent(begun(endpoint, repo_type, method, query).0),
{
}

/// An event keeps a run consistent.
pub proof fn lemma_session_step_consistent(s: SessionView, event: Occurrence)
    requires
        session_consistent(s),
    ensures
        session_consistent(session_step(s, event).0),
{
    match (s.phase, event) {
        (Phase::Choosing, Occurrence::Chosen(places)) => {
            let chosen = picked(s.commits, places);
            lemma_inserted_all(
                Seq::empty(),
                chosen.map_values(|c: CommitView| chosen_pair(c, s.repo_type)),
            );
        },
        (Phase::Querying, Occurrence::Response(success, output)) => {
            match records(
                schema_of(s.endpoint),
                lenient(answer(s.endpoint, success, output)).items(),
            ) {
                Ok(found) => {
                    lemma_merged_size(s.refs, found, s.repo_type);
                },
                Err(_) => {},
            }
        },
        (Phase::Executing, Occurrence::Answer(yes)) => {
            lemma_step_consistent(s.batch, BatchEvent::Answer(yes));
            lemma_stop_means_ended(s.batch, BatchEvent::Answer(yes));
        },
        (Phase::Executing, Occurrence::Ready) => {
            lemma_step_consistent(s.batch, BatchEvent::Ready);
            lemma_stop_means_ended(s.batch, BatchEvent::Ready);
        },
        (Phase::Executing, Occurrence::Outcome(success)) => {
            lemma_step_consistent(s.batch, BatchEvent::Outcome(success));
            lemma_stop_means_ended(s.batch, BatchEvent::Outcome(success));
        },
        _ => {},
    }
}

/// A run that is over stays as it is, whatever happens.
pub proof fn lemma_session_ended_is_final(s: SessionView, event: Occurrence)
    requires
        s.phase == Phase::Ended,
    ensures
        session_step(s, event) == (s, Request::Ignored),
{
}

/// While commands are executed, nothing is fetched that was not planned:
/// what the batch has left is the end of the plan for what is to be
/// fetched, and stays so.
pub open spec fn on_plan(s: SessionView) -> bool {
    s.phase == Phase::Executing ==> exists|n: int|
        0 <= n <= planned(s.refs, s.repo_type, s.method).len() && s.batch.remaining == planned(
            s.refs,
            s.repo_type,
            s.method,
        ).skip(n)
}

/// An event keeps a run on its plan.
pub proof fn lemma_session_step_on_plan(s: SessionView, event: Occurrence)
    requires
        on_plan(s),
    ensures
        on_plan(session_step(s, event).0),
{
    let after = session_step(s, event).0;
    if after.phase == Phase::Executing {
        let plan = planned(after.refs, after.repo_type, after.method);
        if s.phase == Phase::Executing {
            let n = choose|n: int|
                0 <= n <= plan.len() && s.batch.remaining == plan.skip(
                    n,
                );
            let e = match event {
                Occurrence::Answer(yes) => BatchEvent::Answer(yes),
                Occurrence::Outcome(success) => BatchEvent::Outcome(success),
                _ => BatchEvent::Ready,
            };
            if event is Answer || event is Outcome || event is Ready {
                lemma_step_remaining(s.batch, e);
                if step(s.batch, e).1 is Run {
                    assert(plan.skip(n).drop_first() == plan.skip(n + 1));
                    assert(after.batch.remaining == plan.skip(n + 1));
                } else {
                    assert(after.batch.remaining == plan.skip(n));
                }
            } else {
                assert(after.batch.remaining == plan.skip(n));
            }
        } else {
            assert(plan.skip(0) == plan);
            assert(after.batch.remaining == plan.skip(0));
        }
    }
}

/// One run of the tool.
pub struct Session<'a> {
    remote: &'a RemoteUrl,
    repo_type: RepoType,
    method: Method,
    phase: Phase,
    commits: Vec<CommitInfo>,
    refs: RefSet,
    topics: Vec<String>,
    batch: Batch,
}

impl<'a> View for Session<'a> {
    type V = SessionView;

    closed spec fn view(&self) -> SessionView {
        SessionView {
            endpoint: self.remote@,
            repo_type: self.repo_type,
            method: self.method,
            phase: self.phase,
            commits: views(self.commits@),
            refs: self.refs@,
            topics: texts(self.topics@),
            batch: self.batch@,
        }
    }
}

fn lift(action: BatchAction, batch: &Batch) -> (r: SessionAction)
    ensures
        r@ == lifted(action@, batch@),
{
    match action {
        BatchAction::Start => SessionAction::Start,
        BatchAction::Run(c) => SessionAction::Run(c),
        BatchAction::AskContinue => SessionAction::AskContinue,
        BatchAction::Stop => SessionAction::Stop(batch.resume_line()),
        BatchAction::Ignored => SessionAction::Ignored,
    }
}

impl<'a> Session<'a> {
    /// A run for the given server, workspace and method, and the first thing
    /// to do: put `query` to the server.
    pub fn new(remote: &'a RemoteUrl, repo_type: RepoType, method: Method, query: &str) -> (r: (
        Session<'a>,
        SessionAction,
    ))
        ensures
            (r.0@, r.1@) == begun(remote@, repo_type, method, query@),
    {
        let session = Session {
            remote,
            repo_type,
            method,
            phase: Phase::Fetching,
            commits: Vec::new(),
            refs: RefSet::new(),
            topics: Vec::new(),
            batch: Batch::new(Vec::new()),
        };
        proof {
            assert(views(session.commits@) == Seq::<CommitView>::empty());
            assert(texts(session.topics@) == Seq::<Seq<char>>::empty());
            assert(steps(Seq::<Commit>::empty()) == Seq::<Step>::empty());
        }
        let action = SessionAction::Query(remote.command(query));
        (session, action)
    }

    /// Where the run stands.
    pub fn phase(&self) -> (r: Phase)
        ensures
            r == self@.phase,
    {
        self.phase
    }

    fn fail(&mut self, why: Failure) -> (r: SessionAction)
        ensures
            (final(self)@, r@) == failed(old(self)@, why),
    {
        self.phase = Phase::Ended;
        SessionAction::Fail(why)
    }

    fn settle(&mut self) -> (r: SessionAction)
        ensures
            (final(self)@, r@) == settled(old(self)@, old(self)@.refs),
    {
        let mut shown: Vec<String> = Vec::new();
        let mut i: usize = 0;
        assert(texts(shown@) == titles(self.refs@).take(0));
        while i < self.refs.len()
            invariant
                i <= self.refs@.len(),
                texts(shown@) == titles(self.refs@).take(i as int),
            decreases self.refs@.len() - i,
        {
            let title = String::from_str(self.refs.title(i));
            proof {
                let all = titles(self.refs@);
                assert(all.take(i + 1) == all.take(i as int).push(all[i as int]));
                assert(texts(shown@.push(title)) == texts(shown@).push(title@));
            }
            shown.push(title);
            i += 1;
        }
        assert(titles(self.refs@).take(self.refs@.len() as int) == titles(self.refs@));
        self.batch = Batch::new(plan(&self.refs, self.repo_type, self.method));
        self.topics = Vec::new();
        self.phase = Phase::Executing;
        assert(texts(self.topics@) == Seq::<Seq<char>>::empty());
        SessionAction::AskProceed(shown)
    }

    fn expand(&mut self) -> (r: SessionAction)
        ensures
            (final(self)@, r@) == expanding(old(self)@, old(self)@.refs, old(self)@.topics),
    {
        if self.topics.len() == 0 {
            self.settle()
        } else {
            self.phase = Phase::Querying;
            let query = topic_query_str(self.topics[0].as_str());
            SessionAction::Query(self.remote.command(query.as_str()))
        }
    }

    fn run(&mut self, event: BatchEvent) -> (r: SessionAction)
        ensures
            (final(self)@, r@) == executing(old(self)@, event),
    {
        let action = self.batch.step(event);
        match action {
            BatchAction::Stop => {
                self.phase = Phase::Ended;
            },
            _ => {
                self.phase = Phase::Executing;
            },
        }
        lift(action, &self.batch)
    }

    fn candidates(&self) -> (r: Vec<Candidate>)
        ensures
            candidate_views(r@) == views(self.commits@).map_values(
                |c: CommitView| candidate(c, self.repo_type),
            ),
    {
        let ghost all = views(self.commits@).map_values(
            |c: CommitView| candidate(c, self.repo_type),
        );
        let mut list: Vec<Candidate> = Vec::new();
        let mut i: usize = 0;
        assert(candidate_views(list@) == all.take(0));
        while i < self.commits.len()
            invariant
                i <= self.commits.len(),
                all == views(self.commits@).map_values(
                    |c: CommitView| candidate(c, self.repo_type),
                ),
                candidate_views(list@) == all.take(i as int),
            decreases self.commits.len() - i,
        {
            let c = Candidate {
                text: self.commits[i].get_title(self.repo_type),
                preview: self.commits[i].get_body(),
                output: self.commits[i].get_reference(self.repo_type),
            };
            proof {
                assert(all.take(i + 1) == all.take(i as int).push(c@));
                assert(candidate_views(list@.push(c)) == candidate_views(list@).push(c@));
            }
            list.push(c);
            i += 1;
        }
        assert(all.take(self.commits.len() as int) == all);
        list
    }

    fn pick(&self, places: &Vec<usize>) -> (r: Vec<CommitInfo>)
        ensures
            views(r@) == picked(views(self.commits@), places@),
    {
        let mut chosen: Vec<CommitInfo> = Vec::new();
        let mut i: usize = 0;
        assert(places@.take(0) == Seq::<usize>::empty());
        assert(views(chosen@) == Seq::<CommitView>::empty());
        while i < places.len()
            invariant
                i <= places.len(),
                views(chosen@) == picked(views(self.commits@), places@.take(i as int)),
            decreases places.len() - i,
        {
            proof {
                assert(places@.take(i + 1).drop_last() == places@.take(i as int));
                assert(places@.take(i + 1).last() == places@[i as int]);
            }
            if places[i] < self.commits.len() {
                let c = self.commits[places[i]].clone();
                assert(views(chosen@.push(c)) == views(chosen@).push(c@));
                chosen.push(c);
            }
            i += 1;
        }
        assert(places@.take(places.len() as int) == places@);
        chosen
    }

    /// Moves the run by one event and says what to do next.
    pub fn step(&mut self, event: SessionEvent) -> (r: SessionAction)
        ensures
            (final(self)@, r@) == session_step(old(self)@, event@),
    {
        match (self.phase, event) {
            (Phase::Fetching, SessionEvent::Response { success, output }) => {
                match self.remote.read_response(success, output.as_str()) {
                    Err(e) => self.fail(Failure::Query(e)),
                    Ok(value) => match CommitInfo::parse_json(self.remote, &value) {
                        Err(e) => self.fail(Failure::Record(e)),
                        Ok(found) => {
                            self.commits = found;
                            self.phase = Phase::Choosing;
                            SessionAction::Choose(self.candidates())
                        },
                    },
                }
            },
            (Phase::Choosing, SessionEvent::Chosen(places)) => {
                let chosen = self.pick(&places);
                let named = collect_topics(&chosen);
                self.refs = resolve(&chosen, self.repo_type);
                if named.len() > 0 {
                    let shown = copy_strs(&named);
                    self.topics = named;
                    self.phase = Phase::AskingTopics;
                    SessionAction::AskExpand(shown)
                } else {
                    self.settle()
                }
            },
            (Phase::Choosing, SessionEvent::Cancelled) => self.fail(Failure::Cancelled),
            (Phase::AskingTopics, SessionEvent::Answer(yes)) => {
                if yes {
                    self.expand()
                } else {
                    self.settle()
                }
            },
            (Phase::Querying, SessionEvent::Response { success, output }) => {
                if self.topics.len() == 0 {
                    self.settle()
                } else {
                    let value = self.remote.read_optional_response(success, output.as_str());
                    match CommitInfo::parse_json(self.remote, &value) {
                        Err(e) => self.fail(Failure::Record(e)),
                        Ok(found) => {
                            merge(&mut self.refs, &found, self.repo_type);
                            proof {
                                assert(texts(self.topics@.remove(0)) == texts(
                                    self.topics@,
                                ).drop_first());
                            }
                            self.topics.remove(0);
                            self.expand()
                        },
                    }
                }
            },
            (Phase::Executing, SessionEvent::Answer(yes)) => self.run(BatchEvent::Answer(yes)),
            (Phase::Executing, SessionEvent::Ready) => self.run(BatchEvent::Ready),
            (Phase::Executing, SessionEvent::Outcome(success)) => self.run(
                BatchEvent::Outcome(success),
            ),
            _ => SessionAction::Ignored,
        }
    }
}

} // verus!
