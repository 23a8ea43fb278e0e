//! The commands that fetch the chosen changes, and the protocol by which
//! they are run: one confirmation for all of them, then one command at a
//! time, with the choice to stop after a failure.

use crate::repo_info::RepoType;
use crate::selection::{Pair, RefSet};
use crate::settings::Method;
use crate::text::{join, join_strs, texts};
use vstd::prelude::*;

verus! {

/// A planned command as mathematics.
pub struct Step {
    pub title: Seq<char>,
    pub command: Seq<char>,
}

/// A planned command: what the shell is to run, and the title of the
/// change that it fetches.
pub struct Commit {
    pub title: String,
    pub command: String,
}

impl View for Commit {
    type V = Step;

    open spec fn view(&self) -> Step {
        Step { title: self.title@, command: self.command@ }
    }
}

/// The views of a sequence of commands.
pub open spec fn steps(commands: Seq<Commit>) -> Seq<Step> {
    commands.map_values(|c: Commit| c@)
}

/// The command that fetches `reference` and applies `method` to it: for
/// Git a fetch and then the method on what was fetched; for the
/// multi-repository tool a download, with a flag behind it only where the
/// method is to cherry-pick.
pub open spec fn command_line(reference: Seq<char>, repo_type: RepoType, method: Method) -> Seq<
    char,
> {
    if repo_type == RepoType::Git {
        "git fetch origin "@ + reference + " && git "@ + method.verb() + " FETCH_HEAD"@
    } else {
        "repo download "@ + reference + if method == Method::CherryPick {
            " --cherry-pick"@
        } else {
            Seq::empty()
        }
    }
}

/// One command for each pair of a set, in the order of the set.
pub open spec fn planned(set: Seq<Pair>, repo_type: RepoType, method: Method) -> Seq<Step> {
    set.map_values(
        |p: Pair| Step { title: p.0, command: command_line(p.1, repo_type, method) },
    )
}

/// What is printed once a command has run.
pub open spec fn status_line(step: Step, success: bool) -> Seq<char> {
    step.title + if success {
        ": Ok"@
    } else {
        ": Failed"@
    }
}

/// The command line that runs all of `steps`, each only if the one before
/// it succeeded.
pub open spec fn chained(steps: Seq<Step>) -> Seq<char> {
    join(steps.map_values(|s: Step| s.command), " && "@)
}

impl Commit {
    /// A command with its title.
    pub fn new(title: String, command: String) -> (r: Commit)
        ensures
            r@ == (Step { title: title@, command: command@ }),
    {
        Commit { title, command }
    }

    /// What to print once the command has run.
    pub fn status_line(&self, success: bool) -> (r: String)
        ensures
            r@ == status_line(self@, success),
    {
        let mut out = self.title.clone();
        if success {
            out.append(": Ok");
        } else {
            out.append(": Failed");
        }
        out
    }

    fn copy(&self) -> (r: Commit)
        ensures
            r@ == self@,
    {
        Commit { title: self.title.clone(), command: self.command.clone() }
    }
}

/// The command that fetches `reference` and applies `method` to it.
pub fn command_for(reference: &str, repo_type: RepoType, method: Method) -> (r: String)
    ensures
        r@ == command_line(reference@, repo_type, method),
{
    if repo_type == RepoType::Git {
        let mut out = String::from_str("git fetch origin ");
        out.append(reference);
        out.append(" && git ");
        out.append(method.subcommand());
        out.append(" FETCH_HEAD");
        out
    } else {
        let mut out = String::from_str("repo download ");
        out.append(reference);
        if method == Method::CherryPick {
            out.append(" --cherry-pick");
        }
        assert(out@ =~= command_line(reference@, repo_type, method));
        out
    }
}

/// One command for each pair of the set, in the order of the set.
pub fn plan(set: &RefSet, repo_type: RepoType, method: Method) -> (r: Vec<Commit>)
    ensures
        steps(r@) == planned(set@, repo_type, method),
{
    let mut commands: Vec<Commit> = Vec::new();
    let mut i: usize = 0;
    assert(steps(commands@) == planned(set@, repo_type, method).take(0));
    while i < set.len()
        invariant
            i <= set@.len(),
            steps(commands@) == planned(set@, repo_type, method).take(i as int),
        decreases set@.len() - i,
    {
        let command = Commit::new(
            String::from_str(set.title(i)),
            command_for(set.reference(i), repo_type, method),
        );
        proof {
            let all = planned(set@, repo_type, method);
            assert(all.take(i + 1) == all.take(i as int).push(all[i as int]));
            assert(steps(commands@.push(command)) == steps(commands@).push(command@));
        }
        commands.push(command);
        i += 1;
    }
    assert(planned(set@, repo_type, method).take(set@.len() as int) == planned(
        set@,
        repo_type,
        method,
    ));
    commands
}

/// The command line that runs all of `commands`; `None` if there are none.
pub fn chain(commands: &Vec<Commit>) -> (r: Option<String>)
    ensures
        match r {
            Some(line) => commands@.len() > 0 && line@ == chained(steps(commands@)),
            None => commands@.len() == 0,
        },
{
    if commands.len() == 0 {
        return None;
    }
    let ghost all = steps(commands@).map_values(|s: Step| s.command);
    let mut lines: Vec<String> = Vec::new();
    let mut i: usize = 0;
    assert(texts(lines@) == all.take(0));
    while i < commands.len()
        invariant
            i <= commands.len(),
            all == steps(commands@).map_values(|s: Step| s.command),
            texts(lines@) == all.take(i as int),
        decreases commands.len() - i,
    {
        let line = commands[i].command.clone();
        proof {
            assert(all.take(i + 1) == all.take(i as int).push(all[i as int]));
            assert(texts(lines@.push(line)) == texts(lines@).push(line@));
        }
        lines.push(line);
        i += 1;
    }
    assert(all.take(commands.len() as int) == all);
    Some(join_strs(&lines, " && "))
}

/// Where a batch stands.
#[derive(Clone, Copy, Debug, PartialEq, Eq, Structural)]
pub enum BatchState {
    /// The commands are planned and the user has not answered yet.
    Planned,
    /// The user has agreed to run them; none has started.
    Confirmed,
    /// A command is running.
    Running,
    /// A command has failed, others remain, and the user is asked whether
    /// to go on.
    Asking,
    /// Every command has run.
    Completed,
    /// The user stopped the batch after a failure; commands remain.
    AbortedWithRemainder,
    /// The user did not agree; nothing has run.
    Declined,
}

/// What happened outside since the last action.
#[derive(Clone, Copy, Debug, PartialEq, Eq, Structural)]
pub enum BatchEvent {
    /// The user answered a question with yes (`true`) or no.
    Answer(bool),
    /// The last action was carried out and has nothing to report.
    Ready,
    /// The command handed out has run, with success (`true`) or not.
    Outcome(bool),
}

/// What to do next, as mathematics.
pub enum ActionView {
    Start,
    Run(Step),
    AskContinue,
    Stop,
    Ignored,
}

/// What to do next.
pub enum BatchAction {
    /// Tell the user that execution begins, then report `Ready`.
    Start,
    /// Run the command, then report its `Outcome`.
    Run(Commit),
    /// Ask the user whether to go on, then report the `Answer`.
    AskContinue,
    /// The batch has ended: show the resume line if there is one.
    Stop,
    /// The event does not fit the state; nothing has changed.
    Ignored,
}

impl View for BatchAction {
    type V = ActionView;

    open spec fn view(&self) -> ActionView {
        match self {
            BatchAction::Start => ActionView::Start,
            BatchAction::Run(c) => ActionView::Run(c@),
            BatchAction::AskContinue => ActionView::AskContinue,
            BatchAction::Stop => ActionView::Stop,
            BatchAction::Ignored => ActionView::Ignored,
        }
    }
}

/// A batch as mathematics: its state, and the commands that have not been
/// handed out yet.
pub struct Progress {
    pub state: BatchState,
    pub remaining: Seq<Step>,
}

/// Hands out the first of the remaining commands; ends the batch where
/// none remains.
pub open spec fn advance(remaining: Seq<Step>) -> (Progress, ActionView) {
    if remaining.len() == 0 {
        (Progress { state: BatchState::Completed, remaining }, ActionView::Stop)
    } else {
        (
            Progress { state: BatchState::Running, remaining: remaining.drop_first() },
            ActionView::Run(remaining[0]),
        )
    }
}

/// The state after an event, and what to do next.
pub open spec fn step(b: Progress, event: BatchEvent) -> (Progress, ActionView) {
    match (b.state, event) {
        (BatchState::Planned, BatchEvent::Answer(yes)) => if yes {
            (Progress { state: BatchState::Confirmed, remaining: b.remaining }, ActionView::Start)
        } else {
            (Progress { state: BatchState::Declined, remaining: b.remaining }, ActionView::Stop)
        },
        (BatchState::Confirmed, BatchEvent::Ready) => advance(b.remaining),
        (BatchState::Running, BatchEvent::Outcome(success)) => if success || b.remaining.len()
            == 0 {
            advance(b.remaining)
        } else {
            (
                Progress { state: BatchState::Asking, remaining: b.remaining },
                ActionView::AskContinue,
            )
        },
        (BatchState::Asking, BatchEvent::Answer(yes)) => if yes {
            advance(b.remaining)
        } else {
            (
                Progress { state: BatchState::AbortedWithRemainder, remaining: b.remaining },
                ActionView::Stop,
            )
        },
        _ => (b, ActionView::Ignored),
    }
}

/// What holds of every batch that was made by `Batch::new` and moved by
/// `step`: the user is only asked, and the batch only counts as aborted,
/// while commands remain; a completed batch has none left.
pub open spec fn consistent(b: Progress) -> bool {
    &&& b.state == BatchState::Asking ==> b.remaining.len() > 0
    &&& b.state == BatchState::AbortedWithRemainder ==> b.remaining.len() > 0
    &&& b.state == BatchState::Completed ==> b.remaining.len() == 0
}

/// Whether a batch has ended.
pub open spec fn ended(state: BatchState) -> bool {
    state == BatchState::Completed || state == BatchState::AbortedWithRemainder || state
        == BatchState::Declined
}

/// The command line to show for the commands that were not run; `None`
/// where all were.
pub open spec fn resume_line(b: Progress) -> Option<Seq<char>> {
    if b.remaining.len() == 0 {
        None
    } else {
        Some(chained(b.remaining))
    }
}

/// A step keeps a batch consistent.
pub proof fn lemma_step_consistent(b: Progress, event: BatchEvent)
    requires
        consistent(b),
    ensures
        consistent(step(b, event).0),
{
}

/// A step never adds or reorders commands: it leaves the remaining ones
/// as they are, or hands out the first of them and leaves the others.
pub proof fn lemma_step_remaining(b: Progress, event: BatchEvent)
    ensures
        match step(b, event).1 {
            ActionView::Run(s) => b.remaining.len() > 0 && s == b.remaining[0] && step(
                b,
                event,
            ).0.remaining == b.remaining.drop_first(),
            _ => step(b, event).0.remaining == b.remaining,
        },
{
}

/// A batch that has ended stays as it is, whatever happens.
pub proof fn lemma_ended_is_final(b: Progress, event: BatchEvent)
    requires
        ended(b.state),
    ensures
        step(b, event) == (b, ActionView::Ignored),
{
}

/// A batch stops exactly when it ends: of a batch that is under way, an
/// action is `Stop` if and only if the state after it is an end.
pub proof fn lemma_stop_means_ended(b: Progress, event: BatchEvent)
    requires
        !ended(b.state),
    ensures
        step(b, event).1 is Stop <==> ended(step(b, event).0.state),
{
}

/// The command line that runs a single command is that command.
pub proof fn lemma_chained_single(s: Step)
    ensures
        chained(seq![s]) == s.command,
{
    assert(seq![s].map_values(|x: Step| x.command) == seq![s.command]);
}

/// When a command fails while others remain and the user declines to go
/// on, the batch is aborted with exactly those others left, and the line to
/// resume with chains their commands.
pub proof fn lemma_failure_then_decline(b: Progress)
    requires
        b.state == BatchState::Running,
        b.remaining.len() > 0,
    ensures
        step(b, BatchEvent::Outcome(false)).1 is AskContinue,
        step(step(b, BatchEvent::Outcome(false)).0, BatchEvent::Answer(false)) == (
            Progress { state: BatchState::AbortedWithRemainder, remaining: b.remaining },
            ActionView::Stop,
        ),
        resume_line(step(step(b, BatchEvent::Outcome(false)).0, BatchEvent::Answer(false)).0)
            == Some(chained(b.remaining)),
{
}

/// Of three commands, when the first succeeds, the second fails and the
/// user declines to go on, the third alone is left, and the line to resume
/// with is that command.
pub proof fn lemma_abort_after_second(a: Step, b: Step, c: Step)
    ensures
        ({
            let planned = Progress { state: BatchState::Planned, remaining: seq![a, b, c] };
            let confirmed = step(planned, BatchEvent::Answer(true)).0;
            let first = step(confirmed, BatchEvent::Ready);
            let second = step(first.0, BatchEvent::Outcome(true));
            let asked = step(second.0, BatchEvent::Outcome(false));
            let stopped = step(asked.0, BatchEvent::Answer(false));
            &&& first.1 == ActionView::Run(a)
            &&& second.1 == ActionView::Run(b)
            &&& asked.1 is AskContinue
            &&& stopped.1 is Stop
            &&& stopped.0 == (Progress {
                state: BatchState::AbortedWithRemainder,
                remaining: seq![c],
            })
            &&& resume_line(stopped.0) == Some(c.command)
        }),
{
    let all = seq![a, b, c];
    assert(all.drop_first() == seq![b, c]);
    assert(seq![b, c].drop_first() == seq![c]);
    lemma_chained_single(c);
}

/// A batch of commands on its way through the protocol.
pub struct Batch {
    state: BatchState,
    commands: Vec<Commit>,
    next: usize,
}

impl View for Batch {
    type V = Progress;

    closed spec fn view(&self) -> Progress {
        Progress {
            state: self.state,
            remaining: if self.next <= self.commands.len() {
                steps(self.commands@).skip(self.next as int)
            } else {
                Seq::empty()
            },
        }
    }
}

impl Batch {
    /// The batch of the planned commands, before the user is asked.
    pub fn new(commands: Vec<Commit>) -> (r: Batch)
        ensures
            r@ == (Progress { state: BatchState::Planned, remaining: steps(commands@) }),
            consistent(r@),
    {
        let r = Batch { state: BatchState::Planned, commands, next: 0 };
        assert(steps(r.commands@).skip(0) == steps(r.commands@));
        r
    }

    /// Where the batch stands.
    pub fn state(&self) -> (r: BatchState)
        ensures
            r == self@.state,
    {
        self.state
    }

    /// The commands that have not been handed out.
    pub fn remaining(&self) -> (r: Vec<Commit>)
        ensures
            steps(r@) == self@.remaining,
    {
        let mut out: Vec<Commit> = Vec::new();
        if self.next > self.commands.len() {
            assert(steps(out@) == Seq::<Step>::empty());
            return out;
        }
        let mut i: usize = self.next;
        let ghost rest = steps(self.commands@).skip(self.next as int);
        assert(steps(out@) == rest.take(0));
        while i < self.commands.len()
            invariant
                self.next <= i <= self.commands.len(),
                rest == steps(self.commands@).skip(self.next as int),
                steps(out@) == rest.take(i - self.next),
            decreases self.commands.len() - i,
        {
            let c = self.commands[i].copy();
            proof {
                assert(rest.take(i - self.next + 1) == rest.take(i - self.next).push(c@));
                assert(steps(out@.push(c)) == steps(out@).push(c@));
            }
            out.push(c);
            i += 1;
        }
        assert(rest.take(self.commands.len() - self.next) == rest);
        out
    }

    /// The command line to show for the commands that were not run.
    pub fn resume_line(&self) -> (r: Option<String>)
        ensures
            match r {
                Some(line) => resume_line(self@) == Some(line@),
                None => resume_line(self@) is None,
            },
    {
        let rest = self.remaining();
        chain(&rest)
    }

    fn advance(&mut self) -> (r: BatchAction)
        ensures
            (final(self)@, r@) == advance(old(self)@.remaining),
    {
        if self.next < self.commands.len() {
            let c = self.commands[self.next].copy();
            proof {
                let all = steps(self.commands@);
                assert(all.skip(self.next as int).drop_first() == all.skip(self.next + 1));
            }
            self.next = self.next + 1;
            self.state = BatchState::Running;
            BatchAction::Run(c)
        } else {
            self.state = BatchState::Completed;
            proof {
                if self.next == self.commands.len() {
                    assert(steps(self.commands@).skip(self.next as int) == Seq::<Step>::empty());
                }
            }
            BatchAction::Stop
        }
    }

    /// Moves the batch by one event and says what to do next.
    pub fn step(&mut self, event: BatchEvent) -> (r: BatchAction)
        ensures
            (final(self)@, r@) == step(old(self)@, event),
    {
        match (self.state, event) {
            (BatchState::Planned, BatchEvent::Answer(yes)) => {
                if yes {
                    self.state = BatchState::Confirmed;
                    BatchAction::Start
                } else {
                    self.state = BatchState::Declined;
                    BatchAction::Stop
                }
            },
            (BatchState::Confirmed, BatchEvent::Ready) => self.advance(),
            (BatchState::Running, BatchEvent::Outcome(success)) => {
                if success || self.next >= self.commands.len() {
                    self.advance()
                } else {
                    self.state = BatchState::Asking;
                    BatchAction::AskContinue
                }
            },
            (BatchState::Asking, BatchEvent::Answer(yes)) => {
                if yes {
                    self.advance()
                } else {
                    self.state = BatchState::AbortedWithRemainder;
                    BatchAction::Stop
                }
            },
            _ => BatchAction::Ignored,
        }
    }
}

} // verus!
