//! Whether a session is active, sits at `seat0`, or is locked.

use crate::fields;
use crate::query::{LoginctlCall, OutputView, Progress, Query, Reply, ReplyView, World};
use crate::session;
use crate::text;
use vstd::prelude::*;
use vstd::string::*;

verus! {

/// What is asked of a session.
#[derive(Clone, Copy, Debug, PartialEq, Eq, Structural)]
pub enum Question {
    Active,
    ActiveAtSeat0,
    Locked,
}

/// What a status probe waits for.
#[derive(Clone, Copy, Debug, PartialEq, Eq, Structural)]
pub enum StatusStage {
    /// The content of the session's file.
    File,
    /// What `loginctl` says of the session.
    Loginctl,
}

/// A probe for the answer to a question about a session. `T` is the type of
/// the session's id.
pub struct StatusProbe<T> {
    pub session: T,
    pub question: Question,
    pub stage: StatusStage,
}

impl View for StatusProbe<String> {
    type V = StatusProbe<Seq<char>>;

    open spec fn view(&self) -> StatusProbe<Seq<char>> {
        StatusProbe { session: self.session@, question: self.question, stage: self.stage }
    }
}

/// How far a status probe has come.
pub type StatusProgress = Progress<StatusProbe<Seq<char>>, Query<Seq<char>>, bool>;

/// The answer that the fields of a session's file give. They do not always
/// tell whether a session is locked.
pub open spec fn answer_of_fields(
    question: Question,
    session_fields: Map<Seq<char>, Seq<char>>,
) -> Option<bool> {
    match question {
        Question::Active => Some(session::active(session_fields)),
        Question::ActiveAtSeat0 => Some(
            session::active(session_fields) && session::at_seat0(session_fields),
        ),
        Question::Locked => None,
    }
}

/// The answer that the content of a session's file gives.
pub open spec fn answer_of_file(question: Question, content: Option<Seq<char>>) -> Option<bool> {
    match content {
        Some(c) => answer_of_fields(question, fields::fields_of(c)),
        None => None,
    }
}

/// The answer in what `loginctl` printed.
pub open spec fn answer_in(question: Question, printed: Seq<char>) -> bool {
    match question {
        Question::Active => text::contains_spec(printed, "active"@),
        Question::ActiveAtSeat0 => text::contains_spec(printed, "State=active"@)
            && text::contains_spec(printed, "Seat=seat0"@),
        Question::Locked => text::contains_spec(printed, "LockedHint=yes"@),
    }
}

/// The call of `loginctl` that answers a question about a session.
pub open spec fn call_for(question: Question, sid: Seq<char>) -> LoginctlCall<Seq<char>> {
    match question {
        Question::Active => LoginctlCall::ShowState(sid),
        Question::ActiveAtSeat0 => LoginctlCall::ShowAll(sid),
        Question::Locked => LoginctlCall::ShowLocked(sid),
    }
}

/// A status probe that turned to `loginctl`.
pub open spec fn ask_loginctl(question: Question, sid: Seq<char>) -> StatusProgress {
    Progress::Ask(
        StatusProbe { session: sid, question, stage: StatusStage::Loginctl },
        Query::Loginctl(call_for(question, sid)),
    )
}

/// The start of a status probe. Whether a session is locked is not always in
/// its file, so `loginctl` is asked at once.
pub open spec fn status_start(question: Question, sid: Seq<char>) -> StatusProgress {
    match question {
        Question::Locked => ask_loginctl(question, sid),
        _ => Progress::Ask(
            StatusProbe { session: sid, question, stage: StatusStage::File },
            Query::SessionFile(sid),
        ),
    }
}

impl StatusProbe<Seq<char>> {
    /// Where a reply takes the probe.
    pub open spec fn next(self, reply: ReplyView) -> StatusProgress {
        match self.stage {
            StatusStage::File => match answer_of_file(self.question, reply.text()) {
                Some(a) => Progress::Done(a),
                None => ask_loginctl(self.question, self.session),
            },
            StatusStage::Loginctl => match reply.output() {
                Some(o) => Progress::Done(answer_in(self.question, text::decoded(o.stdout))),
                None => Progress::Done(false),
            },
        }
    }
}

/// The answer in what `loginctl` printed.
pub fn printed_answer(question: Question, printed: &str) -> (r: bool)
    ensures
        r == answer_in(question, printed@),
{
    match question {
        Question::Active => text::contains(printed, "active"),
        Question::ActiveAtSeat0 => text::contains(printed, "State=active") && text::contains(
            printed,
            "Seat=seat0",
        ),
        Question::Locked => text::contains(printed, "LockedHint=yes"),
    }
}

fn turn_to_loginctl(question: Question, sid: String) -> (r: Progress<
    StatusProbe<String>,
    Query<String>,
    bool,
>)
    ensures
        r@ == ask_loginctl(question, sid@),
{
    let named = sid.as_str().to_owned();
    let call = match question {
        Question::Active => LoginctlCall::ShowState(named),
        Question::ActiveAtSeat0 => LoginctlCall::ShowAll(named),
        Question::Locked => LoginctlCall::ShowLocked(named),
    };
    Progress::Ask(
        StatusProbe { session: sid, question, stage: StatusStage::Loginctl },
        Query::Loginctl(call),
    )
}

/// Starts a probe for whether a session is active.
pub fn is_active(sid: &str) -> (r: Progress<StatusProbe<String>, Query<String>, bool>)
    ensures
        r@ == status_start(Question::Active, sid@),
{
    Progress::Ask(
        StatusProbe {
            session: sid.to_owned(),
            question: Question::Active,
            stage: StatusStage::File,
        },
        Query::SessionFile(sid.to_owned()),
    )
}

/// Starts a probe for whether a session is active and sits at `seat0`.
pub fn is_active_and_seat0(sid: &str) -> (r: Progress<StatusProbe<String>, Query<String>, bool>)
    ensures
        r@ == status_start(Question::ActiveAtSeat0, sid@),
{
    Progress::Ask(
        StatusProbe {
            session: sid.to_owned(),
            question: Question::ActiveAtSeat0,
            stage: StatusStage::File,
        },
        Query::SessionFile(sid.to_owned()),
    )
}

/// Starts a probe for whether a session is locked; switching the user locks
/// it, too.
pub fn is_session_locked(sid: &str) -> (r: Progress<StatusProbe<String>, Query<String>, bool>)
    ensures
        r@ == status_start(Question::Locked, sid@),
{
    turn_to_loginctl(Question::Locked, sid.to_owned())
}

impl StatusProbe<String> {
    /// Takes the reply to the query that the probe asked.
    pub fn resume(self, reply: Reply) -> (r: Progress<StatusProbe<String>, Query<String>, bool>)
        ensures
            r@ == self@.next(reply@),
    {
        match self.stage {
            StatusStage::File => match reply.text() {
                Some(c) => {
                    let f = fields::parse_fields(c.as_str());
                    match self.question {
                        Question::Active => Progress::Done(session::is_active_fields(&f)),
                        Question::ActiveAtSeat0 => Progress::Done(
                            session::is_active_fields(&f) && session::is_seat0_fields(&f),
                        ),
                        Question::Locked => turn_to_loginctl(self.question, self.session),
                    }
                },
                None => turn_to_loginctl(self.question, self.session),
            },
            StatusStage::Loginctl => match reply.output() {
                Some(o) => {
                    let printed = text::decode(o.stdout.as_slice());
                    Progress::Done(printed_answer(self.question, printed.as_str()))
                },
                None => Progress::Done(false),
            },
        }
    }
}

/// The answer to a question about a session, in a system that does not change.
pub open spec fn session_status(world: World, question: Question, sid: Seq<char>) -> bool {
    match answer_of_file(question, world(Query::SessionFile(sid)).text()) {
        Some(a) => a,
        None => match world(Query::Loginctl(call_for(question, sid))).output() {
            Some(o) => answer_in(question, text::decoded(o.stdout)),
            None => false,
        },
    }
}

/// How many queries a status probe can still ask, at most.
pub open spec fn status_queries_left(p: StatusProgress) -> nat {
    match p {
        Progress::Done(_) => 0,
        Progress::Ask(probe, _) => match probe.stage {
            StatusStage::File => 2,
            StatusStage::Loginctl => 1,
        },
    }
}

/// What a status probe asks of an unchanging system from `p` on, and what it
/// finds in the end.
pub open spec fn status_run(world: World, p: StatusProgress) -> (Seq<Query<Seq<char>>>, bool)
    decreases status_queries_left(p),
{
    match p {
        Progress::Done(a) => (Seq::empty(), a),
        Progress::Ask(probe, query) => {
            let (asked, a) = status_run(world, probe.next(world(query)));
            (seq![query] + asked, a)
        },
    }
}

/// In a system that does not change, a status probe finds the answer to its
/// question.
pub proof fn status_probe_finds_answer(world: World, question: Question, sid: Seq<char>)
    ensures
        status_run(world, status_start(question, sid)).1 == session_status(world, question, sid),
{
    reveal_with_fuel(status_run, 3);
}

/// Where the session's file can be read, whether it is active is answered from
/// that file alone.
pub proof fn session_file_answers(world: World, question: Question, sid: Seq<char>)
    requires
        question != Question::Locked,
        world(Query::SessionFile(sid)).text() is Some,
    ensures
        status_run(world, status_start(question, sid)).0 == seq![Query::SessionFile(sid)],
{
    reveal_with_fuel(status_run, 3);
}

/// Where the session's file can be read, a session that is active and sits at
/// `seat0` is active.
pub proof fn active_at_seat0_is_active(world: World, sid: Seq<char>)
    requires
        world(Query::SessionFile(sid)).text() is Some,
        session_status(world, Question::ActiveAtSeat0, sid),
    ensures
        session_status(world, Question::Active, sid),
{
}

/// Where a session's file can be read, the session is active if and only if
/// its field `STATE` is `active` or its field `ACTIVE` is `1`, and at `seat0`
/// if and only if its field `SEAT` is `seat0`, but for white space around
/// them. No other field matters, and nothing but the file is asked for.
pub proof fn file_tells_active(world: World, sid: Seq<char>, content: Seq<char>)
    requires
        world(Query::SessionFile(sid)) == ReplyView::Text(Some(content)),
    ensures
        ({
            let f = fields::fields_of(content);
            let is_active = {
                ||| f.contains_key("STATE"@) && text::trim_spec(f["STATE"@]) == "active"@
                ||| f.contains_key("ACTIVE"@) && text::trim_spec(f["ACTIVE"@]) == "1"@
            };
            let is_at_seat0 = f.contains_key("SEAT"@) && text::trim_spec(f["SEAT"@]) == "seat0"@;
            &&& status_run(world, status_start(Question::Active, sid)) == (
                seq![Query::SessionFile(sid)],
                is_active,
            )
            &&& status_run(world, status_start(Question::ActiveAtSeat0, sid)) == (
                seq![Query::SessionFile(sid)],
                is_active && is_at_seat0,
            )
        }),
{
    session_file_answers(world, Question::Active, sid);
    session_file_answers(world, Question::ActiveAtSeat0, sid);
    status_probe_finds_answer(world, Question::Active, sid);
    status_probe_finds_answer(world, Question::ActiveAtSeat0, sid);
}

/// Where a session's file cannot be read, the session is active if and only if
/// `active` stands in what `loginctl` prints of its state. It is active and at
/// `seat0` if and only if both `State=active` and `Seat=seat0` stand in what
/// `loginctl` prints of the session. Where `loginctl` cannot be run, it is
/// neither.
pub proof fn loginctl_tells_active(
    world: World,
    sid: Seq<char>,
    state: Option<OutputView>,
    all: Option<OutputView>,
)
    requires
        world(Query::SessionFile(sid)) == ReplyView::Text(None),
        world(Query::Loginctl(LoginctlCall::ShowState(sid))) == ReplyView::Output(state),
        world(Query::Loginctl(LoginctlCall::ShowAll(sid))) == ReplyView::Output(all),
    ensures
        status_run(world, status_start(Question::Active, sid)).1 <==> {
            &&& state matches Some(o)
            &&& exists|a: Seq<char>, b: Seq<char>|
                #[trigger] (a + "active"@ + b) == text::decoded(o.stdout)
        },
        status_run(world, status_start(Question::ActiveAtSeat0, sid)).1 <==> {
            &&& all matches Some(o)
            &&& exists|a: Seq<char>, b: Seq<char>|
                #[trigger] (a + "State=active"@ + b) == text::decoded(o.stdout)
            &&& exists|a: Seq<char>, b: Seq<char>|
                #[trigger] (a + "Seat=seat0"@ + b) == text::decoded(o.stdout)
        },
{
    status_probe_finds_answer(world, Question::Active, sid);
    status_probe_finds_answer(world, Question::ActiveAtSeat0, sid);
    if let Some(o) = state {
        text::contained_stands_between(text::decoded(o.stdout), "active"@);
    }
    if let Some(o) = all {
        text::contained_stands_between(text::decoded(o.stdout), "State=active"@);
        text::contained_stands_between(text::decoded(o.stdout), "Seat=seat0"@);
    }
}

/// A session is locked if and only if `LockedHint=yes` stands in what
/// `loginctl` prints of that property of it; where `loginctl` cannot be run,
/// it is not. Nothing else is asked for.
pub proof fn loginctl_tells_locked(world: World, sid: Seq<char>, hint: Option<OutputView>)
    requires
        world(Query::Loginctl(LoginctlCall::ShowLocked(sid))) == ReplyView::Output(hint),
    ensures
        ({
            let (asked, locked) = status_run(world, status_start(Question::Locked, sid));
            &&& asked == seq![Query::Loginctl(LoginctlCall::ShowLocked(sid))]
            &&& locked <==> {
                &&& hint matches Some(o)
                &&& exists|a: Seq<char>, b: Seq<char>|
                    #[trigger] (a + "LockedHint=yes"@ + b) == text::decoded(o.stdout)
            }
        }),
{
    reveal_with_fuel(status_run, 2);
    if let Some(o) = hint {
        text::contained_stands_between(text::decoded(o.stdout), "LockedHint=yes"@);
    }
    assert(status_run(world, status_start(Question::Locked, sid)).0 =~= seq![
        Query::Loginctl(LoginctlCall::ShowLocked(sid)),
    ]);
}

} // verus!
