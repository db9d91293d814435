//! Which display server the machine runs.

use crate::desktop;
use crate::display_server;
use crate::display_server::{SessionProbe, SessionStage};
use crate::fields;
use crate::query;
use crate::query::{
    EnvVar, LoginctlCall, Output, OutputView, Progress, Query, Reply, ReplyView, World,
};
use crate::seat;
use crate::seat::{SeatProbe, SeatProbeView};
use crate::text;
use vstd::prelude::*;
use vstd::string::*;

verus! {

/// What the kernel prints for a process without a session: -1 as an unsigned
/// number.
pub const INVALID_SESSION: &'static str = "4294967295";

/// What a display probe waits for. `S` is a probe for the session at the seat
/// and `D` one for the display server of a session.
pub enum DisplayStage<S, D> {
    /// The display server that overrides all detection.
    Forced,
    /// The file of `seat0`.
    SeatFile,
    /// Whether `loginctl` can be run.
    Loginctl,
    /// The session that sits at the machine.
    Seat(S),
    /// The session id in the environment.
    SessionId,
    /// The session id that the kernel knows.
    KernelSessionId,
    /// The session type in the environment.
    SessionType,
    /// The display server of the session that was found.
    Session(D),
}

/// A probe for the display server of the machine.
pub struct DisplayProbe {
    stage: DisplayStage<SeatProbe, SessionProbe<String>>,
}

/// What a `DisplayProbe` stands for.
pub type DisplayStageView = DisplayStage<SeatProbeView, SessionProbe<Seq<char>>>;

impl View for DisplayProbe {
    type V = DisplayStageView;

    closed spec fn view(&self) -> DisplayStageView {
        match self.stage {
            DisplayStage::Forced => DisplayStage::Forced,
            DisplayStage::SeatFile => DisplayStage::SeatFile,
            DisplayStage::Loginctl => DisplayStage::Loginctl,
            DisplayStage::Seat(p) => DisplayStage::Seat(p@),
            DisplayStage::SessionId => DisplayStage::SessionId,
            DisplayStage::KernelSessionId => DisplayStage::KernelSessionId,
            DisplayStage::SessionType => DisplayStage::SessionType,
            DisplayStage::Session(p) => DisplayStage::Session(p@),
        }
    }
}

/// How far a display probe has come.
pub type DisplayProgress = Progress<DisplayStageView, Query<Seq<char>>, Seq<char>>;

/// The id of the active session that the file of `seat0` gives; a blank value
/// is none.
pub open spec fn seat_file_session(content: Option<Seq<char>>) -> Option<Seq<char>> {
    match content {
        Some(c) => match fields::trimmed_field(fields::fields_of(c), "ACTIVE"@) {
            Some(sid) => if sid.len() > 0 {
                Some(sid)
            } else {
                None
            },
            None => None,
        },
        None => None,
    }
}

/// The session id in what the kernel printed: empty where there is no session.
pub open spec fn session_id_in(printed: Seq<char>) -> Seq<char> {
    if printed == INVALID_SESSION@ {
        Seq::empty()
    } else {
        printed
    }
}

/// The session id that the kernel printed; empty where the command could not
/// be run.
pub open spec fn kernel_session_id(output: Option<OutputView>) -> Seq<char> {
    match output {
        Some(o) => session_id_in(text::decoded(o.stdout)),
        None => Seq::empty(),
    }
}

/// The start of a display probe.
pub open spec fn display_start() -> DisplayProgress {
    Progress::Ask(DisplayStage::Forced, Query::Env(EnvVar::ForcedDisplayServer))
}

/// A display probe that has found the session to look at.
pub open spec fn look_at_session(sid: Seq<char>) -> DisplayProgress {
    Progress::Ask(
        DisplayStage::Session(SessionProbe { session: sid, stage: SessionStage::File }),
        Query::SessionFile(sid),
    )
}

/// A display probe that has found the session `sid`, or else goes on.
pub open spec fn look_at_session_or(
    sid: Seq<char>,
    stage: DisplayStageView,
    query: Query<Seq<char>>,
) -> DisplayProgress {
    if sid.len() > 0 {
        look_at_session(sid)
    } else {
        Progress::Ask(stage, query)
    }
}

/// A display probe that has found the values of the session at the seat.
pub open spec fn with_seated_values(values: Seq<Seq<char>>) -> DisplayProgress {
    look_at_session_or(values[0], DisplayStage::SessionId, Query::Env(EnvVar::SessionId))
}

/// Where a reply takes a display probe.
pub open spec fn display_next(stage: DisplayStageView, reply: ReplyView) -> DisplayProgress {
    match stage {
        DisplayStage::Forced => match reply.text() {
            Some(forced) => Progress::Done(forced),
            None => Progress::Ask(DisplayStage::SeatFile, Query::SeatFile),
        },
        DisplayStage::SeatFile => match seat_file_session(reply.text()) {
            Some(sid) => look_at_session(sid),
            None => Progress::Ask(DisplayStage::Loginctl, Query::Loginctl(LoginctlCall::List)),
        },
        DisplayStage::Loginctl => match reply.output() {
            Some(_) => match seat::seat_start(seq![0], true) {
                Progress::Ask(p, q) => Progress::Ask(DisplayStage::Seat(p), q),
                Progress::Done(v) => with_seated_values(v),
            },
            None => Progress::Done(desktop::DISPLAY_SERVER_X11@),
        },
        DisplayStage::Seat(probe) => match probe.next(reply) {
            Progress::Ask(p, q) => Progress::Ask(DisplayStage::Seat(p), q),
            Progress::Done(v) => with_seated_values(v),
        },
        DisplayStage::SessionId => look_at_session_or(
            match reply.text() {
                Some(sid) => sid,
                None => Seq::empty(),
            },
            DisplayStage::KernelSessionId,
            Query::SessionIdCommand,
        ),
        DisplayStage::KernelSessionId => look_at_session_or(
            kernel_session_id(reply.output()),
            DisplayStage::SessionType,
            Query::Env(EnvVar::SessionType),
        ),
        DisplayStage::SessionType => Progress::Done(
            match reply.text() {
                Some(t) => t,
                None => "x11"@,
            },
        ),
        DisplayStage::Session(probe) => match probe.next(reply) {
            Progress::Ask(p, q) => Progress::Ask(DisplayStage::Session(p), q),
            Progress::Done(d) => Progress::Done(d),
        },
    }
}

/// The id of the active session that the file of `seat0` gives, if any, from
/// the file's content.
pub fn seat0_session_id(content: Option<&str>) -> (r: Option<String>)
    ensures
        query::text_view(r) == seat_file_session(desktop::text_of(content)),
{
    match fields::parse_key_value_file(content) {
        Some(f) => match f.get("ACTIVE") {
            Some(value) => {
                let sid = text::trim(value.as_str());
                if sid.is_empty() {
                    None
                } else {
                    Some(sid.to_owned())
                }
            },
            None => None,
        },
        None => None,
    }
}

/// The session id in what the kernel printed: empty where there is no session.
pub fn valid_session_id(printed: String) -> (r: String)
    ensures
        r@ == session_id_in(printed@),
{
    if text::same_text(printed.as_str(), INVALID_SESSION) {
        String::new()
    } else {
        printed
    }
}

fn session_id_of_kernel(output: Option<Output>) -> (r: String)
    ensures
        r@ == kernel_session_id(query::output_view(output)),
{
    match output {
        Some(o) => valid_session_id(text::decode(o.stdout.as_slice())),
        None => String::new(),
    }
}

/// Starts a probe for the display server of the machine.
///
/// A forced display server wins over all detection. Then the file of `seat0`
/// tells the session to look at, without running `loginctl`. Where that file
/// is missing or names none, `loginctl` is asked; without it, X11 is taken.
/// The session then is the one that sits at the machine, or that of the
/// process itself.
pub fn get_display_server() -> (r: Progress<DisplayProbe, Query<String>, String>)
    ensures
        r@ == display_start(),
{
    Progress::Ask(
        DisplayProbe { stage: DisplayStage::Forced },
        Query::Env(EnvVar::ForcedDisplayServer),
    )
}

fn turn_to_session(sid: String) -> (r: Progress<DisplayProbe, Query<String>, String>)
    ensures
        r@ == look_at_session(sid@),
{
    let probe = SessionProbe { session: sid.as_str().to_owned(), stage: SessionStage::File };
    Progress::Ask(DisplayProbe { stage: DisplayStage::Session(probe) }, Query::SessionFile(sid))
}

fn turn_to_seated(values: Vec<String>) -> (r: Progress<DisplayProbe, Query<String>, String>)
    requires
        values@.len() == 1,
    ensures
        r@ == with_seated_values(values.deep_view()),
{
    assert(values.deep_view()[0] == values@[0]@);
    if !values[0].as_str().is_empty() {
        turn_to_session(values[0].as_str().to_owned())
    } else {
        Progress::Ask(
            DisplayProbe { stage: DisplayStage::SessionId },
            Query::Env(EnvVar::SessionId),
        )
    }
}

impl DisplayProbe {
    #[verifier::type_invariant]
    spec fn well_formed(self) -> bool {
        match self.stage {
            DisplayStage::Seat(p) => p@.indices.len() == 1,
            _ => true,
        }
    }

    /// Takes the reply to the query that the probe asked.
    pub fn resume(self, reply: Reply) -> (r: Progress<DisplayProbe, Query<String>, String>)
        ensures
            r@ == display_next(self@, reply@),
    {
        proof {
            use_type_invariant(&self);
        }
        match self.stage {
            DisplayStage::Forced => match reply.text() {
                Some(forced) => Progress::Done(forced),
                None => Progress::Ask(
                    DisplayProbe { stage: DisplayStage::SeatFile },
                    Query::SeatFile,
                ),
            },
            DisplayStage::SeatFile => {
                let content = reply.text();
                let sid = match &content {
                    Some(c) => seat0_session_id(Some(c.as_str())),
                    None => seat0_session_id(None),
                };
                match sid {
                    Some(sid) => turn_to_session(sid),
                    None => Progress::Ask(
                        DisplayProbe { stage: DisplayStage::Loginctl },
                        Query::Loginctl(LoginctlCall::List),
                    ),
                }
            },
            DisplayStage::Loginctl => match reply.output() {
                Some(_) => {
                    let indices: [usize; 1] = [0];
                    assert(indices@ =~= seq![0usize]);
                    match seat::get_values_of_seat0(&indices) {
                        Progress::Ask(p, q) => Progress::Ask(
                            DisplayProbe { stage: DisplayStage::Seat(p) },
                            q,
                        ),
                        Progress::Done(v) => turn_to_seated(v),
                    }
                },
                None => Progress::Done(desktop::DISPLAY_SERVER_X11.to_owned()),
            },
            DisplayStage::Seat(probe) => match probe.resume(reply) {
                Progress::Ask(p, q) => Progress::Ask(
                    DisplayProbe { stage: DisplayStage::Seat(p) },
                    q,
                ),
                Progress::Done(v) => turn_to_seated(v),
            },
            DisplayStage::SessionId => {
                if let Some(sid) = reply.text() {
                    if !sid.as_str().is_empty() {
                        return turn_to_session(sid);
                    }
                }
                Progress::Ask(
                    DisplayProbe { stage: DisplayStage::KernelSessionId },
                    Query::SessionIdCommand,
                )
            },
            DisplayStage::KernelSessionId => {
                let sid = session_id_of_kernel(reply.output());
                if !sid.as_str().is_empty() {
                    turn_to_session(sid)
                } else {
                    Progress::Ask(
                        DisplayProbe { stage: DisplayStage::SessionType },
                        Query::Env(EnvVar::SessionType),
                    )
                }
            },
            DisplayStage::SessionType => match reply.text() {
                Some(t) => Progress::Done(t),
                None => Progress::Done("x11".to_owned()),
            },
            DisplayStage::Session(probe) => match probe.resume(reply) {
                Progress::Ask(p, q) => Progress::Ask(
                    DisplayProbe { stage: DisplayStage::Session(p) },
                    q,
                ),
                Progress::Done(d) => Progress::Done(d),
            },
        }
    }
}

/// How many stages a display probe has before it, at most.
pub open spec fn stages_left(p: DisplayProgress) -> nat {
    match p {
        Progress::Done(_) => 0,
        Progress::Ask(stage, _) => match stage {
            DisplayStage::Forced => 8,
            DisplayStage::SeatFile => 7,
            DisplayStage::Loginctl => 6,
            DisplayStage::Seat(_) => 5,
            DisplayStage::SessionId => 4,
            DisplayStage::KernelSessionId => 3,
            DisplayStage::SessionType => 2,
            DisplayStage::Session(_) => 1,
        },
    }
}

/// The seat probe within a display probe; a finished one where there is none.
pub open spec fn seat_part(p: DisplayProgress) -> seat::SeatProgress {
    match p {
        Progress::Ask(DisplayStage::Seat(probe), query) => Progress::Ask(probe, query),
        _ => Progress::Done(Seq::empty()),
    }
}

/// The session probe within a display probe; a finished one where there is
/// none.
pub open spec fn session_part(p: DisplayProgress) -> display_server::SessionProgress {
    match p {
        Progress::Ask(DisplayStage::Session(probe), query) => Progress::Ask(probe, query),
        _ => Progress::Done(Seq::empty()),
    }
}

/// How many queries the probe within a display probe can still ask of the
/// session it looks at.
pub open spec fn steps_left(p: DisplayProgress) -> nat {
    seat::session_steps_left(seat_part(p)) + display_server::session_queries_left(session_part(p))
}

/// Whatever the replies, a display probe ends: each reply takes it to a later
/// stage, or the probe within its stage on.
pub proof fn display_probe_ends(
    stage: DisplayStageView,
    query: Query<Seq<char>>,
    reply: ReplyView,
)
    requires
        seat::looks_at_listed(seat_part(Progress::Ask(stage, query))),
    ensures
        ({
            let p = DisplayProgress::Ask(stage, query);
            let q = display_next(stage, reply);
            let rounds = seat::rounds_left(seat_part(p)) - seat::rounds_left(seat_part(q));
            let sessions = seat::sessions_left(seat_part(p)) - seat::sessions_left(seat_part(q));
            &&& seat::looks_at_listed(seat_part(q))
            &&& 0 <= seat::sessions_left(seat_part(q))
            &&& {
                ||| stages_left(q) < stages_left(p)
                ||| stages_left(q) == stages_left(p) && rounds > 0
                ||| stages_left(q) == stages_left(p) && rounds == 0 && sessions > 0
                ||| stages_left(q) == stages_left(p) && rounds == 0 && sessions == 0
                    && steps_left(q) < steps_left(p)
            }
        }),
{
    match stage {
        DisplayStage::Seat(probe) => {
            seat::seat_probe_ends(probe, query, reply);
        },
        DisplayStage::Session(probe) => {
            display_server::session_probe_ends(probe, query, reply);
        },
        _ => {},
    }
}

/// What a display probe asks of an unchanging system from `p` on, and what it
/// finds in the end.
pub open spec fn display_run(world: World, p: DisplayProgress) -> (Seq<Query<Seq<char>>>, Seq<char>)
    decreases
            stages_left(p),
            seat::rounds_left(seat_part(p)),
            seat::sessions_left(seat_part(p)),
            steps_left(p),
    when seat::looks_at_listed(seat_part(p))
{
    match p {
        Progress::Done(d) => (Seq::empty(), d),
        Progress::Ask(stage, query) => {
            proof {
                display_probe_ends(stage, query, world(query));
            }
            let (asked, d) = display_run(world, display_next(stage, world(query)));
            (seq![query] + asked, d)
        },
    }
}

/// The session of the process, in a system that does not change: that of the
/// environment, or else that of the kernel, or else none.
pub open spec fn own_session(world: World) -> Seq<char> {
    match world(Query::Env(EnvVar::SessionId)).text() {
        Some(sid) => if sid.len() > 0 {
            sid
        } else {
            kernel_session_id(world(Query::SessionIdCommand).output())
        },
        None => kernel_session_id(world(Query::SessionIdCommand).output()),
    }
}

/// The session that tells the display server where the file of `seat0` does
/// not: the one that sits at the machine, or else that of the process.
pub open spec fn fallback_session(world: World) -> Seq<char> {
    let seated = seat::seated_values(world, seq![0], true)[0];
    if seated.len() > 0 {
        seated
    } else {
        own_session(world)
    }
}

/// The display server of the machine, in a system that does not change.
pub open spec fn machine_display_server(world: World) -> Seq<char> {
    match world(Query::Env(EnvVar::ForcedDisplayServer)).text() {
        Some(forced) => forced,
        None => match seat_file_session(world(Query::SeatFile).text()) {
            Some(sid) => display_server::session_display_server(world, sid),
            None => if world(Query::Loginctl(LoginctlCall::List)).output() is None {
                "x11"@
            } else if fallback_session(world).len() > 0 {
                display_server::session_display_server(world, fallback_session(world))
            } else {
                match world(Query::Env(EnvVar::SessionType)).text() {
                    Some(t) => t,
                    None => "x11"@,
                }
            },
        },
    }
}

/// From the session on, a display probe asks and finds what the session's
/// probe does.
proof fn session_runs_through(
    world: World,
    probe: SessionProbe<Seq<char>>,
    query: Query<Seq<char>>,
)
    ensures
        display_run(world, Progress::Ask(DisplayStage::Session(probe), query))
            == display_server::session_run(world, Progress::Ask(probe, query)),
    decreases display_server::session_queries_left(Progress::Ask(probe, query)),
{
    display_server::session_probe_ends(probe, query, world(query));
    match probe.next(world(query)) {
        Progress::Ask(p, q) => {
            session_runs_through(world, p, q);
        },
        Progress::Done(d) => {
            assert(display_run(world, Progress::Done(d)) == (Seq::<Query<Seq<char>>>::empty(), d));
            assert(display_server::session_run(world, Progress::Done(d)) == (
                Seq::<Query<Seq<char>>>::empty(),
                d,
            ));
        },
    }
}

/// A display probe goes on with the values that its seat probe finds.
proof fn seat_runs_through(world: World, probe: SeatProbeView, query: Query<Seq<char>>)
    requires
        seat::looks_at_listed(Progress::Ask(probe, query)),
    ensures
        display_run(world, Progress::Ask(DisplayStage::Seat(probe), query)).1 == display_run(
            world,
            with_seated_values(seat::seat_run(world, Progress::Ask(probe, query)).1),
        ).1,
    decreases
            seat::rounds_left(Progress::Ask(probe, query)),
            seat::sessions_left(Progress::Ask(probe, query)),
            seat::session_steps_left(Progress::Ask(probe, query)),
{
    seat::seat_probe_ends(probe, query, world(query));
    match probe.next(world(query)) {
        Progress::Ask(p, q) => {
            seat_runs_through(world, p, q);
        },
        Progress::Done(v) => {
            assert(seat::seat_run(world, Progress::Done(v)).1 == v);
        },
    }
}

proof fn fallback_runs_through(world: World)
    ensures
        display_run(
            world,
            with_seated_values(seat::seated_values(world, seq![0], true)),
        ).1 == if fallback_session(world).len() > 0 {
            display_server::session_display_server(world, fallback_session(world))
        } else {
            match world(Query::Env(EnvVar::SessionType)).text() {
                Some(t) => t,
                None => "x11"@,
            }
        },
{
    reveal_with_fuel(display_run, 4);
    let sid = fallback_session(world);
    let probe = SessionProbe { session: sid, stage: SessionStage::File };
    session_runs_through(world, probe, Query::SessionFile(sid));
    display_server::session_probe_finds_display_server(world, sid);
}

/// In a system that does not change, the display probe finds the display
/// server of the machine.
pub proof fn display_probe_finds_display_server(world: World)
    ensures
        display_run(world, display_start()).1 == machine_display_server(world),
{
    reveal_with_fuel(display_run, 4);
    match seat_file_session(world(Query::SeatFile).text()) {
        Some(sid) => {
            let probe = SessionProbe { session: sid, stage: SessionStage::File };
            session_runs_through(world, probe, Query::SessionFile(sid));
            display_server::session_probe_finds_display_server(world, sid);
        },
        None => {
            let start = seat::seat_start(seq![0], true);
            seat_runs_through(world, start->Ask_0, start->Ask_1);
            seat::seat_probe_finds_seated_session(world, seq![0], true);
            fallback_runs_through(world);
        },
    }
}

/// A forced display server is taken as it is, and nothing else is asked.
pub proof fn forced_display_server_wins(world: World, forced: Seq<char>)
    requires
        world(Query::Env(EnvVar::ForcedDisplayServer)).text() == Some(forced),
    ensures
        display_run(world, display_start()) == (
            seq![Query::<Seq<char>>::Env(EnvVar::ForcedDisplayServer)],
            forced,
        ),
{
    reveal_with_fuel(display_run, 2);
}

/// Where the file of `seat0` names a session and that session's file gives a
/// type, `loginctl` is not run.
pub proof fn seat_file_spares_loginctl(world: World, sid: Seq<char>)
    requires
        seat_file_session(world(Query::SeatFile).text()) == Some(sid),
        display_server::file_type(world(Query::SessionFile(sid)).text()) is Some,
    ensures
        forall|i: int|
            0 <= i < display_run(world, display_start()).0.len() ==> !display_server::runs_loginctl(
                #[trigger] display_run(world, display_start()).0[i],
            ),
{
    reveal_with_fuel(display_run, 3);
    let probe = SessionProbe { session: sid, stage: SessionStage::File };
    session_runs_through(world, probe, Query::SessionFile(sid));
    display_server::session_file_spares_loginctl(world, sid);
}

/// Where no display server is forced and the file of `seat0` has the field
/// `ACTIVE` with a value that is not blank, the session looked at is that
/// value without white space around it, whatever else the file holds: its file
/// is asked for next, and its display server is that of the machine.
pub proof fn active_in_seat_file_decides(world: World, content: Seq<char>)
    requires
        world(Query::Env(EnvVar::ForcedDisplayServer)) == ReplyView::Text(None),
        world(Query::SeatFile) == ReplyView::Text(Some(content)),
        fields::fields_of(content).contains_key("ACTIVE"@),
        text::trim_spec(fields::fields_of(content)["ACTIVE"@]).len() > 0,
    ensures
        ({
            let sid = text::trim_spec(fields::fields_of(content)["ACTIVE"@]);
            let (asked, d) = display_run(world, display_start());
            let (asked_of_session, d_of_session) = display_server::session_run(
                world,
                display_server::session_start(sid),
            );
            &&& asked.len() > 2
            &&& asked[0] == Query::<Seq<char>>::Env(EnvVar::ForcedDisplayServer)
            &&& asked[1] == Query::<Seq<char>>::SeatFile
            &&& asked[2] == Query::SessionFile(sid)
            &&& asked.skip(2) == asked_of_session
            &&& d == d_of_session
        }),
{
    let sid = text::trim_spec(fields::fields_of(content)["ACTIVE"@]);
    let probe = SessionProbe { session: sid, stage: SessionStage::File };
    reveal_with_fuel(display_run, 3);
    session_runs_through(world, probe, Query::SessionFile(sid));
    let rest = display_server::session_run(world, display_server::session_start(sid)).0;
    assert(rest[0] == Query::SessionFile(sid));
    let asked = display_run(world, display_start()).0;
    assert(asked =~= seq![Query::Env(EnvVar::ForcedDisplayServer)] + (seq![
        Query::<Seq<char>>::SeatFile,
    ] + rest));
    assert(asked.skip(2) =~= rest);
}

/// Of the file of `seat0` only the field `ACTIVE` matters: files that agree in
/// it lead to the same session, and a line that sets another key, be it added
/// or changed, leads to no other.
pub proof fn other_seat_fields_do_not_matter(
    a: Seq<char>,
    b: Seq<char>,
    key: Seq<char>,
    value: Seq<char>,
)
    requires
        key.len() > 0 ==> !text::is_white_space(key.first()) && !text::is_white_space(key.last()),
        value.len() > 0 ==> !text::is_white_space(value.first()) && !text::is_white_space(
            value.last(),
        ),
        !key.contains('='),
        !key.contains('\n'),
        !value.contains('\n'),
        key.len() > 0 ==> key[0] != '#',
        key != "ACTIVE"@,
    ensures
        ({
            let f = fields::fields_of(a);
            let g = fields::fields_of(b);
            &&& f.contains_key("ACTIVE"@) == g.contains_key("ACTIVE"@)
            &&& f.contains_key("ACTIVE"@) ==> f["ACTIVE"@] == g["ACTIVE"@]
        }) ==> display_next(DisplayStage::SeatFile, ReplyView::Text(Some(a))) == display_next(
            DisplayStage::SeatFile,
            ReplyView::Text(Some(b)),
        ) && seat_file_session(Some(a)) == seat_file_session(Some(b)),
        display_next(
            DisplayStage::SeatFile,
            ReplyView::Text(Some(a + seq!['\n'] + key + seq!['='] + value)),
        ) == display_next(DisplayStage::SeatFile, ReplyView::Text(Some(a))),
        seat_file_session(Some(a + seq!['\n'] + key + seq!['='] + value)) == seat_file_session(
            Some(a),
        ),
{
    fields::later_line_wins(a, key, value, Seq::empty());
}

/// The session that the file of `seat0` names is the value of its field
/// `ACTIVE` without white space around it; it names none where that field is
/// missing or blank, or the file cannot be read.
pub proof fn seat_file_names_its_active_session(content: Seq<char>)
    ensures
        ({
            let f = fields::fields_of(content);
            let named = seat_file_session(Some(content));
            &&& named is Some <==> f.contains_key("ACTIVE"@) && text::trim_spec(f["ACTIVE"@]).len()
                > 0
            &&& named matches Some(sid) ==> sid == text::trim_spec(f["ACTIVE"@])
            &&& seat_file_session(None) is None
        }),
{
}

/// Where no display server is forced and the file of `seat0` names no session,
/// the machine has X11 if `loginctl` cannot be run. If it can, the session
/// looked at is the one that sits at the machine, login screens on Wayland
/// ignored; failing that, the one that the environment names, if it names one;
/// failing that, the one that the kernel prints, unless that is 4294967295.
/// Without any session, the session type in the environment is taken as it is,
/// and X11 where it is not set.
pub proof fn fallbacks_in_turn(
    world: World,
    content: Option<Seq<char>>,
    list: Option<OutputView>,
    named: Option<Seq<char>>,
    kernel: Option<OutputView>,
    session_type: Option<Seq<char>>,
)
    requires
        world(Query::Env(EnvVar::ForcedDisplayServer)) == ReplyView::Text(None),
        world(Query::SeatFile) == ReplyView::Text(content),
        content matches Some(c) ==> !fields::fields_of(c).contains_key("ACTIVE"@)
            || text::trim_spec(fields::fields_of(c)["ACTIVE"@]).len() == 0,
        world(Query::Loginctl(LoginctlCall::List)) == ReplyView::Output(list),
        world(Query::Env(EnvVar::SessionId)) == ReplyView::Text(named),
        world(Query::SessionIdCommand) == ReplyView::Output(kernel),
        world(Query::Env(EnvVar::SessionType)) == ReplyView::Text(session_type),
    ensures
        ({
            let d = display_run(world, display_start()).1;
            let server = |sid: Seq<char>|
                display_server::session_run(world, display_server::session_start(sid)).1;
            let seated = seat::seat_run(world, seat::seat_start(seq![0], true)).1[0];
            let in_environment = named is Some && (named->0).len() > 0;
            let of_kernel = match kernel {
                Some(o) => text::decoded(o.stdout),
                None => Seq::empty(),
            };
            let in_kernel = of_kernel.len() > 0 && of_kernel != "4294967295"@;
            if list is None {
                d == "x11"@
            } else if seated.len() > 0 {
                d == server(seated)
            } else if in_environment {
                d == server(named->0)
            } else if in_kernel {
                d == server(of_kernel)
            } else {
                &&& session_type matches Some(t) ==> d == t
                &&& session_type is None ==> d == "x11"@
            }
        }),
{
    display_probe_finds_display_server(world);
    seat::seat_probe_finds_seated_session(world, seq![0], true);
    display_server::session_probe_finds_display_server(world, fallback_session(world));
}

/// A display server that is forced is taken as it is, be it empty, and nothing
/// else is asked for.
pub proof fn forced_text_is_taken(world: World, forced: Seq<char>)
    requires
        world(Query::Env(EnvVar::ForcedDisplayServer)) == ReplyView::Text(Some(forced)),
    ensures
        display_run(world, display_start()).1 == forced,
        display_run(world, display_start()).0 == seq![
            Query::<Seq<char>>::Env(EnvVar::ForcedDisplayServer),
        ],
{
    forced_display_server_wins(world, forced);
}

} // verus!
