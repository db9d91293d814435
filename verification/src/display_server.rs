//! Which display server a session, or the machine, runs.

use crate::fields;
use crate::query::{
    EnvVar, LoginctlCall, Output, OutputView, Progress, Query, Reply, ReplyView, World,
};
use crate::text;
use crate::text::CharClass;
use vstd::prelude::*;
use vstd::string::*;

verus! {

/// What a session probe waits for.
#[derive(Clone, Copy)]
pub enum SessionStage {
    /// The content of the session's file.
    File,
    /// What `loginctl` says of the session's type.
    Loginctl,
    /// The session type in the environment.
    Environment,
}

/// A probe for the display server of one session. `T` is the type of the
/// session's id.
pub struct SessionProbe<T> {
    pub session: T,
    pub stage: SessionStage,
}

impl View for SessionProbe<String> {
    type V = SessionProbe<Seq<char>>;

    open spec fn view(&self) -> SessionProbe<Seq<char>> {
        SessionProbe { session: self.session@, stage: self.stage }
    }
}

/// How far a session probe has come.
pub type SessionProgress = Progress<SessionProbe<Seq<char>>, Query<Seq<char>>, Seq<char>>;

/// Whether `d` names no display server.
pub open spec fn no_display_server(d: Seq<char>) -> bool {
    d.len() == 0 || d == "tty"@ || d == "unspecified"@
}

/// The display server that the session type in the environment names, or
/// X11 where that is not set or empty.
pub open spec fn environment_display_server(session_type: Option<Seq<char>>) -> Seq<char> {
    match session_type {
        Some(t) => if t.len() > 0 {
            text::lower_spec(t)
        } else {
            "x11"@
        },
        None => "x11"@,
    }
}

/// The session type in what `loginctl` printed: the text without `Type=` and
/// without white space at the end.
pub open spec fn type_in(printed: Seq<char>) -> Seq<char> {
    text::trimmed_end(text::replaced(printed, "Type="@, ""@), CharClass::WhiteSpace)
}

/// The session type that `loginctl` printed; the empty text where it could
/// not be run.
pub open spec fn printed_type(output: Option<OutputView>) -> Seq<char> {
    match output {
        Some(o) => type_in(text::decoded(o.stdout)),
        None => Seq::empty(),
    }
}

/// The session type that a session file gives.
pub open spec fn file_type(content: Option<Seq<char>>) -> Option<Seq<char>> {
    match content {
        Some(c) => match fields::trimmed_field(fields::fields_of(c), "TYPE"@) {
            Some(t) => Some(text::lower_spec(t)),
            None => None,
        },
        None => None,
    }
}

/// The start of a session probe.
pub open spec fn session_start(session: Seq<char>) -> SessionProgress {
    Progress::Ask(
        SessionProbe { session, stage: SessionStage::File },
        Query::SessionFile(session),
    )
}

impl SessionProbe<Seq<char>> {
    /// The probe once it turned to the environment.
    pub open spec fn ask_environment(self) -> SessionProgress {
        Progress::Ask(
            SessionProbe { session: self.session, stage: SessionStage::Environment },
            Query::Env(EnvVar::SessionType),
        )
    }

    /// The probe once it learned the session's type: done, unless the type
    /// names no display server.
    pub open spec fn with_type(self, t: Seq<char>) -> SessionProgress {
        if no_display_server(t) {
            self.ask_environment()
        } else {
            Progress::Done(t)
        }
    }

    /// Where a reply takes the probe.
    pub open spec fn next(self, reply: ReplyView) -> SessionProgress {
        match self.stage {
            SessionStage::File => match file_type(reply.text()) {
                Some(t) => self.with_type(t),
                None => Progress::Ask(
                    SessionProbe { session: self.session, stage: SessionStage::Loginctl },
                    Query::Loginctl(LoginctlCall::ShowType(self.session)),
                ),
            },
            SessionStage::Loginctl => {
                let t = printed_type(reply.output());
                if no_display_server(t) {
                    self.ask_environment()
                } else {
                    Progress::Done(text::lower_spec(t))
                }
            },
            SessionStage::Environment => Progress::Done(environment_display_server(reply.text())),
        }
    }
}

/// Whether `d` names no display server.
pub fn names_no_display_server(d: &str) -> (r: bool)
    ensures
        r == no_display_server(d@),
{
    d.is_empty() || text::same_text(d, "tty") || text::same_text(d, "unspecified")
}

fn display_server_of_environment(session_type: Option<String>) -> (r: String)
    ensures
        r@.len() > 0,
        text::no_ascii_capital(r@),
        r@ == environment_display_server(crate::query::text_view(session_type)),
{
    if let Some(t) = session_type {
        if !t.as_str().is_empty() {
            return text::lower(t.as_str());
        }
    }
    proof {
        reveal_strlit("x11");
    }
    "x11".to_owned()
}

/// The session type in what `loginctl` printed.
pub fn session_type_in(printed: &str) -> (r: String)
    ensures
        r@ == type_in(printed@),
{
    proof {
        reveal_strlit("Type=");
    }
    let rest = text::replace(printed, "Type=", "");
    text::trim_end_matches(rest.as_str(), CharClass::WhiteSpace).to_owned()
}

fn type_printed(output: Option<Output>) -> (r: String)
    ensures
        r@ == printed_type(crate::query::output_view(output)),
{
    match output {
        Some(o) => session_type_in(text::decode(o.stdout.as_slice()).as_str()),
        None => String::new(),
    }
}

fn type_in_file(content: Option<String>) -> (r: Option<String>)
    ensures
        crate::query::text_view(r) == file_type(crate::query::text_view(content)),
        r matches Some(t) ==> text::no_ascii_capital(t@),
{
    match content {
        Some(c) => {
            let f = fields::parse_fields(c.as_str());
            match f.get("TYPE") {
                Some(t) => Some(text::lower(text::trim(t.as_str()))),
                None => None,
            }
        },
        None => None,
    }
}

/// Starts a probe for the display server of a session.
///
/// The session's file is read first, so that `loginctl` need not run;
/// `loginctl` is asked only where the file is missing or gives no type. A
/// session without a display server of its own gets the one that the
/// environment names, and X11 where it names none.
pub fn get_display_server_of_session(session: &str) -> (r: Progress<
    SessionProbe<String>,
    Query<String>,
    String,
>)
    ensures
        r@ == session_start(session@),
{
    Progress::Ask(
        SessionProbe { session: session.to_owned(), stage: SessionStage::File },
        Query::SessionFile(session.to_owned()),
    )
}

impl SessionProbe<String> {
    fn turn_to_environment(self) -> (r: Progress<SessionProbe<String>, Query<String>, String>)
        ensures
            r@ == self@.ask_environment(),
    {
        Progress::Ask(
            SessionProbe { session: self.session, stage: SessionStage::Environment },
            Query::Env(EnvVar::SessionType),
        )
    }

    /// Takes the session's type, in lower case, as its file gives it.
    pub fn settle(self, t: String) -> (r: Progress<SessionProbe<String>, Query<String>, String>)
        ensures
            r@ == self@.with_type(t@),
    {
        if names_no_display_server(t.as_str()) {
            self.turn_to_environment()
        } else {
            Progress::Done(t)
        }
    }

    /// Takes the reply to the query that the probe asked. Whatever the reply,
    /// the display server that it finds is not empty and holds no ASCII
    /// capital.
    pub fn resume(self, reply: Reply) -> (r: Progress<SessionProbe<String>, Query<String>, String>)
        ensures
            r@ == self@.next(reply@),
            r matches Progress::Done(d) ==> d@.len() > 0 && text::no_ascii_capital(d@),
    {
        match self.stage {
            SessionStage::File => match type_in_file(reply.text()) {
                Some(t) => self.settle(t),
                None => {
                    let call = LoginctlCall::ShowType(self.session.as_str().to_owned());
                    Progress::Ask(
                        SessionProbe { session: self.session, stage: SessionStage::Loginctl },
                        Query::Loginctl(call),
                    )
                },
            },
            SessionStage::Loginctl => {
                let t = type_printed(reply.output());
                if names_no_display_server(t.as_str()) {
                    self.turn_to_environment()
                } else {
                    Progress::Done(text::lower(t.as_str()))
                }
            },
            SessionStage::Environment => Progress::Done(
                display_server_of_environment(reply.text()),
            ),
        }
    }
}

/// The display server of a session, in a system that does not change.
pub open spec fn session_display_server(world: World, session: Seq<char>) -> Seq<char> {
    let environment = environment_display_server(world(Query::Env(EnvVar::SessionType)).text());
    match file_type(world(Query::SessionFile(session)).text()) {
        Some(t) => if no_display_server(t) {
            environment
        } else {
            t
        },
        None => {
            let t = printed_type(
                world(Query::Loginctl(LoginctlCall::ShowType(session))).output(),
            );
            if no_display_server(t) {
                environment
            } else {
                text::lower_spec(t)
            }
        },
    }
}

/// How many queries a session probe can still ask, at most.
pub open spec fn session_queries_left(p: SessionProgress) -> nat {
    match p {
        Progress::Done(_) => 0,
        Progress::Ask(probe, _) => match probe.stage {
            SessionStage::File => 3,
            SessionStage::Loginctl => 2,
            SessionStage::Environment => 1,
        },
    }
}

/// What a session probe asks of an unchanging system from `p` on, and what it
/// finds in the end.
pub open spec fn session_run(world: World, p: SessionProgress) -> (
    Seq<Query<Seq<char>>>,
    Seq<char>,
)
    decreases session_queries_left(p),
{
    match p {
        Progress::Done(d) => (Seq::empty(), d),
        Progress::Ask(probe, query) => {
            let (asked, d) = session_run(world, probe.next(world(query)));
            (seq![query] + asked, d)
        },
    }
}

/// Whatever the replies, a session probe asks at most three queries: each
/// reply leaves it with fewer to ask.
pub proof fn session_probe_ends(probe: SessionProbe<Seq<char>>, query: Query<Seq<char>>, reply: ReplyView)
    ensures
        session_queries_left(probe.next(reply)) < session_queries_left(
            Progress::Ask(probe, query),
        ) <= 3,
{
}

/// In a system that does not change, the probe of a session finds the
/// session's display server.
pub proof fn session_probe_finds_display_server(world: World, session: Seq<char>)
    ensures
        session_run(world, session_start(session)).1 == session_display_server(world, session),
{
    reveal_with_fuel(session_run, 4);
}

/// Where the environment names no session type, a session has X11 unless its
/// file or, failing that, `loginctl` gives a type other than a tty or
/// unspecified.
pub proof fn x11_without_a_type(world: World, session: Seq<char>)
    requires
        match world(Query::Env(EnvVar::SessionType)).text() {
            Some(t) => t.len() == 0,
            None => true,
        },
        match file_type(world(Query::SessionFile(session)).text()) {
            Some(t) => no_display_server(t),
            None => no_display_server(
                printed_type(world(Query::Loginctl(LoginctlCall::ShowType(session))).output()),
            ),
        },
    ensures
        session_display_server(world, session) == "x11"@,
        session_run(world, session_start(session)).1 == "x11"@,
{
    session_probe_finds_display_server(world, session);
}

/// Whether a query runs `loginctl`.
pub open spec fn runs_loginctl(query: Query<Seq<char>>) -> bool {
    query is Loginctl
}

/// Where the session's file gives a type, `loginctl` is not run.
pub proof fn session_file_spares_loginctl(world: World, session: Seq<char>)
    requires
        file_type(world(Query::SessionFile(session)).text()) is Some,
    ensures
        forall|i: int|
            0 <= i < session_run(world, session_start(session)).0.len() ==> !runs_loginctl(
                #[trigger] session_run(world, session_start(session)).0[i],
            ),
{
    reveal_with_fuel(session_run, 4);
}

/// Where a session's file has the field `TYPE`, and its value, without white
/// space around it and in lower case, is not empty, `tty` or `unspecified`,
/// that value is the session's display server, whatever else the file holds;
/// and nothing but the file is asked for.
pub proof fn type_in_file_decides(world: World, sid: Seq<char>, content: Seq<char>)
    requires
        world(Query::SessionFile(sid)) == ReplyView::Text(Some(content)),
        fields::fields_of(content).contains_key("TYPE"@),
        ({
            let t = text::lower_spec(text::trim_spec(fields::fields_of(content)["TYPE"@]));
            t.len() > 0 && t != "tty"@ && t != "unspecified"@
        }),
    ensures
        session_run(world, session_start(sid)) == (
            seq![Query::SessionFile(sid)],
            text::lower_spec(text::trim_spec(fields::fields_of(content)["TYPE"@])),
        ),
{
    reveal_with_fuel(session_run, 2);
    assert(session_run(world, session_start(sid)).0 =~= seq![Query::SessionFile(sid)]);
}

/// Where the field `TYPE` of a session's file is empty, `tty` or
/// `unspecified`, the environment decides: the session type that it names, in
/// lower case, and X11 where that is not set or empty. `loginctl` is not run.
pub proof fn environment_decides_for_a_tty(
    world: World,
    sid: Seq<char>,
    content: Seq<char>,
    named: Option<Seq<char>>,
)
    requires
        world(Query::SessionFile(sid)) == ReplyView::Text(Some(content)),
        fields::fields_of(content).contains_key("TYPE"@),
        ({
            let t = text::lower_spec(text::trim_spec(fields::fields_of(content)["TYPE"@]));
            t.len() == 0 || t == "tty"@ || t == "unspecified"@
        }),
        world(Query::Env(EnvVar::SessionType)) == ReplyView::Text(named),
    ensures
        ({
            let (asked, d) = session_run(world, session_start(sid));
            &&& asked == seq![Query::SessionFile(sid), Query::Env(EnvVar::SessionType)]
            &&& named is Some && (named->0).len() > 0 ==> d == text::lower_spec(named->0)
            &&& !(named is Some && (named->0).len() > 0) ==> d == "x11"@
        }),
{
    reveal_with_fuel(session_run, 3);
    assert(session_run(world, session_start(sid)).0 =~= seq![
        Query::SessionFile(sid),
        Query::Env(EnvVar::SessionType),
    ]);
}

/// Where a session's file cannot be read or has no field `TYPE`, what
/// `loginctl` prints of the session's type decides, without `Type=` and
/// without white space at the end, in lower case. Where it cannot be run, or
/// prints no type, `tty` or `unspecified`, the environment decides as for a
/// file that says so.
pub proof fn loginctl_decides_without_a_file(
    world: World,
    sid: Seq<char>,
    content: Option<Seq<char>>,
    output: Option<OutputView>,
    named: Option<Seq<char>>,
)
    requires
        world(Query::SessionFile(sid)) == ReplyView::Text(content),
        content matches Some(c) ==> !fields::fields_of(c).contains_key("TYPE"@),
        world(Query::Loginctl(LoginctlCall::ShowType(sid))) == ReplyView::Output(output),
        world(Query::Env(EnvVar::SessionType)) == ReplyView::Text(named),
    ensures
        ({
            let (asked, d) = session_run(world, session_start(sid));
            let file = Query::SessionFile(sid);
            let loginctl = Query::Loginctl(LoginctlCall::ShowType(sid));
            let t = match output {
                Some(o) => text::trimmed_end(
                    text::replaced(text::decoded(o.stdout), "Type="@, ""@),
                    CharClass::WhiteSpace,
                ),
                None => Seq::empty(),
            };
            if t.len() > 0 && t != "tty"@ && t != "unspecified"@ {
                asked == seq![file, loginctl] && d == text::lower_spec(t)
            } else {
                &&& asked == seq![file, loginctl, Query::Env(EnvVar::SessionType)]
                &&& named is Some && (named->0).len() > 0 ==> d == text::lower_spec(named->0)
                &&& !(named is Some && (named->0).len() > 0) ==> d == "x11"@
            }
        }),
{
    reveal_with_fuel(session_run, 4);
    let asked = session_run(world, session_start(sid)).0;
    let file = Query::SessionFile(sid);
    let loginctl = Query::Loginctl(LoginctlCall::ShowType(sid));
    let environment = Query::Env(EnvVar::SessionType);
    assert(asked =~= seq![file, loginctl] || asked =~= seq![file, loginctl, environment]);
}

/// Of a line `Type=` the type is what follows, without white space at the end,
/// where it holds no `Type=` itself.
pub proof fn type_follows_its_name(t: Seq<char>, space: Seq<char>)
    requires
        t.len() > 0 ==> !text::is_white_space(t.last()),
        forall|i: int| 0 <= i < space.len() ==> text::is_white_space(#[trigger] space[i]),
        forall|i: int, j: int|
            0 <= i && j == i + 5 <= (t + space).len() ==> #[trigger] (t + space).subrange(i, j)
                != "Type="@,
    ensures
        type_in("Type="@ + t + space) == t,
{
    reveal_strlit("Type=");
    reveal_strlit("");
    let none = Seq::<char>::empty();
    let rest = t + space;
    text::first_occurrence_is_replaced(none, "Type="@, rest, ""@);
    text::nothing_is_replaced(rest, "Type="@, ""@);
    assert(none + "Type="@ + rest =~= "Type="@ + t + space);
    assert(none + ""@ + rest =~= rest);
    text::end_goes(t, space, CharClass::WhiteSpace);
}

} // verus!
