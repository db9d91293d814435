//! What a probe asks of the system, and what the system answers.
//!
//! A probe never touches the system. It hands out a query, is resumed with
//! the reply, and so on until it is done.

use crate::session;
use crate::session::{SessionFile, SessionFileView};
use crate::text;
use vstd::prelude::*;
use vstd::string::*;

verus! {

/// The file that describes the seat `seat0`.
pub const SEAT0_FILE: &'static str = "/run/systemd/seats/seat0";

/// The directory of the session files.
pub const SESSION_DIR: &'static str = "/run/systemd/sessions";

/// The shell command that prints the id of the session of its own process.
pub const SESSION_ID_COMMAND: &'static str = "cat /proc/self/sessionid";

/// An environment variable.
#[derive(Clone, Copy, Debug, PartialEq, Eq, Structural)]
pub enum EnvVar {
    /// A display server that overrides all detection.
    ForcedDisplayServer,
    /// The id of the session that the process belongs to.
    SessionId,
    /// The type of the session that the process belongs to.
    SessionType,
    /// Set where the process runs in a Flatpak sandbox.
    FlatpakId,
}

impl EnvVar {
    pub open spec fn name_spec(self) -> Seq<char> {
        match self {
            EnvVar::ForcedDisplayServer => "RUSTDESK_FORCED_DISPLAY_SERVER"@,
            EnvVar::SessionId => "XDG_SESSION_ID"@,
            EnvVar::SessionType => "XDG_SESSION_TYPE"@,
            EnvVar::FlatpakId => "FLATPAK_ID"@,
        }
    }

    /// The variable's name.
    pub fn name(self) -> (r: &'static str)
        ensures
            r@ == self.name_spec(),
    {
        match self {
            EnvVar::ForcedDisplayServer => "RUSTDESK_FORCED_DISPLAY_SERVER",
            EnvVar::SessionId => "XDG_SESSION_ID",
            EnvVar::SessionType => "XDG_SESSION_TYPE",
            EnvVar::FlatpakId => "FLATPAK_ID",
        }
    }
}

/// A call of `loginctl`. `T` is the type of the session id that it names.
#[derive(Debug, PartialEq, Eq)]
pub enum LoginctlCall<T> {
    /// No arguments: the list of sessions.
    List,
    /// The type of a session.
    ShowType(T),
    /// The state of a session.
    ShowState(T),
    /// All properties of a session.
    ShowAll(T),
    /// Whether a session is locked.
    ShowLocked(T),
}

impl View for LoginctlCall<String> {
    type V = LoginctlCall<Seq<char>>;

    open spec fn view(&self) -> LoginctlCall<Seq<char>> {
        match *self {
            LoginctlCall::List => LoginctlCall::List,
            LoginctlCall::ShowType(s) => LoginctlCall::ShowType(s@),
            LoginctlCall::ShowState(s) => LoginctlCall::ShowState(s@),
            LoginctlCall::ShowAll(s) => LoginctlCall::ShowAll(s@),
            LoginctlCall::ShowLocked(s) => LoginctlCall::ShowLocked(s@),
        }
    }
}

impl LoginctlCall<Seq<char>> {
    /// The arguments of the call; none at all where it has none.
    pub open spec fn arguments(self) -> Option<Seq<Seq<char>>> {
        match self {
            LoginctlCall::List => None,
            LoginctlCall::ShowType(s) => Some(seq!["show-session"@, "-p"@, "Type"@, s]),
            LoginctlCall::ShowState(s) => Some(seq!["show-session"@, "-p"@, "State"@, s]),
            LoginctlCall::ShowAll(s) => Some(seq!["show-session"@, s]),
            LoginctlCall::ShowLocked(s) => Some(
                seq!["show-session"@, s, "--property=LockedHint"@],
            ),
        }
    }
}

/// The argument list that an optional vector of strings holds.
pub open spec fn argument_list(args: Option<Vec<String>>) -> Option<Seq<Seq<char>>> {
    match args {
        Some(a) => Some(text::strings(a@)),
        None => None,
    }
}

impl LoginctlCall<String> {
    /// The arguments of the call.
    pub fn args(&self) -> (r: Option<Vec<String>>)
        ensures
            argument_list(r) == self@.arguments(),
    {
        let mut v: Vec<String> = Vec::new();
        match self {
            LoginctlCall::List => {
                return None;
            },
            LoginctlCall::ShowType(s) => {
                v.push("show-session".to_owned());
                v.push("-p".to_owned());
                v.push("Type".to_owned());
                v.push(s.as_str().to_owned());
            },
            LoginctlCall::ShowState(s) => {
                v.push("show-session".to_owned());
                v.push("-p".to_owned());
                v.push("State".to_owned());
                v.push(s.as_str().to_owned());
            },
            LoginctlCall::ShowAll(s) => {
                v.push("show-session".to_owned());
                v.push(s.as_str().to_owned());
            },
            LoginctlCall::ShowLocked(s) => {
                v.push("show-session".to_owned());
                v.push(s.as_str().to_owned());
                v.push("--property=LockedHint".to_owned());
            },
        }
        assert(text::strings(v@) =~= self@.arguments()->0);
        Some(v)
    }
}

/// A question to the system. `T` is the type of the texts that it names.
#[derive(Debug, PartialEq, Eq)]
pub enum Query<T> {
    /// The value of an environment variable. Replied to with `Reply::Text`.
    Env(EnvVar),
    /// The content of `SEAT0_FILE`. Replied to with `Reply::Text`.
    SeatFile,
    /// The content of the file of a session. Replied to with `Reply::Text`.
    SessionFile(T),
    /// The entries of `SESSION_DIR`. Replied to with `Reply::Listing`.
    SessionDir,
    /// The output of `loginctl`. Replied to with `Reply::Output`.
    Loginctl(LoginctlCall<T>),
    /// The output of `SESSION_ID_COMMAND`. Replied to with `Reply::Output`.
    SessionIdCommand,
    /// Whether a path exists. Replied to with `Reply::Exists`.
    PathExists(T),
    /// The output of `which`. Replied to with `Reply::Output`.
    Which(T),
}

impl View for Query<String> {
    type V = Query<Seq<char>>;

    open spec fn view(&self) -> Query<Seq<char>> {
        match *self {
            Query::Env(v) => Query::Env(v),
            Query::SeatFile => Query::SeatFile,
            Query::SessionFile(s) => Query::SessionFile(s@),
            Query::SessionDir => Query::SessionDir,
            Query::Loginctl(c) => Query::Loginctl(c@),
            Query::SessionIdCommand => Query::SessionIdCommand,
            Query::PathExists(p) => Query::PathExists(p@),
            Query::Which(c) => Query::Which(c@),
        }
    }
}

/// The path of the file of a session. An id that is itself an absolute path
/// names that path.
pub open spec fn session_path(sid: Seq<char>) -> Seq<char> {
    if sid.len() > 0 && sid[0] == '/' {
        sid
    } else {
        SESSION_DIR@ + "/"@ + sid
    }
}

/// The path of the file of a session.
pub fn session_file_path(sid: &str) -> (r: String)
    ensures
        r@ == session_path(sid@),
{
    if sid.unicode_len() > 0 && sid.get_char(0) == '/' {
        sid.to_owned()
    } else {
        SESSION_DIR.to_owned().concat("/").concat(sid)
    }
}

/// What a command left behind.
#[derive(Debug)]
pub struct Output {
    /// Whether it exited successfully.
    pub success: bool,
    /// What it wrote to its standard output.
    pub stdout: Vec<u8>,
}

/// What an `Output` stands for.
pub struct OutputView {
    pub success: bool,
    pub stdout: Seq<u8>,
}

impl View for Output {
    type V = OutputView;

    open spec fn view(&self) -> OutputView {
        OutputView { success: self.success, stdout: self.stdout@ }
    }
}

impl DeepView for Output {
    type V = OutputView;

    open spec fn deep_view(&self) -> OutputView {
        self@
    }
}

impl Clone for Output {
    fn clone(&self) -> (r: Self)
        ensures
            r@ == self@,
    {
        let r = Output { success: self.success, stdout: self.stdout.clone() };
        assert(r.stdout@ =~= self.stdout@);
        r
    }
}

/// The output that an option holds.
pub open spec fn output_view(output: Option<Output>) -> Option<OutputView> {
    match output {
        Some(o) => Some(o@),
        None => None,
    }
}

/// The text that an option holds.
pub open spec fn text_view(t: Option<String>) -> Option<Seq<char>> {
    match t {
        Some(s) => Some(s@),
        None => None,
    }
}

/// An answer of the system.
pub enum Reply {
    /// The text; `None` where there is none or it cannot be read.
    Text(Option<String>),
    /// The output; `None` where the command could not be run.
    Output(Option<Output>),
    /// The entries; `None` where the directory cannot be read.
    Listing(Option<Vec<SessionFile>>),
    /// Whether the path exists.
    Exists(bool),
}

/// What a `Reply` stands for.
pub enum ReplyView {
    Text(Option<Seq<char>>),
    Output(Option<OutputView>),
    Listing(Option<Seq<SessionFileView>>),
    Exists(bool),
}

impl View for Reply {
    type V = ReplyView;

    open spec fn view(&self) -> ReplyView {
        match *self {
            Reply::Text(t) => ReplyView::Text(text_view(t)),
            Reply::Output(o) => ReplyView::Output(output_view(o)),
            Reply::Listing(l) => ReplyView::Listing(session::listing(l)),
            Reply::Exists(e) => ReplyView::Exists(e),
        }
    }
}

impl ReplyView {
    pub open spec fn text(self) -> Option<Seq<char>> {
        match self {
            ReplyView::Text(t) => t,
            _ => None,
        }
    }

    pub open spec fn output(self) -> Option<OutputView> {
        match self {
            ReplyView::Output(o) => o,
            _ => None,
        }
    }

    pub open spec fn listing(self) -> Option<Seq<SessionFileView>> {
        match self {
            ReplyView::Listing(l) => l,
            _ => None,
        }
    }

    pub open spec fn found(self) -> bool {
        match self {
            ReplyView::Exists(e) => e,
            _ => false,
        }
    }
}

impl Reply {
    /// The text of the reply; a reply of another kind has none.
    pub fn text(self) -> (r: Option<String>)
        ensures
            text_view(r) == self@.text(),
    {
        match self {
            Reply::Text(t) => t,
            _ => None,
        }
    }

    /// The output of the reply; a reply of another kind has none.
    pub fn output(self) -> (r: Option<Output>)
        ensures
            output_view(r) == self@.output(),
    {
        match self {
            Reply::Output(o) => o,
            _ => None,
        }
    }

    /// The entries of the reply; a reply of another kind has none.
    pub fn listing(self) -> (r: Option<Vec<SessionFile>>)
        ensures
            session::listing(r) == self@.listing(),
    {
        match self {
            Reply::Listing(l) => l,
            _ => None,
        }
    }

    /// Whether the reply says that a path exists.
    pub fn found(self) -> (r: bool)
        ensures
            r == self@.found(),
    {
        match self {
            Reply::Exists(e) => e,
            _ => false,
        }
    }
}

/// How far a probe has come: it asks `Q` and waits as `P`, or it is done.
pub enum Progress<P, Q, T> {
    Ask(P, Q),
    Done(T),
}

impl<P: View, Q: View, T: DeepView> View for Progress<P, Q, T> {
    type V = Progress<P::V, Q::V, T::V>;

    open spec fn view(&self) -> Progress<P::V, Q::V, T::V> {
        match *self {
            Progress::Ask(p, q) => Progress::Ask(p@, q@),
            Progress::Done(t) => Progress::Done(t.deep_view()),
        }
    }
}

/// A system that does not change: its reply to each query.
pub type World = spec_fn(Query<Seq<char>>) -> ReplyView;

/// The file of a session stands in the session directory under the session's
/// id. An id that begins with `/` is the path itself.
pub proof fn session_files_stand_in_their_directory(sid: Seq<char>)
    ensures
        !(sid.len() > 0 && sid[0] == '/') ==> session_path(sid) == "/run/systemd/sessions/"@ + sid,
        sid.len() > 0 && sid[0] == '/' ==> session_path(sid) == sid,
        SESSION_DIR@ == "/run/systemd/sessions"@,
        SEAT0_FILE@ == "/run/systemd/seats/seat0"@,
        SESSION_ID_COMMAND@ == "cat /proc/self/sessionid"@,
{
    reveal_strlit("/run/systemd/sessions");
    reveal_strlit("/run/systemd/sessions/");
    reveal_strlit("/");
    assert("/run/systemd/sessions"@ + "/"@ =~= "/run/systemd/sessions/"@);
}

/// Every call of `loginctl` but the list of sessions shows one session, which
/// it names as it was given, and no two calls have the same arguments unless
/// they are the same call.
pub proof fn calls_show_their_session(sid: Seq<char>, other: Seq<char>)
    ensures
        LoginctlCall::<Seq<char>>::List.arguments() is None,
        LoginctlCall::ShowType(sid).arguments() == Some(
            seq!["show-session"@, "-p"@, "Type"@, sid],
        ),
        LoginctlCall::ShowState(sid).arguments() == Some(
            seq!["show-session"@, "-p"@, "State"@, sid],
        ),
        LoginctlCall::ShowAll(sid).arguments() == Some(seq!["show-session"@, sid]),
        LoginctlCall::ShowLocked(sid).arguments() == Some(
            seq!["show-session"@, sid, "--property=LockedHint"@],
        ),
        sid != other ==> LoginctlCall::ShowType(sid).arguments() != LoginctlCall::ShowType(
            other,
        ).arguments(),
{
    let a = LoginctlCall::ShowType(sid).arguments()->0;
    let b = LoginctlCall::ShowType(other).arguments()->0;
    assert(a[3] == sid && b[3] == other);
}

/// Each environment variable goes by its own name.
pub proof fn variables_by_name(v: EnvVar)
    ensures
        v == EnvVar::ForcedDisplayServer <==> v.name_spec() == "RUSTDESK_FORCED_DISPLAY_SERVER"@,
        v == EnvVar::SessionId <==> v.name_spec() == "XDG_SESSION_ID"@,
        v == EnvVar::SessionType <==> v.name_spec() == "XDG_SESSION_TYPE"@,
        v == EnvVar::FlatpakId <==> v.name_spec() == "FLATPAK_ID"@,
{
    reveal_strlit("RUSTDESK_FORCED_DISPLAY_SERVER");
    reveal_strlit("XDG_SESSION_ID");
    reveal_strlit("XDG_SESSION_TYPE");
    reveal_strlit("FLATPAK_ID");
    assert("RUSTDESK_FORCED_DISPLAY_SERVER"@.len() == 30);
    assert("XDG_SESSION_ID"@.len() == 14);
    assert("XDG_SESSION_TYPE"@.len() == 16);
    assert("FLATPAK_ID"@.len() == 10);
}

/// Replies and outputs are taken as they are: a text that was read is that
/// text, be it empty, and so is an output and a listing.
pub proof fn replies_are_taken_as_they_are(o: Output, t: String, list: Vec<SessionFile>, e: bool)
    ensures
        o@.success == o.success,
        o@.stdout == o.stdout@,
        Reply::Text(Some(t))@ == ReplyView::Text(Some(t@)),
        Reply::Text(None)@ == ReplyView::Text(None),
        Reply::Output(Some(o))@ == ReplyView::Output(Some(o@)),
        Reply::Output(None)@ == ReplyView::Output(None),
        Reply::Listing(Some(list))@ == ReplyView::Listing(Some(session::session_files(list@))),
        Reply::Listing(None)@ == ReplyView::Listing(None),
        Reply::Exists(e)@ == ReplyView::Exists(e),
{
}

/// Queries and calls are asked as they are: each names the text that it was
/// given.
pub proof fn queries_are_asked_as_they_are(t: String, v: EnvVar, args: Vec<String>)
    ensures
        Query::<String>::Env(v)@ == Query::<Seq<char>>::Env(v),
        Query::<String>::SeatFile@ == Query::<Seq<char>>::SeatFile,
        Query::SessionFile(t)@ == Query::SessionFile(t@),
        Query::<String>::SessionDir@ == Query::<Seq<char>>::SessionDir,
        Query::<String>::SessionIdCommand@ == Query::<Seq<char>>::SessionIdCommand,
        Query::PathExists(t)@ == Query::PathExists(t@),
        Query::Which(t)@ == Query::Which(t@),
        Query::Loginctl(LoginctlCall::<String>::List)@ == Query::Loginctl(
            LoginctlCall::<Seq<char>>::List,
        ),
        Query::Loginctl(LoginctlCall::ShowType(t))@ == Query::Loginctl(LoginctlCall::ShowType(t@)),
        Query::Loginctl(LoginctlCall::ShowState(t))@ == Query::Loginctl(
            LoginctlCall::ShowState(t@),
        ),
        Query::Loginctl(LoginctlCall::ShowAll(t))@ == Query::Loginctl(LoginctlCall::ShowAll(t@)),
        Query::Loginctl(LoginctlCall::ShowLocked(t))@ == Query::Loginctl(
            LoginctlCall::ShowLocked(t@),
        ),
        argument_list(None) is None,
        argument_list(Some(args)) matches Some(list) && list.len() == args@.len() && forall|i: int|
            0 <= i < args@.len() ==> #[trigger] list[i] == args@[i]@,
        text_view(Some(t)) == Some(t@),
        text_view(None) is None,
{
}

} // verus!
