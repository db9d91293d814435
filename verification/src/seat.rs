//! Which session sits at the machine.

use crate::desktop;
use crate::display_server;
use crate::display_server::{SessionProbe, SessionStage};
use crate::query::{EnvVar, LoginctlCall, Progress, Query, Reply, ReplyView, World};
use crate::session;
use crate::session::{Session, SessionFileView, SessionView};
use crate::text;
use vstd::prelude::*;
use vstd::string::*;

verus! {

/// The two rounds in which sessions are looked at.
#[derive(Clone, Copy)]
pub enum Round {
    /// Only the active sessions at `seat0`.
    Seat0,
    /// All active sessions, for systems without a `seat0`.
    Active,
}

/// What a seat probe waits for.
enum SeatStage {
    /// The entries of the session directory.
    Listing,
    /// The display server of the session at the position `at` of `list`.
    Session { round: Round, list: Vec<Session>, at: usize, probe: SessionProbe<String> },
}

/// A probe for the values of the session that sits at the machine.
pub struct SeatProbe {
    indices: Vec<usize>,
    ignore_gdm_wayland: bool,
    stage: SeatStage,
}

/// What a `SeatStage` stands for.
pub enum SeatStageView {
    Listing,
    Session { round: Round, list: Seq<SessionView>, at: int, probe: SessionProbe<Seq<char>> },
}

/// What a `SeatProbe` stands for.
pub struct SeatProbeView {
    pub indices: Seq<usize>,
    pub ignore_gdm_wayland: bool,
    pub stage: SeatStageView,
}

impl View for SeatProbe {
    type V = SeatProbeView;

    closed spec fn view(&self) -> SeatProbeView {
        SeatProbeView {
            indices: self.indices@,
            ignore_gdm_wayland: self.ignore_gdm_wayland,
            stage: match self.stage {
                SeatStage::Listing => SeatStageView::Listing,
                SeatStage::Session { round, list, at, probe } => SeatStageView::Session {
                    round,
                    list: session::sessions(list@),
                    at: at as int,
                    probe: probe@,
                },
            },
        }
    }
}

/// How far a seat probe has come.
pub type SeatProgress = Progress<SeatProbeView, Query<Seq<char>>, Seq<Seq<char>>>;

/// Whether a session is that of a login screen's user.
pub open spec fn gdm_session(s: SessionView) -> bool {
    s.fields.contains_key("USER"@) && desktop::gdm_user(s.fields["USER"@])
}

/// An empty text for each index.
pub open spec fn no_values(indices: Seq<usize>) -> Seq<Seq<char>> {
    indices.map_values(|i: usize| Seq::<char>::empty())
}

impl SeatProbeView {
    /// The probe once it asked for the display server of the session at the
    /// position `at` of `list`.
    pub open spec fn ask_session(self, round: Round, list: Seq<SessionView>, at: int) -> SeatProgress {
        let probe = SessionProbe { session: list[at].sid, stage: SessionStage::File };
        Progress::Ask(
            SeatProbeView { stage: SeatStageView::Session { round, list, at, probe }, ..self },
            Query::SessionFile(list[at].sid),
        )
    }

    /// The probe in its first round, at the position `at` of `list`: the
    /// active session at `seat0` is taken, but that of a login screen only
    /// once its display server is known.
    pub open spec fn seat0_round(self, list: Seq<SessionView>, at: int) -> SeatProgress
        decreases list.len() - at,
    {
        if at >= list.len() {
            self.active_round(list, 0)
        } else if session::at_seat0(list[at].fields) && session::active(list[at].fields) {
            if self.ignore_gdm_wayland && gdm_session(list[at]) {
                self.ask_session(Round::Seat0, list, at)
            } else {
                Progress::Done(session::session_values(list[at], self.indices))
            }
        } else {
            self.seat0_round(list, at + 1)
        }
    }

    /// The probe in its second round, at the position `at` of `list`: an
    /// active session is taken once its display server is known.
    pub open spec fn active_round(self, list: Seq<SessionView>, at: int) -> SeatProgress
        decreases list.len() - at,
    {
        if at >= list.len() {
            Progress::Done(no_values(self.indices))
        } else if session::active(list[at].fields) {
            self.ask_session(Round::Active, list, at)
        } else {
            self.active_round(list, at + 1)
        }
    }

    /// Whether a session is passed over in a round because of its display
    /// server.
    pub open spec fn passes_over(self, round: Round, s: SessionView, display_server: Seq<char>) -> bool {
        match round {
            Round::Seat0 => display_server == "wayland"@,
            Round::Active => {
                ||| self.ignore_gdm_wayland && gdm_session(s) && display_server == "wayland"@
                ||| display_server == "tty"@
                ||| display_server == "unspecified"@
            },
        }
    }

    /// The probe once it learned the display server of the session at the
    /// position `at` of `list`.
    pub open spec fn with_display_server(
        self,
        round: Round,
        list: Seq<SessionView>,
        at: int,
        display_server: Seq<char>,
    ) -> SeatProgress {
        if !self.passes_over(round, list[at], display_server) {
            Progress::Done(session::session_values(list[at], self.indices))
        } else {
            match round {
                Round::Seat0 => self.seat0_round(list, at + 1),
                Round::Active => self.active_round(list, at + 1),
            }
        }
    }

    /// Where a reply takes the probe.
    pub open spec fn next(self, reply: ReplyView) -> SeatProgress {
        match self.stage {
            SeatStageView::Listing => match session::listed_sessions(reply.listing()) {
                Some(list) => self.seat0_round(session::by_id(list), 0),
                None => Progress::Done(no_values(self.indices)),
            },
            SeatStageView::Session { round, list, at, probe } => match probe.next(reply) {
                Progress::Ask(probe, query) => Progress::Ask(
                    SeatProbeView {
                        stage: SeatStageView::Session { round, list, at, probe },
                        ..self
                    },
                    query,
                ),
                Progress::Done(d) => self.with_display_server(round, list, at, d),
            },
        }
    }
}

/// The start of a seat probe.
pub open spec fn seat_start(indices: Seq<usize>, ignore_gdm_wayland: bool) -> SeatProgress {
    Progress::Ask(
        SeatProbeView { indices, ignore_gdm_wayland, stage: SeatStageView::Listing },
        Query::SessionDir,
    )
}

/// What the caller of a seat probe wants.
struct Wish {
    indices: Vec<usize>,
    ignore_gdm_wayland: bool,
}

/// A seat probe's wish, without regard to how far it has come.
spec fn wish_view(w: Wish) -> SeatProbeView {
    SeatProbeView {
        indices: w.indices@,
        ignore_gdm_wayland: w.ignore_gdm_wayland,
        stage: SeatStageView::Listing,
    }
}

fn is_gdm_session(s: &Session) -> (r: bool)
    ensures
        r == gdm_session(s@),
{
    match s.fields.get("USER") {
        Some(u) => desktop::is_gdm_user(u.as_str()),
        None => false,
    }
}

proof fn words_of_nothing(indices: Seq<usize>)
    ensures
        session::words_at(""@, indices) == no_values(indices),
{
    reveal_strlit("");
    reveal_with_fuel(Seq::filter, 2);
    let parts = text::pieces(""@, text::CharClass::WhiteSpace);
    assert(parts == seq![Seq::<char>::empty()]);
    assert(parts.drop_last() == Seq::<Seq<char>>::empty());
    assert(text::words(""@).len() == 0);
}

/// The values of one session, at the end of a probe.
fn take_session(wish: Wish, s: &Session) -> (r: Progress<SeatProbe, Query<String>, Vec<String>>)
    ensures
        r@ == (SeatProgress::Done(session::session_values(s@, wish.indices@))),
{
    let values = session::map_session_values(
        s.sid.as_str(),
        &s.fields,
        wish.indices.as_slice(),
    );
    assert(values.deep_view() =~= text::strings(values@));
    Progress::Done(values)
}

fn take_nothing(wish: Wish) -> (r: Progress<SeatProbe, Query<String>, Vec<String>>)
    ensures
        r@ == (SeatProgress::Done(no_values(wish.indices@))),
{
    let values = session::line_values(wish.indices.as_slice(), "");
    proof {
        words_of_nothing(wish.indices@);
    }
    assert(values.deep_view() =~= text::strings(values@));
    Progress::Done(values)
}

impl SeatProbe {
    #[verifier::type_invariant]
    spec fn well_formed(self) -> bool {
        match self.stage {
            SeatStage::Listing => true,
            SeatStage::Session { round, list, at, probe } => at < list@.len(),
        }
    }

    fn turn_to_session(wish: Wish, round: Round, list: Vec<Session>, at: usize) -> (r: Progress<
        SeatProbe,
        Query<String>,
        Vec<String>,
    >)
        requires
            at < list@.len(),
        ensures
            r@ == wish_view(wish).ask_session(round, session::sessions(list@), at as int),
    {
        let sid = list[at].sid.as_str().to_owned();
        let probe = SessionProbe {
            session: list[at].sid.as_str().to_owned(),
            stage: SessionStage::File,
        };
        let ghost views = session::sessions(list@);
        assert(views[at as int].sid == list@[at as int].sid@);
        Progress::Ask(
            SeatProbe {
                indices: wish.indices,
                ignore_gdm_wayland: wish.ignore_gdm_wayland,
                stage: SeatStage::Session { round, list, at, probe },
            },
            Query::SessionFile(sid),
        )
    }

    fn run_active_round(wish: Wish, list: Vec<Session>, start: usize) -> (r: Progress<
        SeatProbe,
        Query<String>,
        Vec<String>,
    >)
        requires
            start <= list@.len(),
        ensures
            r@ == wish_view(wish).active_round(session::sessions(list@), start as int),
    {
        let mut at: usize = start;
        let ghost views = session::sessions(list@);
        while at < list.len()
            invariant
                at <= list@.len(),
                views == session::sessions(list@),
                wish_view(wish).active_round(views, at as int) == wish_view(wish).active_round(
                    views,
                    start as int,
                ),
            decreases list@.len() - at,
        {
            assert(views[at as int] == list@[at as int]@);
            if session::is_active_fields(&list[at].fields) {
                return SeatProbe::turn_to_session(wish, Round::Active, list, at);
            }
            at = at + 1;
        }
        take_nothing(wish)
    }

    fn run_seat0_round(wish: Wish, list: Vec<Session>, start: usize) -> (r: Progress<
        SeatProbe,
        Query<String>,
        Vec<String>,
    >)
        requires
            start <= list@.len(),
        ensures
            r@ == wish_view(wish).seat0_round(session::sessions(list@), start as int),
    {
        let mut at: usize = start;
        let ghost views = session::sessions(list@);
        while at < list.len()
            invariant
                at <= list@.len(),
                views == session::sessions(list@),
                wish_view(wish).seat0_round(views, at as int) == wish_view(wish).seat0_round(
                    views,
                    start as int,
                ),
            decreases list@.len() - at,
        {
            assert(views[at as int] == list@[at as int]@);
            let s = &list[at];
            if session::is_seat0_fields(&s.fields) && session::is_active_fields(&s.fields) {
                if wish.ignore_gdm_wayland && is_gdm_session(s) {
                    return SeatProbe::turn_to_session(wish, Round::Seat0, list, at);
                }
                return take_session(wish, s);
            }
            at = at + 1;
        }
        SeatProbe::run_active_round(wish, list, 0)
    }

    /// Takes the reply to the query that the probe asked.
    pub fn resume(self, reply: Reply) -> (r: Progress<SeatProbe, Query<String>, Vec<String>>)
        ensures
            r@ == self@.next(reply@),
            match r {
                Progress::Done(v) => v@.len() == self@.indices.len(),
                Progress::Ask(p, _) => p@.indices == self@.indices,
            },
    {
        proof {
            use_type_invariant(&self);
        }
        let ghost me = self@;
        proof {
            one_value_per_index(me, Query::SessionDir, reply@);
        }
        let wish = Wish { indices: self.indices, ignore_gdm_wayland: self.ignore_gdm_wayland };
        match self.stage {
            SeatStage::Listing => match session::list_sessions(reply.listing()) {
                Some(list) => {
                    assert(wish_view(wish) == me);
                    SeatProbe::run_seat0_round(wish, session::sort_sessions(list), 0)
                },
                None => take_nothing(wish),
            },
            SeatStage::Session { round, list, at, probe } => match probe.resume(reply) {
                Progress::Ask(probe, query) => Progress::Ask(
                    SeatProbe {
                        indices: wish.indices,
                        ignore_gdm_wayland: wish.ignore_gdm_wayland,
                        stage: SeatStage::Session { round, list, at, probe },
                    },
                    query,
                ),
                Progress::Done(d) => {
                    let ghost views = session::sessions(list@);
                    assert(views[at as int] == list@[at as int]@);
                    proof {
                        same_rounds(me, wish_view(wish), views, at + 1);
                    }
                    assert(at < list.len());
                    let wayland = text::same_text(d.as_str(), "wayland");
                    match round {
                        Round::Seat0 => if wayland {
                            SeatProbe::run_seat0_round(wish, list, at + 1)
                        } else {
                            take_session(wish, &list[at])
                        },
                        Round::Active => if (wish.ignore_gdm_wayland && is_gdm_session(&list[at])
                            && wayland) || text::same_text(d.as_str(), "tty") || text::same_text(
                            d.as_str(),
                            "unspecified",
                        ) {
                            SeatProbe::run_active_round(wish, list, at + 1)
                        } else {
                            take_session(wish, &list[at])
                        },
                    }
                },
            },
        }
    }
}

/// The rounds depend on what is wished, not on how far the probe has come.
proof fn same_rounds(a: SeatProbeView, b: SeatProbeView, list: Seq<SessionView>, at: int)
    requires
        a.indices == b.indices,
        a.ignore_gdm_wayland == b.ignore_gdm_wayland,
    ensures
        a.seat0_round(list, at) == b.seat0_round(list, at),
        a.active_round(list, at) == b.active_round(list, at),
    decreases list.len() - at,
{
    if at < list.len() {
        same_rounds(a, b, list, at + 1);
    } else {
        same_active_round(a, b, list, 0);
    }
}

proof fn same_active_round(a: SeatProbeView, b: SeatProbeView, list: Seq<SessionView>, at: int)
    requires
        a.indices == b.indices,
        a.ignore_gdm_wayland == b.ignore_gdm_wayland,
    ensures
        a.active_round(list, at) == b.active_round(list, at),
    decreases list.len() - at,
{
    if at < list.len() {
        same_active_round(a, b, list, at + 1);
    }
}

/// Starts a probe for the values of the session that sits at the machine,
/// at the given indices: 0 = sid, 1 = uid, 2 = username.
///
/// An active session at `seat0` is preferred; failing that, any active session
/// is taken whose display server is not `tty` or `unspecified`. Where
/// `ignore_gdm_wayland` is set, a login screen that runs on Wayland is passed
/// over.
pub fn _get_values_of_seat0(indices: &[usize], ignore_gdm_wayland: bool) -> (r: Progress<
    SeatProbe,
    Query<String>,
    Vec<String>,
>)
    ensures
        r@ == seat_start(indices@, ignore_gdm_wayland),
{
    let mut copy: Vec<usize> = Vec::new();
    for i in 0..indices.len()
        invariant
            copy@ == indices@.take(i as int),
    {
        copy.push(indices[i]);
    }
    assert(copy@ == indices@);
    Progress::Ask(
        SeatProbe { indices: copy, ignore_gdm_wayland, stage: SeatStage::Listing },
        Query::SessionDir,
    )
}

/// Starts a probe that passes over a login screen on Wayland.
pub fn get_values_of_seat0(indices: &[usize]) -> (r: Progress<
    SeatProbe,
    Query<String>,
    Vec<String>,
>)
    ensures
        r@ == seat_start(indices@, true),
{
    _get_values_of_seat0(indices, true)
}

/// Starts a probe that takes a login screen on Wayland, too.
pub fn get_values_of_seat0_with_gdm_wayland(indices: &[usize]) -> (r: Progress<
    SeatProbe,
    Query<String>,
    Vec<String>,
>)
    ensures
        r@ == seat_start(indices@, false),
{
    _get_values_of_seat0(indices, false)
}

/// The round a seat probe is in: none left when it is done.
pub open spec fn rounds_left(p: SeatProgress) -> nat {
    match p {
        Progress::Done(_) => 0,
        Progress::Ask(probe, _) => match probe.stage {
            SeatStageView::Listing => 3,
            SeatStageView::Session { round: Round::Seat0, .. } => 2,
            SeatStageView::Session { round: Round::Active, .. } => 1,
        },
    }
}

/// How many sessions a seat probe has still to look at in its round.
pub open spec fn sessions_left(p: SeatProgress) -> int {
    match p {
        Progress::Ask(probe, _) => match probe.stage {
            SeatStageView::Session { list, at, .. } => list.len() - at,
            SeatStageView::Listing => 0,
        },
        Progress::Done(_) => 0,
    }
}

/// How many queries a seat probe can still ask of the session it looks at.
pub open spec fn session_steps_left(p: SeatProgress) -> nat {
    match p {
        Progress::Ask(probe, query) => match probe.stage {
            SeatStageView::Session { probe, .. } => display_server::session_queries_left(
                Progress::Ask(probe, query),
            ),
            SeatStageView::Listing => 0,
        },
        Progress::Done(_) => 0,
    }
}

/// Whether the session that a seat probe looks at is in its list.
pub open spec fn looks_at_listed(p: SeatProgress) -> bool {
    match p {
        Progress::Ask(probe, _) => match probe.stage {
            SeatStageView::Session { list, at, .. } => 0 <= at < list.len(),
            SeatStageView::Listing => true,
        },
        Progress::Done(_) => true,
    }
}

proof fn active_round_moves(me: SeatProbeView, list: Seq<SessionView>, at: int)
    requires
        0 <= at,
    ensures
        ({
            let p = me.active_round(list, at);
            &&& rounds_left(p) <= 1
            &&& looks_at_listed(p)
            &&& rounds_left(p) == 1 ==> sessions_left(p) <= list.len() - at
            &&& p matches Progress::Done(v) ==> v.len() == me.indices.len()
        }),
    decreases list.len() - at,
{
    if at < list.len() && !session::active(list[at].fields) {
        active_round_moves(me, list, at + 1);
    }
}

proof fn seat0_round_moves(me: SeatProbeView, list: Seq<SessionView>, at: int)
    requires
        0 <= at,
    ensures
        ({
            let p = me.seat0_round(list, at);
            &&& rounds_left(p) <= 2
            &&& looks_at_listed(p)
            &&& rounds_left(p) == 2 ==> sessions_left(p) <= list.len() - at
            &&& p matches Progress::Done(v) ==> v.len() == me.indices.len()
        }),
    decreases list.len() - at,
{
    if at >= list.len() {
        active_round_moves(me, list, 0);
    } else if !(session::at_seat0(list[at].fields) && session::active(list[at].fields)) {
        seat0_round_moves(me, list, at + 1);
    }
}

/// Whatever the replies, a seat probe ends: each reply takes it to a later
/// round, or to a later session in its round, or leaves it with fewer queries
/// to ask of the session it looks at.
pub proof fn seat_probe_ends(probe: SeatProbeView, query: Query<Seq<char>>, reply: ReplyView)
    requires
        looks_at_listed(Progress::Ask(probe, query)),
    ensures
        ({
            let p = SeatProgress::Ask(probe, query);
            let q = probe.next(reply);
            &&& looks_at_listed(q)
            &&& 0 <= sessions_left(q)
            &&& {
                ||| rounds_left(q) < rounds_left(p)
                ||| rounds_left(q) == rounds_left(p) && sessions_left(q) < sessions_left(p)
                ||| rounds_left(q) == rounds_left(p) && sessions_left(q) == sessions_left(p)
                    && session_steps_left(q) < session_steps_left(p)
            }
        }),
{
    match probe.stage {
        SeatStageView::Listing => match session::listed_sessions(reply.listing()) {
            Some(list) => {
                seat0_round_moves(probe, session::by_id(list), 0);
            },
            None => {},
        },
        SeatStageView::Session { round, list, at, probe: inner } => {
            display_server::session_probe_ends(inner, query, reply);
            seat0_round_moves(probe, list, at + 1);
            active_round_moves(probe, list, at + 1);
        },
    }
}

/// A seat probe gives one value for each index.
pub proof fn one_value_per_index(probe: SeatProbeView, query: Query<Seq<char>>, reply: ReplyView)
    requires
        looks_at_listed(Progress::Ask(probe, query)),
    ensures
        match probe.next(reply) {
            Progress::Done(v) => v.len() == probe.indices.len(),
            Progress::Ask(p, _) => p.indices == probe.indices,
        },
{
    match probe.stage {
        SeatStageView::Listing => match session::listed_sessions(reply.listing()) {
            Some(list) => {
                seat0_round_moves(probe, session::by_id(list), 0);
                seat0_round_keeps_indices(probe, session::by_id(list), 0);
            },
            None => {},
        },
        SeatStageView::Session { round, list, at, probe: inner } => {
            seat0_round_moves(probe, list, at + 1);
            active_round_moves(probe, list, at + 1);
            seat0_round_keeps_indices(probe, list, at + 1);
            active_round_keeps_indices(probe, list, at + 1);
        },
    }
}

proof fn seat0_round_keeps_indices(me: SeatProbeView, list: Seq<SessionView>, at: int)
    ensures
        me.seat0_round(list, at) matches Progress::Ask(p, _) ==> p.indices == me.indices,
    decreases list.len() - at,
{
    if at >= list.len() {
        active_round_keeps_indices(me, list, 0);
    } else {
        seat0_round_keeps_indices(me, list, at + 1);
    }
}

proof fn active_round_keeps_indices(me: SeatProbeView, list: Seq<SessionView>, at: int)
    ensures
        me.active_round(list, at) matches Progress::Ask(p, _) ==> p.indices == me.indices,
    decreases list.len() - at,
{
    if at < list.len() {
        active_round_keeps_indices(me, list, at + 1);
    }
}

/// What a seat probe asks of an unchanging system from `p` on, and what it
/// finds in the end.
pub open spec fn seat_run(world: World, p: SeatProgress) -> (
    Seq<Query<Seq<char>>>,
    Seq<Seq<char>>,
)
    decreases rounds_left(p), sessions_left(p), session_steps_left(p),
    when looks_at_listed(p)
{
    match p {
        Progress::Done(v) => (Seq::empty(), v),
        Progress::Ask(probe, query) => {
            proof {
                seat_probe_ends(probe, query, world(query));
            }
            let (asked, v) = seat_run(world, probe.next(world(query)));
            (seq![query] + asked, v)
        },
    }
}

/// Whether a session is that of a login screen on Wayland, to be passed over.
pub open spec fn ignored_login_screen(
    world: World,
    s: SessionView,
    ignore_gdm_wayland: bool,
) -> bool {
    &&& ignore_gdm_wayland
    &&& gdm_session(s)
    &&& display_server::session_display_server(world, s.sid) == "wayland"@
}

/// Whether a session is one to take in the first round.
pub open spec fn taken_at_seat0(
    world: World,
    s: SessionView,
    ignore_gdm_wayland: bool,
) -> bool {
    &&& session::at_seat0(s.fields)
    &&& session::active(s.fields)
    &&& !ignored_login_screen(world, s, ignore_gdm_wayland)
}

/// Whether a session is one to take in the second round.
pub open spec fn taken_if_active(
    world: World,
    s: SessionView,
    ignore_gdm_wayland: bool,
) -> bool {
    &&& session::active(s.fields)
    &&& !ignored_login_screen(world, s, ignore_gdm_wayland)
    &&& display_server::session_display_server(world, s.sid) != "tty"@
    &&& display_server::session_display_server(world, s.sid) != "unspecified"@
}

/// Whether a session is one to take in a round.
pub open spec fn taken(
    world: World,
    round: Round,
    s: SessionView,
    ignore_gdm_wayland: bool,
) -> bool {
    match round {
        Round::Seat0 => taken_at_seat0(world, s, ignore_gdm_wayland),
        Round::Active => taken_if_active(world, s, ignore_gdm_wayland),
    }
}

/// The first session of `list`, from the position `at` on, to take in a round.
pub open spec fn first_taken(
    world: World,
    round: Round,
    list: Seq<SessionView>,
    at: int,
    ignore_gdm_wayland: bool,
) -> Option<SessionView>
    decreases list.len() - at,
{
    if at >= list.len() {
        None
    } else if taken(world, round, list[at], ignore_gdm_wayland) {
        Some(list[at])
    } else {
        first_taken(world, round, list, at + 1, ignore_gdm_wayland)
    }
}

/// The session that sits at the machine, in a system that does not change: in
/// the order of the ids, the first active session at `seat0`, and failing that
/// the first active session whose display server is not `tty` or
/// `unspecified`.
pub open spec fn seated_session(world: World, ignore_gdm_wayland: bool) -> Option<
    SessionView,
> {
    match session::listed_sessions(world(Query::SessionDir).listing()) {
        Some(l) => {
            let list = session::by_id(l);
            match first_taken(world, Round::Seat0, list, 0, ignore_gdm_wayland) {
                Some(s) => Some(s),
                None => first_taken(world, Round::Active, list, 0, ignore_gdm_wayland),
            }
        },
        None => None,
    }
}

/// The values of the session that sits at the machine; empty where there is
/// none.
pub open spec fn seated_values(
    world: World,
    indices: Seq<usize>,
    ignore_gdm_wayland: bool,
) -> Seq<Seq<char>> {
    match seated_session(world, ignore_gdm_wayland) {
        Some(s) => session::session_values(s, indices),
        None => no_values(indices),
    }
}

/// A seat probe goes on with the display server that its session probe finds.
proof fn session_probe_runs_through(
    world: World,
    me: SeatProbeView,
    query: Query<Seq<char>>,
)
    requires
        looks_at_listed(Progress::Ask(me, query)),
        me.stage is Session,
    ensures
        ({
            let d = display_server::session_run(
                world,
                Progress::Ask(me.stage->probe, query),
            ).1;
            let p = me.with_display_server(me.stage->round, me.stage->list, me.stage->at, d);
            &&& looks_at_listed(p)
            &&& seat_run(world, Progress::Ask(me, query)).1 == seat_run(world, p).1
        }),
    decreases display_server::session_queries_left(Progress::Ask(me.stage->probe, query)),
{
    let inner = me.stage->probe;
    let list = me.stage->list;
    let at = me.stage->at;
    seat_probe_ends(me, query, world(query));
    display_server::session_probe_ends(inner, query, world(query));
    seat0_round_moves(me, list, at + 1);
    active_round_moves(me, list, at + 1);
    match inner.next(world(query)) {
        Progress::Ask(inner2, query2) => {
            let me2 = SeatProbeView {
                stage: SeatStageView::Session { round: me.stage->round, list, at, probe: inner2 },
                ..me
            };
            session_probe_runs_through(world, me2, query2);
            same_rounds(me, me2, list, at + 1);
            assert(me.next(world(query)) == SeatProgress::Ask(me2, query2));
        },
        Progress::Done(d) => {
            assert(display_server::session_run(world, Progress::Done(d)).1 == d);
        },
    }
}

proof fn active_round_finds(
    world: World,
    me: SeatProbeView,
    list: Seq<SessionView>,
    at: int,
)
    requires
        0 <= at,
    ensures
        seat_run(world, me.active_round(list, at)).1 == match first_taken(
            world,
            Round::Active,
            list,
            at,
            me.ignore_gdm_wayland,
        ) {
            Some(s) => session::session_values(s, me.indices),
            None => no_values(me.indices),
        },
    decreases list.len() - at,
{
    active_round_moves(me, list, at);
    if at < list.len() {
        active_round_finds(world, me, list, at + 1);
        active_round_moves(me, list, at + 1);
        if session::active(list[at].fields) {
            let p = me.ask_session(Round::Active, list, at);
            session_probe_runs_through(world, p->Ask_0, p->Ask_1);
            display_server::session_probe_finds_display_server(world, list[at].sid);
            same_rounds(me, p->Ask_0, list, at + 1);
        }
    }
}

proof fn seat0_round_finds(
    world: World,
    me: SeatProbeView,
    list: Seq<SessionView>,
    at: int,
)
    requires
        0 <= at,
    ensures
        seat_run(world, me.seat0_round(list, at)).1 == match first_taken(
            world,
            Round::Seat0,
            list,
            at,
            me.ignore_gdm_wayland,
        ) {
            Some(s) => session::session_values(s, me.indices),
            None => seat_run(world, me.active_round(list, 0)).1,
        },
    decreases list.len() - at,
{
    seat0_round_moves(me, list, at);
    if at < list.len() {
        seat0_round_finds(world, me, list, at + 1);
        seat0_round_moves(me, list, at + 1);
        if session::at_seat0(list[at].fields) && session::active(list[at].fields)
            && me.ignore_gdm_wayland && gdm_session(list[at]) {
            let p = me.ask_session(Round::Seat0, list, at);
            session_probe_runs_through(world, p->Ask_0, p->Ask_1);
            display_server::session_probe_finds_display_server(world, list[at].sid);
            same_rounds(me, p->Ask_0, list, at + 1);
        }
    }
}

/// In a system that does not change, a seat probe finds the values of the
/// session that sits at the machine.
pub proof fn seat_probe_finds_seated_session(
    world: World,
    indices: Seq<usize>,
    ignore_gdm_wayland: bool,
)
    ensures
        seat_run(world, seat_start(indices, ignore_gdm_wayland)).1 == seated_values(
            world,
            indices,
            ignore_gdm_wayland,
        ),
{
    let start = seat_start(indices, ignore_gdm_wayland);
    let me = start->Ask_0;
    seat_probe_ends(me, Query::SessionDir, world(Query::SessionDir));
    match session::listed_sessions(world(Query::SessionDir).listing()) {
        Some(l) => {
            seat0_round_finds(world, me, session::by_id(l), 0);
            active_round_finds(world, me, session::by_id(l), 0);
        },
        None => {
            assert(seat_run(world, Progress::Done(no_values(indices))).1 == no_values(indices));
        },
    }
}

proof fn first_taken_is_first(
    world: World,
    round: Round,
    list: Seq<SessionView>,
    at: int,
    ignore_gdm_wayland: bool,
)
    requires
        0 <= at,
    ensures
        match first_taken(world, round, list, at, ignore_gdm_wayland) {
            Some(s) => exists|k: int|
                {
                    &&& at <= k < list.len()
                    &&& #[trigger] list[k] == s
                    &&& taken(world, round, s, ignore_gdm_wayland)
                    &&& forall|i: int|
                        at <= i < k ==> !taken(world, round, #[trigger] list[i], ignore_gdm_wayland)
                },
            None => forall|i: int|
                at <= i < list.len() ==> !taken(
                    world,
                    round,
                    #[trigger] list[i],
                    ignore_gdm_wayland,
                ),
        },
    decreases list.len() - at,
{
    if at < list.len() {
        if taken(world, round, list[at], ignore_gdm_wayland) {
            assert(list[at] == first_taken(world, round, list, at, ignore_gdm_wayland)->0);
        } else {
            first_taken_is_first(world, round, list, at + 1, ignore_gdm_wayland);
        }
    }
}

/// The session that sits at the machine is one of those listed, it is active,
/// and it is no login screen that is to be passed over. Where it is not at
/// `seat0`, its display server is not `tty` or `unspecified`.
pub proof fn seated_session_is_eligible(world: World, ignore_gdm_wayland: bool)
    ensures
        seated_session(world, ignore_gdm_wayland) matches Some(s) ==> {
            let d = display_server::session_display_server(world, s.sid);
            &&& session::listed_sessions(world(Query::SessionDir).listing()) matches Some(list)
            &&& list.contains(s)
            &&& session::active(s.fields)
            &&& !ignored_login_screen(world, s, ignore_gdm_wayland)
            &&& session::at_seat0(s.fields) || (d != "tty"@ && d != "unspecified"@)
        },
{
    if let Some(l) = session::listed_sessions(world(Query::SessionDir).listing()) {
        let list = session::by_id(l);
        first_taken_is_first(world, Round::Seat0, list, 0, ignore_gdm_wayland);
        first_taken_is_first(world, Round::Active, list, 0, ignore_gdm_wayland);
        session::by_id_keeps_sessions(l);
        l.to_multiset_ensures();
        list.to_multiset_ensures();
        if let Some(s) = seated_session(world, ignore_gdm_wayland) {
            assert(list.contains(s));
            assert(list.to_multiset().count(s) > 0);
            assert(l.contains(s));
        }
    }
}

/// Where a listed session can be taken in a round, one is, and its id does not
/// come after that of the listed one.
proof fn smallest_is_taken(
    world: World,
    round: Round,
    l: Seq<SessionView>,
    s: SessionView,
    ignore_gdm_wayland: bool,
)
    requires
        l.contains(s),
        taken(world, round, s, ignore_gdm_wayland),
    ensures
        first_taken(world, round, session::by_id(l), 0, ignore_gdm_wayland) matches Some(t)
            && taken(world, round, t, ignore_gdm_wayland) && !text::comes_before(s.sid, t.sid),
{
    let list = session::by_id(l);
    session::by_id_keeps_sessions(l);
    session::by_id_is_in_order(l);
    l.to_multiset_ensures();
    list.to_multiset_ensures();
    assert(l.to_multiset().count(s) > 0);
    assert(list.contains(s));
    let j = choose|j: int| 0 <= j < list.len() && list[j] == s;
    first_taken_is_first(world, round, list, 0, ignore_gdm_wayland);
    assert(taken(world, round, list[j], ignore_gdm_wayland));
    let t = first_taken(world, round, list, 0, ignore_gdm_wayland)->0;
    text::order_is_total(s.sid, s.sid);
    let k = choose|k: int|
        {
            &&& 0 <= k < list.len()
            &&& #[trigger] list[k] == t
            &&& taken(world, round, t, ignore_gdm_wayland)
            &&& forall|i: int|
                0 <= i < k ==> !taken(world, round, #[trigger] list[i], ignore_gdm_wayland)
        };
    assert(k <= j);
}

/// An active session at `seat0` is preferred: where one is listed that is not
/// to be passed over, the session that sits at the machine is at `seat0`, and
/// its id does not come after that of the listed one.
pub proof fn seat0_is_preferred(world: World, ignore_gdm_wayland: bool, s: SessionView)
    requires
        session::listed_sessions(world(Query::SessionDir).listing()) matches Some(list)
            && list.contains(s),
        taken_at_seat0(world, s, ignore_gdm_wayland),
    ensures
        seated_session(world, ignore_gdm_wayland) matches Some(t) && session::at_seat0(t.fields)
            && !text::comes_before(s.sid, t.sid),
{
    let l = session::listed_sessions(world(Query::SessionDir).listing())->0;
    smallest_is_taken(world, Round::Seat0, l, s, ignore_gdm_wayland);
}

/// Where sessions are listed and one of them is active, is no login screen to
/// be passed over and has a display server that is not `tty` or `unspecified`,
/// some session sits at the machine. Where none is taken at `seat0`, its id
/// does not come after that of the listed one.
pub proof fn eligible_session_is_found(world: World, ignore_gdm_wayland: bool, s: SessionView)
    requires
        session::listed_sessions(world(Query::SessionDir).listing()) matches Some(list)
            && list.contains(s),
        taken_if_active(world, s, ignore_gdm_wayland),
    ensures
        seated_session(world, ignore_gdm_wayland) is Some,
        (session::listed_sessions(world(Query::SessionDir).listing()) matches Some(list)
            && forall|i: int|
            0 <= i < list.len() ==> !taken_at_seat0(world, #[trigger] list[i], ignore_gdm_wayland))
            ==> (seated_session(world, ignore_gdm_wayland) matches Some(t)
            && !text::comes_before(s.sid, t.sid)),
{
    let l = session::listed_sessions(world(Query::SessionDir).listing())->0;
    let list = session::by_id(l);
    smallest_is_taken(world, Round::Active, l, s, ignore_gdm_wayland);
    first_taken_is_first(world, Round::Seat0, list, 0, ignore_gdm_wayland);
    session::by_id_keeps_sessions(l);
    l.to_multiset_ensures();
    list.to_multiset_ensures();
    if let Some(t) = first_taken(world, Round::Seat0, list, 0, ignore_gdm_wayland) {
        assert(list.contains(t));
        assert(list.to_multiset().count(t) > 0);
        assert(l.contains(t));
    }
}

/// Whether two systems give the same replies, but for the listing of the
/// session directory.
pub open spec fn same_but_listing(a: World, b: World) -> bool {
    forall|q: Query<Seq<char>>| q != Query::<Seq<char>>::SessionDir ==> #[trigger] a(q) == b(q)
}

/// Of one list, the same session is taken in systems that differ in the
/// listing of the session directory alone.
proof fn same_first_taken(
    a: World,
    b: World,
    round: Round,
    list: Seq<SessionView>,
    at: int,
    ignore_gdm_wayland: bool,
)
    requires
        same_but_listing(a, b),
    ensures
        first_taken(a, round, list, at, ignore_gdm_wayland) == first_taken(
            b,
            round,
            list,
            at,
            ignore_gdm_wayland,
        ),
    decreases list.len() - at,
{
    if at < list.len() {
        let sid = list[at].sid;
        assert(a(Query::Env(EnvVar::SessionType)) == b(Query::Env(EnvVar::SessionType)));
        assert(a(Query::SessionFile(sid)) == b(Query::SessionFile(sid)));
        assert(a(Query::Loginctl(LoginctlCall::ShowType(sid))) == b(
            Query::Loginctl(LoginctlCall::ShowType(sid)),
        ));
        same_first_taken(a, b, round, list, at + 1, ignore_gdm_wayland);
    }
}

/// The order in which the session directory lists its entries does not change
/// what a seat probe finds, where no two sessions have the same id.
pub proof fn entry_order_does_not_matter(
    a: World,
    b: World,
    entries_a: Seq<SessionFileView>,
    entries_b: Seq<SessionFileView>,
    indices: Seq<usize>,
    ignore_gdm_wayland: bool,
)
    requires
        same_but_listing(a, b),
        a(Query::SessionDir).listing() == Some(entries_a),
        b(Query::SessionDir).listing() == Some(entries_b),
        entries_a.to_multiset() == entries_b.to_multiset(),
        session::distinct_ids(session::sessions_of(entries_a)),
    ensures
        seat_run(a, seat_start(indices, ignore_gdm_wayland)).1 == seat_run(
            b,
            seat_start(indices, ignore_gdm_wayland),
        ).1,
{
    let sessions_a = session::sessions_of(entries_a);
    let sessions_b = session::sessions_of(entries_b);
    session::same_entries_same_sessions(entries_a, entries_b);
    sessions_a.to_multiset_ensures();
    sessions_b.to_multiset_ensures();
    session::listing_order_does_not_matter(sessions_a, sessions_b);
    let list = session::by_id(sessions_a);
    same_first_taken(a, b, Round::Seat0, list, 0, ignore_gdm_wayland);
    same_first_taken(a, b, Round::Active, list, 0, ignore_gdm_wayland);
    seat_probe_finds_seated_session(a, indices, ignore_gdm_wayland);
    seat_probe_finds_seated_session(b, indices, ignore_gdm_wayland);
}

/// Of the listed sessions that can be taken in a round, the one that is taken
/// is one, and no other comes before it.
proof fn taken_session_is_listed(
    world: World,
    round: Round,
    l: Seq<SessionView>,
    ignore_gdm_wayland: bool,
)
    ensures
        match first_taken(world, round, session::by_id(l), 0, ignore_gdm_wayland) {
            Some(t) => {
                &&& taken(world, round, t, ignore_gdm_wayland)
                &&& exists|x: int| 0 <= x < l.len() && #[trigger] l[x] == t
                &&& forall|i: int|
                    0 <= i < l.len() && taken(world, round, #[trigger] l[i], ignore_gdm_wayland)
                        ==> !text::comes_before(l[i].sid, t.sid)
            },
            None => forall|i: int|
                0 <= i < l.len() ==> !taken(world, round, #[trigger] l[i], ignore_gdm_wayland),
        },
{
    let list = session::by_id(l);
    let found = first_taken(world, round, list, 0, ignore_gdm_wayland);
    first_taken_is_first(world, round, list, 0, ignore_gdm_wayland);
    session::by_id_keeps_sessions(l);
    l.to_multiset_ensures();
    list.to_multiset_ensures();
    if let Some(t) = found {
        assert(list.contains(t));
        assert(list.to_multiset().count(t) > 0);
        assert(l.contains(t));
    }
    assert forall|i: int|
        0 <= i < l.len() && taken(
            world,
            round,
            #[trigger] l[i],
            ignore_gdm_wayland,
        ) implies found is Some && !text::comes_before(l[i].sid, found->0.sid) by {
        assert(l.contains(l[i]));
        smallest_is_taken(world, round, l, l[i], ignore_gdm_wayland);
    }
}

/// Which session sits at the machine, by the fields of the listed sessions and
/// by their display servers.
///
/// A session is active where its `STATE` is `active` or its `ACTIVE` is `1`.
/// It is passed over as a login screen only where login screens are to be
/// ignored, its `USER` is `gdm` or `sddm`, and its display server is
/// `wayland`; no other field makes it one. Of the active sessions whose `SEAT`
/// is `seat0` and that are not passed over, the one with the least id is
/// given. Where there is none, it is that with the least id of all active
/// sessions that are not passed over and whose display server is not `tty` or
/// `unspecified`. Given are its id, its `UID` and its `USER`, at the indices 0,
/// 1 and 2. Where there is no such session either, all values are empty.
pub proof fn seated_session_by_fields(
    world: World,
    files: Seq<SessionFileView>,
    indices: Seq<usize>,
    ignore_gdm_wayland: bool,
)
    requires
        world(Query::SessionDir) == ReplyView::Listing(Some(files)),
    ensures
        ({
            let all = session::sessions_of(files);
            let v = seat_run(world, seat_start(indices, ignore_gdm_wayland)).1;
            let server = |s: SessionView|
                display_server::session_run(world, display_server::session_start(s.sid)).1;
            let active = |s: SessionView|
                (s.fields.contains_key("STATE"@) && text::trim_spec(s.fields["STATE"@])
                    == "active"@) || (s.fields.contains_key("ACTIVE"@) && text::trim_spec(
                    s.fields["ACTIVE"@],
                ) == "1"@);
            let passed_over = |s: SessionView|
                ignore_gdm_wayland && s.fields.contains_key("USER"@) && (s.fields["USER"@]
                    == "gdm"@ || s.fields["USER"@] == "sddm"@) && server(s) == "wayland"@;
            let first = |s: SessionView|
                active(s) && s.fields.contains_key("SEAT"@) && text::trim_spec(s.fields["SEAT"@])
                    == "seat0"@ && !passed_over(s);
            let second = |s: SessionView|
                active(s) && !passed_over(s) && server(s) != "tty"@ && server(s)
                    != "unspecified"@;
            let given = |s: SessionView|
                forall|k: int|
                    0 <= k < indices.len() ==> {
                        &&& indices[k] == 0 ==> #[trigger] v[k] == s.sid
                        &&& indices[k] == 1 ==> v[k] == if s.fields.contains_key("UID"@) {
                            text::trim_spec(s.fields["UID"@])
                        } else {
                            Seq::empty()
                        }
                        &&& indices[k] == 2 ==> v[k] == if s.fields.contains_key("USER"@) {
                            text::trim_spec(s.fields["USER"@])
                        } else {
                            Seq::empty()
                        }
                        &&& indices[k] > 2 ==> v[k].len() == 0
                    };
            &&& v.len() == indices.len()
            &&& (exists|i: int| 0 <= i < all.len() && first(#[trigger] all[i])) ==> exists|x: int|
                {
                    &&& 0 <= x < all.len()
                    &&& first(#[trigger] all[x])
                    &&& given(all[x])
                    &&& forall|i: int|
                        0 <= i < all.len() && first(#[trigger] all[i]) ==> !text::comes_before(
                            all[i].sid,
                            all[x].sid,
                        )
                }
            &&& (forall|i: int| 0 <= i < all.len() ==> !first(#[trigger] all[i])) && (exists|i: int|
                0 <= i < all.len() && second(#[trigger] all[i])) ==> exists|x: int|
                {
                    &&& 0 <= x < all.len()
                    &&& second(#[trigger] all[x])
                    &&& given(all[x])
                    &&& forall|i: int|
                        0 <= i < all.len() && second(#[trigger] all[i]) ==> !text::comes_before(
                            all[i].sid,
                            all[x].sid,
                        )
                }
            &&& (forall|i: int|
                0 <= i < all.len() ==> !first(#[trigger] all[i]) && !second(all[i]))
                ==> forall|k: int| 0 <= k < indices.len() ==> (#[trigger] v[k]).len() == 0
        }),
{
    let all = session::sessions_of(files);
    let v = seat_run(world, seat_start(indices, ignore_gdm_wayland)).1;
    seat_probe_finds_seated_session(world, indices, ignore_gdm_wayland);
    assert forall|sid: Seq<char>| #[trigger]
        display_server::session_run(world, display_server::session_start(sid)).1
            == display_server::session_display_server(world, sid) by {
        display_server::session_probe_finds_display_server(world, sid);
    }
    taken_session_is_listed(world, Round::Seat0, all, ignore_gdm_wayland);
    taken_session_is_listed(world, Round::Active, all, ignore_gdm_wayland);
    let in_first = first_taken(world, Round::Seat0, session::by_id(all), 0, ignore_gdm_wayland);
    let in_second = first_taken(world, Round::Active, session::by_id(all), 0, ignore_gdm_wayland);
    if all.len() > 0 {
        if let Some(t) = in_first {
            let x = choose|x: int| 0 <= x < all.len() && #[trigger] all[x] == t;
            assert(taken_at_seat0(world, all[x], ignore_gdm_wayland));
            assert(v == session::session_values(all[x], indices));
        } else if let Some(t) = in_second {
            let x = choose|x: int| 0 <= x < all.len() && #[trigger] all[x] == t;
            assert(taken_if_active(world, all[x], ignore_gdm_wayland));
            assert(v == session::session_values(all[x], indices));
        }
    }
    assert forall|i: int| 0 <= i < all.len() implies taken(
        world,
        Round::Seat0,
        #[trigger] all[i],
        ignore_gdm_wayland,
    ) == taken_at_seat0(world, all[i], ignore_gdm_wayland) && taken(
        world,
        Round::Active,
        all[i],
        ignore_gdm_wayland,
    ) == taken_if_active(world, all[i], ignore_gdm_wayland) by {}
}

/// The session of a user other than `gdm` and `sddm` is never passed over as a
/// login screen: where one session is listed, it is active and at `seat0`, and
/// its `USER` is another or missing, then its values are given, whatever its
/// other fields and its display server are, and nothing but the session
/// directory is asked for. Where that cannot be read, all values are empty.
pub proof fn only_users_session_is_given(
    world: World,
    files: Seq<SessionFileView>,
    s: SessionView,
    ignore_gdm_wayland: bool,
)
    requires
        session::sessions_of(files) == seq![s],
        ({
            ||| s.fields.contains_key("STATE"@) && text::trim_spec(s.fields["STATE"@])
                == "active"@
            ||| s.fields.contains_key("ACTIVE"@) && text::trim_spec(s.fields["ACTIVE"@]) == "1"@
        }),
        s.fields.contains_key("SEAT"@),
        text::trim_spec(s.fields["SEAT"@]) == "seat0"@,
        s.fields.contains_key("USER"@) ==> s.fields["USER"@] != "gdm"@ && s.fields["USER"@]
            != "sddm"@,
    ensures
        world(Query::SessionDir) == ReplyView::Listing(Some(files)) ==> {
            let (asked, v) = seat_run(world, seat_start(seq![0, 1, 2], ignore_gdm_wayland));
            &&& asked == seq![Query::<Seq<char>>::SessionDir]
            &&& v.len() == 3
            &&& v[0] == s.sid
            &&& v[1] == if s.fields.contains_key("UID"@) {
                text::trim_spec(s.fields["UID"@])
            } else {
                Seq::empty()
            }
            &&& v[2] == if s.fields.contains_key("USER"@) {
                text::trim_spec(s.fields["USER"@])
            } else {
                Seq::empty()
            }
        },
        world(Query::SessionDir) == ReplyView::Listing(None) ==> {
            let (asked, v) = seat_run(world, seat_start(seq![0, 1, 2], ignore_gdm_wayland));
            &&& asked == seq![Query::<Seq<char>>::SessionDir]
            &&& v.len() == 3
            &&& v[0].len() == 0 && v[1].len() == 0 && v[2].len() == 0
        },
{
    let indices: Seq<usize> = seq![0, 1, 2];
    let me = seat_start(indices, ignore_gdm_wayland)->Ask_0;
    let none = Seq::<SessionView>::empty();
    reveal_with_fuel(session::by_id, 2);
    reveal_with_fuel(session::slot, 2);
    assert(seq![s].drop_last() == none);
    assert(none.insert(0, s) == seq![s]);
    reveal_with_fuel(seat_run, 2);
    seat_probe_ends(me, Query::SessionDir, world(Query::SessionDir));
    assert(seq![Query::<Seq<char>>::SessionDir] + Seq::<Query<Seq<char>>>::empty() == seq![
        Query::<Seq<char>>::SessionDir,
    ]);
    if world(Query::SessionDir) == ReplyView::Listing(Some(files)) {
        assert(me.next(world(Query::SessionDir)) == SeatProgress::Done(
            session::session_values(s, indices),
        ));
    } else if world(Query::SessionDir) == ReplyView::Listing(None) {
        assert(me.next(world(Query::SessionDir)) == SeatProgress::Done(no_values(indices)));
    }
}

} // verus!
