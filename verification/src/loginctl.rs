//! Running `loginctl`, and remembering for a moment what it answered.
//!
//! Some systems log each call of `loginctl`, so that a service that asks twice
//! a second floods the logs. What `loginctl` tells changes at most when a user
//! logs in or out; an answer that is a few seconds old is as good as a new one.

use crate::command::{CommandLine, CommandLineView};
use crate::query;
use crate::query::{EnvVar, Output, OutputView, Progress};
use crate::text;
use vstd::hash_map::StringHashMap;
use vstd::prelude::*;
use vstd::string::*;

verus! {

/// How long an answer is good for, in nanoseconds: two seconds.
pub const LOGINCTL_CACHE_TTL: u128 = 2_000_000_000;

/// Why there is no output of `loginctl`.
#[derive(Clone, Copy, Debug, PartialEq, Eq, Structural)]
pub enum LoginctlError {
    /// It could not be run a moment ago.
    CachedFailure,
    /// It could not be run now.
    InvocationFailed,
    /// What is remembered cannot be had, or cannot be added to.
    CachePoisoned,
}

impl LoginctlError {
    pub open spec fn message_spec(self) -> Seq<char> {
        match self {
            LoginctlError::CachedFailure => "cached loginctl failure"@,
            LoginctlError::InvocationFailed => "loginctl invocation failed"@,
            LoginctlError::CachePoisoned => "loginctl cache poisoned"@,
        }
    }

    /// The error in words.
    pub fn message(self) -> (r: &'static str)
        ensures
            r@ == self.message_spec(),
    {
        match self {
            LoginctlError::CachedFailure => "cached loginctl failure",
            LoginctlError::InvocationFailed => "loginctl invocation failed",
            LoginctlError::CachePoisoned => "loginctl cache poisoned",
        }
    }
}

/// The output or error that a result holds.
pub open spec fn result_view(r: Result<Output, LoginctlError>) -> Result<
    OutputView,
    LoginctlError,
> {
    match r {
        Ok(o) => Ok(o@),
        Err(e) => Err(e),
    }
}

/// The result of a call with the given output, where `error` tells why there
/// is none.
pub open spec fn result_of(output: Option<OutputView>, error: LoginctlError) -> Result<
    OutputView,
    LoginctlError,
> {
    match output {
        Some(o) => Ok(o),
        None => Err(error),
    }
}

/// What is remembered of one call.
struct CacheEntry {
    /// `None` where `loginctl` could not be run.
    output: Option<Output>,
    /// When it ended, in nanoseconds.
    ts: u128,
}

/// What a `CacheEntry` stands for.
pub struct CacheEntryView {
    pub output: Option<OutputView>,
    pub ts: u128,
}

/// The answers of `loginctl` that are remembered, each under the key of its
/// arguments.
pub struct LoginctlCache {
    entries: StringHashMap<CacheEntry>,
}

impl View for LoginctlCache {
    type V = Map<Seq<char>, CacheEntryView>;

    closed spec fn view(&self) -> Map<Seq<char>, CacheEntryView> {
        self.entries@.map_values(
            |e: CacheEntry| CacheEntryView { output: query::output_view(e.output), ts: e.ts },
        )
    }
}

/// The code of one argument: a mark before each character, and another at the
/// end.
pub open spec fn argument_code(arg: Seq<char>) -> Seq<char>
    decreases arg.len(),
{
    if arg.len() == 0 {
        seq![';']
    } else {
        seq!['.', arg[0]] + argument_code(arg.skip(1))
    }
}

/// The codes of arguments, one after the other.
pub open spec fn arguments_code(args: Seq<Seq<char>>) -> Seq<char>
    decreases args.len(),
{
    if args.len() == 0 {
        Seq::empty()
    } else {
        argument_code(args[0]) + arguments_code(args.skip(1))
    }
}

/// The key of an argument list: empty where there is none, and otherwise a
/// mark and the codes of the arguments.
pub open spec fn cache_key_spec(args: Option<Seq<Seq<char>>>) -> Seq<char> {
    match args {
        Some(a) => seq![':'] + arguments_code(a),
        None => Seq::empty(),
    }
}

/// Adds the code of an argument.
fn append_argument(key: &mut String, arg: &str)
    ensures
        final(key)@ == old(key)@ + argument_code(arg@),
{
    proof {
        reveal_strlit(".");
        reveal_strlit(";");
        assert("."@ =~= seq!['.']);
        assert(";"@ =~= seq![';']);
    }
    let n = arg.unicode_len();
    let ghost start = key@;
    assert(arg@.skip(0) == arg@);
    for i in 0..n
        invariant
            n == arg@.len(),
            "."@ == seq!['.'],
            key@ + argument_code(arg@.skip(i as int)) == start + argument_code(arg@),
    {
        let ghost before = key@;
        let ghost rest = argument_code(arg@.skip(i + 1));
        assert(arg@.skip(i as int).skip(1) == arg@.skip(i + 1));
        assert(arg@.subrange(i as int, i + 1) =~= seq![arg@[i as int]]);
        key.append(".");
        key.append(arg.substring_char(i, i + 1));
        assert(before + (seq!['.', arg@[i as int]] + rest) =~= key@ + rest);
    }
    key.append(";");
}

/// The key of an argument list.
fn cache_key(args: &Option<Vec<String>>) -> (r: String)
    ensures
        r@ == cache_key_spec(query::argument_list(*args)),
{
    match args {
        Some(a) => {
            proof {
                reveal_strlit(":");
                assert(":"@ =~= seq![':']);
            }
            let ghost all = text::strings(a@);
            let mut key = ":".to_owned();
            assert(all.skip(0) == all);
            for i in 0..a.len()
                invariant
                    all == text::strings(a@),
                    key@ + arguments_code(all.skip(i as int)) == seq![':'] + arguments_code(all),
            {
                let ghost before = key@;
                let ghost rest = arguments_code(all.skip(i + 1));
                assert(all.skip(i as int).skip(1) == all.skip(i + 1));
                append_argument(&mut key, a[i].as_str());
                assert(before + (argument_code(all[i as int]) + rest) =~= key@ + rest);
            }
            assert(all.skip(all.len() as int) == Seq::<Seq<char>>::empty());
            assert(key@ + Seq::<char>::empty() =~= key@);
            key
        },
        None => String::new(),
    }
}

/// Whether an answer of the time `ts` is still good at the time `now`. A clock
/// that went back does not age it.
pub open spec fn still_good(ts: u128, now: u128) -> bool {
    now < ts || now - ts < LOGINCTL_CACHE_TTL
}

/// The remembered answer to a call at the time `now`.
pub open spec fn cached_answer(
    cache: Map<Seq<char>, CacheEntryView>,
    args: Option<Seq<Seq<char>>>,
    now: u128,
) -> Option<Option<OutputView>> {
    let key = cache_key_spec(args);
    if cache.contains_key(key) && still_good(cache[key].ts, now) {
        Some(cache[key].output)
    } else {
        None
    }
}

/// The cache once it remembers an answer.
pub open spec fn remembering(
    cache: Map<Seq<char>, CacheEntryView>,
    args: Option<Seq<Seq<char>>>,
    output: Option<OutputView>,
    now: u128,
) -> Map<Seq<char>, CacheEntryView> {
    cache.insert(cache_key_spec(args), CacheEntryView { output, ts: now })
}

fn copy_of(output: &Option<Output>) -> (r: Option<Output>)
    ensures
        query::output_view(r) == query::output_view(*output),
{
    match output {
        Some(o) => Some(o.clone()),
        None => None,
    }
}

impl LoginctlCache {
    /// A cache that remembers nothing.
    pub fn new() -> (r: Self)
        ensures
            r@ == Map::<Seq<char>, CacheEntryView>::empty(),
    {
        let r = LoginctlCache { entries: StringHashMap::new() };
        assert(r@ =~= Map::<Seq<char>, CacheEntryView>::empty());
        r
    }

    /// The remembered answer to a call at the time `now`; `Some(None)` where
    /// it is remembered that `loginctl` could not be run.
    pub fn lookup(&self, args: &Option<Vec<String>>, now: u128) -> (r: Option<Option<Output>>)
        ensures
            match r {
                Some(o) => cached_answer(self@, query::argument_list(*args), now) == Some(
                    query::output_view(o),
                ),
                None => cached_answer(self@, query::argument_list(*args), now) is None,
            },
    {
        let key = cache_key(args);
        match self.entries.get(key.as_str()) {
            Some(entry) => if now < entry.ts || now - entry.ts < LOGINCTL_CACHE_TTL {
                Some(copy_of(&entry.output))
            } else {
                None
            },
            None => None,
        }
    }

    /// Remembers the answer to a call that ended at the time `now`.
    pub fn store(&mut self, args: &Option<Vec<String>>, output: &Option<Output>, now: u128)
        ensures
            final(self)@ == remembering(
                old(self)@,
                query::argument_list(*args),
                query::output_view(*output),
                now,
            ),
    {
        let ghost before = self@;
        let key = cache_key(args);
        let ghost k = key@;
        let entry = CacheEntry { output: copy_of(output), ts: now };
        let ghost view = CacheEntryView { output: query::output_view(entry.output), ts: now };
        self.entries.insert(key, entry);
        assert(self@ =~= before.insert(k, view));
    }

    /// Ends a call that was run: remembers the output that its run left at the
    /// time `now`, and turns that output into the result of the call.
    pub fn finish(&mut self, args: &Option<Vec<String>>, output: Option<Output>, now: u128) -> (r:
        Result<Output, LoginctlError>)
        ensures
            final(self)@ == remembering(
                old(self)@,
                query::argument_list(*args),
                query::output_view(output),
                now,
            ),
            result_view(r) == result_of(
                query::output_view(output),
                LoginctlError::InvocationFailed,
            ),
    {
        self.store(args, &output, now);
        loginctl_result(output, true)
    }
}

/// What running `loginctl` asks of the system. `C` is the type of its command
/// lines.
#[derive(Debug)]
pub enum LoginctlQuery<C> {
    /// Whether an environment variable is set.
    IsSet(EnvVar),
    /// The output of a program.
    Run(C),
}

impl View for LoginctlQuery<CommandLine> {
    type V = LoginctlQuery<CommandLineView>;

    open spec fn view(&self) -> LoginctlQuery<CommandLineView> {
        match *self {
            LoginctlQuery::IsSet(v) => LoginctlQuery::IsSet(v),
            LoginctlQuery::Run(c) => LoginctlQuery::Run(c@),
        }
    }
}

/// An answer of the system. `O` is the type of an output.
pub enum LoginctlReply<O> {
    /// Whether the variable is set.
    IsSet(bool),
    /// The output; `None` where the program could not be run.
    Output(Option<O>),
}

impl View for LoginctlReply<Output> {
    type V = LoginctlReply<OutputView>;

    open spec fn view(&self) -> LoginctlReply<OutputView> {
        match *self {
            LoginctlReply::IsSet(s) => LoginctlReply::IsSet(s),
            LoginctlReply::Output(o) => LoginctlReply::Output(query::output_view(o)),
        }
    }
}

/// What a run of `loginctl` waits for.
#[derive(Clone, Copy, Debug, PartialEq, Eq, Structural)]
pub enum RunStage {
    /// Whether the process runs in a Flatpak sandbox.
    Sandbox,
    /// The output of `loginctl` on the host of the sandbox.
    Host,
    /// The output of `loginctl` itself.
    Direct,
}

/// A run of `loginctl`.
pub struct LoginctlRun {
    /// The path of `loginctl`.
    pub loginctl: String,
    pub args: Option<Vec<String>>,
    pub stage: RunStage,
}

/// What a `LoginctlRun` stands for.
pub struct LoginctlRunView {
    pub loginctl: Seq<char>,
    pub args: Option<Seq<Seq<char>>>,
    pub stage: RunStage,
}

impl View for LoginctlRun {
    type V = LoginctlRunView;

    open spec fn view(&self) -> LoginctlRunView {
        LoginctlRunView {
            loginctl: self.loginctl@,
            args: query::argument_list(self.args),
            stage: self.stage,
        }
    }
}

/// How far a run of `loginctl` has come.
pub type RunProgress = Progress<
    LoginctlRunView,
    LoginctlQuery<CommandLineView>,
    Option<OutputView>,
>;

/// `loginctl` and its arguments in one text.
pub open spec fn in_one_text(loginctl: Seq<char>, args: Option<Seq<Seq<char>>>) -> Seq<char> {
    match args {
        Some(a) => loginctl + " "@ + text::joined(a, " "@),
        None => loginctl,
    }
}

/// The command line that runs `loginctl` on the host of a Flatpak sandbox.
pub open spec fn host_command(
    loginctl: Seq<char>,
    args: Option<Seq<Seq<char>>>,
) -> CommandLineView {
    CommandLineView {
        program: "flatpak-spawn"@,
        args: seq!["--host"@, in_one_text(loginctl, args)],
    }
}

/// The command line that runs `loginctl`.
pub open spec fn direct_command(
    loginctl: Seq<char>,
    args: Option<Seq<Seq<char>>>,
) -> CommandLineView {
    CommandLineView {
        program: loginctl,
        args: match args {
            Some(a) => a,
            None => Seq::empty(),
        },
    }
}

/// The start of a run of `loginctl`.
pub open spec fn run_start(loginctl: Seq<char>, args: Option<Seq<Seq<char>>>) -> RunProgress {
    Progress::Ask(
        LoginctlRunView { loginctl, args, stage: RunStage::Sandbox },
        LoginctlQuery::IsSet(EnvVar::FlatpakId),
    )
}

impl LoginctlRunView {
    /// The run once it turned to `loginctl` itself.
    pub open spec fn run_directly(self) -> RunProgress {
        Progress::Ask(
            LoginctlRunView { stage: RunStage::Direct, ..self },
            LoginctlQuery::Run(direct_command(self.loginctl, self.args)),
        )
    }

    /// Where a reply takes the run.
    pub open spec fn next(self, reply: LoginctlReply<OutputView>) -> RunProgress {
        match self.stage {
            RunStage::Sandbox => if reply matches LoginctlReply::IsSet(true) {
                Progress::Ask(
                    LoginctlRunView { stage: RunStage::Host, ..self },
                    LoginctlQuery::Run(host_command(self.loginctl, self.args)),
                )
            } else {
                self.run_directly()
            },
            RunStage::Host => match reply {
                LoginctlReply::Output(Some(o)) => Progress::Done(Some(o)),
                _ => self.run_directly(),
            },
            RunStage::Direct => match reply {
                LoginctlReply::Output(o) => Progress::Done(o),
                _ => Progress::Done(None),
            },
        }
    }
}

fn copy_args(args: &Option<Vec<String>>) -> (r: Option<Vec<String>>)
    ensures
        query::argument_list(r) == query::argument_list(*args),
{
    match args {
        Some(a) => Some(copy_list(a)),
        None => None,
    }
}

fn copy_list(list: &Vec<String>) -> (r: Vec<String>)
    ensures
        text::strings(r@) == text::strings(list@),
{
    let mut out: Vec<String> = Vec::new();
    for i in 0..list.len()
        invariant
            out.len() == i,
            forall|k: int| 0 <= k < i ==> (#[trigger] out@[k])@ == list@[k]@,
    {
        out.push(list[i].as_str().to_owned());
    }
    assert(text::strings(out@) =~= text::strings(list@));
    out
}

/// Starts a run of `loginctl`, whose path is `loginctl`. In a Flatpak sandbox
/// it is run on the host; where that fails, as elsewhere, it is run directly.
pub fn run_loginctl_uncached(loginctl: &str, args: &Option<Vec<String>>) -> (r: Progress<
    LoginctlRun,
    LoginctlQuery<CommandLine>,
    Option<Output>,
>)
    ensures
        r@ == run_start(loginctl@, query::argument_list(*args)),
{
    Progress::Ask(
        LoginctlRun {
            loginctl: loginctl.to_owned(),
            args: copy_args(args),
            stage: RunStage::Sandbox,
        },
        LoginctlQuery::IsSet(EnvVar::FlatpakId),
    )
}

impl LoginctlRun {
    fn host_line(&self) -> (r: CommandLine)
        ensures
            r@ == host_command(self@.loginctl, self@.args),
    {
        let line = match &self.args {
            Some(a) => {
                let joined = text::join(a, " ");
                self.loginctl.as_str().to_owned().concat(" ").concat(joined.as_str())
            },
            None => self.loginctl.as_str().to_owned(),
        };
        let mut args: Vec<String> = Vec::new();
        args.push("--host".to_owned());
        args.push(line);
        let r = CommandLine { program: "flatpak-spawn".to_owned(), args };
        assert(r@ =~= host_command(self@.loginctl, self@.args));
        r
    }

    fn turn_direct(self) -> (r: Progress<LoginctlRun, LoginctlQuery<CommandLine>, Option<Output>>)
        ensures
            r@ == self@.run_directly(),
    {
        let args = match &self.args {
            Some(a) => copy_list(a),
            None => Vec::new(),
        };
        let line = CommandLine { program: self.loginctl.as_str().to_owned(), args };
        assert(line@ =~= direct_command(self@.loginctl, self@.args));
        Progress::Ask(
            LoginctlRun { loginctl: self.loginctl, args: self.args, stage: RunStage::Direct },
            LoginctlQuery::Run(line),
        )
    }

    /// Takes the reply to the query that the run asked.
    pub fn resume(self, reply: LoginctlReply<Output>) -> (r: Progress<
        LoginctlRun,
        LoginctlQuery<CommandLine>,
        Option<Output>,
    >)
        ensures
            r@ == self@.next(reply@),
    {
        match self.stage {
            RunStage::Sandbox => match reply {
                LoginctlReply::IsSet(true) => {
                    let line = self.host_line();
                    Progress::Ask(
                        LoginctlRun {
                            loginctl: self.loginctl,
                            args: self.args,
                            stage: RunStage::Host,
                        },
                        LoginctlQuery::Run(line),
                    )
                },
                _ => self.turn_direct(),
            },
            RunStage::Host => match reply {
                LoginctlReply::Output(Some(o)) => Progress::Done(Some(o)),
                _ => self.turn_direct(),
            },
            RunStage::Direct => match reply {
                LoginctlReply::Output(o) => Progress::Done(o),
                _ => Progress::Done(None),
            },
        }
    }
}

/// What a call of `loginctl` comes to: a result at once, or a run.
pub enum LoginctlStep<R, P> {
    Answered(R),
    Run(P),
}

/// What a `LoginctlStep` stands for.
pub type LoginctlStepView = LoginctlStep<Result<OutputView, LoginctlError>, RunProgress>;

impl View for LoginctlStep<
    Result<Output, LoginctlError>,
    Progress<LoginctlRun, LoginctlQuery<CommandLine>, Option<Output>>,
> {
    type V = LoginctlStepView;

    open spec fn view(&self) -> LoginctlStepView {
        match *self {
            LoginctlStep::Answered(r) => LoginctlStep::Answered(result_view(r)),
            LoginctlStep::Run(p) => LoginctlStep::Run(p@),
        }
    }
}

/// What is remembered; nothing at all where it cannot be had.
pub open spec fn remembered(cache: Option<&LoginctlCache>) -> Option<
    Map<Seq<char>, CacheEntryView>,
> {
    match cache {
        Some(c) => Some(c@),
        None => None,
    }
}

/// What a call of `loginctl` at the time `now` comes to, where `cache` is what
/// is remembered.
pub open spec fn loginctl_step(
    cache: Option<Map<Seq<char>, CacheEntryView>>,
    loginctl: Seq<char>,
    args: Option<Seq<Seq<char>>>,
    now: u128,
) -> LoginctlStepView {
    match cache {
        Some(c) => match cached_answer(c, args, now) {
            Some(o) => LoginctlStep::Answered(result_of(o, LoginctlError::CachedFailure)),
            None => LoginctlStep::Run(run_start(loginctl, args)),
        },
        None => LoginctlStep::Answered(Err(LoginctlError::CachePoisoned)),
    }
}

/// Calls `loginctl`, whose path is `loginctl`, at the time `now`.
///
/// The answer to each distinct argument list is remembered for
/// `LOGINCTL_CACHE_TTL`; a failure is remembered, too. `cache` is `None` where
/// the cache is poisoned, which is an error. After a run,
/// `LoginctlCache::finish` remembers its output and gives the result of the
/// call; where the cache is poisoned by then, `loginctl_result` does.
pub fn run_loginctl(
    cache: Option<&LoginctlCache>,
    loginctl: &str,
    args: &Option<Vec<String>>,
    now: u128,
) -> (r: LoginctlStep<
    Result<Output, LoginctlError>,
    Progress<LoginctlRun, LoginctlQuery<CommandLine>, Option<Output>>,
>)
    ensures
        r@ == loginctl_step(remembered(cache), loginctl@, query::argument_list(*args), now),
{
    match cache {
        Some(c) => match c.lookup(args, now) {
            Some(Some(o)) => LoginctlStep::Answered(Ok(o)),
            Some(None) => LoginctlStep::Answered(Err(LoginctlError::CachedFailure)),
            None => LoginctlStep::Run(run_loginctl_uncached(loginctl, args)),
        },
        None => LoginctlStep::Answered(Err(LoginctlError::CachePoisoned)),
    }
}

/// The result of a call of `loginctl` that was run; `stored` tells whether its
/// output could be remembered.
pub fn loginctl_result(output: Option<Output>, stored: bool) -> (r: Result<Output, LoginctlError>)
    ensures
        result_view(r) == if stored {
            result_of(query::output_view(output), LoginctlError::InvocationFailed)
        } else {
            Err(LoginctlError::CachePoisoned)
        },
{
    if !stored {
        return Err(LoginctlError::CachePoisoned);
    }
    match output {
        Some(o) => Ok(o),
        None => Err(LoginctlError::InvocationFailed),
    }
}

/// What is remembered is given back for as long as it is good, and not after.
pub proof fn answer_is_remembered(
    cache: Map<Seq<char>, CacheEntryView>,
    args: Option<Seq<Seq<char>>>,
    output: Option<OutputView>,
    ts: u128,
    now: u128,
)
    ensures
        now < ts + LOGINCTL_CACHE_TTL ==> cached_answer(
            remembering(cache, args, output, ts),
            args,
            now,
        ) == Some(output),
        now >= ts + LOGINCTL_CACHE_TTL ==> cached_answer(
            remembering(cache, args, output, ts),
            args,
            now,
        ) is None,
{
}

/// A call right after one that was run, with the same arguments, is answered
/// with its output and does not run `loginctl` again.
pub proof fn second_call_is_answered(
    cache: Map<Seq<char>, CacheEntryView>,
    loginctl: Seq<char>,
    args: Option<Seq<Seq<char>>>,
    output: Option<OutputView>,
    ts: u128,
    now: u128,
)
    requires
        now < ts + LOGINCTL_CACHE_TTL,
    ensures
        loginctl_step(Some(remembering(cache, args, output, ts)), loginctl, args, now)
            == LoginctlStepView::Answered(result_of(output, LoginctlError::CachedFailure)),
{
}

/// A call after the answer to an earlier one is no longer good, with the same
/// arguments, runs `loginctl` again, and its output takes the place of the old
/// answer.
pub proof fn old_answer_is_refreshed(
    cache: Map<Seq<char>, CacheEntryView>,
    loginctl: Seq<char>,
    args: Option<Seq<Seq<char>>>,
    output: Option<OutputView>,
    ts: u128,
    now: u128,
    new_output: Option<OutputView>,
    new_ts: u128,
)
    requires
        now >= ts + LOGINCTL_CACHE_TTL,
    ensures
        loginctl_step(Some(remembering(cache, args, output, ts)), loginctl, args, now)
            == LoginctlStepView::Run(run_start(loginctl, args)),
        remembering(remembering(cache, args, output, ts), args, new_output, new_ts) == remembering(
            cache,
            args,
            new_output,
            new_ts,
        ),
{
}

/// The code of an argument tells where it ends.
proof fn argument_code_is_read_back(a: Seq<char>, x: Seq<char>, b: Seq<char>, y: Seq<char>)
    requires
        argument_code(a) + x == argument_code(b) + y,
    ensures
        a == b,
        x == y,
    decreases a.len(),
{
    let p = argument_code(a) + x;
    let q = argument_code(b) + y;
    assert(p[0] == if a.len() == 0 {
        ';'
    } else {
        '.'
    });
    assert(q[0] == if b.len() == 0 {
        ';'
    } else {
        '.'
    });
    if a.len() == 0 {
        assert(p.skip(1) =~= x);
        assert(q.skip(1) =~= y);
    } else {
        assert(p[1] == a[0]);
        assert(q[1] == b[0]);
        assert(p.skip(2) =~= argument_code(a.skip(1)) + x);
        assert(q.skip(2) =~= argument_code(b.skip(1)) + y);
        argument_code_is_read_back(a.skip(1), x, b.skip(1), y);
        assert(a =~= seq![a[0]] + a.skip(1));
        assert(b =~= seq![b[0]] + b.skip(1));
    }
}

/// The codes of arguments tell the arguments.
proof fn arguments_code_is_read_back(a: Seq<Seq<char>>, b: Seq<Seq<char>>)
    requires
        arguments_code(a) == arguments_code(b),
    ensures
        a == b,
    decreases a.len(),
{
    if a.len() > 0 && b.len() > 0 {
        argument_code_is_read_back(
            a[0],
            arguments_code(a.skip(1)),
            b[0],
            arguments_code(b.skip(1)),
        );
        arguments_code_is_read_back(a.skip(1), b.skip(1));
        assert(a =~= seq![a[0]] + a.skip(1));
        assert(b =~= seq![b[0]] + b.skip(1));
    } else if a.len() > 0 {
        assert(argument_code(a[0]).len() > 0);
        assert(arguments_code(a).len() > 0);
    } else if b.len() > 0 {
        assert(argument_code(b[0]).len() > 0);
        assert(arguments_code(b).len() > 0);
    }
}

/// Different argument lists have different keys.
pub proof fn keys_are_distinct(a: Option<Seq<Seq<char>>>, b: Option<Seq<Seq<char>>>)
    requires
        cache_key_spec(a) == cache_key_spec(b),
    ensures
        a == b,
{
    match (a, b) {
        (Some(l), Some(m)) => {
            let p = arguments_code(l);
            let q = arguments_code(m);
            assert(p == q) by {
                assert((seq![':'] + p).skip(1) == p);
                assert((seq![':'] + q).skip(1) == q);
            }
            arguments_code_is_read_back(l, m);
        },
        (Some(l), None) => {
            assert((seq![':'] + arguments_code(l)).len() > 0);
        },
        (None, Some(m)) => {
            assert((seq![':'] + arguments_code(m)).len() > 0);
        },
        (None, None) => {},
    }
}

/// Remembering the answer to one call leaves what is remembered of any other.
pub proof fn other_answers_stay(
    cache: Map<Seq<char>, CacheEntryView>,
    args: Option<Seq<Seq<char>>>,
    other: Option<Seq<Seq<char>>>,
    output: Option<OutputView>,
    ts: u128,
    now: u128,
)
    requires
        args != other,
    ensures
        cached_answer(remembering(cache, args, output, ts), other, now) == cached_answer(
            cache,
            other,
            now,
        ),
{
    if cache_key_spec(args) == cache_key_spec(other) {
        keys_are_distinct(args, other);
    }
}

/// How many queries a run of `loginctl` can still ask, at most.
pub open spec fn run_queries_left(p: RunProgress) -> nat {
    match p {
        Progress::Done(_) => 0,
        Progress::Ask(run, _) => match run.stage {
            RunStage::Sandbox => 3,
            RunStage::Host => 2,
            RunStage::Direct => 1,
        },
    }
}

/// Whatever the replies, a run of `loginctl` ends: each reply leaves it with
/// fewer queries to ask.
pub proof fn run_ends(
    run: LoginctlRunView,
    query: LoginctlQuery<CommandLineView>,
    reply: LoginctlReply<OutputView>,
)
    ensures
        run_queries_left(run.next(reply)) < run_queries_left(Progress::Ask(run, query)) <= 3,
{
}

/// The replies of a system that does not change.
pub type LoginctlWorld = spec_fn(LoginctlQuery<CommandLineView>) -> LoginctlReply<OutputView>;

/// The output of a program, in a system that does not change; `None` where it
/// cannot be run.
pub open spec fn output_of(world: LoginctlWorld, line: CommandLineView) -> Option<OutputView> {
    match world(LoginctlQuery::Run(line)) {
        LoginctlReply::Output(o) => o,
        LoginctlReply::IsSet(_) => None,
    }
}

/// What a run of `loginctl` leaves, in a system that does not change: in a
/// Flatpak sandbox what it prints on the host, if it can be run there, and
/// otherwise what it prints itself.
pub open spec fn loginctl_output(
    world: LoginctlWorld,
    loginctl: Seq<char>,
    args: Option<Seq<Seq<char>>>,
) -> Option<OutputView> {
    let in_sandbox = world(LoginctlQuery::IsSet(EnvVar::FlatpakId)) == LoginctlReply::<
        OutputView,
    >::IsSet(true);
    let on_host = output_of(world, host_command(loginctl, args));
    if in_sandbox && on_host is Some {
        on_host
    } else {
        output_of(world, direct_command(loginctl, args))
    }
}

/// What a run of `loginctl` leaves in an unchanging system from `p` on.
pub open spec fn loginctl_run(world: LoginctlWorld, p: RunProgress) -> Option<OutputView>
    decreases run_queries_left(p),
{
    match p {
        Progress::Done(o) => o,
        Progress::Ask(run, query) => loginctl_run(world, run.next(world(query))),
    }
}

/// In a system that does not change, a run of `loginctl` leaves its output on
/// the host of a Flatpak sandbox, or failing that its own.
pub proof fn run_finds_output(
    world: LoginctlWorld,
    loginctl: Seq<char>,
    args: Option<Seq<Seq<char>>>,
)
    ensures
        loginctl_run(world, run_start(loginctl, args)) == loginctl_output(world, loginctl, args),
{
    reveal_with_fuel(loginctl_run, 4);
}

/// What `loginctl` answered stands for two seconds from its end, and not for
/// longer: until then a call with the same arguments has the same output, or
/// fails where there was none, and after that `loginctl` is run again. A call
/// with other arguments has nothing from it, and a poisoned cache is an error.
pub proof fn answers_stand_for_two_seconds(
    cache: Map<Seq<char>, CacheEntryView>,
    loginctl: Seq<char>,
    args: Option<Seq<Seq<char>>>,
    other: Option<Seq<Seq<char>>>,
    output: Option<OutputView>,
    ts: u128,
    now: u128,
)
    requires
        args != other,
    ensures
        ({
            let later = Some(remembering(cache, args, output, ts));
            let call = loginctl_step(later, loginctl, args, now);
            &&& now < ts + 2_000_000_000 ==> match output {
                Some(o) => call == LoginctlStepView::Answered(Ok(o)),
                None => call == LoginctlStepView::Answered(Err(LoginctlError::CachedFailure)),
            }
            &&& now >= ts + 2_000_000_000 ==> call == LoginctlStepView::Run(
                run_start(loginctl, args),
            )
            &&& loginctl_step(later, loginctl, other, now) == loginctl_step(
                Some(cache),
                loginctl,
                other,
                now,
            )
            &&& loginctl_step(
                Some(Map::<Seq<char>, CacheEntryView>::empty()),
                loginctl,
                args,
                now,
            ) == LoginctlStepView::Run(run_start(loginctl, args))
            &&& loginctl_step(None, loginctl, args, now) == LoginctlStepView::Answered(
                Err(LoginctlError::CachePoisoned),
            )
        }),
{
    other_answers_stay(cache, args, other, output, ts, now);
}

/// Outside a Flatpak sandbox `loginctl` is run with its arguments as they are.
/// In one, `flatpak-spawn --host` is given the whole command as one text, with
/// a space before each argument; where that cannot be run, `loginctl` is run
/// as outside.
pub proof fn host_is_tried_first_in_a_sandbox(
    world: LoginctlWorld,
    loginctl: Seq<char>,
    args: Option<Seq<Seq<char>>>,
    in_sandbox: bool,
    on_host: CommandLineView,
    direct: CommandLineView,
)
    requires
        world(LoginctlQuery::IsSet(EnvVar::FlatpakId)) == LoginctlReply::<OutputView>::IsSet(
            in_sandbox,
        ),
        on_host.program == "flatpak-spawn"@,
        on_host.args.len() == 2,
        on_host.args[0] == "--host"@,
        args matches Some(a) ==> on_host.args[1] == loginctl + " "@ + text::joined(a, " "@),
        args is None ==> on_host.args[1] == loginctl,
        direct.program == loginctl,
        args matches Some(a) ==> direct.args == a,
        args is None ==> direct.args.len() == 0,
    ensures
        ({
            let output = loginctl_run(world, run_start(loginctl, args));
            let host_output = match world(LoginctlQuery::Run(on_host)) {
                LoginctlReply::Output(o) => o,
                LoginctlReply::IsSet(_) => None,
            };
            let direct_output = match world(LoginctlQuery::Run(direct)) {
                LoginctlReply::Output(o) => o,
                LoginctlReply::IsSet(_) => None,
            };
            &&& in_sandbox && host_output is Some ==> output == host_output
            &&& !(in_sandbox && host_output is Some) ==> output == direct_output
        }),
{
    run_finds_output(world, loginctl, args);
    assert(host_command(loginctl, args) =~= on_host);
    assert(direct_command(loginctl, args) =~= direct);
}

/// Each error has its own message.
pub proof fn errors_in_words(e: LoginctlError)
    ensures
        e == LoginctlError::CachedFailure ==> e.message_spec() == "cached loginctl failure"@,
        e == LoginctlError::InvocationFailed ==> e.message_spec() == "loginctl invocation failed"@,
{
}

/// The result of a call is its output as it is, and the error that tells why
/// there is none where there is none.
pub proof fn results_are_taken_as_they_are(
    o: Output,
    output: OutputView,
    error: LoginctlError,
    cache: LoginctlCache,
)
    ensures
        result_of(Some(output), error) == Ok::<OutputView, LoginctlError>(output),
        result_of(None, error) == Err::<OutputView, LoginctlError>(error),
        result_view(Ok(o)) == Ok::<OutputView, LoginctlError>(o@),
        result_view(Err(error)) == Err::<OutputView, LoginctlError>(error),
        remembered(Some(&cache)) == Some(cache@),
        remembered(None) is None,
{
}

} // verus!
