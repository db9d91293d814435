//! Shell commands: how they are written, and how their output is read.

use crate::query::{Output, OutputView, Progress, Query, Reply, ReplyView, World};
use crate::text;
use vstd::prelude::*;
use vstd::string::*;

verus! {

/// A program with its arguments.
#[derive(Debug)]
pub struct CommandLine {
    pub program: String,
    pub args: Vec<String>,
}

/// What a `CommandLine` stands for.
#[verifier::ext_equal]
pub struct CommandLineView {
    pub program: Seq<char>,
    pub args: Seq<Seq<char>>,
}

impl View for CommandLine {
    type V = CommandLineView;

    open spec fn view(&self) -> CommandLineView {
        CommandLineView { program: self.program@, args: text::strings(self.args@) }
    }
}

/// The command line by which the shell `sh` runs `cmds`.
pub open spec fn shell_command_spec(sh: Seq<char>, cmds: Seq<char>) -> CommandLineView {
    CommandLineView { program: sh, args: seq!["-c"@, cmds] }
}

/// The command line by which the shell `sh` runs `cmds`.
pub fn shell_command(sh: &str, cmds: &str) -> (r: CommandLine)
    ensures
        r@ == shell_command_spec(sh@, cmds@),
{
    let mut args: Vec<String> = Vec::new();
    args.push("-c".to_owned());
    args.push(cmds.to_owned());
    let r = CommandLine { program: sh.to_owned(), args };
    assert(r@ =~= shell_command_spec(sh@, cmds@));
    r
}

/// The command line by which `which` is asked for the path of a command.
pub fn which_command(cmd: &str) -> (r: CommandLine)
    ensures
        r@ == (CommandLineView { program: "which"@, args: seq![cmd@] }),
{
    let mut args: Vec<String> = Vec::new();
    args.push(cmd.to_owned());
    let r = CommandLine { program: "which".to_owned(), args };
    assert(r@ =~= (CommandLineView { program: "which"@, args: seq![cmd@] }));
    r
}

/// The text that a shell command printed; the error where it could not be run.
///
/// The last character mostly is a line feed; `run_cmds_trim_newline` leaves it
/// out.
pub fn run_cmds<E>(output: Result<Output, E>) -> (r: Result<String, E>)
    ensures
        match output {
            Ok(o) => r matches Ok(t) && t@ == text::decoded(o@.stdout),
            Err(e) => r == Err::<String, E>(e),
        },
{
    match output {
        Ok(o) => Ok(text::decode(o.stdout.as_slice())),
        Err(e) => Err(e),
    }
}

/// `t` without the line feed at its end, if it ends in one.
pub open spec fn without_newline(t: Seq<char>) -> Seq<char> {
    if t.len() > 0 && t.last() == '\n' {
        t.drop_last()
    } else {
        t
    }
}

/// `t` without the line feed at its end, if it ends in one.
pub fn trim_newline(t: &str) -> (r: String)
    ensures
        r@ == without_newline(t@),
{
    let n = t.unicode_len();
    if n > 0 && t.get_char(n - 1) == '\n' {
        assert(t@.subrange(0, n - 1) == t@.drop_last());
        t.substring_char(0, n - 1).to_owned()
    } else {
        t.to_owned()
    }
}

/// The text that a shell command printed, without a line feed at its end; the
/// error where it could not be run.
pub fn run_cmds_trim_newline<E>(output: Result<Output, E>) -> (r: Result<String, E>)
    ensures
        match output {
            Ok(o) => r matches Ok(t) && t@ == without_newline(text::decoded(o@.stdout)),
            Err(e) => r == Err::<String, E>(e),
        },
{
    match output {
        Ok(o) => Ok(trim_newline(text::decode(o.stdout.as_slice()).as_str())),
        Err(e) => Err(e),
    }
}

/// One line feed goes, and no other character: a text that ends in one is had
/// back by adding it, and a text that does not is left as it is.
pub proof fn newline_added_back(t: Seq<char>)
    ensures
        t.len() > 0 && t.last() == '\n' ==> without_newline(t).push('\n') == t,
        !(t.len() > 0 && t.last() == '\n') ==> without_newline(t) == t,
        without_newline(t.push('\n')) == t,
{
    assert(t.push('\n').drop_last() == t);
}

/// What stands for one character within single quotes: a single quote is
/// written by ending the quoted section, escaping the quote, and starting a
/// new section.
pub open spec fn quoted_char(c: char) -> Seq<char> {
    if c == '\'' {
        seq!['\'', '\\', '\'', '\'']
    } else {
        seq![c]
    }
}

/// What stands for a text within single quotes.
pub open spec fn quoted_chars(s: Seq<char>) -> Seq<char>
    decreases s.len(),
{
    if s.len() == 0 {
        s
    } else {
        quoted_char(s[0]) + quoted_chars(s.skip(1))
    }
}

/// `s` as one word of a shell command.
pub open spec fn shell_quoted(s: Seq<char>) -> Seq<char> {
    seq!['\''] + quoted_chars(s) + seq!['\'']
}

proof fn replaced_quotes(s: Seq<char>)
    ensures
        text::replaced(s, "'"@, "'\\''"@) == quoted_chars(s),
    decreases s.len(),
{
    reveal_strlit("'");
    reveal_strlit("'\\''");
    assert("'"@ =~= seq!['\'']);
    assert("'\\''"@ =~= seq!['\'', '\\', '\'', '\'']);
    if s.len() > 0 {
        replaced_quotes(s.skip(1));
        assert(s.take(1) == seq![s[0]]);
        if s[0] == '\'' {
            assert(s.take(1) == "'"@);
        } else {
            assert(s.take(1)[0] != "'"@[0]);
        }
    }
}

/// Escapes a string for safe use in shell commands by wrapping it in single
/// quotes.
///
/// A single quote within the string is written by:
/// 1. ending the current single-quoted section,
/// 2. adding an escaped single quote,
/// 3. starting a new single-quoted section.
///
/// Example: "it's here" -> "'it'\''s here'"
pub fn shell_quote(s: &str) -> (r: String)
    ensures
        r@ == shell_quoted(s@),
{
    proof {
        reveal_strlit("'");
        replaced_quotes(s@);
        assert("'"@ =~= seq!['\'']);
    }
    let inner = text::replace(s, "'", "'\\''");
    "'".to_owned().concat(inner.as_str()).concat("'")
}

/// The text that a shell takes `word` to mean, where every character of it is
/// quoted: within single quotes each character stands for itself up to the
/// next single quote; outside, a backslash makes the next character stand for
/// itself. `None` where a character is not quoted or a quoted section does not
/// end.
pub open spec fn shell_meaning(word: Seq<char>, in_quotes: bool) -> Option<Seq<char>>
    decreases word.len(),
{
    if word.len() == 0 {
        if in_quotes {
            None
        } else {
            Some(Seq::empty())
        }
    } else if word[0] == '\'' {
        shell_meaning(word.skip(1), !in_quotes)
    } else if in_quotes {
        match shell_meaning(word.skip(1), true) {
            Some(rest) => Some(seq![word[0]] + rest),
            None => None,
        }
    } else if word[0] == '\\' && word.len() > 1 && word[1] != '\n' {
        match shell_meaning(word.skip(2), false) {
            Some(rest) => Some(seq![word[1]] + rest),
            None => None,
        }
    } else {
        None
    }
}

proof fn quoted_chars_mean_text(s: Seq<char>)
    ensures
        shell_meaning(quoted_chars(s) + seq!['\''], true) == Some(s),
    decreases s.len(),
{
    let end = seq!['\''];
    if s.len() == 0 {
        reveal_with_fuel(shell_meaning, 3);
        assert(quoted_chars(s) + end == end);
        assert(end.skip(1) == Seq::<char>::empty());
        assert(s == Seq::<char>::empty());
    } else {
        let rest = quoted_chars(s.skip(1)) + end;
        let word = quoted_chars(s) + end;
        quoted_chars_mean_text(s.skip(1));
        assert(word == quoted_char(s[0]) + rest);
        assert(seq![s[0]] + s.skip(1) == s);
        if s[0] == '\'' {
            let w1 = word.skip(1);
            let w3 = w1.skip(2);
            assert(w3.skip(1) == rest);
            assert(word[0] == '\'');
            assert(w1[0] == '\\' && w1[1] == '\'');
            assert(w3[0] == '\'');
            assert(shell_meaning(w3, false) == shell_meaning(rest, true));
            assert(shell_meaning(w1, false) == Some(s));
        } else {
            assert(word.skip(1) == rest);
        }
    }
}

/// A shell takes a quoted text to mean that text, whatever characters it
/// holds: none of them is left unquoted.
pub proof fn shell_quote_is_safe(s: Seq<char>)
    ensures
        shell_meaning(shell_quoted(s), false) == Some(s),
{
    quoted_chars_mean_text(s);
    assert(shell_quoted(s).skip(1) == quoted_chars(s) + seq!['\'']);
}

/// Two texts that are quoted alike are the same text.
pub proof fn shell_quote_is_injective(a: Seq<char>, b: Seq<char>)
    requires
        shell_quoted(a) == shell_quoted(b),
    ensures
        a == b,
{
    shell_quote_is_safe(a);
    shell_quote_is_safe(b);
}

/// What a path probe waits for.
#[derive(Clone, Copy, Debug, PartialEq, Eq, Structural)]
pub enum PathStage {
    /// Whether the command is in `/bin`.
    Bin,
    /// Whether the command is in `/usr/bin`.
    UsrBin,
    /// What `which` says.
    Which,
}

/// A probe for the path of a command. `T` is the type of the command's name.
pub struct PathProbe<T> {
    pub cmd: T,
    pub stage: PathStage,
}

impl View for PathProbe<String> {
    type V = PathProbe<Seq<char>>;

    open spec fn view(&self) -> PathProbe<Seq<char>> {
        PathProbe { cmd: self.cmd@, stage: self.stage }
    }
}

/// How far a path probe has come.
pub type PathProgress = Progress<PathProbe<Seq<char>>, Query<Seq<char>>, Seq<char>>;

/// The path of a command in `/bin`.
pub open spec fn in_bin(cmd: Seq<char>) -> Seq<char> {
    "/bin/"@ + cmd
}

/// The path of a command in `/usr/bin`.
pub open spec fn in_usr_bin(cmd: Seq<char>) -> Seq<char> {
    "/usr/bin/"@ + cmd
}

/// The path that `which` printed; the bare command where it failed or could
/// not be run.
pub open spec fn which_path(cmd: Seq<char>, output: Option<OutputView>) -> Seq<char> {
    match output {
        Some(o) => if o.success {
            text::trim_spec(text::decoded(o.stdout))
        } else {
            cmd
        },
        None => cmd,
    }
}

/// The start of a path probe.
pub open spec fn path_start(cmd: Seq<char>) -> PathProgress {
    Progress::Ask(PathProbe { cmd, stage: PathStage::Bin }, Query::PathExists(in_bin(cmd)))
}

impl PathProbe<Seq<char>> {
    /// Where a reply takes the probe.
    pub open spec fn next(self, reply: ReplyView) -> PathProgress {
        match self.stage {
            PathStage::Bin => if reply.found() {
                Progress::Done(in_bin(self.cmd))
            } else {
                Progress::Ask(
                    PathProbe { cmd: self.cmd, stage: PathStage::UsrBin },
                    Query::PathExists(in_usr_bin(self.cmd)),
                )
            },
            PathStage::UsrBin => if reply.found() {
                Progress::Done(in_usr_bin(self.cmd))
            } else {
                Progress::Ask(
                    PathProbe { cmd: self.cmd, stage: PathStage::Which },
                    Query::Which(self.cmd),
                )
            },
            PathStage::Which => Progress::Done(which_path(self.cmd, reply.output())),
        }
    }
}

/// Starts a probe for the path of a command: in `/bin`, in `/usr/bin`, or
/// where `which` finds it; failing all, the bare command.
pub fn find_cmd_path(cmd: &str) -> (r: Progress<PathProbe<String>, Query<String>, String>)
    ensures
        r@ == path_start(cmd@),
{
    Progress::Ask(
        PathProbe { cmd: cmd.to_owned(), stage: PathStage::Bin },
        Query::PathExists("/bin/".to_owned().concat(cmd)),
    )
}

impl PathProbe<String> {
    /// Takes the reply to the query that the probe asked.
    pub fn resume(self, reply: Reply) -> (r: Progress<PathProbe<String>, Query<String>, String>)
        ensures
            r@ == self@.next(reply@),
    {
        match self.stage {
            PathStage::Bin => if reply.found() {
                Progress::Done("/bin/".to_owned().concat(self.cmd.as_str()))
            } else {
                let path = "/usr/bin/".to_owned().concat(self.cmd.as_str());
                Progress::Ask(
                    PathProbe { cmd: self.cmd, stage: PathStage::UsrBin },
                    Query::PathExists(path),
                )
            },
            PathStage::UsrBin => if reply.found() {
                Progress::Done("/usr/bin/".to_owned().concat(self.cmd.as_str()))
            } else {
                let cmd = self.cmd.as_str().to_owned();
                Progress::Ask(
                    PathProbe { cmd: self.cmd, stage: PathStage::Which },
                    Query::Which(cmd),
                )
            },
            PathStage::Which => {
                if let Some(o) = reply.output() {
                    if o.success {
                        let printed = text::decode(o.stdout.as_slice());
                        return Progress::Done(text::trim(printed.as_str()).to_owned());
                    }
                }
                Progress::Done(self.cmd)
            },
        }
    }
}

/// The path of a command, in a system that does not change.
pub open spec fn command_path(world: World, cmd: Seq<char>) -> Seq<char> {
    if world(Query::PathExists(in_bin(cmd))).found() {
        in_bin(cmd)
    } else if world(Query::PathExists(in_usr_bin(cmd))).found() {
        in_usr_bin(cmd)
    } else {
        which_path(cmd, world(Query::Which(cmd)).output())
    }
}

/// How many queries a path probe can still ask, at most.
pub open spec fn path_queries_left(p: PathProgress) -> nat {
    match p {
        Progress::Done(_) => 0,
        Progress::Ask(probe, _) => match probe.stage {
            PathStage::Bin => 3,
            PathStage::UsrBin => 2,
            PathStage::Which => 1,
        },
    }
}

/// What a path probe finds in an unchanging system from `p` on.
pub open spec fn path_run(world: World, p: PathProgress) -> Seq<char>
    decreases path_queries_left(p),
{
    match p {
        Progress::Done(path) => path,
        Progress::Ask(probe, query) => path_run(world, probe.next(world(query))),
    }
}

/// In a system that does not change, a path probe finds the path of its
/// command.
pub proof fn path_probe_finds_path(world: World, cmd: Seq<char>)
    ensures
        path_run(world, path_start(cmd)) == command_path(world, cmd),
{
    reveal_with_fuel(path_run, 4);
}

proof fn quoted_chars_in_parts(a: Seq<char>, b: Seq<char>)
    ensures
        quoted_chars(a + b) == quoted_chars(a) + quoted_chars(b),
    decreases a.len(),
{
    if a.len() == 0 {
        assert(a + b == b);
    } else {
        quoted_chars_in_parts(a.skip(1), b);
        assert((a + b).skip(1) == a.skip(1) + b);
        assert(quoted_char(a[0]) + (quoted_chars(a.skip(1)) + quoted_chars(b)) == quoted_char(a[0])
            + quoted_chars(a.skip(1)) + quoted_chars(b));
    }
}

/// A text without a single quote is quoted by one before and one behind it. At
/// a single quote the text is quoted in two, with an escaped quote between.
pub proof fn quoting_parts_at_single_quotes(a: Seq<char>, b: Seq<char>)
    ensures
        !a.contains('\'') ==> shell_quoted(a) == seq!['\''] + a + seq!['\''],
        shell_quoted(a + seq!['\''] + b) == shell_quoted(a) + seq!['\\', '\''] + shell_quoted(b),
    decreases a.len(),
{
    let quote = seq!['\''];
    quoted_chars_in_parts(a + quote, b);
    quoted_chars_in_parts(a, quote);
    reveal_with_fuel(quoted_chars, 2);
    assert(quote.skip(1) == Seq::<char>::empty());
    assert(quoted_chars(quote) =~= seq!['\'', '\\', '\'', '\'']);
    assert(shell_quoted(a + quote + b) =~= shell_quoted(a) + seq!['\\', '\''] + shell_quoted(b));
    if !a.contains('\'') {
        unquoted_stays(a);
    }
}

proof fn unquoted_stays(a: Seq<char>)
    requires
        !a.contains('\''),
    ensures
        quoted_chars(a) == a,
    decreases a.len(),
{
    if a.len() > 0 {
        assert(a.contains(a[0]));
        assert(!a.skip(1).contains('\'')) by {
            if a.skip(1).contains('\'') {
                let k = choose|k: int| 0 <= k < a.skip(1).len() && a.skip(1)[k] == '\'';
                assert(a[k + 1] == '\'');
            }
        }
        unquoted_stays(a.skip(1));
        assert(seq![a[0]] + a.skip(1) == a);
    }
}

/// A shell is given the commands as one argument, behind `-c`.
pub proof fn shell_takes_one_argument(sh: Seq<char>, cmds: Seq<char>)
    ensures
        ({
            let line = shell_command_spec(sh, cmds);
            &&& line.program == sh
            &&& line.args.len() == 2
            &&& line.args[0] == "-c"@
            &&& line.args[1] == cmds
        }),
{
}

/// A command is looked for in `/bin`, then in `/usr/bin`, and then by `which`;
/// the first place where it is gives its path. What `which` prints counts only
/// where it succeeds, without white space around it; failing all, the path is
/// the bare command.
pub proof fn first_place_gives_the_path(
    world: World,
    cmd: Seq<char>,
    in_bin: bool,
    in_usr_bin: bool,
    printed: Option<OutputView>,
)
    requires
        world(Query::PathExists("/bin/"@ + cmd)) == ReplyView::Exists(in_bin),
        world(Query::PathExists("/usr/bin/"@ + cmd)) == ReplyView::Exists(in_usr_bin),
        world(Query::Which(cmd)) == ReplyView::Output(printed),
    ensures
        ({
            let path = path_run(world, path_start(cmd));
            &&& in_bin ==> path == "/bin/"@ + cmd
            &&& !in_bin && in_usr_bin ==> path == "/usr/bin/"@ + cmd
            &&& !in_bin && !in_usr_bin ==> match printed {
                Some(o) => path == if o.success {
                    text::trim_spec(text::decoded(o.stdout))
                } else {
                    cmd
                },
                None => path == cmd,
            }
        }),
{
    path_probe_finds_path(world, cmd);
}

/// A command line is run as it is: its program, with each of its arguments.
pub proof fn command_line_is_taken_as_it_is(line: CommandLine)
    ensures
        line@.program == line.program@,
        line@.args.len() == line.args@.len(),
        forall|i: int| 0 <= i < line.args@.len() ==> #[trigger] line@.args[i] == line.args@[i]@,
{
}

} // verus!
