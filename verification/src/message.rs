//! Messages on the user's screen.

use crate::command::{CommandLine, CommandLineView};
use crate::query::Progress;
use crate::text;
use vstd::prelude::*;
use vstd::string::*;

verus! {

/// What is said where no program could show a message.
pub const POSTING_FAILED: &'static str = "failed to post system message";

/// A probe for a program that shows a message: the command lines that are
/// still to be tried.
pub struct MessageProbe {
    pending: Vec<CommandLine>,
}

impl View for MessageProbe {
    type V = Seq<CommandLineView>;

    closed spec fn view(&self) -> Seq<CommandLineView> {
        command_lines(self.pending@)
    }
}

/// The command lines that `v` holds.
pub open spec fn command_lines(v: Seq<CommandLine>) -> Seq<CommandLineView> {
    v.map_values(|c: CommandLine| c@)
}

/// How far a message probe has come; in the end it tells whether a program
/// showed the message.
pub type MessageProgress = Progress<Seq<CommandLineView>, CommandLineView, bool>;

/// How long the programs that close by themselves show a message, in seconds;
/// with 0 they do not close.
pub open spec fn timeout_spec(forever: bool) -> Seq<char> {
    if forever {
        "0"@
    } else {
        "3"@
    }
}

/// The command lines that show a message, each by another program.
pub open spec fn message_commands_spec(
    title: Seq<char>,
    msg: Seq<char>,
    forever: bool,
) -> Seq<CommandLineView> {
    seq![
        CommandLineView { program: "notify-send"@, args: seq![title, msg] },
        CommandLineView {
            program: "zenity"@,
            args: seq![
                "--info"@,
                "--timeout"@,
                timeout_spec(forever),
                "--title"@,
                title,
                "--text"@,
                msg,
            ],
        },
        CommandLineView {
            program: "kdialog"@,
            args: seq!["--title"@, title, "--msgbox"@, msg],
        },
        CommandLineView {
            program: "xmessage"@,
            args: seq!["-center"@, "-timeout"@, timeout_spec(forever), title, msg],
        },
    ]
}

/// A message probe that tries the first of `pending`, or gives up.
pub open spec fn try_next(pending: Seq<CommandLineView>) -> MessageProgress {
    if pending.len() > 0 {
        Progress::Ask(pending.skip(1), pending[0])
    } else {
        Progress::Done(false)
    }
}

/// Where it takes a message probe whether the program it tried has started.
pub open spec fn message_next(pending: Seq<CommandLineView>, started: bool) -> MessageProgress {
    if started {
        Progress::Done(true)
    } else {
        try_next(pending)
    }
}

fn timeout(forever: bool) -> (r: String)
    ensures
        r@ == timeout_spec(forever),
{
    if forever {
        "0".to_owned()
    } else {
        "3".to_owned()
    }
}

/// The command lines that show a message, each by another program. With
/// `forever` the message stays until the user closes it, as far as the program
/// can do that.
pub fn message_commands(title: &str, msg: &str, forever: bool) -> (r: Vec<CommandLine>)
    ensures
        command_lines(r@) == message_commands_spec(title@, msg@, forever),
{
    let ghost spec = message_commands_spec(title@, msg@, forever);
    let notify_send = CommandLine {
        program: "notify-send".to_owned(),
        args: vec![title.to_owned(), msg.to_owned()],
    };
    assert(notify_send@ =~= spec[0]);
    let zenity = CommandLine {
        program: "zenity".to_owned(),
        args: vec![
            "--info".to_owned(),
            "--timeout".to_owned(),
            timeout(forever),
            "--title".to_owned(),
            title.to_owned(),
            "--text".to_owned(),
            msg.to_owned(),
        ],
    };
    assert(zenity@ =~= spec[1]);
    let kdialog = CommandLine {
        program: "kdialog".to_owned(),
        args: vec![
            "--title".to_owned(),
            title.to_owned(),
            "--msgbox".to_owned(),
            msg.to_owned(),
        ],
    };
    assert(kdialog@ =~= spec[2]);
    let xmessage = CommandLine {
        program: "xmessage".to_owned(),
        args: vec![
            "-center".to_owned(),
            "-timeout".to_owned(),
            timeout(forever),
            title.to_owned(),
            msg.to_owned(),
        ],
    };
    assert(xmessage@ =~= spec[3]);
    let r = vec![notify_send, zenity, kdialog, xmessage];
    assert(command_lines(r@) =~= spec);
    r
}

/// Starts a probe that tries the given command lines in turn until one starts.
pub fn post_by(commands: Vec<CommandLine>) -> (r: Progress<MessageProbe, CommandLine, bool>)
    ensures
        r@ == try_next(command_lines(commands@)),
{
    let mut pending = commands;
    if pending.len() == 0 {
        return Progress::Done(false);
    }
    let ghost before = pending@;
    assert(command_lines(before)[0] == before[0]@);
    let first = pending.remove(0);
    assert(command_lines(pending@) =~= command_lines(before).skip(1));
    Progress::Ask(MessageProbe { pending }, first)
}

/// Starts a probe that shows a message by the first program that can be
/// started.
pub fn system_message(title: &str, msg: &str, forever: bool) -> (r: Progress<
    MessageProbe,
    CommandLine,
    bool,
>)
    ensures
        r@ == try_next(message_commands_spec(title@, msg@, forever)),
{
    post_by(message_commands(title, msg, forever))
}

impl MessageProbe {
    /// Takes whether the program that the probe asked for has started.
    pub fn resume(self, started: bool) -> (r: Progress<MessageProbe, CommandLine, bool>)
        ensures
            r@ == message_next(self@, started),
    {
        if started {
            Progress::Done(true)
        } else {
            post_by(self.pending)
        }
    }
}

/// How many command lines a message probe can still try.
pub open spec fn tries_left(p: MessageProgress) -> nat {
    match p {
        Progress::Done(_) => 0,
        Progress::Ask(pending, _) => pending.len() + 1,
    }
}

/// Which command lines a message probe tries from `p` on, where `starts` tells
/// which of them start, and whether one did.
pub open spec fn message_run(starts: spec_fn(CommandLineView) -> bool, p: MessageProgress) -> (
    Seq<CommandLineView>,
    bool,
)
    decreases tries_left(p),
{
    match p {
        Progress::Done(posted) => (Seq::empty(), posted),
        Progress::Ask(pending, command) => {
            let (tried, posted) = message_run(starts, message_next(pending, starts(command)));
            (seq![command] + tried, posted)
        },
    }
}

/// A message is posted if and only if one of the command lines starts, in
/// whatever order they are tried. They are tried from the first on, and none
/// is tried after one that starts.
pub proof fn posted_if_one_starts(
    starts: spec_fn(CommandLineView) -> bool,
    commands: Seq<CommandLineView>,
)
    ensures
        ({
            let (tried, posted) = message_run(starts, try_next(commands));
            &&& posted == exists|i: int|
                0 <= i < commands.len() && starts(#[trigger] commands[i])
            &&& tried.len() <= commands.len()
            &&& tried == commands.take(tried.len() as int)
            &&& posted ==> tried.len() > 0 && starts(tried.last())
            &&& !posted ==> tried == commands
            &&& forall|i: int| 0 <= i < tried.len() - 1 ==> !starts(#[trigger] tried[i])
        }),
    decreases commands.len(),
{
    let (tried, posted) = message_run(starts, try_next(commands));
    if commands.len() > 0 {
        let rest = commands.skip(1);
        if starts(commands[0]) {
            reveal_with_fuel(message_run, 2);
            assert(tried =~= seq![commands[0]]);
            assert(commands.take(1) =~= seq![commands[0]]);
        } else {
            posted_if_one_starts(starts, rest);
            let (tried_rest, posted_rest) = message_run(starts, try_next(rest));
            assert(tried =~= seq![commands[0]] + tried_rest);
            assert(posted == posted_rest);
            assert(commands.take(tried.len() as int) =~= seq![commands[0]] + rest.take(
                tried_rest.len() as int,
            ));
            assert(commands =~= seq![commands[0]] + rest);
            assert forall|i: int| 0 <= i < tried.len() - 1 implies !starts(#[trigger] tried[i]) by {
                if i > 0 {
                    assert(tried[i] == tried_rest[i - 1]);
                }
            }
            if posted {
                let k = choose|k: int| 0 <= k < rest.len() && starts(#[trigger] rest[k]);
                assert(commands[k + 1] == rest[k]);
                assert(tried.last() == tried_rest.last());
            } else {
                assert forall|i: int| 0 <= i < commands.len() implies !starts(
                    #[trigger] commands[i],
                ) by {
                    if i > 0 {
                        assert(commands[i] == rest[i - 1]);
                    }
                }
            }
        }
    } else {
        assert(tried =~= commands);
    }
}

/// A message is posted if and only if one of four programs starts: each is
/// given the title and the message as they are, and those that close by
/// themselves close after three seconds, or never where the message is to
/// stay.
pub proof fn posted_by_one_of_four(
    starts: spec_fn(CommandLineView) -> bool,
    title: Seq<char>,
    msg: Seq<char>,
    forever: bool,
)
    ensures
        ({
            let (tried, posted) = message_run(
                starts,
                try_next(message_commands_spec(title, msg, forever)),
            );
            let seconds = if forever {
                "0"@
            } else {
                "3"@
            };
            let notify_send = CommandLineView { program: "notify-send"@, args: seq![title, msg] };
            let zenity = CommandLineView {
                program: "zenity"@,
                args: seq![
                    "--info"@,
                    "--timeout"@,
                    seconds,
                    "--title"@,
                    title,
                    "--text"@,
                    msg,
                ],
            };
            let kdialog = CommandLineView {
                program: "kdialog"@,
                args: seq!["--title"@, title, "--msgbox"@, msg],
            };
            let xmessage = CommandLineView {
                program: "xmessage"@,
                args: seq!["-center"@, "-timeout"@, seconds, title, msg],
            };
            &&& posted <==> starts(notify_send) || starts(zenity) || starts(kdialog) || starts(
                xmessage,
            )
            &&& forall|c: CommandLineView| #[trigger]
                tried.contains(c) ==> c == notify_send || c == zenity || c == kdialog || c
                    == xmessage
            &&& !posted ==> tried.len() == 4
            &&& posted ==> tried.len() > 0 && starts(tried.last())
            &&& forall|i: int| 0 <= i < tried.len() - 1 ==> !starts(#[trigger] tried[i])
        }),
{
    let commands = message_commands_spec(title, msg, forever);
    posted_if_one_starts(starts, commands);
    let (tried, posted) = message_run(starts, try_next(commands));
    assert(starts(commands[0]) || starts(commands[1]) || starts(commands[2]) || starts(commands[3])
        <==> posted);
    assert forall|c: CommandLineView| #[trigger] tried.contains(c) implies c == commands[0] || c
        == commands[1] || c == commands[2] || c == commands[3] by {
        let i = choose|i: int| 0 <= i < tried.len() && tried[i] == c;
        assert(tried[i] == commands[i]);
    }
}

/// Command lines are tried as they are, one by one.
pub proof fn command_lines_are_taken_as_they_are(v: Seq<CommandLine>)
    ensures
        command_lines(v).len() == v.len(),
        forall|i: int| 0 <= i < v.len() ==> #[trigger] command_lines(v)[i] == v[i]@,
{
}

} // verus!
