use linux_platform::command::{
    find_cmd_path, run_cmds, run_cmds_trim_newline, shell_command, shell_quote, trim_newline,
    which_command, CommandLine,
};
use linux_platform::message::{message_commands, post_by, system_message, POSTING_FAILED};
use linux_platform::query::{Output, Progress, Query, Reply};

fn output(success: bool, stdout: &str) -> Output {
    Output {
        success,
        stdout: stdout.as_bytes().to_vec(),
    }
}

/// What a shell prints for the commands of these tests.
fn shell(line: CommandLine) -> Result<Output, String> {
    assert_eq!(line.program, "/bin/sh");
    assert_eq!(line.args[0], "-c");
    match line.args[1].as_str() {
        "echo -n 123" => Ok(output(true, "123")),
        "echo 123" => Ok(output(true, "123\n")),
        "whoami" => Ok(output(true, "someone\n")),
        other => Err(format!("cannot run {}", other)),
    }
}

fn trimmed(cmds: &str) -> Result<String, String> {
    run_cmds_trim_newline(shell(shell_command("/bin/sh", cmds)))
}

#[test]
fn test_run_cmds_trim_newline() {
    assert_eq!(trimmed("echo -n 123").unwrap(), "123");
    assert_eq!(trimmed("echo 123").unwrap(), "123");
    assert_eq!(
        trimmed("whoami").unwrap() + "\n",
        run_cmds(shell(shell_command("/bin/sh", "whoami"))).unwrap()
    );
}

#[test]
fn failed_commands_keep_their_error() {
    assert_eq!(trimmed("nothing"), Err("cannot run nothing".to_string()));
    assert_eq!(
        run_cmds(shell(shell_command("/bin/sh", "nothing"))),
        Err("cannot run nothing".to_string())
    );
}

#[test]
fn only_one_newline_goes() {
    assert_eq!(trim_newline("a\n\n"), "a\n");
    assert_eq!(trim_newline("\n"), "");
    assert_eq!(trim_newline(""), "");
    assert_eq!(trim_newline("a\r\n"), "a\r");
    assert_eq!(trim_newline("\na"), "\na");
}

#[test]
fn output_that_is_not_utf8_is_replaced() {
    let o: Result<Output, String> = Ok(Output {
        success: true,
        stdout: vec![0x61, 0xff, 0x62, 0x0a],
    });
    assert_eq!(run_cmds(o).unwrap(), "a\u{fffd}b\n");
    let o: Result<Output, String> = Ok(Output {
        success: true,
        stdout: vec![0x61, 0xff, 0x62, 0x0a],
    });
    assert_eq!(run_cmds_trim_newline(o).unwrap(), "a\u{fffd}b");
    let o: Result<Output, String> = Ok(output(false, "gr\u{fc}n\n"));
    assert_eq!(run_cmds(o).unwrap(), "gr\u{fc}n\n");
}

/// Test shell_quote with normal strings
#[test]
fn test_shell_quote_normal() {
    assert_eq!(shell_quote("hello"), "'hello'");
    assert_eq!(shell_quote("/home/user"), "'/home/user'");
}

/// Test shell_quote with spaces
#[test]
fn test_shell_quote_spaces() {
    assert_eq!(shell_quote("/home/my user/file"), "'/home/my user/file'");
    assert_eq!(shell_quote("path with spaces"), "'path with spaces'");
}

/// Test shell_quote with single quotes (the tricky case)
#[test]
fn test_shell_quote_single_quotes() {
    assert_eq!(shell_quote("it's"), "'it'\\''s'");
    assert_eq!(shell_quote("don't stop"), "'don'\\''t stop'");
}

/// Test shell_quote with shell metacharacters
#[test]
fn test_shell_quote_metacharacters() {
    // These should all be safely quoted
    assert_eq!(shell_quote("test;rm -rf /"), "'test;rm -rf /'");
    assert_eq!(shell_quote("$(whoami)"), "'$(whoami)'");
    assert_eq!(shell_quote("`id`"), "'`id`'");
    assert_eq!(shell_quote("a && b"), "'a && b'");
    assert_eq!(shell_quote("a | b"), "'a | b'");
}

#[test]
fn shell_quote_edges() {
    assert_eq!(shell_quote(""), "''");
    assert_eq!(shell_quote("'"), "''\\'''");
    assert_eq!(shell_quote("''"), "''\\'''\\'''");
    assert_eq!(shell_quote("it's here"), "'it'\\''s here'");
    assert_eq!(shell_quote("a\\'b\nc"), "'a\\'\\''b\nc'");
}

/// The path that a system finds where `existing` are its paths and `which`
/// answers as given, with the queries it was asked.
fn path_of(cmd: &str, existing: &[&str], which: Option<(bool, &str)>) -> (String, usize) {
    let mut asked = 0;
    let mut progress = find_cmd_path(cmd);
    loop {
        match progress {
            Progress::Done(path) => return (path, asked),
            Progress::Ask(probe, query) => {
                asked += 1;
                let reply = match query {
                    Query::PathExists(p) => Reply::Exists(existing.contains(&p.as_str())),
                    Query::Which(c) => {
                        assert_eq!(c, cmd);
                        Reply::Output(which.map(|(success, text)| output(success, text)))
                    }
                    other => panic!("unexpected query {:?}", other),
                };
                progress = probe.resume(reply);
            }
        }
    }
}

#[test]
fn commands_are_found_in_turn() {
    assert_eq!(
        path_of("ps", &["/bin/ps", "/usr/bin/ps"], None),
        ("/bin/ps".to_string(), 1)
    );
    assert_eq!(
        path_of("ps", &["/usr/bin/ps"], None),
        ("/usr/bin/ps".to_string(), 2)
    );
    assert_eq!(
        path_of("ps", &[], Some((true, "/opt/bin/ps\n"))),
        ("/opt/bin/ps".to_string(), 3)
    );
    assert_eq!(
        path_of("ps", &[], Some((false, "/opt/bin/ps\n"))),
        ("ps".to_string(), 3)
    );
    assert_eq!(path_of("ps", &[], None), ("ps".to_string(), 3));
}

#[test]
fn which_command_line() {
    let line = which_command("ps");
    assert_eq!(line.program, "which");
    assert_eq!(line.args, vec!["ps"]);
}

#[test]
fn message_command_lines() {
    let lines = message_commands("T", "M", false);
    assert_eq!(lines.len(), 4);
    assert_eq!(lines[0].program, "notify-send");
    assert_eq!(lines[0].args, vec!["T", "M"]);
    assert_eq!(lines[1].program, "zenity");
    assert_eq!(
        lines[1].args,
        vec!["--info", "--timeout", "3", "--title", "T", "--text", "M"]
    );
    assert_eq!(lines[2].program, "kdialog");
    assert_eq!(lines[2].args, vec!["--title", "T", "--msgbox", "M"]);
    assert_eq!(lines[3].program, "xmessage");
    assert_eq!(lines[3].args, vec!["-center", "-timeout", "3", "T", "M"]);
    let lines = message_commands("T", "M", true);
    assert_eq!(lines[1].args[2], "0");
    assert_eq!(lines[3].args[2], "0");
}

/// Which programs are tried for a message where only `there` can be started,
/// and whether it is posted.
fn post(there: &[&str]) -> (Vec<String>, bool) {
    let mut tried = Vec::new();
    let mut progress = system_message("T", "M", false);
    loop {
        match progress {
            Progress::Done(posted) => return (tried, posted),
            Progress::Ask(probe, line) => {
                let started = there.contains(&line.program.as_str());
                tried.push(line.program);
                progress = probe.resume(started);
            }
        }
    }
}

#[test]
fn message_is_posted_by_the_first_program_that_starts() {
    let (tried, posted) = post(&["kdialog", "xmessage"]);
    assert!(posted);
    assert_eq!(tried, vec!["notify-send", "zenity", "kdialog"]);
}

#[test]
fn message_is_not_posted_without_programs() {
    let (tried, posted) = post(&[]);
    assert!(!posted);
    assert_eq!(tried.len(), 4);
    assert_eq!(POSTING_FAILED, "failed to post system message");
    assert!(matches!(post_by(Vec::new()), Progress::Done(false)));
}
