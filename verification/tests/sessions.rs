use linux_platform::desktop::{
    is_desktop_wayland, is_gdm_user, is_kde, is_kde_session, is_x11_or_headless, Distro,
};
use linux_platform::detect::{get_display_server, seat0_session_id, valid_session_id};
use linux_platform::display_server::{get_display_server_of_session, session_type_in};
use linux_platform::fields::{parse_fields, parse_key_value_file};
use linux_platform::query::{
    session_file_path, EnvVar, LoginctlCall, Output, Progress, Query, Reply,
};
use linux_platform::seat::{get_values_of_seat0, get_values_of_seat0_with_gdm_wayland};
use linux_platform::session::{
    is_active_fields, is_seat0_fields, line_values, list_sessions, map_session_values, session_id,
    sort_sessions, SessionFile,
};
use linux_platform::status::{is_active, is_active_and_seat0, is_session_locked};

/// A system that does not change.
struct System {
    env: Vec<(EnvVar, &'static str)>,
    seat: Option<&'static str>,
    files: Vec<(&'static str, &'static str)>,
    /// What `loginctl` prints, by its arguments; nothing where it is missing.
    loginctl: Option<Vec<(&'static str, &'static str)>>,
    kernel_id: Option<&'static str>,
    asked: Vec<String>,
}

fn system() -> System {
    System {
        env: Vec::new(),
        seat: None,
        files: Vec::new(),
        loginctl: None,
        kernel_id: None,
        asked: Vec::new(),
    }
}

fn printed(text: &str) -> Option<Output> {
    Some(Output {
        success: true,
        stdout: text.as_bytes().to_vec(),
    })
}

impl System {
    fn file(&self, sid: &str) -> Option<String> {
        self.files
            .iter()
            .find(|(name, _)| *name == sid)
            .map(|(_, content)| content.to_string())
    }

    fn answer(&mut self, query: Query<String>) -> Reply {
        self.asked.push(format!("{:?}", query));
        match query {
            Query::Env(var) => Reply::Text(
                self.env
                    .iter()
                    .find(|(v, _)| *v == var)
                    .map(|(_, value)| value.to_string()),
            ),
            Query::SeatFile => Reply::Text(self.seat.map(|s| s.to_string())),
            Query::SessionFile(sid) => Reply::Text(self.file(&sid)),
            Query::SessionDir => {
                if self.files.is_empty() {
                    return Reply::Listing(None);
                }
                let mut list = Vec::new();
                for (name, content) in &self.files {
                    list.push(SessionFile {
                        name: name.as_bytes().to_vec(),
                        content: Some(content.to_string()),
                    });
                }
                Reply::Listing(Some(list))
            }
            Query::Loginctl(call) => {
                let args = call.args().unwrap_or_default().join(" ");
                match &self.loginctl {
                    Some(known) => Reply::Output(printed(
                        known
                            .iter()
                            .find(|(a, _)| *a == args)
                            .map(|(_, out)| *out)
                            .unwrap_or(""),
                    )),
                    None => Reply::Output(None),
                }
            }
            Query::SessionIdCommand => match self.kernel_id {
                Some(id) => Reply::Output(printed(id)),
                None => Reply::Output(None),
            },
            other => panic!("unexpected query {:?}", other),
        }
    }

    fn display_server(&mut self) -> String {
        let mut progress = get_display_server();
        loop {
            match progress {
                Progress::Done(d) => return d,
                Progress::Ask(probe, query) => progress = probe.resume(self.answer(query)),
            }
        }
    }

    fn display_server_of(&mut self, sid: &str) -> String {
        let mut progress = get_display_server_of_session(sid);
        loop {
            match progress {
                Progress::Done(d) => return d,
                Progress::Ask(probe, query) => progress = probe.resume(self.answer(query)),
            }
        }
    }

    fn seated(&mut self, indices: &[usize], ignore_gdm_wayland: bool) -> Vec<String> {
        let mut progress = if ignore_gdm_wayland {
            get_values_of_seat0(indices)
        } else {
            get_values_of_seat0_with_gdm_wayland(indices)
        };
        loop {
            match progress {
                Progress::Done(v) => return v,
                Progress::Ask(probe, query) => progress = probe.resume(self.answer(query)),
            }
        }
    }

    fn status(&mut self, which: &str, sid: &str) -> bool {
        let mut progress = match which {
            "active" => is_active(sid),
            "seat0" => is_active_and_seat0(sid),
            _ => is_session_locked(sid),
        };
        loop {
            match progress {
                Progress::Done(a) => return a,
                Progress::Ask(probe, query) => progress = probe.resume(self.answer(query)),
            }
        }
    }

    fn ran_loginctl(&self) -> bool {
        self.asked.iter().any(|q| q.starts_with("Loginctl"))
    }
}

/// A sample logind session file (KEY=VALUE) as found under
/// /run/systemd/sessions/<sid>.
const SAMPLE_SESSION: &str = "# This is private data. Do not parse.\n\
UID=1000\n\
USER=zyq\n\
ACTIVE=1\n\
IS_DISPLAY=1\n\
STATE=active\n\
TYPE=wayland\n\
CLASS=user\n\
SCOPE=session-33.scope\n\
SEAT=seat0\n\
DISPLAY=:2\n\
SERVICE=lightdm\n\
DESKTOP=Wayland\n\
VTNR=1\n\
LEADER=262664\n\
";

#[test]
fn test_parse_key_value_file_inline() {
    let fields = parse_key_value_file(Some(SAMPLE_SESSION)).expect("parse");
    assert_eq!(fields.get("UID").map(|s| s.as_str()), Some("1000"));
    assert_eq!(fields.get("USER").map(|s| s.as_str()), Some("zyq"));
    assert_eq!(fields.get("TYPE").map(|s| s.as_str()), Some("wayland"));
    assert_eq!(fields.get("SEAT").map(|s| s.as_str()), Some("seat0"));
    assert!(is_active_fields(&fields));
    let mapped = map_session_values("33", &fields, &[0, 1, 2]);
    assert_eq!(mapped, vec!["33", "1000", "zyq"]);
}

#[test]
fn test_display_server_of_session_from_fields() {
    // A wayland TYPE maps to "wayland" and an empty/tty TYPE falls back to
    // XDG_SESSION_TYPE then x11.
    let mut s = system();
    s.env.push((EnvVar::SessionType, "wayland"));
    let r = s.display_server_of("no-such-session-xyz");
    assert!(matches!(r.as_str(), "wayland" | "x11"));
    assert_eq!(r, "wayland");
    assert!(s.ran_loginctl());
}

#[test]
fn unreadable_file_has_no_fields() {
    assert!(parse_key_value_file(None).is_none());
    let fields = parse_key_value_file(Some("")).expect("parse");
    assert!(fields.get("UID").is_none());
}

#[test]
fn parsing_edges() {
    let f = parse_fields(" A = b = c \r\n#X=1\n  # Y=2\n\nno equals\n=empty key\nB=\nA2=\u{a0}v\u{3000}\nA=last");
    assert_eq!(f.get("A").map(|s| s.as_str()), Some("last"));
    assert_eq!(f.get("").map(|s| s.as_str()), Some("empty key"));
    assert_eq!(f.get("B").map(|s| s.as_str()), Some(""));
    assert_eq!(f.get("A2").map(|s| s.as_str()), Some("v"));
    assert!(f.get("#X").is_none());
    assert!(f.get("# Y").is_none());
    assert!(f.get("no equals").is_none());
    let f = parse_fields("A = b = c \r\n");
    assert_eq!(f.get("A").map(|s| s.as_str()), Some("b = c"));
}

#[test]
fn lines_without_an_entry() {
    let plain = parse_fields("A=1\nB=2\nA=3");
    let spread = parse_fields("# head\n\nA=1\n  \n#A=9\nB=2\nno equals\n\t# B=8\nA=3\n\n#");
    for key in ["A", "B", "#A", "# B", "no equals", ""] {
        assert_eq!(plain.get(key), spread.get(key));
    }
    assert_eq!(spread.get("A").map(|s| s.as_str()), Some("3"));
    assert_eq!(spread.get("B").map(|s| s.as_str()), Some("2"));
}

#[test]
fn active_by_state_or_by_flag() {
    assert!(is_active_fields(&parse_fields("STATE=active")));
    assert!(is_active_fields(&parse_fields("STATE=online\nACTIVE=1")));
    assert!(!is_active_fields(&parse_fields("STATE=online\nACTIVE=0")));
    assert!(!is_active_fields(&parse_fields("STATE=inactive")));
    assert!(!is_active_fields(&parse_fields("")));
    assert!(is_seat0_fields(&parse_fields("SEAT= seat0 ")));
    assert!(!is_seat0_fields(&parse_fields("SEAT=seat1")));
    assert!(!is_seat0_fields(&parse_fields("")));
}

#[test]
fn session_values_at_other_indices_are_empty() {
    let f = parse_fields("UID=7");
    assert_eq!(
        map_session_values("s", &f, &[2, 1, 0, 3, 0]),
        vec!["", "7", "s", "", "s"]
    );
    assert!(map_session_values("s", &f, &[]).is_empty());
}

#[test]
fn words_of_a_line() {
    assert_eq!(
        line_values(&[1, 0, 5], "  one\ttwo \u{2003}three"),
        vec!["two", "one", ""]
    );
    assert_eq!(line_values(&[0, 1], ""), vec!["", ""]);
}

#[test]
fn session_ids_of_file_names() {
    assert_eq!(session_id(b"33").as_deref(), Some("33"));
    assert_eq!(session_id(b"c2.tmp").as_deref(), Some("c2"));
    assert_eq!(session_id(b"a.b.c").as_deref(), Some("a.b"));
    assert_eq!(session_id(b".hidden").as_deref(), Some(".hidden"));
    assert_eq!(session_id(b".ref").as_deref(), Some(".ref"));
    assert_eq!(session_id(b"x.").as_deref(), Some("x"));
    assert_eq!(session_id(b"33.ref"), None);
    assert_eq!(session_id(b"33.ref.ref"), None);
    assert_eq!(session_id(b".."), None);
    assert_eq!(session_id(b"\xffz").as_deref(), Some("\u{fffd}z"));
    assert_eq!(session_id("\u{e4}1".as_bytes()).as_deref(), Some("\u{e4}1"));
}

fn entry(name: &str, content: Option<&str>) -> SessionFile {
    SessionFile {
        name: name.as_bytes().to_vec(),
        content: content.map(|c| c.to_string()),
    }
}

#[test]
fn listing_skips_fifos_and_unreadable_entries() {
    let files = vec![
        entry("2", Some("UID=2")),
        entry("2.ref", Some("UID=9")),
        entry("3", None),
        entry("1", Some("UID=1")),
    ];
    let sessions = list_sessions(Some(files)).unwrap();
    assert_eq!(sessions.len(), 2);
    assert_eq!(sessions[0].sid, "2");
    assert_eq!(sessions[1].sid, "1");
    assert_eq!(
        sessions[1].fields.get("UID").map(|s| s.as_str()),
        Some("1")
    );
    assert!(list_sessions(None).is_none());
    assert!(list_sessions(Some(vec![entry("3", None)])).is_none());
    assert!(list_sessions(Some(Vec::new())).is_none());
}

#[test]
fn sessions_are_sorted_by_id_and_stay_in_order_otherwise() {
    let files = vec![
        entry("c1", Some("UID=1")),
        entry("2", Some("UID=2")),
        entry("10", Some("UID=3")),
        entry("2.x", Some("UID=4")),
        entry("\u{e4}", Some("UID=5")),
        entry("1", Some("UID=6")),
    ];
    let sorted = sort_sessions(list_sessions(Some(files)).unwrap());
    let order: Vec<(&str, &str)> = sorted
        .iter()
        .map(|s| (s.sid.as_str(), s.fields.get("UID").unwrap().as_str()))
        .collect();
    assert_eq!(
        order,
        vec![
            ("1", "6"),
            ("10", "3"),
            ("2", "2"),
            ("2", "4"),
            ("c1", "1"),
            ("\u{e4}", "5")
        ]
    );
}

#[test]
fn paths_of_session_files() {
    assert_eq!(session_file_path("33"), "/run/systemd/sessions/33");
    assert_eq!(session_file_path("/etc/passwd"), "/etc/passwd");
    assert_eq!(session_file_path(""), "/run/systemd/sessions/");
}

#[test]
fn display_server_of_session_from_its_file() {
    let mut s = system();
    s.files.push(("1", "TYPE= Wayland \n"));
    s.files.push(("2", "TYPE=tty\n"));
    s.files.push(("3", "TYPE=\n"));
    s.files.push(("4", "TYPE=Unspecified\n"));
    assert_eq!(s.display_server_of("1"), "wayland");
    assert_eq!(s.display_server_of("2"), "x11");
    assert_eq!(s.display_server_of("3"), "x11");
    s.env.push((EnvVar::SessionType, "X11"));
    assert_eq!(s.display_server_of("4"), "x11");
    s.env = vec![(EnvVar::SessionType, "MIR")];
    assert_eq!(s.display_server_of("4"), "mir");
    s.env = vec![(EnvVar::SessionType, "\u{c4}B")];
    assert_eq!(s.display_server_of("4"), "\u{e4}b");
    s.env = vec![(EnvVar::SessionType, "")];
    assert_eq!(s.display_server_of("4"), "x11");
    assert!(!s.ran_loginctl());
}

#[test]
fn display_server_of_session_from_loginctl() {
    let mut s = system();
    s.files.push(("1", "UID=1\n"));
    s.loginctl = Some(vec![
        ("show-session -p Type 1", "Type=Wayland\n"),
        ("show-session -p Type 2", "Type=tty\n"),
    ]);
    assert_eq!(s.display_server_of("1"), "wayland");
    assert_eq!(s.display_server_of("2"), "x11");
    assert_eq!(s.display_server_of("3"), "x11");
    assert_eq!(session_type_in("Type=x11 \n\n"), "x11");
    assert_eq!(session_type_in(" Type=Type=a"), " a");
}

#[test]
fn forced_display_server() {
    let mut s = system();
    s.env.push((EnvVar::ForcedDisplayServer, "WayLand"));
    s.seat = Some("ACTIVE=1");
    assert_eq!(s.display_server(), "WayLand");
    assert_eq!(s.asked.len(), 1);
    assert_eq!(
        EnvVar::ForcedDisplayServer.name(),
        "RUSTDESK_FORCED_DISPLAY_SERVER"
    );
}

#[test]
fn display_server_from_seat_file() {
    let mut s = system();
    s.seat = Some("# seat\nACTIVE= 33 \n");
    s.files.push(("33", SAMPLE_SESSION));
    s.loginctl = Some(Vec::new());
    assert_eq!(s.display_server(), "wayland");
    assert!(!s.ran_loginctl());
    assert_eq!(
        seat0_session_id(Some("ACTIVE= 33 ")).as_deref(),
        Some("33")
    );
    assert_eq!(seat0_session_id(Some("IS_SEAT0=1")), None);
    assert_eq!(seat0_session_id(None), None);
}

#[test]
fn seat_file_with_a_blank_session() {
    assert_eq!(seat0_session_id(Some("IS_SEAT0=1\nACTIVE=\n")), None);
    assert_eq!(seat0_session_id(Some("ACTIVE= \t\n")), None);
    let mut s = system();
    s.seat = Some("IS_SEAT0=1\nACTIVE=\n");
    assert_eq!(s.display_server(), "x11");
    assert!(s.ran_loginctl());
    s.loginctl = Some(Vec::new());
    s.files.push(("33", SAMPLE_SESSION));
    assert_eq!(s.display_server(), "wayland");
}

#[test]
fn display_server_is_lower_case_and_not_empty() {
    let mut s = system();
    s.files.push(("1", "TYPE=\u{212a}WAYLAND\n"));
    s.loginctl = Some(vec![("show-session -p Type 2", "Type=\u{130}MIR\n")]);
    assert_eq!(s.display_server_of("1"), "kwayland");
    assert_eq!(s.display_server_of("2"), "i\u{307}mir");
    s.env.push((EnvVar::SessionType, "\u{212a}"));
    assert_eq!(s.display_server_of("3"), "k");
    s.env = vec![(EnvVar::SessionType, "")];
    assert_eq!(s.display_server_of("3"), "x11");
}

#[test]
fn display_server_without_loginctl() {
    let mut s = system();
    s.env.push((EnvVar::SessionType, "wayland"));
    assert_eq!(s.display_server(), "x11");
}

#[test]
fn display_server_of_seated_session() {
    let mut s = system();
    s.loginctl = Some(Vec::new());
    s.files.push(("33", SAMPLE_SESSION));
    assert_eq!(s.display_server(), "wayland");
}

#[test]
fn display_server_of_own_session() {
    let mut s = system();
    s.loginctl = Some(vec![
        ("show-session -p Type 7", "Type=wayland\n"),
        ("show-session -p Type 8", "Type=mir\n"),
    ]);
    s.env.push((EnvVar::SessionId, "7"));
    s.kernel_id = Some("8");
    assert_eq!(s.display_server(), "wayland");
    s.env = vec![(EnvVar::SessionId, "")];
    assert_eq!(s.display_server(), "mir");
    s.env.clear();
    assert_eq!(s.display_server(), "mir");
    s.kernel_id = Some("4294967295");
    assert_eq!(s.display_server(), "x11");
    s.env.push((EnvVar::SessionType, "Tty"));
    assert_eq!(s.display_server(), "Tty");
    s.kernel_id = None;
    assert_eq!(s.display_server(), "Tty");
    assert_eq!(valid_session_id("4294967295".to_string()), "");
    assert_eq!(valid_session_id("42".to_string()), "42");
}

#[test]
fn seat0_session_is_preferred() {
    let mut s = system();
    s.files.push(("1", "STATE=active\nTYPE=x11\nUSER=a\nUID=1"));
    s.files
        .push(("2", "STATE=active\nTYPE=tty\nSEAT=seat0\nUSER=b\nUID=2"));
    assert_eq!(s.seated(&[0, 1, 2, 3], true), vec!["2", "2", "b", ""]);
    assert!(s.asked.iter().all(|q| q == "SessionDir"));
}

#[test]
fn any_active_session_without_a_seat0() {
    let mut s = system();
    s.files.push(("3", "STATE=active\nTYPE=x11\nUSER=c"));
    s.files.push(("1", "STATE=closing\nTYPE=x11\nUSER=a"));
    s.files.push(("2", "STATE=active\nTYPE=tty\nUSER=b"));
    s.env.push((EnvVar::SessionType, "tty"));
    assert_eq!(s.seated(&[0, 2], true), vec!["3", "c"]);
}

#[test]
fn smallest_id_without_a_seat0() {
    let mut s = system();
    s.files.push(("5", "STATE=active\nTYPE=x11\nUSER=e"));
    s.files.push(("3", "STATE=active\nTYPE=mir\nUSER=c"));
    s.files.push(("4", "STATE=active\nTYPE=wayland\nUSER=d"));
    s.files
        .push(("2", "STATE=active\nTYPE=wayland\nSEAT=seat0\nUSER=gdm"));
    assert_eq!(s.seated(&[0, 2], true), vec!["3", "c"]);
    assert_eq!(s.seated(&[0, 2], false), vec!["2", "gdm"]);
}

#[test]
fn listing_order_does_not_change_the_seated_session() {
    let files = [
        ("10", "STATE=active\nTYPE=x11\nUSER=a"),
        ("2", "STATE=active\nTYPE=wayland\nUSER=b"),
        ("2.ref", "STATE=active\nTYPE=x11\nUSER=c"),
        ("1", "STATE=closing\nTYPE=x11\nUSER=d"),
    ];
    let orders = [
        [0, 1, 2, 3],
        [3, 2, 1, 0],
        [1, 0, 3, 2],
        [2, 3, 0, 1],
        [1, 3, 0, 2],
    ];
    for order in orders {
        let mut s = system();
        for i in order {
            s.files.push(files[i]);
        }
        assert_eq!(s.seated(&[0, 2], true), vec!["10", "a"]);
    }
}

#[test]
fn login_screen_on_wayland_is_passed_over() {
    let mut s = system();
    s.files
        .push(("c1", "STATE=active\nTYPE=wayland\nSEAT=seat0\nUSER=gdm"));
    assert_eq!(s.seated(&[0], true), vec![""]);
    assert_eq!(s.seated(&[0], false), vec!["c1"]);
    s.files.push(("d", "STATE=active\nTYPE=x11\nUSER=a"));
    assert_eq!(s.seated(&[0], true), vec!["d"]);
    s.files.clear();
    s.files
        .push(("c1", "STATE=active\nTYPE=x11\nSEAT=seat0\nUSER=sddm"));
    assert_eq!(s.seated(&[0], true), vec!["c1"]);
}

#[test]
fn no_session_at_all() {
    let mut s = system();
    assert_eq!(s.seated(&[0, 1, 2], true), vec!["", "", ""]);
    s.files.push(("1.ref", "STATE=active"));
    assert_eq!(s.seated(&[0, 1, 2], false), vec!["", "", ""]);
}

#[test]
fn status_from_the_session_file() {
    let mut s = system();
    s.files.push(("33", SAMPLE_SESSION));
    s.files.push(("4", "STATE=active"));
    s.files.push(("5", "STATE=online\nSEAT=seat0"));
    assert!(s.status("active", "33"));
    assert!(s.status("seat0", "33"));
    assert!(s.status("active", "4"));
    assert!(!s.status("seat0", "4"));
    assert!(!s.status("active", "5"));
    assert!(!s.status("seat0", "5"));
    assert!(!s.ran_loginctl());
}

#[test]
fn status_from_loginctl() {
    let mut s = system();
    assert!(!s.status("active", "1"));
    assert!(!s.status("seat0", "1"));
    assert!(!s.status("locked", "1"));
    s.loginctl = Some(vec![
        ("show-session -p State 1", "State=active\n"),
        ("show-session 1", "Id=1\nState=active\nSeat=seat0\n"),
        ("show-session 2", "Id=2\nState=active\nSeat=seat1\n"),
        (
            "show-session 1 --property=LockedHint",
            "LockedHint=yes\n",
        ),
        ("show-session 2 --property=LockedHint", "LockedHint=no\n"),
    ]);
    assert!(s.status("active", "1"));
    assert!(s.status("seat0", "1"));
    assert!(s.status("locked", "1"));
    assert!(!s.status("active", "2"));
    assert!(!s.status("seat0", "2"));
    assert!(!s.status("locked", "2"));
}

#[test]
fn loginctl_arguments() {
    assert!(LoginctlCall::<String>::List.args().is_none());
    assert_eq!(
        LoginctlCall::ShowLocked("9".to_string()).args().unwrap(),
        vec!["show-session", "9", "--property=LockedHint"]
    );
}

#[test]
fn desktops() {
    assert!(is_kde(Some("KDE")));
    assert!(!is_kde(Some("kde")));
    assert!(!is_kde(None));
    assert!(is_kde_session(Some(b"12\n")));
    assert!(!is_kde_session(Some(b"")));
    assert!(!is_kde_session(None));
    assert!(is_gdm_user("gdm"));
    assert!(is_gdm_user("sddm"));
    assert!(!is_gdm_user("lightgdm"));
    assert!(is_desktop_wayland("wayland"));
    assert!(!is_x11_or_headless("wayland"));
    assert!(!is_desktop_wayland("Wayland"));
    assert!(is_x11_or_headless(""));
}

#[test]
fn distribution() {
    let d = Distro::new(Some("\"Ubuntu\"\n"), Some("\"22.04\"\n"));
    assert_eq!(d.name, "Ubuntu");
    assert_eq!(d.version_id, "22.04");
    let d = Distro::new(Some(" \"\"Arch \" \n"), None);
    assert_eq!(d.name, "Arch ");
    assert_eq!(d.version_id, "");
}
