use linux_platform::home::{get_home_dir_trusted, Home, HomeQuery, HomeReply};
use linux_platform::loginctl::{
    loginctl_result, run_loginctl, run_loginctl_uncached, LoginctlCache, LoginctlError,
    LoginctlQuery, LoginctlReply, LoginctlStep, LOGINCTL_CACHE_TTL,
};
use linux_platform::query::{EnvVar, Output, Progress};
use linux_platform::text::{decode, lower, split_whitespace, trim};
use linux_platform::wayland::{get_wayland_displays, OutputMode, WaylandOutput};

fn home_of(
    uid: u32,
    home: Option<&str>,
    is_dir: bool,
) -> (Home<Vec<u8>>, Vec<String>) {
    let mut asked = Vec::new();
    let mut progress = get_home_dir_trusted();
    loop {
        match progress {
            Progress::Done(h) => return (h, asked),
            Progress::Ask(probe, query) => {
                let reply = match &query {
                    HomeQuery::CurrentUid => HomeReply::Uid(uid),
                    HomeQuery::HomeOf(u) => {
                        assert_eq!(*u, uid);
                        HomeReply::Home(home.map(|h| h.as_bytes().to_vec()))
                    }
                    HomeQuery::IsDir(p) => {
                        assert_eq!(Some(p.as_slice()), home.map(|h| h.as_bytes()));
                        HomeReply::IsDir(is_dir)
                    }
                };
                asked.push(format!("{:?}", query));
                progress = probe.resume(reply);
            }
        }
    }
}

/// The home directory is that of the password database, not that of `HOME`.
#[test]
fn test_get_home_dir_trusted() {
    let (home, asked) = home_of(1000, Some("/home/user"), true);
    match home {
        Home::Dir(path) => {
            assert!(path.starts_with(b"/"));
            assert_eq!(path, b"/home/user");
            assert_ne!(path, b"/tmp/fake_malicious_home");
        }
        other => panic!("no home: {:?}", other),
    }
    assert!(asked.iter().all(|q| !q.contains("HOME")));
    assert_eq!(asked.len(), 3);
}

#[test]
fn home_that_cannot_be_had() {
    assert!(matches!(
        home_of(7, None, true).0,
        Home::NoUser { uid: 7 }
    ));
    match home_of(7, Some("/nowhere"), false).0 {
        Home::NotADirectory { uid, home } => {
            assert_eq!(uid, 7);
            assert_eq!(home, b"/nowhere");
        }
        other => panic!("unexpected {:?}", other),
    }
    match get_home_dir_trusted() {
        Progress::Ask(probe, _) => assert!(matches!(
            probe.resume(HomeReply::IsDir(true)),
            Progress::Done(Home::NoAnswer)
        )),
        Progress::Done(h) => panic!("unexpected {:?}", h),
    }
}

fn args(list: &[&str]) -> Option<Vec<String>> {
    Some(list.iter().map(|s| s.to_string()).collect())
}

fn output(text: &str) -> Option<Output> {
    Some(Output {
        success: true,
        stdout: text.as_bytes().to_vec(),
    })
}

fn stdout(o: Option<Output>) -> Option<Vec<u8>> {
    o.map(|o| o.stdout)
}

#[test]
fn cache_keeps_an_answer_for_two_seconds() {
    assert_eq!(LOGINCTL_CACHE_TTL, 2_000_000_000);
    let mut cache = LoginctlCache::new();
    let a = args(&["show-session", "1"]);
    assert!(cache.lookup(&a, 0).is_none());
    cache.store(&a, &output("one"), 1000);
    assert_eq!(cache.lookup(&a, 1000).map(stdout), Some(Some(b"one".to_vec())));
    assert_eq!(cache.lookup(&a, 0).map(stdout), Some(Some(b"one".to_vec())));
    assert_eq!(
        cache.lookup(&a, 2_000_000_999).map(stdout),
        Some(Some(b"one".to_vec()))
    );
    assert!(cache.lookup(&a, 2_000_001_000).is_none());
    cache.store(&a, &None, 3_000_000_000);
    assert_eq!(cache.lookup(&a, 3_000_000_001).map(stdout), Some(None));
}

#[test]
fn cache_tells_calls_apart() {
    let mut cache = LoginctlCache::new();
    cache.store(&args(&["a", "b"]), &output("ab"), 0);
    cache.store(&None, &output("list"), 0);
    assert!(cache.lookup(&args(&["a b"]), 0).is_none());
    assert!(cache.lookup(&args(&["ab"]), 0).is_none());
    assert_eq!(
        cache.lookup(&args(&["a", "b"]), 0).map(stdout),
        Some(Some(b"ab".to_vec()))
    );
    assert_eq!(cache.lookup(&None, 0).map(stdout), Some(Some(b"list".to_vec())));
}

/// No two of these argument lists answer for each other, however they are
/// stored.
#[test]
fn cache_keeps_every_argument_list() {
    let lists = vec![
        None,
        args(&[]),
        args(&[""]),
        args(&["", ""]),
        args(&["x", "y"]),
        args(&["x\u{1}y"]),
        args(&["x y"]),
        args(&["xy"]),
        args(&["x", "", "y"]),
        args(&["x;", ".y"]),
        args(&["x;.y"]),
        args(&[":"]),
        args(&[".x;"]),
        args(&["show-session", "a\u{1}--property=LockedHint"]),
        args(&["show-session", "a", "--property=LockedHint"]),
        args(&["\u{20ac}"]),
    ];
    for (i, one) in lists.iter().enumerate() {
        let mut cache = LoginctlCache::new();
        cache.store(one, &output("one"), 0);
        for (j, other) in lists.iter().enumerate() {
            assert_eq!(cache.lookup(other, 0).is_some(), i == j);
        }
    }
    let mut cache = LoginctlCache::new();
    for (i, one) in lists.iter().enumerate() {
        cache.store(one, &output(&format!("{}", i)), 0);
    }
    for (i, one) in lists.iter().enumerate() {
        assert_eq!(
            cache.lookup(one, 0).map(stdout),
            Some(Some(format!("{}", i).into_bytes()))
        );
    }
}

#[test]
fn calls_are_answered_from_the_cache() {
    let mut cache = LoginctlCache::new();
    let a = args(&["x"]);
    assert!(matches!(
        run_loginctl(Some(&cache), "/bin/loginctl", &a, 5),
        LoginctlStep::Run(_)
    ));
    cache.store(&a, &output("yes"), 5);
    match run_loginctl(Some(&cache), "/bin/loginctl", &a, 6) {
        LoginctlStep::Answered(Ok(o)) => assert_eq!(o.stdout, b"yes"),
        _ => panic!("not cached"),
    }
    assert!(matches!(
        run_loginctl(Some(&cache), "/bin/loginctl", &a, 5 + LOGINCTL_CACHE_TTL),
        LoginctlStep::Run(_)
    ));
    cache.store(&a, &None, 5);
    match run_loginctl(Some(&cache), "/bin/loginctl", &a, 6) {
        LoginctlStep::Answered(Err(e)) => {
            assert_eq!(e, LoginctlError::CachedFailure);
            assert_eq!(e.message(), "cached loginctl failure");
        }
        _ => panic!("not cached"),
    }
    match run_loginctl(None, "/bin/loginctl", &a, 6) {
        LoginctlStep::Answered(Err(e)) => {
            assert_eq!(e, LoginctlError::CachePoisoned);
            assert_eq!(e.message(), "loginctl cache poisoned");
        }
        _ => panic!("answered without a cache"),
    }
    assert_eq!(
        loginctl_result(output("z"), false).unwrap_err(),
        LoginctlError::CachePoisoned
    );
    let e = loginctl_result(None, true).unwrap_err();
    assert_eq!(e, LoginctlError::InvocationFailed);
    assert_eq!(e.message(), "loginctl invocation failed");
    assert_eq!(loginctl_result(output("z"), true).unwrap().stdout, b"z");
}

#[test]
fn finished_calls_are_remembered() {
    let mut cache = LoginctlCache::new();
    let a = args(&["x"]);
    let b = args(&["y"]);
    assert_eq!(cache.finish(&a, output("yes"), 5).unwrap().stdout, b"yes");
    assert_eq!(
        cache.finish(&b, None, 7).unwrap_err(),
        LoginctlError::InvocationFailed
    );
    assert_eq!(cache.lookup(&a, 6).map(stdout), Some(Some(b"yes".to_vec())));
    assert_eq!(cache.lookup(&b, 8).map(stdout), Some(None));
    assert!(cache.lookup(&a, 5 + LOGINCTL_CACHE_TTL).is_none());
    assert!(cache.lookup(&b, 6 + LOGINCTL_CACHE_TTL).is_some());
    assert_eq!(cache.finish(&a, output("no"), 9).unwrap().stdout, b"no");
    assert_eq!(cache.lookup(&a, 9).map(stdout), Some(Some(b"no".to_vec())));
}

/// The command lines that a run of `loginctl` tries, where `works` are the
/// programs that can be run.
fn run(a: &Option<Vec<String>>, flatpak: bool, works: &[&str]) -> (Vec<String>, bool) {
    let mut lines = Vec::new();
    let mut progress = run_loginctl_uncached("/bin/loginctl", a);
    loop {
        match progress {
            Progress::Done(o) => return (lines, o.is_some()),
            Progress::Ask(probe, query) => {
                let reply = match query {
                    LoginctlQuery::IsSet(var) => {
                        assert_eq!(var, EnvVar::FlatpakId);
                        assert_eq!(var.name(), "FLATPAK_ID");
                        LoginctlReply::IsSet(flatpak)
                    }
                    LoginctlQuery::Run(line) => {
                        lines.push(format!("{}|{}", line.program, line.args.join("|")));
                        LoginctlReply::Output(if works.contains(&line.program.as_str()) {
                            output("")
                        } else {
                            None
                        })
                    }
                };
                progress = probe.resume(reply);
            }
        }
    }
}

#[test]
fn loginctl_runs_directly_or_on_the_host() {
    let a = args(&["show-session", "1"]);
    assert_eq!(
        run(&a, false, &["/bin/loginctl"]),
        (vec!["/bin/loginctl|show-session|1".to_string()], true)
    );
    assert_eq!(
        run(&a, true, &["flatpak-spawn"]),
        (
            vec!["flatpak-spawn|--host|/bin/loginctl show-session 1".to_string()],
            true
        )
    );
    assert_eq!(
        run(&None, true, &[]),
        (
            vec![
                "flatpak-spawn|--host|/bin/loginctl".to_string(),
                "/bin/loginctl|".to_string()
            ],
            false
        )
    );
}

fn mode(current: bool, width: i32, height: i32, refresh_rate: i32) -> OutputMode {
    OutputMode {
        current,
        dimensions: (width, height),
        refresh_rate,
    }
}

#[test]
fn displays_of_outputs() {
    let outputs = vec![
        Some(WaylandOutput {
            name: Some("HDMI-A-1".to_string()),
            location: (10, -20),
            logical_size: Some((960, 540)),
            modes: vec![
                mode(false, 1, 2, 3),
                mode(true, 1920, 1080, 60000),
                mode(true, 4, 5, 6),
            ],
        }),
        None,
        Some(WaylandOutput {
            name: Some("off".to_string()),
            location: (0, 0),
            logical_size: None,
            modes: vec![mode(false, 1, 2, 3)],
        }),
        Some(WaylandOutput {
            name: None,
            location: (0, 0),
            logical_size: None,
            modes: vec![mode(true, 800, 600, 0)],
        }),
    ];
    let displays = get_wayland_displays(&outputs);
    assert_eq!(displays.len(), 2);
    assert_eq!(displays[0].name, "HDMI-A-1");
    assert_eq!((displays[0].x, displays[0].y), (10, -20));
    assert_eq!((displays[0].width, displays[0].height), (1920, 1080));
    assert_eq!(displays[0].logical_size, Some((960, 540)));
    assert_eq!(displays[0].refresh_rate, 60000);
    assert_eq!(displays[1].name, "");
    assert_eq!((displays[1].width, displays[1].height), (800, 600));
    assert!(get_wayland_displays(&Vec::new()).is_empty());
}

#[test]
fn text_agrees_with_std() {
    for c in (0..0x11_0000u32).filter_map(char::from_u32) {
        let s = c.to_string();
        assert_eq!(trim(&s), s.trim());
    }
    for s in ["", " a b ", "\u{85}x\u{2028}", "a\u{200b} b\t\tc", "\n"] {
        assert_eq!(trim(s), s.trim());
        let words: Vec<&str> = s.split_whitespace().collect();
        assert_eq!(split_whitespace(s), words);
    }
}

#[test]
fn lower_case_and_decoding() {
    assert_eq!(lower("X11-Wayland"), "x11-wayland");
    assert_eq!(lower("\u{c9}A"), "\u{e9}a");
    assert_eq!(lower("\u{130}"), "i\u{307}");
    assert_eq!(lower("\u{212a}Z"), "kz");
    assert_eq!(lower(""), "");
    assert_eq!(decode(b"abc"), "abc");
    assert_eq!(decode("\u{20ac}".as_bytes()), "\u{20ac}");
    assert_eq!(decode(&[0xff]), "\u{fffd}");
}
