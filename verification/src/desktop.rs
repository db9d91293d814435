//! What is known of the desktop and of the distribution.

use crate::text;
use crate::text::CharClass;
use vstd::prelude::*;
use vstd::string::*;

verus! {

pub const DISPLAY_SERVER_WAYLAND: &'static str = "wayland";

pub const DISPLAY_SERVER_X11: &'static str = "x11";

pub const DISPLAY_DESKTOP_KDE: &'static str = "KDE";

pub const XDG_CURRENT_DESKTOP: &'static str = "XDG_CURRENT_DESKTOP";

/// The shell command that prints the process ids of a running KDE daemon.
pub const KDE_SESSION_COMMAND: &'static str = "pgrep -f kded[0-9]+";

/// The shell command that prints the distribution's name.
pub const NAME_COMMAND: &'static str = "awk -F'=' '/^NAME=/ {print $2}' /etc/os-release";

/// The shell command that prints the distribution's version.
pub const VERSION_ID_COMMAND: &'static str =
    "awk -F'=' '/^VERSION_ID=/ {print $2}' /etc/os-release";

/// The distribution.
pub struct Distro {
    pub name: String,
    pub version_id: String,
}

/// What a line of `/etc/os-release` gives as a value: the text without white
/// space around it, and then without quotation marks around it.
pub open spec fn os_release_value(output: Option<Seq<char>>) -> Seq<char> {
    match output {
        Some(t) => text::trimmed(text::trim_spec(t), CharClass::Exactly('"')),
        None => Seq::empty(),
    }
}

/// The text that an option holds.
pub open spec fn text_of(t: Option<&str>) -> Option<Seq<char>> {
    match t {
        Some(s) => Some(s@),
        None => None,
    }
}

fn unquoted(output: Option<&str>) -> (r: String)
    ensures
        r@ == os_release_value(text_of(output)),
{
    match output {
        Some(t) => text::trim_matches(text::trim(t), CharClass::Exactly('"')).to_owned(),
        None => String::new(),
    }
}

impl Distro {
    /// The distribution, from what `NAME_COMMAND` and `VERSION_ID_COMMAND`
    /// print; `None` stands for a command that could not be run.
    pub fn new(name: Option<&str>, version_id: Option<&str>) -> (r: Self)
        ensures
            r.name@ == os_release_value(text_of(name)),
            r.version_id@ == os_release_value(text_of(version_id)),
    {
        Distro { name: unquoted(name), version_id: unquoted(version_id) }
    }
}

/// Whether the desktop is KDE, by the value of `XDG_CURRENT_DESKTOP`.
///
/// In the server process the variable is not set correctly; there,
/// `is_kde_session` tells.
pub fn is_kde(current_desktop: Option<&str>) -> (r: bool)
    ensures
        r == (text_of(current_desktop) == Some(DISPLAY_DESKTOP_KDE@)),
{
    match current_desktop {
        Some(env) => text::same_text(env, DISPLAY_DESKTOP_KDE),
        None => false,
    }
}

/// Whether a KDE session runs, by what `KDE_SESSION_COMMAND` prints; `None`
/// stands for a command that could not be run.
pub fn is_kde_session(stdout: Option<&[u8]>) -> (r: bool)
    ensures
        r == (stdout matches Some(bytes) && bytes@.len() > 0),
{
    match stdout {
        Some(bytes) => bytes.len() > 0,
        None => false,
    }
}

/// Whether a user is one under which a login screen runs.
pub open spec fn gdm_user(username: Seq<char>) -> bool {
    username == "gdm"@ || username == "sddm"@
}

/// Whether a user is one under which a login screen runs.
pub fn is_gdm_user(username: &str) -> (r: bool)
    ensures
        r == gdm_user(username@),
{
    text::same_text(username, "gdm") || text::same_text(username, "sddm")
}

/// Whether the given display server is Wayland.
pub fn is_desktop_wayland(display_server: &str) -> (r: bool)
    ensures
        r == (display_server@ == DISPLAY_SERVER_WAYLAND@),
{
    text::same_text(display_server, DISPLAY_SERVER_WAYLAND)
}

/// Whether the given display server is any but Wayland.
pub fn is_x11_or_headless(display_server: &str) -> (r: bool)
    ensures
        r == (display_server@ != DISPLAY_SERVER_WAYLAND@),
{
    !is_desktop_wayland(display_server)
}

/// The value of a line of `/etc/os-release` is what stands within its white
/// space and then within its quotation marks, and nothing where the command
/// could not be run.
pub proof fn value_stands_within_quotes(
    w1: Seq<char>,
    q1: Seq<char>,
    value: Seq<char>,
    q2: Seq<char>,
    w2: Seq<char>,
)
    requires
        forall|i: int| 0 <= i < w1.len() ==> text::is_white_space(#[trigger] w1[i]),
        forall|i: int| 0 <= i < w2.len() ==> text::is_white_space(#[trigger] w2[i]),
        forall|i: int| 0 <= i < q1.len() ==> #[trigger] q1[i] == '"',
        forall|i: int| 0 <= i < q2.len() ==> #[trigger] q2[i] == '"',
        value.len() > 0 ==> value.first() != '"' && value.last() != '"',
        (q1 + value + q2).len() > 0 ==> !text::is_white_space((q1 + value + q2).first())
            && !text::is_white_space((q1 + value + q2).last()),
    ensures
        os_release_value(Some(w1 + q1 + value + q2 + w2)) == value,
        os_release_value(None) == Seq::<char>::empty(),
{
    let quoted = q1 + value + q2;
    text::both_ends_go(w1, quoted, w2, CharClass::WhiteSpace);
    assert(w1 + q1 + value + q2 + w2 =~= w1 + quoted + w2);
    text::both_ends_go(q1, value, q2, CharClass::Exactly('"'));
}

/// Login screens run under the users `gdm` and `sddm`, and under no other.
pub proof fn login_screen_users(username: Seq<char>)
    ensures
        gdm_user("gdm"@),
        gdm_user("sddm"@),
        username != "gdm"@ && username != "sddm"@ ==> !gdm_user(username),
{
}

/// The names of the display servers and of the KDE desktop, and the commands
/// that ask for a KDE session and for the distribution.
pub proof fn desktop_names()
    ensures
        DISPLAY_SERVER_WAYLAND@ == "wayland"@,
        DISPLAY_SERVER_X11@ == "x11"@,
        DISPLAY_DESKTOP_KDE@ == "KDE"@,
        XDG_CURRENT_DESKTOP@ == "XDG_CURRENT_DESKTOP"@,
        KDE_SESSION_COMMAND@ == "pgrep -f kded[0-9]+"@,
        NAME_COMMAND@ == "awk -F'=' '/^NAME=/ {print $2}' /etc/os-release"@,
        VERSION_ID_COMMAND@ == "awk -F'=' '/^VERSION_ID=/ {print $2}' /etc/os-release"@,
{
}

} // verus!
