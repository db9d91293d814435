//! The user's home directory, from a source that the environment cannot change.

use crate::query::Progress;
use vstd::prelude::*;

verus! {

/// What a home probe asks of the system. `P` is the type of a path.
///
/// No query reads an environment variable: what runs with privileges must not
/// be led elsewhere by whoever sets `HOME`.
#[derive(Debug)]
pub enum HomeQuery<P> {
    /// The id of the user that runs the process.
    CurrentUid,
    /// The home directory that the password database gives for a user.
    HomeOf(u32),
    /// Whether a path is a directory.
    IsDir(P),
}

impl View for HomeQuery<Vec<u8>> {
    type V = HomeQuery<Seq<u8>>;

    open spec fn view(&self) -> HomeQuery<Seq<u8>> {
        match *self {
            HomeQuery::CurrentUid => HomeQuery::CurrentUid,
            HomeQuery::HomeOf(uid) => HomeQuery::HomeOf(uid),
            HomeQuery::IsDir(p) => HomeQuery::IsDir(p@),
        }
    }
}

/// An answer of the system. `P` is the type of a path.
pub enum HomeReply<P> {
    Uid(u32),
    /// `None` where the user is not known.
    Home(Option<P>),
    IsDir(bool),
}

impl View for HomeReply<Vec<u8>> {
    type V = HomeReply<Seq<u8>>;

    open spec fn view(&self) -> HomeReply<Seq<u8>> {
        match *self {
            HomeReply::Uid(uid) => HomeReply::Uid(uid),
            HomeReply::Home(Some(p)) => HomeReply::Home(Some(p@)),
            HomeReply::Home(None) => HomeReply::Home(None),
            HomeReply::IsDir(d) => HomeReply::IsDir(d),
        }
    }
}

/// What a home probe waits for. `P` is the type of a path.
pub enum HomeProbe<P> {
    /// The id of the user.
    Uid,
    /// The home directory of the user `uid`.
    Home { uid: u32 },
    /// Whether the home directory of the user `uid` is there.
    IsDir { uid: u32, home: P },
}

impl View for HomeProbe<Vec<u8>> {
    type V = HomeProbe<Seq<u8>>;

    open spec fn view(&self) -> HomeProbe<Seq<u8>> {
        match *self {
            HomeProbe::Uid => HomeProbe::Uid,
            HomeProbe::Home { uid } => HomeProbe::Home { uid },
            HomeProbe::IsDir { uid, home } => HomeProbe::IsDir { uid, home: home@ },
        }
    }
}

/// What a home probe finds. `P` is the type of a path.
#[derive(Debug)]
pub enum Home<P> {
    /// The home directory, which exists.
    Dir(P),
    /// The user `uid` is not known.
    NoUser { uid: u32 },
    /// The home directory of the user `uid` does not exist or is not a
    /// directory.
    NotADirectory { uid: u32, home: P },
    /// The system did not answer the question that was asked.
    NoAnswer,
}

impl DeepView for Home<Vec<u8>> {
    type V = Home<Seq<u8>>;

    open spec fn deep_view(&self) -> Home<Seq<u8>> {
        match *self {
            Home::Dir(p) => Home::Dir(p@),
            Home::NoUser { uid } => Home::NoUser { uid },
            Home::NotADirectory { uid, home } => Home::NotADirectory { uid, home: home@ },
            Home::NoAnswer => Home::NoAnswer,
        }
    }
}

/// How far a home probe has come.
pub type HomeProgress = Progress<HomeProbe<Seq<u8>>, HomeQuery<Seq<u8>>, Home<Seq<u8>>>;

/// The start of a home probe.
pub open spec fn home_start() -> HomeProgress {
    Progress::Ask(HomeProbe::Uid, HomeQuery::CurrentUid)
}

/// Where a reply takes a home probe.
pub open spec fn home_next(probe: HomeProbe<Seq<u8>>, reply: HomeReply<Seq<u8>>) -> HomeProgress {
    match (probe, reply) {
        (HomeProbe::Uid, HomeReply::Uid(uid)) => Progress::Ask(
            HomeProbe::Home { uid },
            HomeQuery::HomeOf(uid),
        ),
        (HomeProbe::Home { uid }, HomeReply::Home(Some(home))) => Progress::Ask(
            HomeProbe::IsDir { uid, home },
            HomeQuery::IsDir(home),
        ),
        (HomeProbe::Home { uid }, HomeReply::Home(None)) => Progress::Done(Home::NoUser { uid }),
        (HomeProbe::IsDir { uid, home }, HomeReply::IsDir(is_dir)) => if is_dir {
            Progress::Done(Home::Dir(home))
        } else {
            Progress::Done(Home::NotADirectory { uid, home })
        },
        _ => Progress::Done(Home::NoAnswer),
    }
}

/// Starts a probe for the home directory of the user that runs the process.
///
/// The home directory comes from the password database, not from the
/// environment variable `HOME`, which whoever starts the process can set. It
/// is given only where it exists.
pub fn get_home_dir_trusted() -> (r: Progress<
    HomeProbe<Vec<u8>>,
    HomeQuery<Vec<u8>>,
    Home<Vec<u8>>,
>)
    ensures
        r@ == home_start(),
{
    Progress::Ask(HomeProbe::Uid, HomeQuery::CurrentUid)
}

fn copy_path(path: &Vec<u8>) -> (r: Vec<u8>)
    ensures
        r@ == path@,
{
    let r = path.clone();
    assert(r@ =~= path@);
    r
}

impl HomeProbe<Vec<u8>> {
    /// Takes the reply to the query that the probe asked.
    pub fn resume(self, reply: HomeReply<Vec<u8>>) -> (r: Progress<
        HomeProbe<Vec<u8>>,
        HomeQuery<Vec<u8>>,
        Home<Vec<u8>>,
    >)
        ensures
            r@ == home_next(self@, reply@),
    {
        match (self, reply) {
            (HomeProbe::Uid, HomeReply::Uid(uid)) => Progress::Ask(
                HomeProbe::Home { uid },
                HomeQuery::HomeOf(uid),
            ),
            (HomeProbe::Home { uid }, HomeReply::Home(Some(home))) => {
                let asked = copy_path(&home);
                Progress::Ask(HomeProbe::IsDir { uid, home }, HomeQuery::IsDir(asked))
            },
            (HomeProbe::Home { uid }, HomeReply::Home(None)) => Progress::Done(
                Home::NoUser { uid },
            ),
            (HomeProbe::IsDir { uid, home }, HomeReply::IsDir(is_dir)) => if is_dir {
                Progress::Done(Home::Dir(home))
            } else {
                Progress::Done(Home::NotADirectory { uid, home })
            },
            _ => Progress::Done(Home::NoAnswer),
        }
    }
}

/// What a home probe finds, in a system where the user `uid` runs the process,
/// `homes` is the password database and `is_dir` tells which paths are
/// directories.
pub open spec fn home_run(
    uid: u32,
    homes: spec_fn(u32) -> Option<Seq<u8>>,
    is_dir: spec_fn(Seq<u8>) -> bool,
    p: HomeProgress,
) -> Home<Seq<u8>>
    decreases (match p {
        Progress::Done(_) => 0nat,
        Progress::Ask(HomeProbe::IsDir { .. }, _) => 1nat,
        Progress::Ask(HomeProbe::Home { .. }, _) => 2nat,
        Progress::Ask(HomeProbe::Uid, _) => 3nat,
    }),
{
    match p {
        Progress::Done(h) => h,
        Progress::Ask(probe, query) => {
            let reply = match query {
                HomeQuery::CurrentUid => HomeReply::Uid(uid),
                HomeQuery::HomeOf(u) => HomeReply::Home(homes(u)),
                HomeQuery::IsDir(path) => HomeReply::IsDir(is_dir(path)),
            };
            home_run(uid, homes, is_dir, home_next(probe, reply))
        },
    }
}

/// The home directory that is found depends on the user, the password database
/// and the file system alone: it is the one that the database gives for the
/// user, and it is found if and only if there is one and it is a directory.
pub proof fn home_is_that_of_password_database(
    uid: u32,
    homes: spec_fn(u32) -> Option<Seq<u8>>,
    is_dir: spec_fn(Seq<u8>) -> bool,
)
    ensures
        home_run(uid, homes, is_dir, home_start()) == match homes(uid) {
            Some(home) => if is_dir(home) {
                Home::Dir(home)
            } else {
                Home::NotADirectory { uid, home }
            },
            None => Home::NoUser { uid },
        },
{
    reveal_with_fuel(home_run, 4);
}

/// Questions and answers are taken as they are: a path is that path, and a
/// user's id that id.
pub proof fn paths_are_taken_as_they_are(path: Vec<u8>, uid: u32, is_dir: bool)
    ensures
        HomeQuery::IsDir(path)@ == HomeQuery::IsDir(path@),
        HomeQuery::<Vec<u8>>::HomeOf(uid)@ == HomeQuery::<Seq<u8>>::HomeOf(uid),
        HomeQuery::<Vec<u8>>::CurrentUid@ == HomeQuery::<Seq<u8>>::CurrentUid,
        HomeReply::<Vec<u8>>::Uid(uid)@ == HomeReply::<Seq<u8>>::Uid(uid),
        HomeReply::Home(Some(path))@ == HomeReply::Home(Some(path@)),
        HomeReply::<Vec<u8>>::Home(None)@ == HomeReply::<Seq<u8>>::Home(None),
        HomeReply::<Vec<u8>>::IsDir(is_dir)@ == HomeReply::<Seq<u8>>::IsDir(is_dir),
        Home::Dir(path).deep_view() == Home::Dir(path@),
        (Home::NotADirectory { uid, home: path }).deep_view() == (Home::NotADirectory {
            uid,
            home: path@,
        }),
        (Home::<Vec<u8>>::NoUser { uid }).deep_view() == (Home::<Seq<u8>>::NoUser { uid }),
{
}

} // verus!
