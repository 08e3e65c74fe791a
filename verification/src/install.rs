//! Installing one package, as a machine that asks for one thing at a time.
//!
//! An [`Installation`] knows what is to be done next: a lookup, a question to
//! the user, a command to run, a directory to remove. Who drives it does that
//! and reports back with an [`Event`]. The machine itself runs nothing.

use crate::package::{is_debug_name, is_debug_package};
use crate::text::strings;
use vstd::prelude::*;
use vstd::string::*;

verus! {

/// The repository of the mirror, which holds one branch for each package.
pub const MIRROR_REPOSITORY: &'static str = "https://github.com/archlinux/aur.git";

/// The address under which the package repository serves the recipes.
pub const REPOSITORY_BASE: &'static str = "https://aur.archlinux.org/";

/// Where the recipe of a package is taken from.
#[derive(Debug, Clone, Copy, PartialEq, Eq)]
pub enum Origin {
    /// The package repository itself, one repository for each package.
    Repository,
    /// The mirror, one branch for each package.
    Mirror,
}

/// How the installation of a package has ended.
#[derive(Debug, PartialEq, Eq)]
pub enum Verdict {
    /// The package holds debug symbols and is not installed on request.
    SkippedDebug,
    /// The mirror has no branch for the package.
    NotOnMirror,
    /// The repository could not say anything of the package.
    LookupFailed(String),
    /// The user did not want to go on.
    Declined,
    /// The recipe could not be fetched.
    CloneFailed,
    /// The package was built and installed.
    Installed,
    /// The build failed.
    BuildFailed,
}

/// A [`Verdict`] with its string as a sequence of characters.
pub enum VerdictView {
    SkippedDebug,
    NotOnMirror,
    LookupFailed(Seq<char>),
    Declined,
    CloneFailed,
    Installed,
    BuildFailed,
}

impl View for Verdict {
    type V = VerdictView;

    open spec fn view(&self) -> VerdictView {
        match self {
            Verdict::SkippedDebug => VerdictView::SkippedDebug,
            Verdict::NotOnMirror => VerdictView::NotOnMirror,
            Verdict::LookupFailed(reason) => VerdictView::LookupFailed(reason@),
            Verdict::Declined => VerdictView::Declined,
            Verdict::CloneFailed => VerdictView::CloneFailed,
            Verdict::Installed => VerdictView::Installed,
            Verdict::BuildFailed => VerdictView::BuildFailed,
        }
    }
}

impl Clone for Verdict {
    fn clone(&self) -> (r: Verdict)
        ensures
            r@ == self@,
    {
        match self {
            Verdict::SkippedDebug => Verdict::SkippedDebug,
            Verdict::NotOnMirror => Verdict::NotOnMirror,
            Verdict::LookupFailed(reason) => Verdict::LookupFailed(reason.clone()),
            Verdict::Declined => Verdict::Declined,
            Verdict::CloneFailed => Verdict::CloneFailed,
            Verdict::Installed => Verdict::Installed,
            Verdict::BuildFailed => Verdict::BuildFailed,
        }
    }
}

/// How far the installation of a package has come: what it waits for.
#[derive(Debug, Clone, PartialEq, Eq)]
pub enum Stage {
    /// For what the repository says of the package.
    LookingUp,
    /// For the user to say whether to go on.
    Confirming,
    /// For the recipe to be fetched.
    Cloning,
    /// For the user to say whether the packages that only the build needs are
    /// to be removed after it.
    AskingRemoveDeps,
    /// For the build to end.
    Building { remove_deps: bool },
    /// For the build directory to be removed.
    Cleaning { built: bool },
    /// For nothing: the installation has ended.
    Done(Verdict),
}

/// A [`Stage`] with its verdict as a view.
pub enum StageView {
    LookingUp,
    Confirming,
    Cloning,
    AskingRemoveDeps,
    Building { remove_deps: bool },
    Cleaning { built: bool },
    Done(VerdictView),
}

impl View for Stage {
    type V = StageView;

    open spec fn view(&self) -> StageView {
        match self {
            Stage::LookingUp => StageView::LookingUp,
            Stage::Confirming => StageView::Confirming,
            Stage::Cloning => StageView::Cloning,
            Stage::AskingRemoveDeps => StageView::AskingRemoveDeps,
            Stage::Building { remove_deps } => StageView::Building { remove_deps: *remove_deps },
            Stage::Cleaning { built } => StageView::Cleaning { built: *built },
            Stage::Done(verdict) => StageView::Done(verdict@),
        }
    }
}

/// What has happened since the machine was last asked what to do.
#[derive(Debug, Clone, PartialEq, Eq)]
pub enum Event {
    /// The repository knows the package under this name.
    Known(String),
    /// The repository could not say anything of the package.
    Unknown(String),
    /// The user has said yes, or no.
    Answered(bool),
    /// The command has ended, well or not.
    Exited(bool),
    /// The attempt to remove the directory is over, however it went.
    Removed,
}

/// An [`Event`] with its string as a sequence of characters.
pub enum EventView {
    Known(Seq<char>),
    Unknown(Seq<char>),
    Answered(bool),
    Exited(bool),
    Removed,
}

impl View for Event {
    type V = EventView;

    open spec fn view(&self) -> EventView {
        match self {
            Event::Known(name) => EventView::Known(name@),
            Event::Unknown(reason) => EventView::Unknown(reason@),
            Event::Answered(yes) => EventView::Answered(*yes),
            Event::Exited(ok) => EventView::Exited(*ok),
            Event::Removed => EventView::Removed,
        }
    }
}

/// What is to be done next.
#[derive(Debug, Clone, PartialEq, Eq)]
pub enum Request {
    /// Ask the repository about the package `name`.
    LookUp { name: String },
    /// Put `question` to the user.
    Confirm { question: String },
    /// Run `git` with the arguments `args`.
    Clone { args: Vec<String> },
    /// Run `makepkg` with the arguments `args` in the directory `dir`.
    Build { args: Vec<String>, dir: String },
    /// Remove the directory `dir` and all that it holds.
    RemoveDir { dir: String },
    /// Nothing: the installation has ended.
    Finished { verdict: Verdict },
}

/// A [`Request`] with its strings as sequences of characters.
pub enum RequestView {
    LookUp { name: Seq<char> },
    Confirm { question: Seq<char> },
    Clone { args: Seq<Seq<char>> },
    Build { args: Seq<Seq<char>>, dir: Seq<char> },
    RemoveDir { dir: Seq<char> },
    Finished { verdict: VerdictView },
}

impl View for Request {
    type V = RequestView;

    open spec fn view(&self) -> RequestView {
        match self {
            Request::LookUp { name } => RequestView::LookUp { name: name@ },
            Request::Confirm { question } => RequestView::Confirm { question: question@ },
            Request::Clone { args } => RequestView::Clone { args: strings(args@) },
            Request::Build { args, dir } => RequestView::Build { args: strings(args@), dir: dir@ },
            Request::RemoveDir { dir } => RequestView::RemoveDir { dir: dir@ },
            Request::Finished { verdict } => RequestView::Finished { verdict: verdict@ },
        }
    }
}

/// The installation of one package, under way.
#[derive(Debug, Clone, PartialEq, Eq)]
pub struct Installation {
    name: String,
    origin: Origin,
    stage: Stage,
}

/// An [`Installation`] as a plain value.
pub struct InstallationView {
    pub name: Seq<char>,
    pub origin: Origin,
    pub stage: StageView,
}

impl View for Installation {
    type V = InstallationView;

    closed spec fn view(&self) -> InstallationView {
        InstallationView { name: self.name@, origin: self.origin, stage: self.stage@ }
    }
}

/// The installation of the package `name` at its start. A package of debug
/// symbols is not installed, nor one that the mirror is asked for and does not
/// hold. Whether the mirror holds the package, `on_mirror`, counts for the
/// mirror only.
pub open spec fn begun(name: Seq<char>, origin: Origin, on_mirror: bool) -> InstallationView {
    InstallationView {
        name,
        origin,
        stage: if is_debug_name(name) {
            StageView::Done(VerdictView::SkippedDebug)
        } else {
            match origin {
                Origin::Repository => StageView::LookingUp,
                Origin::Mirror => if on_mirror {
                    StageView::Confirming
                } else {
                    StageView::Done(VerdictView::NotOnMirror)
                },
            }
        },
    }
}

/// The installation `at` after `event`. An event that does not answer what the
/// installation waits for changes nothing.
pub open spec fn stepped(at: InstallationView, event: EventView) -> InstallationView {
    match (at.stage, event) {
        (StageView::LookingUp, EventView::Known(name)) => InstallationView {
            name,
            origin: at.origin,
            stage: StageView::Confirming,
        },
        (StageView::LookingUp, EventView::Unknown(reason)) => InstallationView {
            stage: StageView::Done(VerdictView::LookupFailed(reason)),
            ..at
        },
        (StageView::Confirming, EventView::Answered(yes)) => InstallationView {
            stage: if yes {
                StageView::Cloning
            } else {
                StageView::Done(VerdictView::Declined)
            },
            ..at
        },
        (StageView::Cloning, EventView::Exited(ok)) => InstallationView {
            stage: if ok {
                StageView::AskingRemoveDeps
            } else {
                StageView::Done(VerdictView::CloneFailed)
            },
            ..at
        },
        (StageView::AskingRemoveDeps, EventView::Answered(yes)) => InstallationView {
            stage: StageView::Building { remove_deps: yes },
            ..at
        },
        (StageView::Building { .. }, EventView::Exited(ok)) => InstallationView {
            stage: StageView::Cleaning { built: ok },
            ..at
        },
        (StageView::Cleaning { built }, EventView::Removed) => InstallationView {
            stage: StageView::Done(
                if built {
                    VerdictView::Installed
                } else {
                    VerdictView::BuildFailed
                },
            ),
            ..at
        },
        _ => at,
    }
}

/// The arguments with which `git` fetches the recipe of the package `name`.
pub open spec fn clone_args(name: Seq<char>, origin: Origin) -> Seq<Seq<char>> {
    match origin {
        Origin::Repository => seq!["clone"@, REPOSITORY_BASE@ + name + ".git"@],
        Origin::Mirror => seq![
            "clone"@,
            "--single-branch"@,
            "--branch"@,
            name,
            MIRROR_REPOSITORY@,
            name,
        ],
    }
}

/// The arguments with which `makepkg` builds and installs a package.
pub open spec fn build_args(remove_deps: bool) -> Seq<Seq<char>> {
    if remove_deps {
        seq!["-si"@, "--noconfirm"@, "--rmdeps"@]
    } else {
        seq!["-si"@, "--noconfirm"@]
    }
}

/// What the installation `at` asks for.
pub open spec fn request_of(at: InstallationView) -> RequestView {
    match at.stage {
        StageView::LookingUp => RequestView::LookUp { name: at.name },
        StageView::Confirming => RequestView::Confirm { question: "Proceed?"@ },
        StageView::Cloning => RequestView::Clone { args: clone_args(at.name, at.origin) },
        StageView::AskingRemoveDeps => RequestView::Confirm {
            question: "Remove make dependencies after build?"@,
        },
        StageView::Building { remove_deps } => RequestView::Build {
            args: build_args(remove_deps),
            dir: at.name,
        },
        StageView::Cleaning { .. } => RequestView::RemoveDir { dir: at.name },
        StageView::Done(verdict) => RequestView::Finished { verdict },
    }
}

/// What is said of the package `name` when its installation has ended with
/// `verdict`.
pub open spec fn report_text(name: Seq<char>, origin: Origin, verdict: VerdictView) -> Seq<char> {
    match verdict {
        VerdictView::SkippedDebug => "Skipping debug package install request: "@ + name,
        VerdictView::NotOnMirror => "package '"@ + name + "' not found on github mirror, skipping"@,
        VerdictView::LookupFailed(reason) => "failed to fetch info for "@ + name + ": "@ + reason,
        VerdictView::Declined => "Skipping "@ + name,
        VerdictView::CloneFailed => "git clone failed for "@ + name + match origin {
            Origin::Repository => " (aur)."@,
            Origin::Mirror => " (mirror)."@,
        },
        VerdictView::Installed => "Successfully installed "@ + name,
        VerdictView::BuildFailed => "Failed to install "@ + name + " (build error)."@,
    }
}

impl Installation {
    /// The installation of the package `name` from `origin`, at its start.
    /// `on_mirror` says whether the mirror holds the package.
    pub fn begin(name: &str, origin: Origin, on_mirror: bool) -> (r: Installation)
        ensures
            r@ == begun(name@, origin, on_mirror),
    {
        let stage = if is_debug_package(name) {
            Stage::Done(Verdict::SkippedDebug)
        } else {
            match origin {
                Origin::Repository => Stage::LookingUp,
                Origin::Mirror => if on_mirror {
                    Stage::Confirming
                } else {
                    Stage::Done(Verdict::NotOnMirror)
                },
            }
        };
        Installation { name: name.to_owned(), origin, stage }
    }

    /// The name of the package: the one given at the start, or the one under
    /// which the repository knows it.
    pub fn name(&self) -> (r: &String)
        ensures
            r@ == self@.name,
    {
        &self.name
    }

    /// How far the installation has come.
    pub fn stage(&self) -> (r: &Stage)
        ensures
            r@ == self@.stage,
    {
        &self.stage
    }

    /// Whether the installation has ended.
    pub fn is_finished(&self) -> (r: bool)
        ensures
            r == (self@.stage is Done),
    {
        match self.stage {
            Stage::Done(_) => true,
            _ => false,
        }
    }

    /// The installation after `event`.
    pub fn advance(self, event: Event) -> (r: Installation)
        ensures
            r@ == stepped(self@, event@),
    {
        let Installation { name, origin, stage } = self;
        match (stage, event) {
            (Stage::LookingUp, Event::Known(known)) => Installation {
                name: known,
                origin,
                stage: Stage::Confirming,
            },
            (Stage::LookingUp, Event::Unknown(reason)) => Installation {
                name,
                origin,
                stage: Stage::Done(Verdict::LookupFailed(reason)),
            },
            (Stage::Confirming, Event::Answered(yes)) => Installation {
                name,
                origin,
                stage: if yes {
                    Stage::Cloning
                } else {
                    Stage::Done(Verdict::Declined)
                },
            },
            (Stage::Cloning, Event::Exited(ok)) => Installation {
                name,
                origin,
                stage: if ok {
                    Stage::AskingRemoveDeps
                } else {
                    Stage::Done(Verdict::CloneFailed)
                },
            },
            (Stage::AskingRemoveDeps, Event::Answered(yes)) => Installation {
                name,
                origin,
                stage: Stage::Building { remove_deps: yes },
            },
            (Stage::Building { remove_deps: _ }, Event::Exited(ok)) => Installation {
                name,
                origin,
                stage: Stage::Cleaning { built: ok },
            },
            (Stage::Cleaning { built }, Event::Removed) => Installation {
                name,
                origin,
                stage: Stage::Done(
                    if built {
                        Verdict::Installed
                    } else {
                        Verdict::BuildFailed
                    },
                ),
            },
            (stage, _) => Installation { name, origin, stage },
        }
    }

    /// What is to be done next.
    pub fn request(&self) -> (r: Request)
        ensures
            r@ == request_of(self@),
    {
        match &self.stage {
            Stage::LookingUp => Request::LookUp { name: self.name.clone() },
            Stage::Confirming => Request::Confirm { question: String::from_str("Proceed?") },
            Stage::Cloning => {
                let mut args: Vec<String> = Vec::new();
                args.push(String::from_str("clone"));
                match self.origin {
                    Origin::Repository => {
                        let mut url = String::from_str(REPOSITORY_BASE);
                        url.append(self.name.as_str());
                        url.append(".git");
                        args.push(url);
                    },
                    Origin::Mirror => {
                        args.push(String::from_str("--single-branch"));
                        args.push(String::from_str("--branch"));
                        args.push(self.name.clone());
                        args.push(String::from_str(MIRROR_REPOSITORY));
                        args.push(self.name.clone());
                    },
                }
                assert(strings(args@) =~= clone_args(self@.name, self@.origin));
                Request::Clone { args }
            },
            Stage::AskingRemoveDeps => Request::Confirm {
                question: String::from_str("Remove make dependencies after build?"),
            },
            Stage::Building { remove_deps } => {
                let mut args: Vec<String> = Vec::new();
                args.push(String::from_str("-si"));
                args.push(String::from_str("--noconfirm"));
                if *remove_deps {
                    args.push(String::from_str("--rmdeps"));
                }
                assert(strings(args@) =~= build_args(*remove_deps));
                Request::Build { args, dir: self.name.clone() }
            },
            Stage::Cleaning { built: _ } => Request::RemoveDir { dir: self.name.clone() },
            Stage::Done(verdict) => Request::Finished { verdict: verdict.clone() },
        }
    }

    /// What is to be said of the package once its installation has ended;
    /// nothing before that.
    pub fn report(&self) -> (r: Option<String>)
        ensures
            match self@.stage {
                StageView::Done(verdict) => r matches Some(text) && text@ == report_text(
                    self@.name,
                    self@.origin,
                    verdict,
                ),
                _ => r is None,
            },
    {
        let name = self.name.as_str();
        match &self.stage {
            Stage::Done(verdict) => {
                let text = match verdict {
                    Verdict::SkippedDebug => {
                        let mut text = String::from_str("Skipping debug package install request: ");
                        text.append(name);
                        text
                    },
                    Verdict::NotOnMirror => {
                        let mut text = String::from_str("package '");
                        text.append(name);
                        text.append("' not found on github mirror, skipping");
                        text
                    },
                    Verdict::LookupFailed(reason) => {
                        let mut text = String::from_str("failed to fetch info for ");
                        text.append(name);
                        text.append(": ");
                        text.append(reason.as_str());
                        text
                    },
                    Verdict::Declined => {
                        let mut text = String::from_str("Skipping ");
                        text.append(name);
                        text
                    },
                    Verdict::CloneFailed => {
                        let mut text = String::from_str("git clone failed for ");
                        text.append(name);
                        match self.origin {
                            Origin::Repository => text.append(" (aur)."),
                            Origin::Mirror => text.append(" (mirror)."),
                        }
                        text
                    },
                    Verdict::Installed => {
                        let mut text = String::from_str("Successfully installed ");
                        text.append(name);
                        text
                    },
                    Verdict::BuildFailed => {
                        let mut text = String::from_str("Failed to install ");
                        text.append(name);
                        text.append(" (build error).");
                        text
                    },
                };
                Some(text)
            },
            _ => None,
        }
    }
}

/// The installation `at` after the events `events`, one after the other.
pub open spec fn after(at: InstallationView, events: Seq<EventView>) -> InstallationView
    decreases events.len(),
{
    if events.len() == 0 {
        at
    } else {
        stepped(after(at, events.drop_last()), events.last())
    }
}

/// Whether the user has said yes to a question among `events`.
pub open spec fn consented(events: Seq<EventView>) -> bool {
    exists|i: int| 0 <= i < events.len() && #[trigger] events[i] == EventView::Answered(true)
}

/// Whether the installation has come to run a command: it waits for one to
/// end, or is past the first.
pub open spec fn has_run(stage: StageView) -> bool {
    match stage {
        StageView::Cloning => true,
        StageView::AskingRemoveDeps => true,
        StageView::Building { .. } => true,
        StageView::Cleaning { .. } => true,
        StageView::Done(verdict) => verdict is CloneFailed || verdict is Installed
            || verdict is BuildFailed,
        _ => false,
    }
}

/// A package of debug symbols is not installed, whatever happens: its
/// installation has ended when it begins, and asks for nothing.
pub proof fn law_debug_package_is_not_installed(
    name: Seq<char>,
    origin: Origin,
    on_mirror: bool,
    events: Seq<EventView>,
)
    requires
        is_debug_name(name),
    ensures
        after(begun(name, origin, on_mirror), events) == begun(name, origin, on_mirror),
        request_of(after(begun(name, origin, on_mirror), events)) == (RequestView::Finished {
            verdict: VerdictView::SkippedDebug,
        }),
    decreases events.len(),
{
    if events.len() > 0 {
        law_debug_package_is_not_installed(name, origin, on_mirror, events.drop_last());
    }
}

/// No command is run before the user has said yes.
pub proof fn law_nothing_runs_without_consent(
    name: Seq<char>,
    origin: Origin,
    on_mirror: bool,
    events: Seq<EventView>,
)
    requires
        has_run(after(begun(name, origin, on_mirror), events).stage),
    ensures
        consented(events),
    decreases events.len(),
{
    if events.len() > 0 {
        let earlier = events.drop_last();
        let before = after(begun(name, origin, on_mirror), earlier);
        if has_run(before.stage) {
            law_nothing_runs_without_consent(name, origin, on_mirror, earlier);
            let i = choose|i: int|
                0 <= i < earlier.len() && #[trigger] earlier[i] == EventView::Answered(true);
            assert(events[i] == EventView::Answered(true));
        } else {
            assert(events[events.len() - 1] == EventView::Answered(true));
        }
    }
}

/// The build directory is removed after the build, however the build ended:
/// the removal is what the installation asks for next, and only then does it
/// end, with the verdict that the build has earned.
pub proof fn law_build_directory_is_removed(at: InstallationView, built: bool)
    requires
        at.stage is Building,
    ensures
        request_of(stepped(at, EventView::Exited(built))) == (RequestView::RemoveDir {
            dir: at.name,
        }),
        stepped(stepped(at, EventView::Exited(built)), EventView::Removed).stage
            == StageView::Done(
            if built {
                VerdictView::Installed
            } else {
                VerdictView::BuildFailed
            },
        ),
{
}

/// An installation that has ended stays as it is.
pub proof fn law_end_is_final(at: InstallationView, event: EventView)
    requires
        at.stage is Done,
    ensures
        stepped(at, event) == at,
{
}

} // verus!
