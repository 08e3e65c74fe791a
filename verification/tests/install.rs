use raur::install::{Event, Installation, Origin, Request, Stage, Verdict};

fn strings(list: &[&str]) -> Vec<String> {
    list.iter().map(|s| s.to_string()).collect()
}

#[test]
fn debug_package_is_not_installed() {
    let job = Installation::begin("foo-debug", Origin::Mirror, true);
    assert!(job.is_finished());
    assert_eq!(job.request(), Request::Finished { verdict: Verdict::SkippedDebug });
    assert_eq!(
        job.report(),
        Some("Skipping debug package install request: foo-debug".to_string())
    );
    let job = job.advance(Event::Answered(true));
    assert_eq!(job.stage(), &Stage::Done(Verdict::SkippedDebug));
    let job = Installation::begin("foo-DBG", Origin::Repository, false);
    assert_eq!(job.request(), Request::Finished { verdict: Verdict::SkippedDebug });
}

#[test]
fn package_missing_on_the_mirror_is_skipped() {
    let job = Installation::begin("foo", Origin::Mirror, false);
    assert_eq!(job.request(), Request::Finished { verdict: Verdict::NotOnMirror });
    assert_eq!(
        job.report(),
        Some("package 'foo' not found on github mirror, skipping".to_string())
    );
}

#[test]
fn mirror_installation_runs_through() {
    let job = Installation::begin("foo", Origin::Mirror, true);
    assert_eq!(job.report(), None);
    assert_eq!(job.request(), Request::Confirm { question: "Proceed?".to_string() });
    let job = job.advance(Event::Answered(true));
    assert_eq!(
        job.request(),
        Request::Clone {
            args: strings(&[
                "clone",
                "--single-branch",
                "--branch",
                "foo",
                "https://github.com/archlinux/aur.git",
                "foo"
            ])
        }
    );
    let job = job.advance(Event::Exited(true));
    assert_eq!(
        job.request(),
        Request::Confirm { question: "Remove make dependencies after build?".to_string() }
    );
    let job = job.advance(Event::Answered(true));
    assert_eq!(
        job.request(),
        Request::Build {
            args: strings(&["-si", "--noconfirm", "--rmdeps"]),
            dir: "foo".to_string()
        }
    );
    let job = job.advance(Event::Exited(true));
    assert_eq!(job.request(), Request::RemoveDir { dir: "foo".to_string() });
    assert!(!job.is_finished());
    let job = job.advance(Event::Removed);
    assert!(job.is_finished());
    assert_eq!(job.request(), Request::Finished { verdict: Verdict::Installed });
    assert_eq!(job.report(), Some("Successfully installed foo".to_string()));
}

#[test]
fn repository_installation_looks_the_package_up_first() {
    let job = Installation::begin("foo", Origin::Repository, false);
    assert_eq!(job.request(), Request::LookUp { name: "foo".to_string() });
    let job = job.advance(Event::Known("Foo".to_string()));
    assert_eq!(job.name(), "Foo");
    assert_eq!(job.request(), Request::Confirm { question: "Proceed?".to_string() });
    let job = job.advance(Event::Answered(true));
    assert_eq!(
        job.request(),
        Request::Clone { args: strings(&["clone", "https://aur.archlinux.org/Foo.git"]) }
    );
    let job = job.advance(Event::Exited(true)).advance(Event::Answered(false));
    assert_eq!(
        job.request(),
        Request::Build { args: strings(&["-si", "--noconfirm"]), dir: "Foo".to_string() }
    );
}

#[test]
fn failed_lookup_ends_the_installation() {
    let job = Installation::begin("foo", Origin::Repository, true)
        .advance(Event::Unknown("Package 'foo' not found".to_string()));
    assert_eq!(
        job.request(),
        Request::Finished {
            verdict: Verdict::LookupFailed("Package 'foo' not found".to_string())
        }
    );
    assert_eq!(
        job.report(),
        Some("failed to fetch info for foo: Package 'foo' not found".to_string())
    );
}

#[test]
fn refusal_ends_the_installation() {
    let job = Installation::begin("foo", Origin::Mirror, true).advance(Event::Answered(false));
    assert_eq!(job.request(), Request::Finished { verdict: Verdict::Declined });
    assert_eq!(job.report(), Some("Skipping foo".to_string()));
}

#[test]
fn failed_clone_ends_the_installation() {
    let job = Installation::begin("foo", Origin::Mirror, true)
        .advance(Event::Answered(true))
        .advance(Event::Exited(false));
    assert_eq!(job.request(), Request::Finished { verdict: Verdict::CloneFailed });
    assert_eq!(job.report(), Some("git clone failed for foo (mirror).".to_string()));
    let job = Installation::begin("foo", Origin::Repository, true)
        .advance(Event::Known("foo".to_string()))
        .advance(Event::Answered(true))
        .advance(Event::Exited(false));
    assert_eq!(job.report(), Some("git clone failed for foo (aur).".to_string()));
}

#[test]
fn failed_build_still_removes_the_directory() {
    let job = Installation::begin("foo", Origin::Mirror, true)
        .advance(Event::Answered(true))
        .advance(Event::Exited(true))
        .advance(Event::Answered(false))
        .advance(Event::Exited(false));
    assert_eq!(job.request(), Request::RemoveDir { dir: "foo".to_string() });
    let job = job.advance(Event::Removed);
    assert_eq!(job.request(), Request::Finished { verdict: Verdict::BuildFailed });
    assert_eq!(job.report(), Some("Failed to install foo (build error).".to_string()));
}

#[test]
fn events_out_of_turn_change_nothing() {
    let job = Installation::begin("foo", Origin::Mirror, true);
    let job = job.advance(Event::Exited(true)).advance(Event::Removed);
    assert_eq!(job.stage(), &Stage::Confirming);
    let job = job.advance(Event::Known("bar".to_string()));
    assert_eq!(job.name(), "foo");
    let job = job.advance(Event::Answered(true)).advance(Event::Answered(true));
    assert_eq!(job.stage(), &Stage::Cloning);
}
