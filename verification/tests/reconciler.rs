use raur::diagnostic::Diagnostic;
use raur::evaluation::Source;
use raur::package::PackageRecord;
use raur::reconciler::{plan_updates, MetadataSource, Query, Reconciler};
use raur::resolution::{Failure, VersionResolution};

/// A source that answers from a table and notes what it was asked.
struct Stub {
    table: Vec<(String, VersionResolution)>,
    asked: Vec<String>,
}

impl Stub {
    fn new(table: &[(&str, VersionResolution)]) -> Stub {
        Stub {
            table: table.iter().map(|(n, r)| (n.to_string(), r.clone())).collect(),
            asked: Vec::new(),
        }
    }
}

impl MetadataSource for Stub {
    fn resolve_version(&mut self, name: &str) -> VersionResolution {
        self.asked.push(name.to_string());
        for (n, r) in &self.table {
            if n == name {
                return r.clone();
            }
        }
        VersionResolution::NotFound
    }
}

fn pkg(name: &str, version: &str) -> PackageRecord {
    PackageRecord { name: name.to_string(), installed_version: version.to_string() }
}

fn found(version: &str) -> VersionResolution {
    VersionResolution::Found(version.to_string())
}

fn names(list: &[&str]) -> Vec<String> {
    list.iter().map(|s| s.to_string()).collect()
}

#[test]
fn current_package_is_not_planned() {
    let installed = vec![pkg("foo", "1.0")];
    let mut preferred = Stub::new(&[("foo", found("1.0"))]);
    let mut fallback = Stub::new(&[("foo", found("2.0"))]);
    let r = plan_updates(&installed, &mut preferred, &mut fallback);
    assert!(r.plan.is_empty());
    assert_eq!(r.plan.names(), &names(&[]));
    assert!(r.diagnostics.is_empty());
    assert_eq!(preferred.asked, names(&["foo"]));
    assert!(fallback.asked.is_empty());
}

#[test]
fn fallback_decides_where_preferred_does_not_know() {
    let installed = vec![pkg("foo", "1.0")];
    let mut preferred = Stub::new(&[]);
    let mut fallback = Stub::new(&[("foo", found("2.0"))]);
    let r = plan_updates(&installed, &mut preferred, &mut fallback);
    assert_eq!(r.plan.names(), &names(&["foo"]));
    assert_eq!(
        r.diagnostics,
        vec![Diagnostic::Fallback { name: "foo".to_string(), reason: Failure::NotFound }]
    );
    assert_eq!(preferred.asked, names(&["foo"]));
    assert_eq!(fallback.asked, names(&["foo"]));
}

#[test]
fn outdated_package_is_planned_without_fallback() {
    let installed = vec![pkg("foo", "1.0")];
    let mut preferred = Stub::new(&[("foo", found("1.1"))]);
    let mut fallback = Stub::new(&[]);
    let r = plan_updates(&installed, &mut preferred, &mut fallback);
    assert_eq!(r.plan.names(), &names(&["foo"]));
    assert!(r.diagnostics.is_empty());
    assert!(fallback.asked.is_empty());
}

#[test]
fn versions_are_compared_as_text() {
    let installed = vec![pkg("a", "1.0"), pkg("b", "2.0-1"), pkg("c", "1:3")];
    let mut preferred =
        Stub::new(&[("a", found("1.00")), ("b", found("1.0-1")), ("c", found("1:3"))]);
    let mut fallback = Stub::new(&[]);
    let r = plan_updates(&installed, &mut preferred, &mut fallback);
    assert_eq!(r.plan.names(), &names(&["a", "b"]));
}

#[test]
fn debug_packages_are_never_asked_about() {
    let installed = vec![pkg("foo-debug", "1.0"), pkg("bar", "1.0"), pkg("Baz-DbgSym", "1.0")];
    let mut preferred = Stub::new(&[
        ("foo-debug", found("2.0")),
        ("bar", found("2.0")),
        ("Baz-DbgSym", found("2.0")),
    ]);
    let mut fallback = Stub::new(&[("foo-debug", found("2.0"))]);
    let r = plan_updates(&installed, &mut preferred, &mut fallback);
    assert_eq!(r.plan.names(), &names(&["bar"]));
    assert_eq!(
        r.diagnostics,
        vec![
            Diagnostic::SkippedDebug { name: "foo-debug".to_string() },
            Diagnostic::SkippedDebug { name: "Baz-DbgSym".to_string() },
        ]
    );
    assert_eq!(preferred.asked, names(&["bar"]));
    assert!(fallback.asked.is_empty());
}

#[test]
fn failures_of_both_sources_skip_the_package() {
    let installed = vec![pkg("foo", "1.0"), pkg("bar", "1.0")];
    let mut preferred = Stub::new(&[
        ("foo", VersionResolution::Unparseable),
        ("bar", VersionResolution::SourceError("timeout".to_string())),
    ]);
    let mut fallback = Stub::new(&[("foo", VersionResolution::SourceError("refused".to_string()))]);
    let r = plan_updates(&installed, &mut preferred, &mut fallback);
    assert!(r.plan.is_empty());
    assert_eq!(
        r.diagnostics,
        vec![
            Diagnostic::Fallback { name: "foo".to_string(), reason: Failure::Unparseable },
            Diagnostic::Skipped {
                name: "foo".to_string(),
                reason: Failure::SourceError("refused".to_string())
            },
            Diagnostic::Fallback {
                name: "bar".to_string(),
                reason: Failure::SourceError("timeout".to_string())
            },
            Diagnostic::Skipped { name: "bar".to_string(), reason: Failure::NotFound },
        ]
    );
    assert_eq!(preferred.asked, names(&["foo", "bar"]));
    assert_eq!(fallback.asked, names(&["foo", "bar"]));
}

#[test]
fn fallback_with_the_installed_version_plans_nothing() {
    let installed = vec![pkg("foo", "1.0")];
    let mut preferred = Stub::new(&[("foo", VersionResolution::Unparseable)]);
    let mut fallback = Stub::new(&[("foo", found("1.0"))]);
    let r = plan_updates(&installed, &mut preferred, &mut fallback);
    assert!(r.plan.is_empty());
    assert_eq!(
        r.diagnostics,
        vec![Diagnostic::Fallback { name: "foo".to_string(), reason: Failure::Unparseable }]
    );
}

#[test]
fn plan_keeps_the_order_of_the_packages() {
    let installed = vec![pkg("zeta", "1"), pkg("alpha", "1"), pkg("mid", "1"), pkg("beta", "1")];
    let mut preferred = Stub::new(&[
        ("zeta", found("2")),
        ("alpha", found("1")),
        ("mid", found("2")),
    ]);
    let mut fallback = Stub::new(&[("beta", found("2"))]);
    let r = plan_updates(&installed, &mut preferred, &mut fallback);
    assert_eq!(r.plan.names(), &names(&["zeta", "mid", "beta"]));
    assert_eq!(r.plan.len(), 3);
    assert!(r.plan.contains("mid"));
    assert!(!r.plan.contains("alpha"));
}

#[test]
fn a_name_is_planned_once() {
    let installed = vec![pkg("foo", "1.0"), pkg("bar", "1.0"), pkg("foo", "1.1")];
    let mut preferred = Stub::new(&[("foo", found("2.0")), ("bar", found("2.0"))]);
    let mut fallback = Stub::new(&[]);
    let r = plan_updates(&installed, &mut preferred, &mut fallback);
    assert_eq!(r.plan.names(), &names(&["foo", "bar"]));
    assert_eq!(preferred.asked, names(&["foo", "bar", "foo"]));
}

#[test]
fn nothing_installed_plans_nothing() {
    let mut preferred = Stub::new(&[]);
    let mut fallback = Stub::new(&[]);
    let r = plan_updates(&[], &mut preferred, &mut fallback);
    assert!(r.plan.is_empty());
    assert!(r.diagnostics.is_empty());
    assert!(preferred.asked.is_empty());
}

#[test]
fn same_sources_give_the_same_outcome() {
    let installed = vec![pkg("a", "1"), pkg("b-dbg", "1"), pkg("c", "1"), pkg("d", "1")];
    let table = [
        ("a", found("2")),
        ("c", VersionResolution::Unparseable),
        ("d", VersionResolution::SourceError("x".to_string())),
    ];
    let other = [("c", found("3"))];
    let first = plan_updates(&installed, &mut Stub::new(&table), &mut Stub::new(&other));
    let second = plan_updates(&installed, &mut Stub::new(&table), &mut Stub::new(&other));
    assert_eq!(first.plan, second.plan);
    assert_eq!(first.diagnostics, second.diagnostics);
    assert_eq!(first.plan.names(), &names(&["a", "c"]));
}

#[test]
fn machine_asks_one_question_at_a_time() {
    let installed = vec![pkg("x-debug", "1"), pkg("foo", "1.0"), pkg("bar", "1.0")];
    let machine = Reconciler::new(&installed);
    assert!(!machine.is_done());
    assert_eq!(
        machine.query(),
        Some(Query { source: Source::Preferred, name: "foo".to_string() })
    );
    assert_eq!(
        machine.diagnostics(),
        &vec![Diagnostic::SkippedDebug { name: "x-debug".to_string() }]
    );
    let machine = machine.answer(VersionResolution::NotFound);
    assert_eq!(
        machine.query(),
        Some(Query { source: Source::Fallback, name: "foo".to_string() })
    );
    assert_eq!(machine.diagnostics().len(), 2);
    let machine = machine.answer(found("2.0"));
    assert_eq!(
        machine.query(),
        Some(Query { source: Source::Preferred, name: "bar".to_string() })
    );
    assert_eq!(machine.plan().names(), &names(&["foo"]));
    let machine = machine.answer(found("1.0"));
    assert!(machine.is_done());
    assert_eq!(machine.query(), None);
    let machine = machine.answer(found("9"));
    assert!(machine.is_done());
    let r = machine.finish();
    assert_eq!(r.plan.names(), &names(&["foo"]));
    assert_eq!(
        r.diagnostics,
        vec![
            Diagnostic::SkippedDebug { name: "x-debug".to_string() },
            Diagnostic::Fallback { name: "foo".to_string(), reason: Failure::NotFound },
        ]
    );
}

#[test]
fn diagnostics_read_as_lines() {
    assert_eq!(
        Diagnostic::SkippedDebug { name: "foo-debug".to_string() }.message(),
        "Skipping debug package: foo-debug"
    );
    assert_eq!(
        Diagnostic::Fallback { name: "foo".to_string(), reason: Failure::NotFound }.message(),
        "foo: not found; asking the fallback source"
    );
    assert_eq!(
        Diagnostic::Fallback { name: "foo".to_string(), reason: Failure::Unparseable }.message(),
        "foo: version is computed by the recipe; asking the fallback source"
    );
    assert_eq!(
        Diagnostic::Skipped {
            name: "foo".to_string(),
            reason: Failure::SourceError("connection refused".to_string())
        }
        .message(),
        "foo: connection refused; skipping"
    );
    assert_eq!(
        Diagnostic::Skipped { name: "bar".to_string(), reason: Failure::NotFound }.package(),
        "bar"
    );
}
