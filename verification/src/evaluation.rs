//! What reconciling the installed packages with two metadata sources comes
//! to, stated over the answers that the sources give.
//!
//! The packages are evaluated one by one, in the order in which they are
//! installed. A package of debug symbols is passed over. Of any other package
//! the preferred source is asked first; the fallback source is asked only
//! where the preferred source holds no version. A version that differs from
//! the installed one puts the package on the plan.

use crate::diagnostic::DiagnosticView;
use crate::package::{is_debug_name, Record};
use crate::plan::{lemma_with_name_distinct, with_name};
use crate::resolution::{failure_of, Resolution};
use vstd::prelude::*;

verus! {

/// One of the two metadata sources.
#[derive(Debug, Clone, Copy, PartialEq, Eq)]
pub enum Source {
    /// The source that is asked first, and believed where it holds a version.
    Preferred,
    /// The source that is asked where the preferred one holds no version.
    Fallback,
}

/// The question put to a source: which version of the package `name` it
/// offers.
pub struct QueryView {
    pub source: Source,
    pub name: Seq<char>,
}

/// What the two sources say of one package. The answer of a source that is
/// not asked does not count.
pub struct Answers {
    pub preferred: Resolution,
    pub fallback: Resolution,
}

/// Whether the preferred source is asked about `pkg`.
pub open spec fn asks_preferred(pkg: Record) -> bool {
    !is_debug_name(pkg.name)
}

/// Whether the fallback source is asked about `pkg`, given what the preferred
/// source said.
pub open spec fn asks_fallback(pkg: Record, preferred: Resolution) -> bool {
    !is_debug_name(pkg.name) && !(preferred is Found)
}

/// The answer that settles a package: that of the preferred source where it
/// holds a version, else that of the fallback source.
pub open spec fn decisive(answers: Answers) -> Resolution {
    if answers.preferred is Found {
        answers.preferred
    } else {
        answers.fallback
    }
}

/// Whether `pkg` needs an update: it holds no debug symbols, and the decisive
/// answer holds a version that is not the installed one.
pub open spec fn needs_update(pkg: Record, answers: Answers) -> bool {
    &&& !is_debug_name(pkg.name)
    &&& decisive(answers) matches Resolution::Found(version)
    &&& version != pkg.installed_version
}

/// The questions put to the sources about `pkg`, in order.
pub open spec fn package_queries(pkg: Record, answers: Answers) -> Seq<QueryView> {
    if !asks_preferred(pkg) {
        Seq::empty()
    } else if !asks_fallback(pkg, answers.preferred) {
        seq![QueryView { source: Source::Preferred, name: pkg.name }]
    } else {
        seq![
            QueryView { source: Source::Preferred, name: pkg.name },
            QueryView { source: Source::Fallback, name: pkg.name },
        ]
    }
}

/// The entries that evaluating `pkg` leaves in the log, in order.
pub open spec fn package_diagnostics(pkg: Record, answers: Answers) -> Seq<DiagnosticView> {
    if is_debug_name(pkg.name) {
        seq![DiagnosticView::SkippedDebug { name: pkg.name }]
    } else {
        match failure_of(answers.preferred) {
            None => Seq::empty(),
            Some(first) => match failure_of(answers.fallback) {
                None => seq![DiagnosticView::Fallback { name: pkg.name, reason: first }],
                Some(second) => seq![
                    DiagnosticView::Fallback { name: pkg.name, reason: first },
                    DiagnosticView::Skipped { name: pkg.name, reason: second },
                ],
            },
        }
    }
}

/// The plan after the first `n` packages have been evaluated.
pub open spec fn plan_of(installed: Seq<Record>, answers: Seq<Answers>, n: nat) -> Seq<Seq<char>>
    decreases n,
{
    if n == 0 {
        Seq::empty()
    } else {
        let before = plan_of(installed, answers, (n - 1) as nat);
        if needs_update(installed[n - 1], answers[n - 1]) {
            with_name(before, installed[n - 1].name)
        } else {
            before
        }
    }
}

/// The log after the first `n` packages have been evaluated.
pub open spec fn log_of(installed: Seq<Record>, answers: Seq<Answers>, n: nat) -> Seq<
    DiagnosticView,
>
    decreases n,
{
    if n == 0 {
        Seq::empty()
    } else {
        log_of(installed, answers, (n - 1) as nat) + package_diagnostics(
            installed[n - 1],
            answers[n - 1],
        )
    }
}

/// The questions put to the sources while the first `n` packages were
/// evaluated.
pub open spec fn queries_of(installed: Seq<Record>, answers: Seq<Answers>, n: nat) -> Seq<
    QueryView,
>
    decreases n,
{
    if n == 0 {
        Seq::empty()
    } else {
        queries_of(installed, answers, (n - 1) as nat) + package_queries(
            installed[n - 1],
            answers[n - 1],
        )
    }
}

/// What a reconciliation comes to.
pub struct Outcome {
    pub plan: Seq<Seq<char>>,
    pub diagnostics: Seq<DiagnosticView>,
    pub queries: Seq<QueryView>,
}

/// What reconciling the packages `installed` comes to when the sources answer
/// with `answers`, package by package.
pub open spec fn reconcile(installed: Seq<Record>, answers: Seq<Answers>) -> Outcome {
    Outcome {
        plan: plan_of(installed, answers, installed.len()),
        diagnostics: log_of(installed, answers, installed.len()),
        queries: queries_of(installed, answers, installed.len()),
    }
}

/// Whether two tables of answers agree in every answer that is asked for
/// while the first `n` packages are evaluated.
pub open spec fn same_answers(
    installed: Seq<Record>,
    a: Seq<Answers>,
    b: Seq<Answers>,
    n: nat,
) -> bool {
    forall|i: int|
        0 <= i < n ==> {
            &&& asks_preferred(#[trigger] installed[i]) ==> a[i].preferred == b[i].preferred
            &&& asks_fallback(installed[i], a[i].preferred) ==> a[i].fallback == b[i].fallback
        }
}

/// Whether the answers in `answers` are those of two sources that answer by
/// the name of the package alone: `preferred` and `fallback`.
pub open spec fn answered_by(
    installed: Seq<Record>,
    answers: Seq<Answers>,
    preferred: spec_fn(Seq<char>) -> Resolution,
    fallback: spec_fn(Seq<char>) -> Resolution,
) -> bool {
    &&& answers.len() == installed.len()
    &&& forall|i: int|
        0 <= i < installed.len() ==> {
            &&& asks_preferred(#[trigger] installed[i]) ==> answers[i].preferred == preferred(
                installed[i].name,
            )
            &&& asks_fallback(installed[i], answers[i].preferred) ==> answers[i].fallback
                == fallback(installed[i].name)
        }
}

/// The evaluation of the first `n` packages rests on the answers that it asks
/// for, and on no others.
pub proof fn lemma_same_answers(installed: Seq<Record>, a: Seq<Answers>, b: Seq<Answers>, n: nat)
    requires
        n <= installed.len(),
        same_answers(installed, a, b, n),
    ensures
        plan_of(installed, a, n) == plan_of(installed, b, n),
        log_of(installed, a, n) == log_of(installed, b, n),
        queries_of(installed, a, n) == queries_of(installed, b, n),
    decreases n,
{
    if n > 0 {
        lemma_same_answers(installed, a, b, (n - 1) as nat);
        let pkg = installed[n - 1];
        assert(asks_preferred(pkg) ==> a[n - 1].preferred == b[n - 1].preferred);
        assert(asks_fallback(pkg, a[n - 1].preferred) ==> a[n - 1].fallback == b[n - 1].fallback);
    }
}

/// What is on the plan after `n` packages: the names of those among them that
/// need an update, each once.
pub proof fn lemma_plan(installed: Seq<Record>, answers: Seq<Answers>, n: nat)
    requires
        n <= installed.len(),
    ensures
        plan_of(installed, answers, n).no_duplicates(),
        forall|name: Seq<char>|
            plan_of(installed, answers, n).contains(name) <==> exists|i: int|
                0 <= i < n && #[trigger] installed[i].name == name && needs_update(
                    installed[i],
                    answers[i],
                ),
    decreases n,
{
    if n > 0 {
        let before = plan_of(installed, answers, (n - 1) as nat);
        let after = plan_of(installed, answers, n);
        let pkg = installed[n - 1];
        lemma_plan(installed, answers, (n - 1) as nat);
        lemma_with_name_distinct(before, pkg.name);
        assert forall|name: Seq<char>| after.contains(name) implies exists|i: int|
            0 <= i < n && #[trigger] installed[i].name == name && needs_update(
                installed[i],
                answers[i],
            ) by {
            if before.contains(name) {
                let i = choose|i: int|
                    0 <= i < n - 1 && #[trigger] installed[i].name == name && needs_update(
                        installed[i],
                        answers[i],
                    );
                assert(installed[i].name == name);
            } else {
                assert(installed[n - 1].name == name);
            }
        }
        assert forall|name: Seq<char>|
            (exists|i: int|
                0 <= i < n && #[trigger] installed[i].name == name && needs_update(
                    installed[i],
                    answers[i],
                )) implies after.contains(name) by {
            let i = choose|i: int|
                0 <= i < n && #[trigger] installed[i].name == name && needs_update(
                    installed[i],
                    answers[i],
                );
            if i < n - 1 {
                assert(installed[i].name == name);
                assert(before.contains(name));
            }
        }
    } else {
        assert forall|name: Seq<char>| !plan_of(installed, answers, n).contains(name) by {}
    }
}

/// Whether `name` is the name of one of the first `n` packages that holds no
/// debug symbols.
pub open spec fn names_open_package(installed: Seq<Record>, n: nat, name: Seq<char>) -> bool {
    exists|i: int| 0 <= i < n && asks_preferred(#[trigger] installed[i]) && installed[i].name == name
}

/// Every question is about a package that holds no debug symbols.
pub proof fn lemma_queries(installed: Seq<Record>, answers: Seq<Answers>, n: nat)
    requires
        n <= installed.len(),
    ensures
        forall|k: int|
            0 <= k < queries_of(installed, answers, n).len() ==> names_open_package(
                installed,
                n,
                (#[trigger] queries_of(installed, answers, n)[k]).name,
            ),
    decreases n,
{
    if n > 0 {
        let before = queries_of(installed, answers, (n - 1) as nat);
        let after = queries_of(installed, answers, n);
        lemma_queries(installed, answers, (n - 1) as nat);
        assert forall|k: int| 0 <= k < after.len() implies names_open_package(
            installed,
            n,
            (#[trigger] after[k]).name,
        ) by {
            if k < before.len() {
                assert(after[k] == before[k]);
                assert(names_open_package(installed, (n - 1) as nat, before[k].name));
                let i = choose|i: int|
                    0 <= i < n - 1 && asks_preferred(#[trigger] installed[i]) && installed[i].name
                        == before[k].name;
                assert(asks_preferred(installed[i]));
            } else {
                assert(asks_preferred(installed[n - 1]));
            }
        }
    }
}

/// The names on the plan stand in the order of the packages: of two names, the
/// one that stands first belongs to a package that is installed before a
/// package of the other.
pub proof fn law_plan_keeps_the_order(installed: Seq<Record>, answers: Seq<Answers>, n: nat, a: int, b: int)
    requires
        n <= installed.len(),
        0 <= a < b < plan_of(installed, answers, n).len(),
    ensures
        exists|i: int, j: int|
            0 <= i < j < n && #[trigger] installed[i].name == plan_of(installed, answers, n)[a]
                && #[trigger] installed[j].name == plan_of(installed, answers, n)[b],
    decreases n,
{
    let plan = plan_of(installed, answers, n);
    let before = plan_of(installed, answers, (n - 1) as nat);
    if b < before.len() {
        law_plan_keeps_the_order(installed, answers, (n - 1) as nat, a, b);
        let (i, j) = choose|i: int, j: int|
            0 <= i < j < n - 1 && #[trigger] installed[i].name == before[a]
                && #[trigger] installed[j].name == before[b];
        assert(installed[i].name == plan[a] && installed[j].name == plan[b]);
    } else {
        lemma_plan(installed, answers, (n - 1) as nat);
        assert(before.contains(before[a]));
        let i = choose|i: int|
            0 <= i < n - 1 && #[trigger] installed[i].name == before[a] && needs_update(
                installed[i],
                answers[i],
            );
        assert(installed[i].name == plan[a] && installed[n - 1].name == plan[b]);
    }
}

/// No name stands on the plan twice.
pub proof fn law_plan_names_are_distinct(installed: Seq<Record>, answers: Seq<Answers>)
    ensures
        reconcile(installed, answers).plan.no_duplicates(),
{
    lemma_plan(installed, answers, installed.len());
}

/// A package of debug symbols is left out: no source is asked about its name,
/// and its name is not put on the plan.
pub proof fn law_debug_packages_are_left_out(
    installed: Seq<Record>,
    answers: Seq<Answers>,
    name: Seq<char>,
)
    requires
        is_debug_name(name),
    ensures
        !reconcile(installed, answers).plan.contains(name),
        forall|k: int|
            0 <= k < reconcile(installed, answers).queries.len() ==> (#[trigger] reconcile(
                installed,
                answers,
            ).queries[k]).name != name,
{
    lemma_plan(installed, answers, installed.len());
    lemma_queries(installed, answers, installed.len());
}

/// Where the preferred source holds the installed version of a package, the
/// package is settled: the fallback source is not asked about it, and its
/// evaluation puts nothing on the plan. Its name is then on no plan, unless
/// another package of that name is installed.
pub proof fn law_current_version_settles(installed: Seq<Record>, answers: Seq<Answers>, i: int)
    requires
        0 <= i < installed.len(),
        answers[i].preferred == Resolution::Found(installed[i].installed_version),
    ensures
        forall|k: int|
            0 <= k < package_queries(installed[i], answers[i]).len() ==> (#[trigger] package_queries(
                installed[i],
                answers[i],
            )[k]).source != Source::Fallback,
        plan_of(installed, answers, (i + 1) as nat) == plan_of(installed, answers, i as nat),
        (forall|j: int| 0 <= j < installed.len() && j != i ==> installed[j].name != installed[i].name)
            ==> !reconcile(installed, answers).plan.contains(installed[i].name),
{
    lemma_plan(installed, answers, installed.len());
}

/// Where the preferred source holds no version of a package, because it does
/// not know the package or for another reason, the fallback source is asked
/// about it once, right after the preferred one.
pub proof fn law_fallback_is_asked_once(installed: Seq<Record>, answers: Seq<Answers>, i: int)
    requires
        0 <= i < installed.len(),
        !is_debug_name(installed[i].name),
        !(answers[i].preferred is Found),
    ensures
        package_queries(installed[i], answers[i]) == seq![
            QueryView { source: Source::Preferred, name: installed[i].name },
            QueryView { source: Source::Fallback, name: installed[i].name },
        ],
        queries_of(installed, answers, (i + 1) as nat) == queries_of(installed, answers, i as nat)
            + package_queries(installed[i], answers[i]),
{
}

/// How often a question about a package is put, all in all, when no other
/// package has its name: the questions about the other packages are about
/// other names.
proof fn lemma_times_asked(
    installed: Seq<Record>,
    answers: Seq<Answers>,
    i: int,
    query: QueryView,
    n: nat,
)
    requires
        0 <= i < installed.len(),
        n <= installed.len(),
        query.name == installed[i].name,
        forall|j: int| 0 <= j < installed.len() && j != i ==> installed[j].name != installed[i].name,
    ensures
        queries_of(installed, answers, n).to_multiset().count(query) == if i < n {
            package_queries(installed[i], answers[i]).to_multiset().count(query)
        } else {
            0
        },
    decreases n,
{
    broadcast use vstd::seq_lib::group_to_multiset_ensures;

    if n == 0 {
        assert(!queries_of(installed, answers, n).contains(query));
    } else {
        let before = queries_of(installed, answers, (n - 1) as nat);
        let here = package_queries(installed[n - 1], answers[n - 1]);
        lemma_times_asked(installed, answers, i, query, (n - 1) as nat);
        vstd::seq_lib::lemma_multiset_commutative(before, here);
        if n - 1 != i {
            assert(!here.contains(query)) by {
                if here.contains(query) {
                    let k = choose|k: int| 0 <= k < here.len() && here[k] == query;
                    assert(here[k].name == installed[n - 1].name);
                }
            }
        }
    }
}

/// Where the preferred source holds no version of a package, and no other
/// package is installed under its name, the fallback source is asked about
/// that name once in the whole reconciliation.
pub proof fn law_fallback_is_asked_once_in_all(
    installed: Seq<Record>,
    answers: Seq<Answers>,
    i: int,
)
    requires
        0 <= i < installed.len(),
        !is_debug_name(installed[i].name),
        !(answers[i].preferred is Found),
        forall|j: int| 0 <= j < installed.len() && j != i ==> installed[j].name != installed[i].name,
    ensures
        reconcile(installed, answers).queries.to_multiset().count(
            QueryView { source: Source::Fallback, name: installed[i].name },
        ) == 1,
{
    broadcast use vstd::seq_lib::group_to_multiset_ensures;

    let first = QueryView { source: Source::Preferred, name: installed[i].name };
    let second = QueryView { source: Source::Fallback, name: installed[i].name };
    lemma_times_asked(installed, answers, i, second, installed.len());
    let here = package_queries(installed[i], answers[i]);
    assert(here =~= seq![first].push(second));
    assert(!seq![first].contains(second));
}

/// A name is on the plan if, and only if, it is the name of an installed
/// package that needs an update: one that holds no debug symbols, and of which
/// the decisive source offers a version other than the installed one. So
/// nothing is planned on a failure.
pub proof fn law_plan_holds_what_needs_an_update(
    installed: Seq<Record>,
    answers: Seq<Answers>,
    name: Seq<char>,
)
    ensures
        reconcile(installed, answers).plan.contains(name) <==> exists|i: int|
            0 <= i < installed.len() && #[trigger] installed[i].name == name && needs_update(
                installed[i],
                answers[i],
            ),
{
    lemma_plan(installed, answers, installed.len());
}

/// Every failure of the preferred source counts alike: whatever the reason,
/// the fallback source is asked, and its answer decides.
pub proof fn law_failures_fall_back_alike(pkg: Record, one: Answers, other: Answers)
    requires
        !(one.preferred is Found),
        !(other.preferred is Found),
        one.fallback == other.fallback,
    ensures
        needs_update(pkg, one) == needs_update(pkg, other),
        package_queries(pkg, one) == package_queries(pkg, other),
{
}

/// Two reconciliations of the same packages with the same two sources, each of
/// which answers by the name of the package alone, come to the same plan, the
/// same log and the same questions.
pub proof fn law_deterministic(
    installed: Seq<Record>,
    preferred: spec_fn(Seq<char>) -> Resolution,
    fallback: spec_fn(Seq<char>) -> Resolution,
    first: Seq<Answers>,
    second: Seq<Answers>,
)
    requires
        answered_by(installed, first, preferred, fallback),
        answered_by(installed, second, preferred, fallback),
    ensures
        reconcile(installed, first) == reconcile(installed, second),
{
    assert(same_answers(installed, first, second, installed.len())) by {
        assert forall|i: int| 0 <= i < installed.len() implies {
            &&& asks_preferred(#[trigger] installed[i]) ==> first[i].preferred
                == second[i].preferred
            &&& asks_fallback(installed[i], first[i].preferred) ==> first[i].fallback
                == second[i].fallback
        } by {
            assert(asks_preferred(installed[i]) ==> second[i].preferred == preferred(
                installed[i].name,
            ));
        }
    }
    lemma_same_answers(installed, first, second, installed.len());
}

} // verus!
