//! The reconciliation as a machine that asks one question at a time.
//!
//! A [`Reconciler`] holds the installed packages and walks through them. It
//! names the question that is to be put to a source next, takes the answer,
//! and moves on. Who drives it puts the questions: [`plan_updates`] does so
//! for two sources that implement [`MetadataSource`].

use crate::diagnostic::{log_view, Diagnostic, DiagnosticView};
use crate::evaluation::{
    asks_preferred, lemma_plan, lemma_same_answers, log_of, names_open_package, needs_update,
    package_diagnostics, plan_of, queries_of, reconcile, same_answers, Answers, QueryView, Source,
};
use crate::package::{is_debug_name, is_debug_package, records, PackageRecord, Record};
use crate::plan::UpdatePlan;
use crate::resolution::{failure_of, Resolution, VersionResolution};
use vstd::prelude::*;

verus! {

/// A question for a source: which version of the package `name` it offers.
#[derive(Debug, Clone, PartialEq, Eq)]
pub struct Query {
    pub source: Source,
    pub name: String,
}

impl View for Query {
    type V = QueryView;

    open spec fn view(&self) -> QueryView {
        QueryView { source: self.source, name: self.name@ }
    }
}

/// The index of the first package from `from` on that holds no debug symbols;
/// the number of packages when there is none.
pub open spec fn next_open(installed: Seq<Record>, from: nat) -> nat
    decreases installed.len() - from,
{
    if from < installed.len() && is_debug_name(installed[from as int].name) {
        next_open(installed, from + 1)
    } else {
        from
    }
}

/// The table `answers` with `answer` put down as what `source` said of the
/// package at `index`.
pub open spec fn with_answer(
    answers: Seq<Answers>,
    index: nat,
    source: Source,
    answer: Resolution,
) -> Seq<Answers> {
    match source {
        Source::Preferred => answers.update(
            index as int,
            Answers { preferred: answer, fallback: answers[index as int].fallback },
        ),
        Source::Fallback => answers.update(
            index as int,
            Answers { preferred: answers[index as int].preferred, fallback: answer },
        ),
    }
}

/// What reconciling has come to: the plan and the log.
#[derive(Debug, PartialEq, Eq)]
pub struct Reconciliation {
    pub plan: UpdatePlan,
    pub diagnostics: Vec<Diagnostic>,
}

/// The reconciliation of a list of installed packages, under way.
pub struct Reconciler<'a> {
    installed: &'a [PackageRecord],
    position: usize,
    stage: Source,
    plan: UpdatePlan,
    diagnostics: Vec<Diagnostic>,
    answers: Ghost<Seq<Answers>>,
}

impl<'a> Reconciler<'a> {
    /// The packages that are reconciled.
    pub closed spec fn installed(&self) -> Seq<Record> {
        records(self.installed@)
    }

    /// The index of the package under evaluation: the packages before it are
    /// settled. It is the number of packages when all are settled.
    pub closed spec fn position(&self) -> nat {
        self.position as nat
    }

    /// The source whose answer the package under evaluation waits for.
    pub closed spec fn stage(&self) -> Source {
        self.stage
    }

    /// The answers taken so far, package by package. Where no answer has been
    /// taken, the entry says nothing.
    pub closed spec fn answers(&self) -> Seq<Answers> {
        self.answers@
    }

    /// The question that is to be put next; none when all packages are
    /// settled.
    pub open spec fn pending(&self) -> Option<QueryView> {
        if self.position() < self.installed().len() {
            Some(
                QueryView {
                    source: self.stage(),
                    name: self.installed()[self.position() as int].name,
                },
            )
        } else {
            None
        }
    }

    /// The entry that the log holds of the package under evaluation: where it
    /// waits for the fallback source, that the preferred source failed.
    pub open spec fn pending_note(&self) -> Seq<DiagnosticView> {
        if self.stage() == Source::Fallback {
            seq![
                DiagnosticView::Fallback {
                    name: self.installed()[self.position() as int].name,
                    reason: failure_of(self.answers()[self.position() as int].preferred)->0,
                },
            ]
        } else {
            Seq::empty()
        }
    }

    /// The plan so far.
    pub open spec fn plan_so_far(&self) -> Seq<Seq<char>> {
        plan_of(self.installed(), self.answers(), self.position())
    }

    /// The log so far.
    pub open spec fn log_so_far(&self) -> Seq<DiagnosticView> {
        log_of(self.installed(), self.answers(), self.position()) + self.pending_note()
    }

    /// The questions that have been answered so far.
    pub open spec fn asked(&self) -> Seq<QueryView> {
        queries_of(self.installed(), self.answers(), self.position()) + if self.stage()
            == Source::Fallback {
            seq![
                QueryView {
                    source: Source::Preferred,
                    name: self.installed()[self.position() as int].name,
                },
            ]
        } else {
            Seq::empty()
        }
    }

    /// A reconciler for the packages `installed`, with the first question
    /// pending.
    pub fn new(installed: &'a [PackageRecord]) -> (r: Reconciler<'a>)
        ensures
            r.installed() == records(installed@),
            r.position() == next_open(records(installed@), 0),
            r.stage() == Source::Preferred,
            r.asked() == Seq::<QueryView>::empty(),
    {
        let ghost nothing = Answers {
            preferred: Resolution::NotFound,
            fallback: Resolution::NotFound,
        };
        let ghost answers = Seq::new(installed@.len(), |i: int| nothing);
        let diagnostics: Vec<Diagnostic> = Vec::new();
        assert(log_view(diagnostics@) =~= Seq::<DiagnosticView>::empty());
        Self::settled(installed, 0, UpdatePlan::new(), diagnostics, Ghost(answers))
    }

    /// The reconciler that stands at the first package from `from` on that
    /// holds no debug symbols, with an entry in the log for each package
    /// passed over.
    fn settled(
        installed: &'a [PackageRecord],
        from: usize,
        plan: UpdatePlan,
        diagnostics: Vec<Diagnostic>,
        answers: Ghost<Seq<Answers>>,
    ) -> (r: Reconciler<'a>)
        requires
            from <= installed@.len(),
            answers@.len() == installed@.len(),
            plan@ == plan_of(records(installed@), answers@, from as nat),
            log_view(diagnostics@) == log_of(records(installed@), answers@, from as nat),
        ensures
            r.installed() == records(installed@),
            r.answers() == answers@,
            r.stage() == Source::Preferred,
            r.position() == next_open(records(installed@), from as nat),
            queries_of(r.installed(), r.answers(), r.position()) == queries_of(
                records(installed@),
                answers@,
                from as nat,
            ),
    {
        let mut diagnostics = diagnostics;
        let mut position = from;
        while position < installed.len() && is_debug_package(installed[position].name.as_str())
            invariant
                from <= position <= installed@.len(),
                answers@.len() == installed@.len(),
                next_open(records(installed@), position as nat) == next_open(
                    records(installed@),
                    from as nat,
                ),
                plan@ == plan_of(records(installed@), answers@, position as nat),
                log_view(diagnostics@) == log_of(records(installed@), answers@, position as nat),
                queries_of(records(installed@), answers@, position as nat) == queries_of(
                    records(installed@),
                    answers@,
                    from as nat,
                ),
            decreases installed@.len() - position,
        {
            let ghost before = diagnostics@;
            diagnostics.push(Diagnostic::SkippedDebug { name: installed[position].name.clone() });
            proof {
                let note = DiagnosticView::SkippedDebug {
                    name: records(installed@)[position as int].name,
                };
                assert(log_view(diagnostics@) =~= log_view(before).push(note));
                assert(log_of(records(installed@), answers@, (position + 1) as nat) =~= log_of(
                    records(installed@),
                    answers@,
                    position as nat,
                ).push(note));
                assert(queries_of(records(installed@), answers@, (position + 1) as nat)
                    =~= queries_of(records(installed@), answers@, position as nat));
            }
            position += 1;
        }
        Reconciler { installed, position, stage: Source::Preferred, plan, diagnostics, answers }
    }

    /// Takes `answer` as the answer to the pending question and moves on.
    ///
    /// A version settles the package; it goes on the plan where the version
    /// differs from the installed one. Without a version, the preferred source
    /// is followed by the fallback source, and the fallback source by the
    /// next package. Either failure is put down in the log. With no question
    /// pending the answer is dropped.
    pub fn answer(self, answer: VersionResolution) -> (next: Reconciler<'a>)
        ensures
            next.installed() == self.installed(),
            match self.pending() {
                None => {
                    &&& next.position() == self.position()
                    &&& next.stage() == self.stage()
                    &&& next.answers() == self.answers()
                },
                Some(query) => {
                    &&& next.answers() == with_answer(
                        self.answers(),
                        self.position(),
                        self.stage(),
                        answer@,
                    )
                    &&& next.asked() == self.asked().push(query)
                    &&& if answer@ is Found || self.stage() == Source::Fallback {
                        &&& next.position() == next_open(self.installed(), self.position() + 1)
                        &&& next.stage() == Source::Preferred
                    } else {
                        &&& next.position() == self.position()
                        &&& next.stage() == Source::Fallback
                    }
                },
            },
    {
        proof {
            use_type_invariant(&self);
        }
        if self.position >= self.installed.len() {
            return self;
        }
        let ghost installed = self.installed();
        let ghost before = self.answers();
        let ghost at = self.position();
        let ghost after = with_answer(before, at, self.stage(), answer@);
        proof {
            assert(same_answers(installed, before, after, at));
            lemma_same_answers(installed, before, after, at);
        }
        let Reconciler { installed: packages, position, stage, plan, diagnostics, answers: _ } =
            self;
        let pkg = &packages[position];
        let mut diagnostics = diagnostics;
        match answer.into_result() {
            Ok(version) => {
                let plan = if version == pkg.installed_version {
                    plan
                } else {
                    plan.with(pkg.name.clone())
                };
                proof {
                    let notes = package_diagnostics(installed[at as int], after[at as int]);
                    if stage == Source::Preferred {
                        assert(notes =~= Seq::<DiagnosticView>::empty());
                        assert(log_of(installed, after, at + 1) =~= log_of(installed, after, at));
                    } else {
                        assert(log_of(installed, after, at + 1) =~= log_view(diagnostics@));
                    }
                }
                Self::settled(packages, position + 1, plan, diagnostics, Ghost(after))
            },
            Err(reason) => {
                let ghost earlier = diagnostics@;
                match stage {
                    Source::Preferred => {
                        diagnostics.push(Diagnostic::Fallback { name: pkg.name.clone(), reason });
                        proof {
                            let note = DiagnosticView::Fallback {
                                name: installed[at as int].name,
                                reason: reason@,
                            };
                            assert(log_view(diagnostics@) =~= log_view(earlier).push(note));
                            assert(log_view(diagnostics@) =~= log_of(installed, after, at) + seq![
                                note,
                            ]);
                        }
                        Reconciler {
                            installed: packages,
                            position,
                            stage: Source::Fallback,
                            plan,
                            diagnostics,
                            answers: Ghost(after),
                        }
                    },
                    Source::Fallback => {
                        diagnostics.push(Diagnostic::Skipped { name: pkg.name.clone(), reason });
                        proof {
                            let note = DiagnosticView::Skipped {
                                name: installed[at as int].name,
                                reason: reason@,
                            };
                            assert(log_view(diagnostics@) =~= log_view(earlier).push(note));
                            assert(log_of(installed, after, at + 1) =~= log_view(diagnostics@));
                        }
                        Self::settled(packages, position + 1, plan, diagnostics, Ghost(after))
                    },
                }
            },
        }
    }

    /// Whether all packages are settled.
    pub fn is_done(&self) -> (r: bool)
        ensures
            r == (self.pending() is None),
    {
        proof {
            use_type_invariant(self);
        }
        self.position >= self.installed.len()
    }

    /// The question that is to be put next; none when all packages are
    /// settled. It is never about a package of debug symbols.
    pub fn query(&self) -> (r: Option<Query>)
        ensures
            match r {
                Some(query) => self.pending() == Some(query@) && !is_debug_name(query@.name),
                None => self.pending() is None,
            },
    {
        proof {
            use_type_invariant(self);
        }
        if self.position < self.installed.len() {
            Some(Query { source: self.stage, name: self.installed[self.position].name.clone() })
        } else {
            None
        }
    }

    /// The plan so far: the names of the settled packages that need an
    /// update.
    pub fn plan(&self) -> (r: &UpdatePlan)
        ensures
            r@ == self.plan_so_far(),
    {
        proof {
            use_type_invariant(self);
        }
        &self.plan
    }

    /// The log so far.
    pub fn diagnostics(&self) -> (r: &Vec<Diagnostic>)
        ensures
            log_view(r@) == self.log_so_far(),
    {
        proof {
            use_type_invariant(self);
        }
        &self.diagnostics
    }

    /// Ends the reconciliation and hands out the plan and the log as they
    /// stand.
    pub fn finish(self) -> (r: Reconciliation)
        ensures
            r.plan@ == self.plan_so_far(),
            log_view(r.diagnostics@) == self.log_so_far(),
    {
        proof {
            use_type_invariant(&self);
        }
        Reconciliation { plan: self.plan, diagnostics: self.diagnostics }
    }

    #[verifier::type_invariant]
    spec fn consistent(&self) -> bool {
        &&& self.position() <= self.installed().len()
        &&& self.answers().len() == self.installed().len()
        &&& self.position() < self.installed().len() ==> !is_debug_name(
            self.installed()[self.position() as int].name,
        )
        &&& self.stage() == Source::Fallback ==> {
            &&& self.position() < self.installed().len()
            &&& failure_of(self.answers()[self.position() as int].preferred) is Some
        }
        &&& self.plan@ == self.plan_so_far()
        &&& log_view(self.diagnostics@) == self.log_so_far()
    }
}

/// `next_open` stays among the packages, passes over packages of debug symbols
/// only, and stops at a package that holds none.
pub proof fn lemma_next_open(installed: Seq<Record>, from: nat)
    requires
        from <= installed.len(),
    ensures
        from <= next_open(installed, from) <= installed.len(),
        forall|i: int| from <= i < next_open(installed, from) ==> is_debug_name(installed[i].name),
        next_open(installed, from) < installed.len() ==> !is_debug_name(
            installed[next_open(installed, from) as int].name,
        ),
    decreases installed.len() - from,
{
    if from < installed.len() && is_debug_name(installed[from as int].name) {
        lemma_next_open(installed, from + 1);
    }
}

/// A source of package metadata: something that can be asked which version
/// of a package it offers.
///
/// An answer is final for the run: a source is not asked twice about one
/// package on one evaluation of it.
pub trait MetadataSource {
    /// The version that the source offers of the package `name`.
    fn resolve_version(&mut self, name: &str) -> VersionResolution;
}

/// Finds the installed packages that need an update.
///
/// The packages are evaluated in the order of `installed`, each as far as it
/// needs: `preferred` is asked about every package that holds no debug
/// symbols, `fallback` about those of which `preferred` holds no version. The
/// result is what [`reconcile`] states for the answers that came back. Whatever
/// they were, the plan names installed packages without debug symbols, each
/// once.
pub fn plan_updates<P: MetadataSource, F: MetadataSource>(
    installed: &[PackageRecord],
    preferred: &mut P,
    fallback: &mut F,
) -> (r: Reconciliation)
    ensures
        exists|answers: Seq<Answers>|
            {
                &&& answers.len() == installed@.len()
                &&& r.plan@ == (#[trigger] reconcile(records(installed@), answers)).plan
                &&& log_view(r.diagnostics@) == reconcile(records(installed@), answers).diagnostics
            },
        r.plan@.no_duplicates(),
        forall|k: int|
            0 <= k < r.plan@.len() ==> names_open_package(
                records(installed@),
                installed@.len(),
                #[trigger] r.plan@[k],
            ),
{
    let mut machine = Reconciler::new(installed);
    proof {
        use_type_invariant(&machine);
    }
    loop
        invariant
            machine.installed() == records(installed@),
            machine.position() <= installed@.len(),
            machine.answers().len() == installed@.len(),
        ensures
            machine.pending() is None,
        decreases 2 * (installed@.len() - machine.position()) - if machine.stage()
            == Source::Fallback {
            1int
        } else {
            0int
        },
    {
        let ghost before = machine.position();
        match machine.query() {
            None => {
                break ;
            },
            Some(query) => {
                let answer = match query.source {
                    Source::Preferred => preferred.resolve_version(query.name.as_str()),
                    Source::Fallback => fallback.resolve_version(query.name.as_str()),
                };
                proof {
                    lemma_next_open(machine.installed(), before + 1);
                }
                machine = machine.answer(answer);
                proof {
                    use_type_invariant(&machine);
                }
            },
        }
    }
    let ghost answers = machine.answers();
    proof {
        use_type_invariant(&machine);
        assert(machine.pending_note() =~= Seq::<DiagnosticView>::empty());
    }
    let r = machine.finish();
    proof {
        assert(r.plan@ == reconcile(records(installed@), answers).plan);
        assert(log_view(r.diagnostics@) =~= reconcile(records(installed@), answers).diagnostics);
        lemma_plan(records(installed@), answers, installed@.len());
        assert forall|k: int| 0 <= k < r.plan@.len() implies names_open_package(
            records(installed@),
            installed@.len(),
            #[trigger] r.plan@[k],
        ) by {
            let name = r.plan@[k];
            assert(r.plan@.contains(name));
            let i = choose|i: int|
                0 <= i < installed@.len() && #[trigger] records(installed@)[i].name == name
                    && needs_update(records(installed@)[i], answers[i]);
            assert(asks_preferred(records(installed@)[i]));
        }
    }
    r
}

} // verus!
