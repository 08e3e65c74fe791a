//! The packages that are to be updated.

use crate::text::strings;
use vstd::prelude::*;

verus! {

/// The names of the packages that need an update, in the order in which the
/// packages were found to need one. No name stands in a plan twice.
#[derive(Debug, PartialEq, Eq)]
pub struct UpdatePlan {
    names: Vec<String>,
}

/// The plan `plan` with `name` at its end, unless it holds the name already.
pub open spec fn with_name(plan: Seq<Seq<char>>, name: Seq<char>) -> Seq<Seq<char>> {
    if plan.contains(name) {
        plan
    } else {
        plan.push(name)
    }
}

/// A plan without repetition stays so when a name is added with [`with_name`].
pub proof fn lemma_with_name_distinct(plan: Seq<Seq<char>>, name: Seq<char>)
    requires
        plan.no_duplicates(),
    ensures
        with_name(plan, name).no_duplicates(),
        with_name(plan, name).contains(name),
        forall|other: Seq<char>|
            with_name(plan, name).contains(other) <==> plan.contains(other) || other == name,
{
    let next = with_name(plan, name);
    if !plan.contains(name) {
        assert(next[plan.len() as int] == name);
        assert forall|other: Seq<char>| plan.contains(other) implies next.contains(other) by {
            let i = choose|i: int| 0 <= i < plan.len() && plan[i] == other;
            assert(next[i] == other);
        }
    }
}

impl View for UpdatePlan {
    type V = Seq<Seq<char>>;

    closed spec fn view(&self) -> Seq<Seq<char>> {
        strings(self.names@)
    }
}

impl UpdatePlan {
    #[verifier::type_invariant]
    spec fn distinct(&self) -> bool {
        strings(self.names@).no_duplicates()
    }

    /// The plan that updates nothing.
    pub fn new() -> (plan: UpdatePlan)
        ensures
            plan@ == Seq::<Seq<char>>::empty(),
    {
        let plan = UpdatePlan { names: Vec::new() };
        assert(plan@ =~= Seq::<Seq<char>>::empty());
        plan
    }

    /// How many packages the plan updates.
    pub fn len(&self) -> (n: usize)
        ensures
            n == self@.len(),
    {
        self.names.len()
    }

    /// Whether the plan updates nothing.
    pub fn is_empty(&self) -> (r: bool)
        ensures
            r == (self@.len() == 0),
    {
        self.names.len() == 0
    }

    /// Whether the plan updates the package `name`.
    pub fn contains(&self, name: &str) -> (r: bool)
        ensures
            r == self@.contains(name@),
    {
        let wanted = name.to_owned();
        let mut i: usize = 0;
        while i < self.names.len()
            invariant
                i <= self.names.len(),
                wanted@ == name@,
                forall|k: int| 0 <= k < i ==> self@[k] != name@,
            decreases self.names.len() - i,
        {
            if self.names[i] == wanted {
                assert(self@[i as int] == name@);
                return true;
            }
            i += 1;
        }
        false
    }

    /// The plan with `name` at its end, unless the plan holds it already.
    pub fn with(self, name: String) -> (plan: UpdatePlan)
        ensures
            plan@ == with_name(self@, name@),
    {
        proof {
            use_type_invariant(&self);
            lemma_with_name_distinct(self@, name@);
        }
        if self.contains(name.as_str()) {
            self
        } else {
            let mut names = self.names;
            names.push(name);
            assert(strings(names@) =~= with_name(self@, name@));
            UpdatePlan { names }
        }
    }

    /// The names of the packages to update, in order, each once.
    pub fn names(&self) -> (names: &Vec<String>)
        ensures
            strings(names@) == self@,
            self@.no_duplicates(),
    {
        proof {
            use_type_invariant(self);
        }
        &self.names
    }

    /// The plan as the list of its names.
    pub fn into_names(self) -> (names: Vec<String>)
        ensures
            strings(names@) == self@,
            self@.no_duplicates(),
    {
        proof {
            use_type_invariant(&self);
        }
        self.names
    }
}

impl Clone for UpdatePlan {
    fn clone(&self) -> (plan: UpdatePlan)
        ensures
            plan@ == self@,
    {
        proof {
            use_type_invariant(self);
        }
        let mut names: Vec<String> = Vec::new();
        let mut i: usize = 0;
        while i < self.names.len()
            invariant
                i <= self.names.len(),
                names@.len() == i,
                forall|k: int| 0 <= k < i ==> names@[k]@ == self.names@[k]@,
            decreases self.names.len() - i,
        {
            let name = self.names[i].clone();
            names.push(name);
            i += 1;
        }
        assert(strings(names@) =~= strings(self.names@));
        UpdatePlan { names }
    }
}

} // verus!
