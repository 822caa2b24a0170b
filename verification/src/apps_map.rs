use vstd::prelude::*;

use crate::app::App;
use crate::app_status::AppStatus;
use crate::utils::{clone_strings, vec_contains_string};

verus! {

/// The registry of all managed apps, keyed by their unique names, together
/// with each app's declared dependency list.  `deps[i]` names the apps
/// that `apps[i]` waits for; the reverse (dependent) lists are derived on
/// demand.
pub struct AppsMap {
    /// The app records, in declaration order.
    pub apps: Vec<App>,
    /// For each app, by the same index, the names it depends on.
    pub deps: Vec<Vec<String>>,
}

impl AppsMap {
    /// Well-formedness: one dependency list per app, names unique, every
    /// record well-formed.
    pub open spec fn wf(self) -> bool {
        &&& self.apps@.len() == self.deps@.len()
        &&& forall|i: int, j: int|
            0 <= i < j < self.apps@.len() ==> self.apps@[i].name@ != self.apps@[j].name@
        &&& forall|i: int| 0 <= i < self.apps@.len() ==> (#[trigger] self.apps@[i]).wf()
    }

    /// Number of registered apps.
    pub open spec fn spec_len(self) -> nat {
        self.apps@.len()
    }

    /// Some registered app bears this name.
    pub open spec fn spec_contains_name(self, name: Seq<char>) -> bool {
        exists|i: int| 0 <= i < self.apps@.len() && (#[trigger] self.apps@[i]).name@ == name
    }

    /// App `j` declares a dependency on the name `n`.
    pub open spec fn spec_depends_on(self, j: int, n: Seq<char>) -> bool {
        exists|k: int| 0 <= k < self.deps@[j]@.len() && (#[trigger] self.deps@[j]@[k])@ == n
    }

    /// Every clock reading recorded in any app is at or before `t`.
    pub open spec fn times_le(self, t: u64) -> bool {
        forall|i: int| 0 <= i < self.apps@.len() ==> (#[trigger] self.apps@[i]).times_le(t)
    }

    /// An empty registry.
    pub fn new() -> (r: AppsMap)
        ensures
            r.apps@ =~= Seq::<App>::empty(),
            r.deps@ =~= Seq::<Vec<String>>::empty(),
            r.wf(),
    {
        AppsMap { apps: Vec::new(), deps: Vec::new() }
    }

    /// Number of registered apps.
    pub fn len(&self) -> (r: usize)
        ensures
            r == self.spec_len(),
    {
        self.apps.len()
    }

    /// Registers an app under its name, with the names of the apps it
    /// depends on.  Names must stay unique, so the name must be new.
    pub fn add(&mut self, app: App, deps: Vec<String>)
        requires
            old(self).wf(),
            app.wf(),
            !old(self).spec_contains_name(app.name@),
        ensures
            final(self).apps@ == old(self).apps@.push(app),
            final(self).deps@ == old(self).deps@.push(deps),
            final(self).wf(),
    {
        self.apps.push(app);
        self.deps.push(deps);
        assert forall|i: int, j: int|
            0 <= i < j < self.apps@.len() implies self.apps@[i].name@ != self.apps@[j].name@ by {
            if j == self.apps@.len() - 1 {
                assert(self.apps@[i] == old(self).apps@[i]);
            }
        }
    }

    /// The position of the app with this name, if one is registered.
    pub fn index_of(&self, app_name: &String) -> (r: Option<usize>)
        requires
            self.wf(),
        ensures
            match r {
                Some(i) => i < self.spec_len() && self.apps@[i as int].name@ == app_name@,
                None => !self.spec_contains_name(app_name@),
            },
    {
        let mut i: usize = 0;
        while i < self.apps.len()
            invariant
                i <= self.apps@.len(),
                forall|m: int| 0 <= m < i ==> (#[trigger] self.apps@[m]).name@ != app_name@,
            decreases self.apps@.len() - i,
        {
            if self.apps[i].name == *app_name {
                return Some(i);
            }
            i = i + 1;
        }
        None
    }

    /// The app registered under this name, if any.
    pub fn get(&self, app_name: &String) -> (r: Option<&App>)
        requires
            self.wf(),
        ensures
            match r {
                Some(a) => a.name@ == app_name@ && exists|i: int|
                    0 <= i < self.spec_len() && *a == (#[trigger] self.apps@[i]),
                None => !self.spec_contains_name(app_name@),
            },
    {
        match self.index_of(app_name) {
            Some(i) => Some(&self.apps[i]),
            None => None,
        }
    }

    /// All app records, in declaration order.
    pub fn list(&self) -> (r: &Vec<App>)
        ensures
            r == &self.apps,
    {
        &self.apps
    }

    /// The declared dependency names of the app with this name; empty when
    /// the name is unknown.
    pub fn get_dependencies_for(&self, app_name: &String) -> (r: Vec<String>)
        requires
            self.wf(),
        ensures
            forall|i: int|
                0 <= i < self.spec_len() && (#[trigger] self.apps@[i]).name@ == app_name@ ==> r@
                    == self.deps@[i]@,
            !self.spec_contains_name(app_name@) ==> r@ =~= Seq::<String>::empty(),
    {
        match self.index_of(app_name) {
            Some(i) => clone_strings(&self.deps[i]),
            None => Vec::new(),
        }
    }

    /// The names of the apps up to position `m` that depend on the name `n`,
    /// in declaration order.
    pub open spec fn spec_dependents_upto(self, n: Seq<char>, m: int) -> Seq<String>
        decreases m,
    {
        if m <= 0 {
            Seq::empty()
        } else {
            self.spec_dependents_upto(n, m - 1) + if self.spec_depends_on(m - 1, n) {
                seq![self.apps@[m - 1].name]
            } else {
                Seq::empty()
            }
        }
    }

    /// The names of all apps that depend on the name `n`.
    pub open spec fn spec_dependents(self, n: Seq<char>) -> Seq<String> {
        self.spec_dependents_upto(n, self.apps@.len() as int)
    }

    /// The names of the apps that declare a dependency on this name, in
    /// declaration order.
    pub fn get_dependents_for(&self, app_name: &String) -> (r: Vec<String>)
        requires
            self.wf(),
        ensures
            r@ == self.spec_dependents(app_name@),
    {
        let mut r: Vec<String> = Vec::new();
        let mut j: usize = 0;
        while j < self.apps.len()
            invariant
                self.wf(),
                j <= self.apps@.len(),
                r@ == self.spec_dependents_upto(app_name@, j as int),
            decreases self.apps@.len() - j,
        {
            if vec_contains_string(&self.deps[j], app_name) {
                r.push(self.apps[j].name.clone());
            }
            j = j + 1;
        }
        r
    }

    /// The status of app `i` is one of `statuses`.
    pub open spec fn spec_status_in(self, i: int, statuses: Seq<AppStatus>) -> bool {
        exists|k: int| 0 <= k < statuses.len() && self.apps@[i].status == statuses[k]
    }

    /// The status of every registered app is one of `statuses`.
    pub open spec fn spec_all_status_in(self, statuses: Seq<AppStatus>) -> bool {
        forall|i: int| 0 <= i < self.apps@.len() ==> #[trigger] self.spec_status_in(i, statuses)
    }

    /// True iff every registered app's status is one of the given statuses.
    pub fn every(&self, statuses: &Vec<AppStatus>) -> (r: bool)
        ensures
            r == self.spec_all_status_in(statuses@),
    {
        let mut i: usize = 0;
        while i < self.apps.len()
            invariant
                i <= self.apps@.len(),
                forall|m: int| 0 <= m < i ==> #[trigger] self.spec_status_in(m, statuses@),
            decreases self.apps@.len() - i,
        {
            let mut found: bool = false;
            let mut k: usize = 0;
            while k < statuses.len()
                invariant
                    k <= statuses@.len(),
                    found == exists|m: int|
                        0 <= m < k && self.apps@[i as int].status == #[trigger] statuses@[m],
                    i < self.apps@.len(),
                decreases statuses@.len() - k,
            {
                if self.apps[i].status == statuses[k] {
                    assert(self.apps@[i as int].status == statuses@[k as int]);
                    found = true;
                }
                k = k + 1;
            }
            if !found {
                assert(!self.spec_status_in(i as int, statuses@));
                return false;
            }
            assert(self.spec_status_in(i as int, statuses@));
            i = i + 1;
        }
        true
    }
}

} // verus!
