use vstd::prelude::*;

use crate::app::{App, ReapOutcome, SignalOutcome, SpawnOutcome};
use crate::app_status::AppStatus;
use crate::apps_map::AppsMap;
use crate::config::ConfigApp;

verus! {

/// Global mode of the supervisor: starting apps as their dependencies
/// become ready, or shutting everything down in reverse dependency order.
#[derive(Debug, Clone, Copy, PartialEq, Eq, Structural)]
pub enum MainState {
    Running,
    Stopping,
}

/// The dependency entry `di` of app `j` is satisfied: some registered app
/// bears the named dependency and is ready.
pub open spec fn dep_satisfied(m: AppsMap, j: int, di: int) -> bool {
    exists|i: int|
        0 <= i < m.apps@.len() && (#[trigger] m.apps@[i]).name@ == m.deps@[j]@[di]@
            && m.apps@[i].ready
}

/// Every dependency of app `j` is satisfied.
pub open spec fn deps_all_ready(m: AppsMap, j: int) -> bool {
    forall|di: int| 0 <= di < m.deps@[j]@.len() ==> #[trigger] dep_satisfied(m, j, di)
}

/// The startup-gating invariant: an app is in Running only while every one
/// of its dependencies is ready.  Readiness is monotonic and names never
/// change, so every operation of the supervisor preserves this.
pub open spec fn dep_ready_inv(m: AppsMap) -> bool {
    forall|j: int|
        0 <= j < m.apps@.len() && (#[trigger] m.apps@[j]).status is Running ==> deps_all_ready(
            m,
            j,
        )
}

/// Every app that depends on app `i` is terminal (Stopped, or Init and
/// thus never started).  Only then may app `i` be stopped.
pub open spec fn dependents_terminal(m: AppsMap, i: int) -> bool {
    forall|j: int|
        0 <= j < m.apps@.len() && #[trigger] m.spec_depends_on(j, m.apps@[i].name@)
            ==> m.apps@[j].status.spec_is_terminal()
}

/// Every registered app is terminal.
pub open spec fn all_terminal(m: AppsMap) -> bool {
    forall|i: int| 0 <= i < m.apps@.len() ==> (#[trigger] m.apps@[i]).status.spec_is_terminal()
}

/// The supervisor: the registry, the global mode, and the two-tick
/// termination flag.
pub struct Supervisor {
    /// The registry of managed apps.
    pub apps_map: AppsMap,
    /// Global mode.
    pub state: MainState,
    /// Set when every app was already terminal at the end of the previous
    /// tick; a second such tick ends the supervisor.
    pub stop_flag: bool,
}

/// The supervisor with its mode forced to Stopping and all else unchanged.
pub open spec fn with_stopping(s: Supervisor) -> Supervisor {
    Supervisor { state: MainState::Stopping, ..s }
}

impl Supervisor {
    /// Well-formedness: the registry is well-formed and the startup-gating
    /// invariant holds.
    pub open spec fn wf(self) -> bool {
        &&& self.apps_map.wf()
        &&& dep_ready_inv(self.apps_map)
    }

    /// Number of managed apps.
    pub open spec fn spec_len(self) -> nat {
        self.apps_map.apps@.len()
    }

    /// Takes over a freshly built registry; the supervisor begins in
    /// Running mode with the termination flag clear.
    pub fn new(apps_map: AppsMap) -> (r: Supervisor)
        requires
            apps_map.wf(),
            dep_ready_inv(apps_map),
        ensures
            r == (Supervisor { apps_map, state: MainState::Running, stop_flag: false }),
            r.wf(),
    {
        Supervisor { apps_map, state: MainState::Running, stop_flag: false }
    }

    /// Notes a received termination signal: the mode becomes Stopping.
    /// Nothing else changes, so a second signal has no further effect.
    pub fn on_signal(&mut self)
        requires
            old(self).wf(),
        ensures
            *final(self) == with_stopping(*old(self)),
            final(self).wf(),
    {
        self.state = MainState::Stopping;
    }

    /// One tick's update of app `i`: folds the child check and the
    /// periodic-probe outcome into its record, exactly as `App::update`
    /// does, leaving every other app and the supervisor's own state alone.
    pub fn update_app(&mut self, i: usize, now: u64, reap: ReapOutcome, probe_passed: bool)
        requires
            old(self).wf(),
            i < old(self).spec_len(),
            old(self).apps_map.apps@[i as int].times_le(now),
        ensures
            final(self).apps_map.apps@ == old(self).apps_map.apps@.update(
                i as int,
                App::spec_update(old(self).apps_map.apps@[i as int], now, reap, probe_passed),
            ),
            final(self).apps_map.deps == old(self).apps_map.deps,
            final(self).state == old(self).state,
            final(self).stop_flag == old(self).stop_flag,
            final(self).wf(),
    {
        let mut a: App = self.apps_map.apps.remove(i);
        a.update(now, reap, probe_passed);
        self.apps_map.apps.insert(i, a);
        assert(self.apps_map.apps@ =~= old(self).apps_map.apps@.update(
            i as int,
            App::spec_update(old(self).apps_map.apps@[i as int], now, reap, probe_passed),
        ));
        proof {
            self.lemma_update_preserves_wf(*old(self), i as int);
        }
    }

    /// Replacing one record with an update of it (same name, readiness not
    /// withdrawn, Running only if it was Running) preserves the registry
    /// invariants.
    proof fn lemma_update_preserves_wf(self, prev: Supervisor, i: int)
        requires
            prev.wf(),
            0 <= i < prev.spec_len(),
            self.apps_map.deps == prev.apps_map.deps,
            self.apps_map.apps@.len() == prev.apps_map.apps@.len(),
            forall|k: int|
                0 <= k < prev.spec_len() && k != i ==> self.apps_map.apps@[k] == prev.apps_map.apps@[k],
            self.apps_map.apps@[i].name == prev.apps_map.apps@[i].name,
            self.apps_map.apps@[i].wf(),
            prev.apps_map.apps@[i].ready ==> self.apps_map.apps@[i].ready,
            self.apps_map.apps@[i].status is Running ==> (prev.apps_map.apps@[i].status is Running
                || deps_all_ready(self.apps_map, i)),
        ensures
            self.apps_map.wf(),
            dep_ready_inv(self.apps_map),
    {
        let m = self.apps_map;
        let p = prev.apps_map;
        assert forall|x: int, y: int|
            0 <= x < y < m.apps@.len() implies m.apps@[x].name@ != m.apps@[y].name@ by {
            assert(m.apps@[x].name == p.apps@[x].name);
            assert(m.apps@[y].name == p.apps@[y].name);
        }
        assert forall|x: int| 0 <= x < m.apps@.len() implies (#[trigger] m.apps@[x]).wf() by {
            if x != i {
                assert(m.apps@[x] == p.apps@[x]);
            }
        }
        assert forall|j: int|
            0 <= j < m.apps@.len() && (#[trigger] m.apps@[j]).status is Running implies deps_all_ready(
            m,
            j,
        ) by {
            if j == i && !(p.apps@[i].status is Running) {
                assert(deps_all_ready(m, i));
            } else {
                assert(p.apps@[j].status is Running);
                assert(deps_all_ready(p, j));
                assert forall|di: int| 0 <= di < m.deps@[j]@.len() implies #[trigger] dep_satisfied(
                    m,
                    j,
                    di,
                ) by {
                    assert(dep_satisfied(p, j, di));
                    let w = choose|w: int|
                        0 <= w < p.apps@.len() && (#[trigger] p.apps@[w]).name@ == p.deps@[j]@[di]@
                            && p.apps@[w].ready;
                    assert(m.apps@[w].name == p.apps@[w].name);
                    assert(m.apps@[w].ready);
                }
            }
        }
    }

    /// App `i` should be started on this tick: the supervisor is in
    /// Running mode, the app is still in Init, and every one of its
    /// declared dependencies names a registered app that is ready.
    pub open spec fn spec_decide_start(self, i: int) -> bool {
        &&& self.state is Running
        &&& self.apps_map.apps@[i].status is Init
        &&& deps_all_ready(self.apps_map, i)
    }

    /// Whether to attempt a spawn for app `i` on this tick.
    pub fn decide_start(&self, i: usize) -> (r: bool)
        requires
            self.wf(),
            i < self.spec_len(),
        ensures
            r == self.spec_decide_start(i as int),
    {
        if !(self.state == MainState::Running) {
            return false;
        }
        if !(self.apps_map.apps[i].status == AppStatus::Init) {
            return false;
        }
        let deps: &Vec<String> = &self.apps_map.deps[i];
        let mut di: usize = 0;
        while di < deps.len()
            invariant
                di <= deps@.len(),
                deps == &self.apps_map.deps@[i as int],
                i < self.spec_len(),
                self.wf(),
                forall|m: int|
                    0 <= m < di ==> #[trigger] dep_satisfied(self.apps_map, i as int, m),
            decreases deps@.len() - di,
        {
            match self.apps_map.index_of(&deps[di]) {
                Some(w) => {
                    if !self.apps_map.apps[w].is_ready() {
                        assert(!dep_satisfied(self.apps_map, i as int, di as int)) by {
                            assert forall|x: int|
                                0 <= x < self.apps_map.apps@.len() && (#[trigger] self.apps_map.apps@[x]).name@
                                    == self.apps_map.deps@[i as int]@[di as int]@ implies !self.apps_map.apps@[x].ready by {
                                if x != w {
                                    assert(self.apps_map.apps@[x].name@ != self.apps_map.apps@[w as int].name@);
                                }
                            }
                        }
                        return false;
                    }
                    assert(dep_satisfied(self.apps_map, i as int, di as int));
                },
                None => {
                    assert(!dep_satisfied(self.apps_map, i as int, di as int));
                    return false;
                },
            }
            di = di + 1;
        }
        true
    }

    /// Folds in the outcome of a spawn attempt for app `i`.  The start
    /// gate is re-evaluated here, so a call made when `spec_decide_start`
    /// does not hold changes nothing; otherwise the app's record advances
    /// exactly as `App::run` says.
    pub fn start_app(&mut self, i: usize, outcome: SpawnOutcome, now: u64)
        requires
            old(self).wf(),
            i < old(self).spec_len(),
            old(self).apps_map.apps@[i as int].times_le(now),
        ensures
            final(self).apps_map.apps@ == if old(self).spec_decide_start(i as int) {
                old(self).apps_map.apps@.update(
                    i as int,
                    App::spec_run(old(self).apps_map.apps@[i as int], outcome, now),
                )
            } else {
                old(self).apps_map.apps@
            },
            final(self).apps_map.deps == old(self).apps_map.deps,
            final(self).state == old(self).state,
            final(self).stop_flag == old(self).stop_flag,
            final(self).wf(),
    {
        if !self.decide_start(i) {
            assert(final(self).apps_map.apps@ =~= old(self).apps_map.apps@);
            return;
        }
        let mut a: App = self.apps_map.apps.remove(i);
        a.run(outcome, now);
        self.apps_map.apps.insert(i, a);
        assert(self.apps_map.apps@ =~= old(self).apps_map.apps@.update(
            i as int,
            App::spec_run(old(self).apps_map.apps@[i as int], outcome, now),
        ));
        proof {
            let m = self.apps_map;
            let p = old(self).apps_map;
            if m.apps@[i as int].status is Running && !(p.apps@[i as int].status is Running) {
                assert forall|di: int| 0 <= di < m.deps@[i as int]@.len() implies #[trigger] dep_satisfied(
                    m,
                    i as int,
                    di,
                ) by {
                    assert(dep_satisfied(p, i as int, di));
                    let w = choose|w: int|
                        0 <= w < p.apps@.len() && (#[trigger] p.apps@[w]).name@ == p.deps@[i as int]@[di]@
                            && p.apps@[w].ready;
                    assert(m.apps@[w].name == p.apps@[w].name);
                    assert(m.apps@[w].ready);
                }
            }
            self.lemma_update_preserves_wf(*old(self), i as int);
        }
    }

    /// Notes a fatal child failure: when the supervisor is in Running mode
    /// and app `i` is stopped with a nonzero (or never observed) exit
    /// code, the mode becomes Stopping, on this very tick.  Nothing else
    /// changes.
    pub fn check_failure(&mut self, i: usize)
        requires
            old(self).wf(),
            i < old(self).spec_len(),
        ensures
            *final(self) == if old(self).state is Running && old(self).apps_map.apps@[i as int].failed_exit() {
                with_stopping(*old(self))
            } else {
                *old(self)
            },
            final(self).wf(),
    {
        if self.state == MainState::Running {
            let failed: bool = match &self.apps_map.apps[i].status {
                AppStatus::Stopped => match self.apps_map.apps[i].exit_code {
                    Some(c) => c != 0,
                    None => true,
                },
                _ => false,
            };
            if failed {
                self.state = MainState::Stopping;
            }
        }
    }

    /// App `i` should be stopped on this tick: the supervisor is in
    /// Stopping mode, the app is Running, and every app depending on it is
    /// already terminal.
    pub open spec fn spec_decide_stop(self, i: int) -> bool {
        &&& self.state is Stopping
        &&& self.apps_map.apps@[i].status is Running
        &&& dependents_terminal(self.apps_map, i)
    }

    /// Whether to deliver the graceful-stop signal to app `i` on this
    /// tick.  A true answer guarantees that no app depending on `i` is
    /// outside Stopped or Init, so shutdown proceeds in reverse dependency
    /// order.
    pub fn decide_stop(&self, i: usize) -> (r: bool)
        requires
            self.wf(),
            i < self.spec_len(),
        ensures
            r == self.spec_decide_stop(i as int),
            r ==> dependents_terminal(self.apps_map, i as int),
    {
        if !(self.state == MainState::Stopping) {
            return false;
        }
        if !(self.apps_map.apps[i].status == AppStatus::Running) {
            return false;
        }
        let name: &String = &self.apps_map.apps[i].name;
        let mut j: usize = 0;
        while j < self.apps_map.apps.len()
            invariant
                j <= self.apps_map.apps@.len(),
                i < self.spec_len(),
                name == &self.apps_map.apps@[i as int].name,
                self.wf(),
                forall|m: int|
                    0 <= m < j && #[trigger] self.apps_map.spec_depends_on(
                        m,
                        self.apps_map.apps@[i as int].name@,
                    ) ==> self.apps_map.apps@[m].status.spec_is_terminal(),
            decreases self.apps_map.apps@.len() - j,
        {
            if crate::utils::vec_contains_string(&self.apps_map.deps[j], name) {
                assert(self.apps_map.spec_depends_on(j as int, name@));
                if !self.apps_map.apps[j].status.is_terminal() {
                    return false;
                }
            }
            j = j + 1;
        }
        true
    }

    /// Folds in the outcome of a graceful-stop attempt for app `i`,
    /// exactly as `App::stop` says; an app not in Running is left alone.
    /// Returns whether the caller must escalate to a forced kill.
    pub fn stop_app(&mut self, i: usize, outcome: SignalOutcome) -> (kill: bool)
        requires
            old(self).wf(),
            i < old(self).spec_len(),
        ensures
            final(self).apps_map.apps@ == old(self).apps_map.apps@.update(
                i as int,
                App::spec_stop(old(self).apps_map.apps@[i as int], outcome),
            ),
            kill == App::spec_stop_escalates(old(self).apps_map.apps@[i as int], outcome),
            final(self).apps_map.deps == old(self).apps_map.deps,
            final(self).state == old(self).state,
            final(self).stop_flag == old(self).stop_flag,
            final(self).wf(),
    {
        let mut a: App = self.apps_map.apps.remove(i);
        let kill: bool = a.stop(outcome);
        self.apps_map.apps.insert(i, a);
        assert(self.apps_map.apps@ =~= old(self).apps_map.apps@.update(
            i as int,
            App::spec_stop(old(self).apps_map.apps@[i as int], outcome),
        ));
        proof {
            self.lemma_update_preserves_wf(*old(self), i as int);
        }
        kill
    }

    /// End-of-tick bookkeeping.  When every app is terminal the
    /// termination flag is raised, and the supervisor reports done only if
    /// the flag was already up — every app must be terminal for two ticks
    /// in a row, so a one-shot app's exit-code probe gets one more tick to
    /// start a dependent.  Any non-terminal app clears the flag.
    pub fn end_tick(&mut self) -> (done: bool)
        requires
            old(self).wf(),
        ensures
            done == (all_terminal(old(self).apps_map) && old(self).stop_flag),
            final(self).stop_flag == all_terminal(old(self).apps_map),
            final(self).apps_map == old(self).apps_map,
            final(self).state == old(self).state,
            final(self).wf(),
    {
        let mut i: usize = 0;
        let mut every: bool = true;
        while i < self.apps_map.apps.len()
            invariant
                i <= self.apps_map.apps@.len(),
                every == forall|m: int|
                    0 <= m < i ==> (#[trigger] self.apps_map.apps@[m]).status.spec_is_terminal(),
            decreases self.apps_map.apps@.len() - i,
        {
            if !self.apps_map.apps[i].status.is_terminal() {
                every = false;
            }
            i = i + 1;
        }
        if every {
            let was: bool = self.stop_flag;
            self.stop_flag = true;
            was
        } else {
            self.stop_flag = false;
            false
        }
    }
}

/// Populates a registry from validated app declarations: one Init record
/// per declaration, in declaration order, each under its declared
/// dependency names.  The result satisfies the startup-gating invariant
/// outright, since nothing is Running yet.
pub fn build_registry(apps: Vec<ConfigApp>, now: u64) -> (r: AppsMap)
    requires
        forall|i: int, j: int|
            0 <= i < j < apps@.len() ==> apps@[i].name@ != apps@[j].name@,
    ensures
        r.apps@.len() == apps@.len(),
        forall|i: int|
            0 <= i < apps@.len() ==> r.apps@[i] == App::spec_from_config(
                #[trigger] apps@[i],
                now,
            ),
        forall|i: int| 0 <= i < apps@.len() ==> r.deps@[i]@ == (#[trigger] apps@[i]).depends_on@,
        r.wf(),
        dep_ready_inv(r),
        r.times_le(now),
{
    let ghost orig = apps@;
    let mut rest: Vec<ConfigApp> = apps;
    let mut m: AppsMap = AppsMap::new();
    while rest.len() > 0
        invariant
            m.apps@.len() + rest@.len() == orig.len(),
            rest@ == orig.subrange(m.apps@.len() as int, orig.len() as int),
            m.apps@.len() == m.deps@.len(),
            forall|i: int, j: int| 0 <= i < j < orig.len() ==> orig[i].name@ != orig[j].name@,
            forall|i: int|
                0 <= i < m.apps@.len() ==> m.apps@[i] == App::spec_from_config(
                    #[trigger] orig[i],
                    now,
                ),
            forall|i: int| 0 <= i < m.apps@.len() ==> m.deps@[i]@ == (#[trigger] orig[i]).depends_on@,
            m.wf(),
        decreases rest@.len(),
    {
        let ghost k = m.apps@.len() as int;
        let c: ConfigApp = rest.remove(0);
        assert(c == orig[k]);
        let deps: Vec<String> = crate::utils::clone_strings(&c.depends_on);
        let a: App = App::from_config(c, now);
        assert(!m.spec_contains_name(a.name@)) by {
            assert forall|i: int| 0 <= i < m.apps@.len() implies (#[trigger] m.apps@[i]).name@
                != a.name@ by {
                assert(m.apps@[i].name@ == orig[i].name@);
                assert(orig[i].name@ != orig[k].name@);
            }
        }
        m.add(a, deps);
        assert(rest@ =~= orig.subrange(m.apps@.len() as int, orig.len() as int));
    }
    assert forall|j: int|
        0 <= j < m.apps@.len() implies !((#[trigger] m.apps@[j]).status is Running) by {
        assert(m.apps@[j] == App::spec_from_config(orig[j], now));
    }
    assert forall|i: int| 0 <= i < m.apps@.len() implies (#[trigger] m.apps@[i]).times_le(now) by {
        assert(m.apps@[i] == App::spec_from_config(orig[i], now));
    }
    m
}

/// Stopping is idempotent: noting a second termination signal leaves the
/// supervisor exactly where the first one left it, so the shutdown
/// sequence after two signals is the shutdown sequence after one.
pub proof fn lemma_signal_idempotent(s: Supervisor)
    ensures
        with_stopping(with_stopping(s)) == with_stopping(s),
{
}

/// The startup-gating invariant spelled out for one pair of apps: while
/// app `j` is in Running, every app named among its dependencies is ready.
pub proof fn lemma_running_implies_deps_ready(m: AppsMap, j: int, di: int, i: int)
    requires
        m.wf(),
        dep_ready_inv(m),
        0 <= j < m.apps@.len(),
        m.apps@[j].status is Running,
        0 <= di < m.deps@[j]@.len(),
        0 <= i < m.apps@.len(),
        m.apps@[i].name@ == m.deps@[j]@[di]@,
    ensures
        m.apps@[i].ready,
{
    assert(dep_satisfied(m, j, di));
    let w = choose|w: int|
        0 <= w < m.apps@.len() && (#[trigger] m.apps@[w]).name@ == m.deps@[j]@[di]@
            && m.apps@[w].ready;
    if w != i {
        assert(m.apps@[w].name@ != m.apps@[i].name@);
    }
}

} // verus!
