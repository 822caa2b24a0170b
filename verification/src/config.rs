use vstd::prelude::*;
use vstd::string::StringSliceAdditionalSpecFns;

verus! {

/// POSIX signal number of SIGTERM, the default graceful-stop signal.
pub const SIGTERM: i32 = 15;

/// POSIX signal number of SIGINT.
pub const SIGINT: i32 = 2;

/// Declared readiness probe of one application, exactly as configured.
#[derive(Debug, Clone)]
pub enum ConfigReadinessProbe {
    /// No probe: the app counts as ready the moment it runs.
    NoProbe,
    /// Ready once the child has exited with exactly this code.
    ExitCode { exit_code: i32 },
    /// Ready once the given number of milliseconds has passed since the start.
    Delay { delay: u32 },
    /// Ready once the given command, run at most once per period, exits with 0.
    Command { command: Vec<String>, period: u32 },
    /// Ready once a request to the URL, made at most once per period,
    /// returns a status in 200..=299.
    Http { url: String, method: String, period: u32 },
}

/// Declaration of one application: what to launch, as whom, where its output
/// goes, after which other apps it may start, and how readiness is probed.
#[derive(Debug, Clone)]
pub struct ConfigApp {
    /// Unique name of the app.
    pub name: String,
    /// Executable and its arguments; must not be empty.
    pub command: Vec<String>,
    /// Stdout sink: absent = discard, "inherit" = parent stream, else a path.
    pub stdout: Option<String>,
    /// Stderr sink, with the same meaning as `stdout`.
    pub stderr: Option<String>,
    /// Signal delivered for a graceful stop.
    pub signal: i32,
    /// User id the child runs as.
    pub uid: u32,
    /// Names of the apps that must be ready before this one starts.
    pub depends_on: Vec<String>,
    /// Readiness probe.
    pub ready: ConfigReadinessProbe,
}

/// The whole declarative configuration.
#[derive(Debug, Clone)]
pub struct Config {
    /// Where to write the supervisor's own pid, if anywhere.
    pub pid: Option<String>,
    /// Logger level name.
    pub log_level: String,
    /// The declared applications.
    pub apps: Vec<ConfigApp>,
}

/// Default application list: none.
pub fn default_apps() -> (r: Vec<ConfigApp>)
    ensures
        r@ =~= Seq::<ConfigApp>::empty(),
{
    Vec::new()
}

/// Default logger level.
pub fn default_log_level() -> (r: String)
    ensures
        r@ == "info"@,
{
    "info".to_owned()
}

/// Default dependency list: none.
pub fn default_depends_on() -> (r: Vec<String>)
    ensures
        r@ =~= Seq::<String>::empty(),
{
    Vec::new()
}

/// Default period, in milliseconds, between two command-probe runs.
pub fn default_ready_command_period() -> (r: u32)
    ensures
        r == 1000u32,
{
    1000
}

/// Default HTTP method of an HTTP probe.
pub fn default_ready_http_method() -> (r: String)
    ensures
        r@ == "GET"@,
{
    "GET".to_owned()
}

/// Default readiness probe: none.
pub fn default_ready() -> (r: ConfigReadinessProbe)
    ensures
        r is NoProbe,
{
    ConfigReadinessProbe::NoProbe
}

/// Default graceful-stop signal.
pub fn default_signal() -> (r: i32)
    ensures
        r == SIGTERM,
{
    SIGTERM
}

/// Why a configuration was rejected.
#[derive(Debug)]
pub enum ConfigError {
    /// The named app's command list is empty.
    EmptyCommand { name: String },
    /// Two apps bear this name.
    DuplicateName { name: String },
    /// The named app depends on itself.
    SelfDependency { name: String },
    /// `name` depends on `dependency`, a name no app bears.
    UnknownDependency { name: String, dependency: String },
    /// The named app has dependents but no readiness probe, so they could
    /// never start.
    DependencyWithoutProbe { name: String },
    /// The dependency relation admits no startup order.
    DependencyCycle,
}

/// Every declared app has a non-empty command.
pub open spec fn all_commands_nonempty(apps: Seq<ConfigApp>) -> bool {
    forall|i: int| 0 <= i < apps.len() ==> (#[trigger] apps[i]).command@.len() > 0
}

/// No two declared apps bear the same name.
pub open spec fn names_unique(apps: Seq<ConfigApp>) -> bool {
    forall|i: int, j: int| 0 <= i < j < apps.len() ==> apps[i].name@ != apps[j].name@
}

/// Dependency entry `k` of app `i` is sound on its own: it does not name
/// app `i` itself, it names some declared app, and every declared app of
/// that name carries a readiness probe.
pub open spec fn dep_entry_ok(apps: Seq<ConfigApp>, i: int, k: int) -> bool {
    &&& apps[i].depends_on@[k]@ != apps[i].name@
    &&& exists|j: int| 0 <= j < apps.len() && (#[trigger] apps[j]).name@ == apps[i].depends_on@[k]@
    &&& forall|j: int|
        0 <= j < apps.len() && (#[trigger] apps[j]).name@ == apps[i].depends_on@[k]@
            ==> !(apps[j].ready is NoProbe)
}

/// Every dependency entry of every app is sound.
pub open spec fn all_dep_entries_ok(apps: Seq<ConfigApp>) -> bool {
    forall|i: int, k: int|
        0 <= i < apps.len() && 0 <= k < apps[i].depends_on@.len() ==> #[trigger] dep_entry_ok(
            apps,
            i,
            k,
        )
}

/// App `i` declares a dependency on the name of app `j`.
pub open spec fn depends_idx(apps: Seq<ConfigApp>, i: int, j: int) -> bool {
    exists|k: int|
        0 <= k < apps[i].depends_on@.len() && (#[trigger] apps[i].depends_on@[k])@
            == apps[j].name@
}

/// `s` witnesses a dependency cycle: a non-empty set of app positions in
/// which every member depends on some member.  Such a set exists exactly
/// when the dependency relation is cyclic, so no startup order covers it.
#[verifier::opaque]
pub open spec fn cycle_witness(apps: Seq<ConfigApp>, s: Set<int>) -> bool {
    &&& exists|i: int| s.contains(i)
    &&& forall|i: int| #[trigger] s.contains(i) ==> 0 <= i < apps.len()
    &&& forall|i: int|
        #[trigger] s.contains(i) ==> exists|j: int| s.contains(j) && depends_idx(apps, i, j)
}

/// The dependency relation has a cycle.
pub open spec fn has_cycle(apps: Seq<ConfigApp>) -> bool {
    exists|s: Set<int>| cycle_witness(apps, s)
}

/// A valid configuration: commands present, names unique, every
/// dependency entry sound, and the dependency relation acyclic.
pub open spec fn config_valid(apps: Seq<ConfigApp>) -> bool {
    &&& all_commands_nonempty(apps)
    &&& names_unique(apps)
    &&& all_dep_entries_ok(apps)
    &&& !has_cycle(apps)
}

/// The position of the declared app with this name, if any.
fn config_index_of(apps: &Vec<ConfigApp>, name: &String) -> (r: Option<usize>)
    ensures
        match r {
            Some(j) => j < apps@.len() && apps@[j as int].name@ == name@,
            None => forall|j: int| 0 <= j < apps@.len() ==> (#[trigger] apps@[j]).name@ != name@,
        },
{
    let mut j: usize = 0;
    while j < apps.len()
        invariant
            j <= apps@.len(),
            forall|m: int| 0 <= m < j ==> (#[trigger] apps@[m]).name@ != name@,
        decreases apps@.len() - j,
    {
        if apps[j].name == *name {
            return Some(j);
        }
        j = j + 1;
    }
    None
}

/// Rejects an empty command or a repeated name.
fn check_commands_and_names(apps: &Vec<ConfigApp>) -> (r: Option<ConfigError>)
    ensures
        r is None <==> (all_commands_nonempty(apps@) && names_unique(apps@)),
        (r matches Some(ConfigError::EmptyCommand { name }) ==> exists|i: int|
            0 <= i < apps@.len() && (#[trigger] apps@[i]).name@ == name@
                && apps@[i].command@.len() == 0),
        (r matches Some(ConfigError::DuplicateName { name }) ==> exists|i: int, j: int|
            0 <= i < j < apps@.len() && (#[trigger] apps@[i]).name@ == name@
                && (#[trigger] apps@[j]).name@ == name@),
        (r is Some ==> (r matches Some(ConfigError::EmptyCommand { .. }) || r matches Some(
            ConfigError::DuplicateName { .. },
        ))),
{
    let mut i: usize = 0;
    while i < apps.len()
        invariant
            i <= apps@.len(),
            forall|m: int| 0 <= m < i ==> (#[trigger] apps@[m]).command@.len() > 0,
            forall|m1: int, m2: int| 0 <= m1 < m2 < i ==> apps@[m1].name@ != apps@[m2].name@,
        decreases apps@.len() - i,
    {
        if apps[i].command.len() == 0 {
            return Some(ConfigError::EmptyCommand { name: apps[i].name.clone() });
        }
        let mut j: usize = 0;
        while j < i
            invariant
                j <= i < apps@.len(),
                forall|m: int| 0 <= m < j ==> apps@[m].name@ != apps@[i as int].name@,
            decreases i - j,
        {
            if apps[j].name == apps[i].name {
                return Some(ConfigError::DuplicateName { name: apps[i].name.clone() });
            }
            j = j + 1;
        }
        i = i + 1;
    }
    None
}

/// Rejects a self-dependency, an unknown dependency, or a dependency on
/// an app without a readiness probe.
fn check_deps(apps: &Vec<ConfigApp>) -> (r: Option<ConfigError>)
    requires
        names_unique(apps@),
    ensures
        r is None <==> all_dep_entries_ok(apps@),
        (r matches Some(ConfigError::SelfDependency { name }) ==> exists|i: int, k: int|
            #![trigger apps@[i].depends_on@[k]]
            0 <= i < apps@.len() && 0 <= k < apps@[i].depends_on@.len() && apps@[i].name@
                == name@ && apps@[i].depends_on@[k]@ == name@),
        (r matches Some(ConfigError::UnknownDependency { name, dependency }) ==> exists|
            i: int,
            k: int,
        |
            #![trigger apps@[i].depends_on@[k]]
            0 <= i < apps@.len() && 0 <= k < apps@[i].depends_on@.len() && apps@[i].name@
                == name@ && apps@[i].depends_on@[k]@ == dependency@ && (forall|j: int|
                0 <= j < apps@.len() ==> (#[trigger] apps@[j]).name@ != dependency@)),
        (r matches Some(ConfigError::DependencyWithoutProbe { name }) ==> exists|
            i: int,
            k: int,
            j: int,
        |
            #![trigger apps@[i].depends_on@[k], apps@[j].ready]
            0 <= i < apps@.len() && 0 <= k < apps@[i].depends_on@.len() && 0 <= j < apps@.len()
                && apps@[i].depends_on@[k]@ == name@ && apps@[j].name@ == name@
                && apps@[j].ready is NoProbe),
        (r is Some ==> (r matches Some(ConfigError::SelfDependency { .. }) || r matches Some(
            ConfigError::UnknownDependency { .. },
        ) || r matches Some(ConfigError::DependencyWithoutProbe { .. }))),
{
    let mut i: usize = 0;
    while i < apps.len()
        invariant
            names_unique(apps@),
            i <= apps@.len(),
            forall|m: int, k: int|
                0 <= m < i && 0 <= k < apps@[m].depends_on@.len() ==> #[trigger] dep_entry_ok(
                    apps@,
                    m,
                    k,
                ),
        decreases apps@.len() - i,
    {
        let mut k: usize = 0;
        while k < apps[i].depends_on.len()
            invariant
                names_unique(apps@),
                i < apps@.len(),
                k <= apps@[i as int].depends_on@.len(),
                forall|m: int, k2: int|
                    0 <= m < i && 0 <= k2 < apps@[m].depends_on@.len() ==> #[trigger] dep_entry_ok(
                        apps@,
                        m,
                        k2,
                    ),
                forall|k2: int|
                    0 <= k2 < k ==> #[trigger] dep_entry_ok(apps@, i as int, k2),
            decreases apps@[i as int].depends_on@.len() - k,
        {
            let dep: &String = &apps[i].depends_on[k];
            if *dep == apps[i].name {
                assert(!dep_entry_ok(apps@, i as int, k as int));
                return Some(ConfigError::SelfDependency { name: apps[i].name.clone() });
            }
            match config_index_of(apps, dep) {
                None => {
                    assert(!dep_entry_ok(apps@, i as int, k as int));
                    return Some(ConfigError::UnknownDependency {
                        name: apps[i].name.clone(),
                        dependency: dep.clone(),
                    });
                },
                Some(j) => {
                    let probeless: bool = match &apps[j].ready {
                        ConfigReadinessProbe::NoProbe => true,
                        _ => false,
                    };
                    if probeless {
                        assert(!dep_entry_ok(apps@, i as int, k as int)) by {
                            assert(apps@[j as int].name@ == apps@[i as int].depends_on@[
                                k as int]@);
                        }
                        return Some(ConfigError::DependencyWithoutProbe { name: dep.clone() });
                    }
                    assert(dep_entry_ok(apps@, i as int, k as int)) by {
                        let ii = i as int;
                        assert forall|j2: int|
                            0 <= j2 < apps@.len() && (#[trigger] apps@[j2]).name@
                                == apps@[ii].depends_on@[k as int]@ implies !(apps@[j2].ready
                            is NoProbe) by {
                            if j2 != j as int {
                                assert(apps@[j2].name@ != apps@[j as int].name@);
                            }
                        }
                    }
                },
            }
            k = k + 1;
        }
        i = i + 1;
    }
    None
}

/// Number of true entries in a sequence of markers.
spec fn count_trues(s: Seq<bool>) -> int
    decreases s.len(),
{
    if s.len() <= 0 {
        0
    } else {
        count_trues(s.drop_last()) + if s.last() {
            1int
        } else {
            0int
        }
    }
}

proof fn lemma_count_le(s: Seq<bool>)
    ensures
        0 <= count_trues(s) <= s.len(),
    decreases s.len(),
{
    if s.len() > 0 {
        lemma_count_le(s.drop_last());
    }
}

proof fn lemma_count_none(s: Seq<bool>)
    requires
        forall|i: int| 0 <= i < s.len() ==> !s[i],
    ensures
        count_trues(s) == 0,
    decreases s.len(),
{
    if s.len() > 0 {
        lemma_count_none(s.drop_last());
    }
}

proof fn lemma_count_lt(s: Seq<bool>, i: int)
    requires
        0 <= i < s.len(),
        !s[i],
    ensures
        count_trues(s) < s.len(),
    decreases s.len(),
{
    if i == s.len() - 1 {
        lemma_count_le(s.drop_last());
    } else {
        lemma_count_lt(s.drop_last(), i);
    }
}

proof fn lemma_count_set_true(s: Seq<bool>, i: int)
    requires
        0 <= i < s.len(),
        !s[i],
    ensures
        count_trues(s.update(i, true)) == count_trues(s) + 1,
    decreases s.len(),
{
    let t = s.update(i, true);
    if i == s.len() - 1 {
        assert(t.drop_last() =~= s.drop_last());
    } else {
        assert(t.drop_last() =~= s.drop_last().update(i, true));
        lemma_count_set_true(s.drop_last(), i);
        assert(t.last() == s.last());
    }
}

proof fn lemma_count_full(s: Seq<bool>)
    requires
        count_trues(s) == s.len(),
    ensures
        forall|i: int| 0 <= i < s.len() ==> s[i],
    decreases s.len(),
{
    if s.len() > 0 {
        lemma_count_le(s.drop_last());
        lemma_count_full(s.drop_last());
        assert forall|i: int| 0 <= i < s.len() implies s[i] by {
            if i < s.len() - 1 {
                assert(s.drop_last()[i]);
            }
        }
    }
}

proof fn lemma_count_not_full(s: Seq<bool>)
    requires
        count_trues(s) < s.len(),
    ensures
        exists|i: int| 0 <= i < s.len() && !s[i],
    decreases s.len(),
{
    if s.len() > 0 {
        if !s.last() {
            assert(!s[s.len() - 1]);
        } else {
            lemma_count_not_full(s.drop_last());
            let i = choose|i: int| 0 <= i < s.drop_last().len() && !s.drop_last()[i];
            assert(!s[i]);
        }
    }
}

/// The position of the app bearing the name `n`; meaningful only when
/// some app does (as every validated dependency name does).
spec fn resolves(apps: Seq<ConfigApp>, n: Seq<char>, j: int) -> bool {
    0 <= j < apps.len() && apps[j].name@ == n
}

spec fn resolve(apps: Seq<ConfigApp>, n: Seq<char>) -> int {
    choose|j: int| resolves(apps, n, j)
}

/// With unique names, resolution is pinned: the one app bearing a name is
/// the app the name resolves to.
proof fn lemma_resolve_unique(apps: Seq<ConfigApp>, n: Seq<char>, j: int)
    requires
        names_unique(apps),
        resolves(apps, n, j),
    ensures
        resolve(apps, n) == j,
{
    let j0 = resolve(apps, n);
    assert(resolves(apps, n, j0));
    if j0 < j {
        assert(apps[j0].name@ != apps[j].name@);
    } else if j < j0 {
        assert(apps[j].name@ != apps[j0].name@);
    }
}

/// Every dependency entry of app `i` resolves to a marked position.
spec fn deps_done_spec(apps: Seq<ConfigApp>, done: Seq<bool>, i: int) -> bool {
    forall|k: int|
        #![trigger apps[i].depends_on@[k]]
        0 <= k < apps[i].depends_on@.len() ==> done[resolve(apps, apps[i].depends_on@[k]@)]
}

/// The marked set is closed: a marked app has all its dependencies marked.
spec fn done_closed(apps: Seq<ConfigApp>, done: Seq<bool>) -> bool {
    forall|i: int|
        0 <= i < apps.len() && done[i] ==> #[trigger] deps_done_spec(apps, done, i)
}

/// The position at which `x` occurs in `ord`; meaningful only when it
/// occurs.
spec fn pos_in(ord: Seq<int>, x: int) -> int {
    choose|q: int| 0 <= q < ord.len() && ord[q] == x
}

/// An element that occurs does so at its position.
proof fn lemma_pos_in(ord: Seq<int>, x: int)
    requires
        ord.contains(x),
    ensures
        0 <= pos_in(ord, x) < ord.len(),
        ord[pos_in(ord, x)] == x,
{
    let q0 = choose|q: int| 0 <= q < ord.len() && ord[q] == x;
    assert(0 <= q0 < ord.len() && ord[q0] == x);
}

/// In an order without repeats, the position of an element is the one
/// place it stands.
proof fn lemma_pos_unique(ord: Seq<int>, x: int, q: int)
    requires
        forall|p1: int, p2: int| 0 <= p1 < p2 < ord.len() ==> ord[p1] != ord[p2],
        0 <= q < ord.len(),
        ord[q] == x,
    ensures
        pos_in(ord, x) == q,
{
    assert(ord.contains(x));
    lemma_pos_in(ord, x);
    let q0 = pos_in(ord, x);
    if q0 < q {
        assert(ord[q0] != ord[q]);
    } else if q < q0 {
        assert(ord[q] != ord[q0]);
    }
}

/// Entry `p` of the marking order is sound: each of its dependencies
/// resolves to an entry at an earlier position.
spec fn ord_entry_ok(apps: Seq<ConfigApp>, ord: Seq<int>, p: int) -> bool {
    forall|k: int|
        #![trigger apps[ord[p]].depends_on@[k]]
        0 <= k < apps[ord[p]].depends_on@.len() ==> (ord.contains(
            resolve(apps, apps[ord[p]].depends_on@[k]@),
        ) && pos_in(ord, resolve(apps, apps[ord[p]].depends_on@[k]@)) < p)
}

/// `ord` records the marking order: exactly the marked positions, each
/// once, and each entry's dependencies resolve to earlier entries.
spec fn ord_invariant(apps: Seq<ConfigApp>, done: Seq<bool>, ord: Seq<int>) -> bool {
    &&& done.len() == apps.len()
    &&& forall|x: int| 0 <= x < apps.len() ==> (done[x] <==> #[trigger] ord.contains(x))
    &&& forall|p: int| 0 <= p < ord.len() ==> 0 <= #[trigger] ord[p] < apps.len()
    &&& forall|p: int, q: int| 0 <= p < q < ord.len() ==> ord[p] != ord[q]
    &&& forall|p: int| 0 <= p < ord.len() ==> #[trigger] ord_entry_ok(apps, ord, p)
}

/// Marking a position whose dependencies are all marked preserves the
/// order invariant and the closure of the marked set.
proof fn lemma_mark(apps: Seq<ConfigApp>, d0: Seq<bool>, ord: Seq<int>, i: int)
    requires
        ord_invariant(apps, d0, ord),
        done_closed(apps, d0),
        all_dep_entries_ok(apps),
        0 <= i < apps.len(),
        !d0[i],
        deps_done_spec(apps, d0, i),
    ensures
        ord_invariant(apps, d0.update(i, true), ord.push(i)),
        done_closed(apps, d0.update(i, true)),
{
    let d1 = d0.update(i, true);
    let o1 = ord.push(i);
    assert(!ord.contains(i));
    assert forall|x: int| 0 <= x < apps.len() implies (d1[x] <==> #[trigger] o1.contains(x)) by {
        if x == i {
            assert(o1[ord.len() as int] == i);
            assert(o1.contains(i));
        } else {
            if d1[x] {
                assert(ord.contains(x));
                let p = choose|p: int| 0 <= p < ord.len() && ord[p] == x;
                assert(o1[p] == x);
                assert(o1.contains(x));
            }
            if o1.contains(x) {
                let p = choose|p: int| 0 <= p < o1.len() && o1[p] == x;
                assert(p < ord.len());
                assert(ord.contains(x));
            }
        }
    }
    assert forall|p: int| 0 <= p < o1.len() implies 0 <= #[trigger] o1[p] < apps.len() by {
        if p < ord.len() {
            assert(o1[p] == ord[p]);
        } else {
            assert(o1[p] == i);
        }
    }
    assert forall|p: int, q: int| 0 <= p < q < o1.len() implies o1[p] != o1[q] by {
        if q < ord.len() {
            assert(o1[p] == ord[p] && o1[q] == ord[q]);
        } else {
            assert(o1[q] == i);
            assert(o1[p] == ord[p]);
            if ord[p] == i {
                assert(ord.contains(i));
            }
        }
    }
    assert forall|p: int| 0 <= p < o1.len() implies #[trigger] ord_entry_ok(apps, o1, p) by {
        if p < ord.len() {
            assert(o1[p] == ord[p]);
            assert(ord_entry_ok(apps, ord, p));
            assert forall|k: int|
                #![trigger apps[o1[p]].depends_on@[k]]
                0 <= k < apps[o1[p]].depends_on@.len() implies (o1.contains(
                resolve(apps, apps[o1[p]].depends_on@[k]@),
            ) && pos_in(o1, resolve(apps, apps[o1[p]].depends_on@[k]@)) < p) by {
                assert(apps[ord[p]].depends_on@[k] == apps[o1[p]].depends_on@[k]);
                let r = resolve(apps, apps[ord[p]].depends_on@[k]@);
                assert(ord.contains(r) && pos_in(ord, r) < p);
                lemma_pos_in(ord, r);
                let q = pos_in(ord, r);
                assert(o1[q] == ord[q]);
                assert(o1.contains(r));
                lemma_pos_unique(o1, r, q);
            }
        } else {
            assert(o1[p] == i);
            assert forall|k: int|
                #![trigger apps[o1[p]].depends_on@[k]]
                0 <= k < apps[o1[p]].depends_on@.len() implies (o1.contains(
                resolve(apps, apps[o1[p]].depends_on@[k]@),
            ) && pos_in(o1, resolve(apps, apps[o1[p]].depends_on@[k]@)) < p) by {
                assert(apps[i].depends_on@[k] == apps[o1[p]].depends_on@[k]);
                let j = resolve(apps, apps[i].depends_on@[k]@);
                assert(d0[j]);
                assert(dep_entry_ok(apps, i, k));
                let jw = choose|jw: int|
                    0 <= jw < apps.len() && (#[trigger] apps[jw]).name@ == apps[i].depends_on@[
                        k]@;
                assert(resolves(apps, apps[i].depends_on@[k]@, jw));
                assert(resolves(apps, apps[i].depends_on@[k]@, j));
                assert(0 <= j < apps.len());
                assert(ord.contains(j));
                lemma_pos_in(ord, j);
                let q = pos_in(ord, j);
                assert(o1[q] == ord[q]);
                assert(o1.contains(j));
                lemma_pos_unique(o1, j, q);
            }
        }
    }
    assert forall|x: int| 0 <= x < apps.len() && d1[x] implies #[trigger] deps_done_spec(
        apps,
        d1,
        x,
    ) by {
        assert(deps_done_spec(apps, d0, x));
        assert forall|k: int|
            #![trigger apps[x].depends_on@[k]]
            0 <= k < apps[x].depends_on@.len() implies d1[resolve(
            apps,
            apps[x].depends_on@[k]@,
        )] by {
            assert(d0[resolve(apps, apps[x].depends_on@[k]@)]);
            assert(dep_entry_ok(apps, x, k));
            let jw = choose|jw: int|
                0 <= jw < apps.len() && (#[trigger] apps[jw]).name@ == apps[x].depends_on@[k]@;
            assert(resolves(apps, apps[x].depends_on@[k]@, jw));
            assert(resolves(apps, apps[x].depends_on@[k]@, resolve(apps, apps[x].depends_on@[k]@)));
        }
    }
}

/// Among the positions of `ord` whose entries lie in `s`, there is a
/// first one.
proof fn lemma_first_position(ord: Seq<int>, s: Set<int>, p: int) -> (q: int)
    requires
        0 <= p < ord.len(),
        s.contains(ord[p]),
    ensures
        0 <= q <= p,
        s.contains(ord[q]),
        forall|q2: int| 0 <= q2 < q ==> !s.contains(#[trigger] ord[q2]),
    decreases p,
{
    if exists|q2: int| 0 <= q2 < p && s.contains(#[trigger] ord[q2]) {
        let q2 = choose|q2: int| 0 <= q2 < p && s.contains(#[trigger] ord[q2]);
        lemma_first_position(ord, s, q2)
    } else {
        p
    }
}

/// Some position of the order holds a member of the witness set.
proof fn lemma_witness_member(apps: Seq<ConfigApp>, s: Set<int>) -> (i: int)
    requires
        cycle_witness(apps, s),
    ensures
        s.contains(i),
        0 <= i < apps.len(),
{
    reveal(cycle_witness);
    let i0 = choose|i: int| s.contains(i);
    i0
}

/// A cycle member never stands first in the marking order: one of its
/// cycle-mates already stands at an earlier position.
#[verifier::rlimit(100)]
#[verifier::spinoff_prover]
proof fn lemma_cycle_member_earlier(
    apps: Seq<ConfigApp>,
    done: Seq<bool>,
    ord: Seq<int>,
    s: Set<int>,
    pstar: int,
) -> (q: int)
    requires
        names_unique(apps),
        ord_invariant(apps, done, ord),
        cycle_witness(apps, s),
        0 <= pstar < ord.len(),
        s.contains(ord[pstar]),
    ensures
        0 <= q < pstar,
        s.contains(ord[q]),
{
    reveal(cycle_witness);
    let istar = ord[pstar];
    assert(s.contains(istar));
    let j = choose|j: int| s.contains(j) && depends_idx(apps, istar, j);
    assert(0 <= j < apps.len());
    assert(depends_idx(apps, istar, j));
    let k = choose|k: int|
        0 <= k < apps[istar].depends_on@.len() && (#[trigger] apps[istar].depends_on@[k])@
            == apps[j].name@;
    assert(resolves(apps, apps[istar].depends_on@[k]@, j));
    lemma_resolve_unique(apps, apps[istar].depends_on@[k]@, j);
    assert(apps[ord[pstar]].depends_on@[k] == apps[istar].depends_on@[k]);
    assert(ord_entry_ok(apps, ord, pstar));
    let r = resolve(apps, apps[ord[pstar]].depends_on@[k]@);
    assert(r == j);
    assert(ord.contains(r) && pos_in(ord, r) < pstar);
    lemma_pos_in(ord, r);
    let q0 = pos_in(ord, r);
    assert(ord[q0] == j);
    assert(s.contains(ord[q0]));
    q0
}

/// When marking stalls with positions left over, the leftovers witness a
/// cycle: every one of them waits on another one of them.
#[verifier::rlimit(100)]
#[verifier::spinoff_prover]
proof fn lemma_stall_cycle(apps: Seq<ConfigApp>, done: Seq<bool>)
    requires
        names_unique(apps),
        all_dep_entries_ok(apps),
        done.len() == apps.len(),
        exists|i: int| 0 <= i < apps.len() && !done[i],
        forall|i: int| 0 <= i < apps.len() && !done[i] ==> !deps_done_spec(apps, done, i),
    ensures
        has_cycle(apps),
{
    reveal(cycle_witness);
    let s = Set::new(|x: int| 0 <= x < apps.len() && !done[x]);
    let i0 = choose|i: int| 0 <= i < apps.len() && !done[i];
    assert(s.contains(i0));
    assert forall|i: int| #[trigger] s.contains(i) implies exists|j: int|
        s.contains(j) && depends_idx(apps, i, j) by {
        assert(0 <= i < apps.len() && !done[i]);
        assert(!deps_done_spec(apps, done, i));
        let k = choose|k: int|
            0 <= k < apps[i].depends_on@.len() && !done[resolve(
                apps,
                apps[i].depends_on@[k]@,
            )];
        assert(dep_entry_ok(apps, i, k));
        let jw = choose|jw: int|
            0 <= jw < apps.len() && (#[trigger] apps[jw]).name@ == apps[i].depends_on@[k]@;
        assert(resolves(apps, apps[i].depends_on@[k]@, jw));
        let r = resolve(apps, apps[i].depends_on@[k]@);
        assert(resolves(apps, apps[i].depends_on@[k]@, r));
        assert(0 <= r < apps.len());
        assert(!done[r]);
        assert(s.contains(r));
        assert(depends_idx(apps, i, r));
    }
    assert(cycle_witness(apps, s));
}

/// When every position got marked, the marking order shows the dependency
/// relation acyclic: the first-marked member of a would-be cycle would
/// need an earlier-marked member before it.
proof fn lemma_all_done_no_cycle(apps: Seq<ConfigApp>, done: Seq<bool>, ord: Seq<int>)
    requires
        names_unique(apps),
        ord_invariant(apps, done, ord),
        forall|x: int| 0 <= x < apps.len() ==> done[x],
    ensures
        !has_cycle(apps),
{
    if has_cycle(apps) {
        let s = choose|s: Set<int>| cycle_witness(apps, s);
        let i1 = lemma_witness_member(apps, s);
        assert(done[i1]);
        assert(ord.contains(i1));
        let p0 = choose|p: int| 0 <= p < ord.len() && ord[p] == i1;
        let pstar = lemma_first_position(ord, s, p0);
        let q = lemma_cycle_member_earlier(apps, done, ord, s, pstar);
        assert(!s.contains(ord[q]));
        assert(false);
    }
}

/// Whether every dependency entry of app `i` resolves to a marked
/// position.
fn config_deps_done(apps: &Vec<ConfigApp>, done: &Vec<bool>, i: usize) -> (r: bool)
    requires
        names_unique(apps@),
        all_dep_entries_ok(apps@),
        done@.len() == apps@.len(),
        i < apps@.len(),
    ensures
        r == deps_done_spec(apps@, done@, i as int),
{
    let mut k: usize = 0;
    while k < apps[i].depends_on.len()
        invariant
            names_unique(apps@),
            all_dep_entries_ok(apps@),
            done@.len() == apps@.len(),
            i < apps@.len(),
            k <= apps@[i as int].depends_on@.len(),
            forall|k2: int|
                #![trigger apps@[i as int].depends_on@[k2]]
                0 <= k2 < k ==> done@[resolve(apps@, apps@[i as int].depends_on@[k2]@)],
        decreases apps@[i as int].depends_on@.len() - k,
    {
        let dep: &String = &apps[i].depends_on[k];
        match config_index_of(apps, dep) {
            None => {
                proof {
                    assert(dep_entry_ok(apps@, i as int, k as int));
                    let jw = choose|jw: int|
                        0 <= jw < apps@.len() && (#[trigger] apps@[jw]).name@ == apps@[
                            i as int].depends_on@[k as int]@;
                    assert(apps@[jw].name@ != dep@);
                }
                return false;
            },
            Some(j) => {
                proof {
                    assert(resolves(apps@, dep@, j as int));
                    lemma_resolve_unique(apps@, dep@, j as int);
                }
                if !done[j] {
                    assert(!deps_done_spec(apps@, done@, i as int));
                    return false;
                }
                assert(done@[resolve(apps@, apps@[i as int].depends_on@[k as int]@)]);
            },
        }
        k = k + 1;
    }
    true
}

/// Rejects a configuration whose dependency relation is cyclic, by
/// repeatedly marking every app whose dependencies are all marked: when
/// marking stalls short of everyone, the rest form a cycle.
fn check_cycles(apps: &Vec<ConfigApp>) -> (r: Option<ConfigError>)
    requires
        names_unique(apps@),
        all_dep_entries_ok(apps@),
    ensures
        r is None <==> !has_cycle(apps@),
        r is Some ==> r matches Some(ConfigError::DependencyCycle),
{
    let n: usize = apps.len();
    let mut done: Vec<bool> = Vec::new();
    while done.len() < n
        invariant
            done@.len() <= n,
            forall|m: int| 0 <= m < done@.len() ==> !done@[m],
        decreases n - done@.len(),
    {
        done.push(false);
    }
    proof {
        lemma_count_none(done@);
    }
    let ghost mut ord: Seq<int> = Seq::empty();
    assert(ord_invariant(apps@, done@, ord));
    assert(done_closed(apps@, done@));
    let mut total: usize = 0;
    let mut progressed: bool = true;
    while progressed
        invariant
            apps@.len() == n,
            done@.len() == n,
            names_unique(apps@),
            all_dep_entries_ok(apps@),
            total == count_trues(done@),
            total <= n,
            ord_invariant(apps@, done@, ord),
            done_closed(apps@, done@),
            !progressed ==> (forall|m: int|
                0 <= m < n && !done@[m] ==> !deps_done_spec(apps@, done@, m)),
        decreases n - total + (if progressed { 1int } else { 0int }),
    {
        progressed = false;
        let ghost start_total = total as int;
        let mut i: usize = 0;
        while i < n
            invariant
                apps@.len() == n,
                done@.len() == n,
                names_unique(apps@),
                all_dep_entries_ok(apps@),
                i <= n,
                total == count_trues(done@),
                total <= n,
                ord_invariant(apps@, done@, ord),
                done_closed(apps@, done@),
                progressed ==> start_total < total,
                !progressed ==> start_total == total,
                !progressed ==> (forall|m: int|
                    0 <= m < i && !done@[m] ==> !deps_done_spec(apps@, done@, m)),
            decreases n - i,
        {
            if !done[i] {
                if config_deps_done(apps, &done, i) {
                    proof {
                        lemma_count_lt(done@, i as int);
                        lemma_count_set_true(done@, i as int);
                        lemma_mark(apps@, done@, ord, i as int);
                        ord = ord.push(i as int);
                    }
                    done.set(i, true);
                    total = total + 1;
                    progressed = true;
                }
            }
            i = i + 1;
        }
    }
    if total == n {
        proof {
            lemma_count_full(done@);
            lemma_all_done_no_cycle(apps@, done@, ord);
        }
        None
    } else {
        proof {
            lemma_count_le(done@);
            lemma_count_not_full(done@);
            lemma_stall_cycle(apps@, done@);
        }
        Some(ConfigError::DependencyCycle)
    }
}

impl Config {
    /// Validates the configuration: every app has a command, names are
    /// unique, every dependency names another existing app that carries a
    /// readiness probe, and the dependency relation is acyclic.  Returns
    /// the configuration unchanged exactly when all of that holds, and
    /// otherwise an error naming the first fault found.
    pub fn validate(self) -> (r: Result<Config, ConfigError>)
        ensures
            r is Ok <==> config_valid(self.apps@),
            (r matches Ok(c) ==> c == self),
            (r matches Err(ConfigError::EmptyCommand { name }) ==> exists|i: int|
                0 <= i < self.apps@.len() && (#[trigger] self.apps@[i]).name@ == name@
                    && self.apps@[i].command@.len() == 0),
            (r matches Err(ConfigError::DuplicateName { name }) ==> exists|i: int, j: int|
                0 <= i < j < self.apps@.len() && (#[trigger] self.apps@[i]).name@ == name@
                    && (#[trigger] self.apps@[j]).name@ == name@),
            (r matches Err(ConfigError::SelfDependency { name }) ==> exists|i: int, k: int|
                #![trigger self.apps@[i].depends_on@[k]]
                0 <= i < self.apps@.len() && 0 <= k < self.apps@[i].depends_on@.len()
                    && self.apps@[i].name@ == name@ && self.apps@[i].depends_on@[k]@ == name@),
            (r matches Err(ConfigError::UnknownDependency { name, dependency }) ==> exists|
                i: int,
                k: int,
            |
                #![trigger self.apps@[i].depends_on@[k]]
                0 <= i < self.apps@.len() && 0 <= k < self.apps@[i].depends_on@.len()
                    && self.apps@[i].name@ == name@ && self.apps@[i].depends_on@[k]@
                    == dependency@ && (forall|j: int|
                    0 <= j < self.apps@.len() ==> (#[trigger] self.apps@[j]).name@
                        != dependency@)),
            (r matches Err(ConfigError::DependencyWithoutProbe { name }) ==> exists|
                i: int,
                k: int,
                j: int,
            |
                #![trigger self.apps@[i].depends_on@[k], self.apps@[j].ready]
                0 <= i < self.apps@.len() && 0 <= k < self.apps@[i].depends_on@.len() && 0 <= j
                    < self.apps@.len() && self.apps@[i].depends_on@[k]@ == name@
                    && self.apps@[j].name@ == name@ && self.apps@[j].ready is NoProbe),
            (r matches Err(ConfigError::DependencyCycle) ==> has_cycle(self.apps@)),
    {
        match check_commands_and_names(&self.apps) {
            Some(e) => {
                return Err(e);
            },
            None => {},
        }
        match check_deps(&self.apps) {
            Some(e) => {
                return Err(e);
            },
            None => {},
        }
        match check_cycles(&self.apps) {
            Some(e) => {
                return Err(e);
            },
            None => {},
        }
        Ok(self)
    }
}

/// A decimal digit byte.
pub open spec fn is_dec_digit(b: u8) -> bool {
    48 <= b <= 57
}

/// The number a string of decimal digit bytes denotes.
pub open spec fn dec_value(s: Seq<u8>) -> int
    decreases s.len(),
{
    if s.len() == 0 {
        0
    } else {
        dec_value(s.drop_last()) * 10 + (s.last() as int - 48)
    }
}

proof fn lemma_dec_value_step(s: Seq<u8>, i: int)
    requires
        0 <= i < s.len(),
    ensures
        dec_value(s.take(i + 1)) == dec_value(s.take(i)) * 10 + (s[i] as int - 48),
{
    assert(s.take(i + 1).drop_last() =~= s.take(i));
    assert(s.take(i + 1).last() == s[i]);
}

proof fn lemma_dec_value_nonneg(s: Seq<u8>)
    requires
        forall|m: int| 0 <= m < s.len() ==> is_dec_digit(#[trigger] s[m]),
    ensures
        dec_value(s) >= 0,
    decreases s.len(),
{
    if s.len() > 0 {
        assert(forall|m: int|
            0 <= m < s.drop_last().len() ==> is_dec_digit(#[trigger] s.drop_last()[m]));
        lemma_dec_value_nonneg(s.drop_last());
    }
}

proof fn lemma_dec_value_prefix_le(s: Seq<u8>, i: int)
    requires
        0 <= i <= s.len(),
        forall|m: int| 0 <= m < s.len() ==> is_dec_digit(#[trigger] s[m]),
    ensures
        dec_value(s.take(i)) <= dec_value(s),
    decreases s.len() - i,
{
    if i == s.len() {
        assert(s.take(i) =~= s);
    } else {
        lemma_dec_value_step(s, i);
        assert(forall|m: int|
            0 <= m < s.take(i).len() ==> is_dec_digit(#[trigger] s.take(i)[m]));
        lemma_dec_value_nonneg(s.take(i));
        lemma_dec_value_prefix_le(s, i + 1);
    }
}

/// Reads a u32 from a string of decimal digits.  Returns the denoted
/// number exactly when the string is non-empty, all digits, and the
/// number fits; rejects everything else.
pub fn parse_uid(s: &str) -> (r: Option<u32>)
    ensures
        ({
            let b = s.spec_bytes();
            &&& (r is Some <==> (b.len() > 0 && (forall|i: int|
                0 <= i < b.len() ==> is_dec_digit(#[trigger] b[i])) && dec_value(b)
                <= u32::MAX))
            &&& (r matches Some(v) ==> v == dec_value(b))
        }),
{
    let bytes: &[u8] = s.as_bytes();
    let n: usize = bytes.len();
    if n == 0 {
        return None;
    }
    let mut i: usize = 0;
    while i < n
        invariant
            n == s.spec_bytes().len(),
            bytes@ == s.spec_bytes(),
            i <= n,
            forall|m: int| 0 <= m < i ==> is_dec_digit(#[trigger] s.spec_bytes()[m]),
        decreases n - i,
    {
        let b: u8 = bytes[i];
        if b < 48 || 57 < b {
            return None;
        }
        i = i + 1;
    }
    let mut acc: u64 = 0;
    let mut k: usize = 0;
    while k < n
        invariant
            n == s.spec_bytes().len(),
            bytes@ == s.spec_bytes(),
            k <= n,
            forall|m: int| 0 <= m < n ==> is_dec_digit(#[trigger] s.spec_bytes()[m]),
            acc == dec_value(s.spec_bytes().take(k as int)),
            acc <= u32::MAX,
        decreases n - k,
    {
        let b: u8 = bytes[k];
        let next: u64 = acc * 10 + ((b - 48) as u64);
        proof {
            lemma_dec_value_step(s.spec_bytes(), k as int);
        }
        if next > (u32::MAX as u64) {
            proof {
                lemma_dec_value_prefix_le(s.spec_bytes(), k as int + 1);
            }
            return None;
        }
        acc = next;
        k = k + 1;
    }
    proof {
        assert(s.spec_bytes().take(n as int) =~= s.spec_bytes());
    }
    Some(acc as u32)
}

/// The numeric signal a symbolic lowercase signal name denotes, if any.
pub fn signal_from_name(name: &str) -> (r: Option<i32>)
    ensures
        (r == Some(SIGTERM) <==> (name@ == "sigterm"@ || name@ == "term"@)),
        (r == Some(SIGINT) <==> (name@ == "sigint"@ || name@ == "int"@)),
        (r is None <==> !(name@ == "sigterm"@ || name@ == "term"@ || name@ == "sigint"@
            || name@ == "int"@)),
{
    proof {
        reveal_strlit("sigterm");
        reveal_strlit("term");
        reveal_strlit("sigint");
        reveal_strlit("int");
        assert("sigterm"@.len() == 7);
        assert("term"@.len() == 4);
        assert("sigint"@.len() == 6);
        assert("int"@.len() == 3);
    }
    let n: String = name.to_owned();
    if n == "sigterm".to_owned() || n == "term".to_owned() {
        Some(SIGTERM)
    } else if n == "sigint".to_owned() || n == "int".to_owned() {
        Some(SIGINT)
    } else {
        None
    }
}

} // verus!
