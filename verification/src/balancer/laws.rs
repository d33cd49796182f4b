//! What holds of the selector: which backend a selection returns, and that
//! the connection counters follow the guards through every run of events.

use crate::balancer::Balancer;
use crate::config::BackendConfig;
use vstd::arithmetic::div_mod::lemma_add_mod_noop;
use vstd::arithmetic::div_mod::lemma_mod_add_multiples_vanish;
use vstd::arithmetic::div_mod::lemma_mod_bound;
use vstd::arithmetic::div_mod::lemma_small_mod;
use vstd::arithmetic::div_mod::lemma_sub_mod_noop;
use vstd::multiset::Multiset;
use vstd::prelude::*;

verus! {

/// A scan from step `k` returns a place of the snapshot that is eligible and
/// that no earlier step of the scan could have returned; it returns nothing
/// only if no step from `k` on finds an eligible place.
proof fn lemma_scan(b: Balancer, k: int)
    requires
        0 <= k <= b.len(),
    ensures
        match b.scan(k) {
            Some(i) => exists|step: int|
                k <= step < b.len() && #[trigger] b.position(step) == i && b.eligible(i) && forall|
                    j: int,
                |
                    k <= j < step ==> !b.eligible(#[trigger] b.position(j)),
            None => forall|j: int| k <= j < b.len() ==> !b.eligible(#[trigger] b.position(j)),
        },
    decreases b.len() - k,
{
    if k < b.len() {
        if b.eligible(b.position(k)) {
            assert(b.position(k) == b.scan(k)->0);
        } else {
            lemma_scan(b, k + 1);
            match b.scan(k + 1) {
                Some(i) => {
                    let step = choose|step: int|
                        k + 1 <= step < b.len() && #[trigger] b.position(step) == i && b.eligible(i)
                            && forall|j: int|
                            k + 1 <= j < step ==> !b.eligible(#[trigger] b.position(j));
                    assert forall|j: int| k <= j < step implies !b.eligible(
                        #[trigger] b.position(j),
                    ) by {
                        if j > k {
                        }
                    }
                    assert(b.position(step) == i);
                },
                None => {
                    assert forall|j: int| k <= j < b.len() implies !b.eligible(
                        #[trigger] b.position(j),
                    ) by {
                        if j > k {
                        }
                    }
                },
            }
        }
    }
}

/// A scan visits every place of the snapshot once: place `i` at step `i -
/// start`, taken modulo the number of backends.
proof fn lemma_scan_covers(b: Balancer, i: int) -> (step: int)
    requires
        0 <= i < b.len(),
    ensures
        0 <= step < b.len(),
        b.position(step) == i,
{
    let start = (b.cursor as int) % (b.len() as int);
    if i >= start {
        i - start
    } else {
        i + b.len() - start
    }
}

/// A selection never returns a backend that drains, is unhealthy or is at the
/// cap: the backend returned is the first eligible one in round-robin order
/// from the cursor. It returns none exactly when no backend of the snapshot is
/// eligible, which one sweep of the snapshot finds out.
pub proof fn lemma_selection(b: Balancer)
    requires
        b.wf(),
    ensures
        match b.selected() {
            Some(i) => {
                &&& 0 <= i < b.len()
                &&& !b.backend(i).drain
                &&& b.backend(i).healthy
                &&& b.limit matches Some(l) ==> b.backend(i).active < l
                &&& exists|step: int|
                    0 <= step < b.len() && #[trigger] b.position(step) == i && forall|j: int|
                        0 <= j < step ==> !b.eligible(#[trigger] b.position(j))
            },
            None => forall|i: int| 0 <= i < b.len() ==> !#[trigger] b.eligible(i),
        },
{
    lemma_scan(b, 0);
    match b.selected() {
        Some(i) => {},
        None => {
            assert forall|i: int| 0 <= i < b.len() implies !#[trigger] b.eligible(i) by {
                let step = lemma_scan_covers(b, i);
                assert(!b.eligible(b.position(step)));
            }
        },
    }
}

/// How many numbers a counter can tell apart before it starts anew.
pub open spec fn counter_span() -> int {
    usize::MAX + 1
}

/// Whether the counters of `b` agree with the guards that are out: every
/// backend of the pool counts as many connections as there are guards on its
/// handle, as far as a counter can count, and there is no guard on a handle
/// that the pool lacks.
pub open spec fn accounted(b: Balancer, guards: Multiset<int>) -> bool {
    &&& forall|h: int|
        0 <= h < b.pool.len() ==> (#[trigger] b.pool[h]).active == (guards.count(h) as int)
            % counter_span()
    &&& forall|h: int| #[trigger] guards.count(h) > 0 ==> 0 <= h < b.pool.len()
}

/// The guards that are out after a selection: one more on the selected
/// backend.
pub open spec fn guards_after_select(b: Balancer, guards: Multiset<int>) -> Multiset<int> {
    match b.selected() {
        Some(i) => guards.insert(b.snapshot[i]),
        None => guards,
    }
}

/// A counter that has counted `x` shows, after one more, what it shows for
/// `x + 1`.
proof fn lemma_count_up(x: int)
    requires
        x >= 0,
    ensures
        (x + 1) % counter_span() == if x % counter_span() == usize::MAX {
            0
        } else {
            x % counter_span() + 1
        },
{
    let m = counter_span();
    lemma_add_mod_noop(x, 1, m);
    lemma_small_mod(1, m as nat);
    lemma_mod_bound(x, m);
    if x % m == usize::MAX {
        lemma_mod_add_multiples_vanish(0, m);
        lemma_small_mod(0, m as nat);
    } else {
        lemma_small_mod((x % m + 1) as nat, m as nat);
    }
}

/// A counter that has counted `x`, at least one, shows, after one less, what
/// it shows for `x - 1`.
proof fn lemma_count_down(x: int)
    requires
        x > 0,
    ensures
        (x - 1) % counter_span() == if x % counter_span() == 0 {
            usize::MAX as int
        } else {
            x % counter_span() - 1
        },
{
    let m = counter_span();
    lemma_sub_mod_noop(x, 1, m);
    lemma_small_mod(1, m as nat);
    lemma_mod_bound(x, m);
    if x % m == 0 {
        lemma_mod_add_multiples_vanish(-1, m);
        lemma_small_mod((m - 1) as nat, m as nat);
    } else {
        lemma_small_mod((x % m - 1) as nat, m as nat);
    }
}

/// A selection keeps the counters in step with the guards.
pub proof fn lemma_select_accounted(b: Balancer, guards: Multiset<int>)
    requires
        b.wf(),
        accounted(b, guards),
    ensures
        b.after_select().wf(),
        accounted(b.after_select(), guards_after_select(b, guards)),
{
    broadcast use vstd::multiset::group_multiset_axioms;

    lemma_selection(b);
    if b.selected() is Some {
        let h = b.snapshot[b.selected()->0];
        lemma_count_up(guards.count(h) as int);
    }
}

/// The release of a guard that is out keeps the counters in step with the
/// guards, also where the snapshot has dropped the backend since.
pub proof fn lemma_release_accounted(b: Balancer, guards: Multiset<int>, handle: int)
    requires
        b.wf(),
        accounted(b, guards),
        guards.count(handle) > 0,
    ensures
        b.released(handle).wf(),
        accounted(b.released(handle), guards.remove(handle)),
{
    broadcast use vstd::multiset::group_multiset_axioms;

    lemma_count_down(guards.count(handle) as int);
}

/// Where no backend has more guards out on it than a counter can count, every
/// counter is exactly the number of guards on its backend.
pub proof fn lemma_counters_are_guards(b: Balancer, guards: Multiset<int>)
    requires
        accounted(b, guards),
        forall|h: int| #[trigger] guards.count(h) <= usize::MAX,
    ensures
        forall|h: int| 0 <= h < b.pool.len() ==> (#[trigger] b.pool[h]).active == guards.count(h),
{
    assert forall|h: int| 0 <= h < b.pool.len() implies (#[trigger] b.pool[h]).active
        == guards.count(h) by {
        lemma_small_mod(guards.count(h), counter_span() as nat);
    }
}

/// A report on a backend's health changes no counter.
pub proof fn lemma_health_accounted(
    b: Balancer,
    guards: Multiset<int>,
    addr: Seq<char>,
    healthy: bool,
)
    requires
        b.wf(),
        accounted(b, guards),
    ensures
        b.after_health(addr, healthy).wf(),
        accounted(b.after_health(addr, healthy), guards),
{
    lemma_find(b, addr, 0);
}

/// What a search by address returns is a handle of the snapshot, so of the
/// pool, and the backend there has that address.
proof fn lemma_find(b: Balancer, addr: Seq<char>, k: int)
    requires
        b.wf(),
        0 <= k,
    ensures
        b.find(addr, k) matches Some(h) ==> 0 <= h < b.pool.len() && b.pool[h].addr == addr
            && exists|i: int| k <= i < b.len() && #[trigger] b.snapshot[i] == h,
    decreases b.len() - k,
{
    if k < b.len() {
        if b.backend(k).addr == addr {
            assert(b.snapshot[k] == b.find(addr, k)->0);
        } else {
            lemma_find(b, addr, k + 1);
        }
    }
}

/// The first free place, where there is one, is free.
proof fn lemma_first_free(b: Balancer, next: Seq<int>, k: int)
    requires
        0 <= k,
    ensures
        b.first_free(next, k) matches Some(f) ==> k <= f && b.free(next, f),
    decreases b.pool.len() - k,
{
    if k < b.pool.len() && !b.free(next, k) {
        lemma_first_free(b, next, k + 1);
    }
}

/// What the enrolment of the first `n` of `configs` leaves: the snapshot is
/// untouched until the end, the new snapshot has a handle of the pool for
/// each of them, with the backend of that address there, and the pool has not
/// shrunk. Every backend of the current snapshot has kept its address, its
/// counter and its health, and no counter of the pool has changed; a backend
/// that joined the pool at its end has no connection and is healthy.
pub proof fn lemma_enroll_all(b: Balancer, configs: Seq<BackendConfig>, n: int)
    requires
        b.wf(),
        0 <= n <= configs.len(),
    ensures
        ({
            let (after, next) = b.enroll_all(configs, n);
            &&& after.wf()
            &&& after.snapshot == b.snapshot
            &&& after.rule_name == b.rule_name
            &&& after.cursor == b.cursor
            &&& after.limit == b.limit
            &&& next.len() == n
            &&& after.pool.len() >= b.pool.len()
            &&& forall|i: int| 0 <= i < n ==> 0 <= #[trigger] next[i] < after.pool.len()
            &&& forall|i: int|
                0 <= i < n ==> (#[trigger] after.pool[next[i]]).addr == configs[i].spec_addr()
            &&& forall|h: int|
                0 <= h < b.pool.len() ==> (#[trigger] after.pool[h]).active == b.pool[h].active
            &&& forall|i: int|
                0 <= i < b.len() ==> (#[trigger] after.pool[b.snapshot[i]]).healthy
                    == b.pool[b.snapshot[i]].healthy && after.pool[b.snapshot[i]].addr
                    == b.pool[b.snapshot[i]].addr
            &&& forall|h: int|
                b.pool.len() <= h < after.pool.len() ==> (#[trigger] after.pool[h]).active == 0
        }),
    decreases n,
{
    if n > 0 {
        lemma_enroll_all(b, configs, n - 1);
        let (mid, next) = b.enroll_all(configs, n - 1);
        let config = configs[n - 1];
        lemma_find(mid, config.spec_addr(), 0);
        lemma_first_free(mid, next, 0);
        let (after, next2) = mid.enroll(next, config);
        assert forall|i: int| 0 <= i < n implies 0 <= #[trigger] next2[i] < after.pool.len() by {
            if i < n - 1 {
                assert(next2[i] == next[i]);
            }
        }
        assert forall|i: int| 0 <= i < n implies (#[trigger] after.pool[next2[i]]).addr
            == configs[i].spec_addr() by {
            if i < n - 1 {
                assert(next2[i] == next[i]);
                assert(next.contains(next[i]));
                assert(mid.pool[next[i]].addr == configs[i].spec_addr());
            }
        }
        assert forall|i: int| 0 <= i < b.len() implies (
        #[trigger] after.pool[b.snapshot[i]]).healthy == b.pool[b.snapshot[i]].healthy
            && after.pool[b.snapshot[i]].addr == b.pool[b.snapshot[i]].addr by {
            assert(mid.snapshot.contains(mid.snapshot[i]));
            assert(mid.pool[b.snapshot[i]].healthy == b.pool[b.snapshot[i]].healthy);
        }
        assert forall|h: int| 0 <= h < b.pool.len() implies (#[trigger] after.pool[h]).active
            == b.pool[h].active by {
            assert(mid.pool[h].active == b.pool[h].active);
        }
        assert forall|h: int| b.pool.len() <= h < after.pool.len() implies (
        #[trigger] after.pool[h]).active == 0 by {
            if h < mid.pool.len() {
                assert(mid.pool[h].active == 0);
            }
        }
    }
}

/// A reload keeps the counters in step with the guards: a backend that stays
/// keeps its counter and its health, one that joins starts at zero, and one
/// that leaves the snapshot keeps its place in the pool for the guards that
/// are still out on it.
pub proof fn lemma_update_accounted(b: Balancer, guards: Multiset<int>, configs: Seq<BackendConfig>)
    requires
        b.wf(),
        accounted(b, guards),
    ensures
        b.after_update(configs).wf(),
        b.after_update(configs).len() == configs.len(),
        accounted(b.after_update(configs), guards),
        forall|h: int|
            0 <= h < b.pool.len() ==> (#[trigger] b.after_update(configs).pool[h]).active
                == b.pool[h].active,
        forall|i: int|
            0 <= i < b.len() ==> (#[trigger] b.after_update(configs).pool[b.snapshot[i]]).healthy
                == b.pool[b.snapshot[i]].healthy,
{
    lemma_enroll_all(b, configs, configs.len() as int);
    lemma_small_mod(0, counter_span() as nat);
}

/// A balancer at its start is well formed and has no connection, as there is
/// no guard.
pub proof fn lemma_initial_accounted(
    rule_name: Seq<char>,
    configs: Seq<BackendConfig>,
    limit: Option<nat>,
)
    ensures
        Balancer::initial(rule_name, configs, limit).wf(),
        accounted(Balancer::initial(rule_name, configs, limit), Multiset::empty()),
{
    broadcast use vstd::multiset::group_multiset_axioms;

    lemma_small_mod(0, counter_span() as nat);
}

impl Balancer {
    /// The state after the release of a guard that was taken on the backend
    /// at `handle`.
    pub open spec fn released(self, handle: int) -> Balancer {
        self.after_release(handle, self.pool[handle].addr, self.pool[handle].rule_name)
    }
}

/// With or without a cap, a selection returns none exactly when no backend of
/// the snapshot is eligible, and then it changes no counter and no flag.
/// Without a cap that is when every backend drains or is unhealthy.
pub proof fn lemma_none_iff_all_filtered(b: Balancer)
    requires
        b.wf(),
    ensures
        b.selected() is None <==> forall|i: int| 0 <= i < b.len() ==> !#[trigger] b.eligible(i),
        b.limit is None ==> (b.selected() is None <==> forall|i: int|
            0 <= i < b.len() ==> (#[trigger] b.backend(i)).drain || !b.backend(i).healthy),
        b.selected() is None ==> b.after_select().pool == b.pool && b.after_select().snapshot
            == b.snapshot,
{
    lemma_selection(b);
    if b.selected() is Some {
        let i = b.selected()->0;
        assert(b.eligible(i));
        assert(!(b.backend(i).drain || !b.backend(i).healthy));
    } else {
        assert forall|i: int| 0 <= i < b.len() implies (#[trigger] b.backend(i)).drain
            || !b.backend(i).healthy || b.limit is Some by {
            assert(!b.eligible(i));
        }
    }
}

/// Something that happens to a balancer.
pub enum Event {
    /// A selection.
    Select,
    /// The release of a guard on this handle.
    Release(int),
    /// A reload.
    Update(Seq<BackendConfig>),
    /// A report on the health of the backend at an address.
    Health(Seq<char>, bool),
}

/// The balancer and the guards that are out after one event. Only a guard
/// that is out can be released.
pub open spec fn after_event(b: Balancer, guards: Multiset<int>, event: Event) -> (
    Balancer,
    Multiset<int>,
) {
    match event {
        Event::Select => (b.after_select(), guards_after_select(b, guards)),
        Event::Release(h) => if guards.count(h) > 0 {
            (b.released(h), guards.remove(h))
        } else {
            (b, guards)
        },
        Event::Update(configs) => (b.after_update(configs), guards),
        Event::Health(addr, healthy) => (b.after_health(addr, healthy), guards),
    }
}

/// The balancer and the guards that are out after a run of events.
pub open spec fn after_events(b: Balancer, guards: Multiset<int>, events: Seq<Event>) -> (
    Balancer,
    Multiset<int>,
)
    decreases events.len(),
{
    if events.len() == 0 {
        (b, guards)
    } else {
        let (b1, g1) = after_events(b, guards, events.drop_last());
        after_event(b1, g1, events.last())
    }
}

/// Through any run of selections, releases, reloads and health reports, the
/// counter of every backend is the number of guards taken on it and not yet
/// released, as far as a counter can count.
pub proof fn lemma_counters_match_guards(b: Balancer, guards: Multiset<int>, events: Seq<Event>)
    requires
        b.wf(),
        accounted(b, guards),
    ensures
        after_events(b, guards, events).0.wf(),
        accounted(after_events(b, guards, events).0, after_events(b, guards, events).1),
    decreases events.len(),
{
    if events.len() > 0 {
        lemma_counters_match_guards(b, guards, events.drop_last());
        let (b1, g1) = after_events(b, guards, events.drop_last());
        match events.last() {
            Event::Select => lemma_select_accounted(b1, g1),
            Event::Release(h) => {
                if g1.count(h) > 0 {
                    lemma_release_accounted(b1, g1, h);
                }
            },
            Event::Update(configs) => lemma_update_accounted(b1, g1, configs),
            Event::Health(addr, healthy) => lemma_health_accounted(b1, g1, addr, healthy),
        }
    }
}

/// Under a cap, a selection never takes a backend above it: a balancer whose
/// counters are all within the cap stays so.
pub proof fn lemma_cap_respected(b: Balancer, cap: nat)
    requires
        b.wf(),
        b.limit == Some(cap),
        forall|h: int| 0 <= h < b.pool.len() ==> (#[trigger] b.pool[h]).active <= cap,
    ensures
        forall|h: int|
            0 <= h < b.pool.len() ==> (#[trigger] b.after_select().pool[h]).active <= cap,
{
    lemma_selection(b);
}

} // verus!
