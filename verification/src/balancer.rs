//! The backend selector: round-robin over a snapshot of backends, skipping
//! those that drain, are unhealthy or are full.
//!
//! A backend lives in a pool and is known by its place there, its handle. A
//! snapshot is a list of handles. A reload publishes a new snapshot as a whole;
//! a backend that it drops stays in the pool as long as guards are held on it,
//! so that they have something to release. Once the last one is given back, a
//! later reload gives the place to a new backend.

use crate::config::BackendConfig;
use vstd::prelude::*;

pub mod laws;

verus! {

/// The mathematical state of a backend.
pub struct BackendView {
    pub rule_name: Seq<char>,
    pub addr: Seq<char>,
    /// Connections that hold a guard on the backend.
    pub active: nat,
    pub healthy: bool,
    pub drain: bool,
}

/// An upstream endpoint.
#[derive(Clone, Debug)]
pub struct Backend {
    pub rule_name: String,
    pub addr: String,
    pub active_connections: usize,
    pub healthy: bool,
    /// Configured state: a draining backend gets no new connections.
    pub drain: bool,
}

impl View for Backend {
    type V = BackendView;

    open spec fn view(&self) -> BackendView {
        BackendView {
            rule_name: self.rule_name@,
            addr: self.addr@,
            active: self.active_connections as nat,
            healthy: self.healthy,
            drain: self.drain,
        }
    }
}

impl Backend {
    /// A copy of the backend as it stands.
    pub fn duplicate(&self) -> (copy: Backend)
        ensures
            copy@ == self@,
    {
        Backend {
            rule_name: self.rule_name.clone(),
            addr: self.addr.clone(),
            active_connections: self.active_connections,
            healthy: self.healthy,
            drain: self.drain,
        }
    }
}

impl BackendView {
    /// A backend as a reload or the start creates it: healthy, with no
    /// connection.
    pub open spec fn fresh(rule_name: Seq<char>, config: BackendConfig) -> BackendView {
        BackendView {
            rule_name,
            addr: config.spec_addr(),
            active: 0,
            healthy: true,
            drain: config.spec_drain(),
        }
    }

    /// Whether the backend may take one more connection under the cap: it
    /// does not drain, is healthy, and is below the cap.
    pub open spec fn eligible(self, limit: Option<nat>) -> bool {
        &&& !self.drain
        &&& self.healthy
        &&& limit matches Some(l) ==> self.active < l
    }

    /// With one more connection. The counter is a `usize` and wraps where it
    /// is full.
    pub open spec fn with_one_more(self) -> BackendView {
        BackendView {
            active: if self.active >= usize::MAX {
                0
            } else {
                self.active + 1
            },
            ..self
        }
    }

    /// Whether a guard for this address under this rule is a guard on this
    /// backend.
    pub open spec fn holds(self, addr: Seq<char>, rule: Seq<char>) -> bool {
        self.addr == addr && self.rule_name == rule
    }

    /// With one connection less. The counter wraps where it is empty, as it
    /// wraps where it is full.
    pub open spec fn with_one_less(self) -> BackendView {
        BackendView {
            active: if self.active > 0 {
                (self.active - 1) as nat
            } else {
                usize::MAX as nat
            },
            ..self
        }
    }
}

/// A list of handles as numbers.
pub open spec fn handles(list: Seq<usize>) -> Seq<int> {
    Seq::new(list.len(), |i: int| list[i] as int)
}

/// The views of the backends in a pool.
pub open spec fn pool_view(pool: Seq<Backend>) -> Seq<BackendView> {
    Seq::new(pool.len(), |i: int| pool[i]@)
}

/// The mathematical state of a load balancer.
pub struct Balancer {
    pub rule_name: Seq<char>,
    /// Every backend that was ever part of a snapshot, by handle.
    pub pool: Seq<BackendView>,
    /// The handles of the current backends, in configured order.
    pub snapshot: Seq<int>,
    /// The round-robin cursor.
    pub cursor: nat,
    /// The cap on connections per backend.
    pub limit: Option<nat>,
}

impl Balancer {
    /// Every handle of the snapshot is in the pool.
    pub open spec fn wf(self) -> bool {
        forall|i: int|
            0 <= i < self.snapshot.len() ==> 0 <= #[trigger] self.snapshot[i] < self.pool.len()
    }

    /// Number of current backends.
    pub open spec fn len(self) -> nat {
        self.snapshot.len()
    }

    /// The backend at place `i` of the snapshot.
    pub open spec fn backend(self, i: int) -> BackendView {
        self.pool[self.snapshot[i]]
    }

    pub open spec fn eligible(self, i: int) -> bool {
        self.backend(i).eligible(self.limit)
    }

    /// The place that a scan visits at its `k`-th step: it starts at the
    /// cursor, taken modulo the number of backends, and wraps around.
    pub open spec fn position(self, k: int) -> int {
        let start = (self.cursor as int) % (self.len() as int);
        if start + k < self.len() {
            start + k
        } else {
            start + k - self.len()
        }
    }

    /// The first eligible place that a scan visits at step `k` or later.
    pub open spec fn scan(self, k: int) -> Option<int>
        decreases self.len() - k,
    {
        if k < 0 || k >= self.len() {
            None
        } else if self.eligible(self.position(k)) {
            Some(self.position(k))
        } else {
            self.scan(k + 1)
        }
    }

    /// The place of the backend that a selection returns.
    pub open spec fn selected(self) -> Option<int> {
        self.scan(0)
    }

    /// The cursor after a selection: one further, wrapping at the largest
    /// `usize`; an empty snapshot leaves it alone.
    pub open spec fn next_cursor(self) -> nat {
        if self.len() == 0 {
            self.cursor
        } else if self.cursor == usize::MAX {
            0
        } else {
            self.cursor + 1
        }
    }

    /// The state after a selection: the cursor has moved on and the selected
    /// backend has one more connection.
    pub open spec fn after_select(self) -> Balancer {
        match self.selected() {
            Some(i) => Balancer {
                cursor: self.next_cursor(),
                pool: self.pool.update(self.snapshot[i], self.backend(i).with_one_more()),
                ..self
            },
            None => Balancer { cursor: self.next_cursor(), ..self },
        }
    }

    /// The state after the release of a guard on `handle`, taken for the
    /// backend at `addr` under `rule`: that backend has one connection less. A
    /// guard that is not of this balancer, for which the pool has no such
    /// backend at the handle, changes nothing.
    pub open spec fn after_release(
        self,
        handle: int,
        addr: Seq<char>,
        rule: Seq<char>,
    ) -> Balancer {
        if 0 <= handle < self.pool.len() && self.pool[handle].holds(addr, rule) {
            Balancer { pool: self.pool.update(handle, self.pool[handle].with_one_less()), ..self }
        } else {
            self
        }
    }

    /// The handle of the first backend of the snapshot, from place `k` on,
    /// that has address `addr`.
    pub open spec fn find(self, addr: Seq<char>, k: int) -> Option<int>
        decreases self.len() - k,
    {
        if k < 0 || k >= self.len() {
            None
        } else if self.backend(k).addr == addr {
            Some(self.snapshot[k])
        } else {
            self.find(addr, k + 1)
        }
    }

    /// The state after the health of the backend at `addr` was reported: the
    /// first backend with that address takes the value; a report on an address
    /// that the snapshot does not hold is dropped.
    pub open spec fn after_health(self, addr: Seq<char>, healthy: bool) -> Balancer {
        match self.find(addr, 0) {
            Some(h) => Balancer {
                pool: self.pool.update(h, BackendView { healthy, ..self.pool[h] }),
                ..self
            },
            None => self,
        }
    }

    /// What a report on the health of the backend at `addr` changes.
    pub open spec fn health_change(self, addr: Seq<char>, healthy: bool) -> HealthChange {
        match self.find(addr, 0) {
            None => HealthChange::Unknown,
            Some(h) => if self.pool[h].healthy == healthy {
                HealthChange::Unchanged
            } else if healthy {
                HealthChange::BecameHealthy
            } else {
                HealthChange::BecameUnhealthy
            },
        }
    }

    /// Whether the place `h` of the pool can be given to a new backend: no
    /// guard is held on it, and neither the current snapshot nor the new one
    /// `next` has it.
    pub open spec fn free(self, next: Seq<int>, h: int) -> bool {
        &&& 0 <= h < self.pool.len()
        &&& self.pool[h].active == 0
        &&& !self.snapshot.contains(h)
        &&& !next.contains(h)
    }

    /// The first free place of the pool from `k` on.
    pub open spec fn first_free(self, next: Seq<int>, k: int) -> Option<int>
        decreases self.pool.len() - k,
    {
        if k < 0 || k >= self.pool.len() {
            None
        } else if self.free(next, k) {
            Some(k)
        } else {
            self.first_free(next, k + 1)
        }
    }

    /// One step of a reload: the backend for `config` joins the new snapshot
    /// `next`. An address that the current snapshot holds keeps its backend,
    /// with its counter and its health, and takes the configured drain state;
    /// any other address gets a fresh backend, in the first free place of the
    /// pool or, where none is free, at its end.
    pub open spec fn enroll(self, next: Seq<int>, config: BackendConfig) -> (Balancer, Seq<int>) {
        match self.find(config.spec_addr(), 0) {
            Some(h) => (
                Balancer {
                    pool: self.pool.update(
                        h,
                        BackendView { drain: config.spec_drain(), ..self.pool[h] },
                    ),
                    ..self
                },
                next.push(h),
            ),
            None => match self.first_free(next, 0) {
                Some(f) => (
                    Balancer {
                        pool: self.pool.update(f, BackendView::fresh(self.rule_name, config)),
                        ..self
                    },
                    next.push(f),
                ),
                None => (
                    Balancer {
                        pool: self.pool.push(BackendView::fresh(self.rule_name, config)),
                        ..self
                    },
                    next.push(self.pool.len() as int),
                ),
            },
        }
    }

    /// The pool and the new snapshot after the first `n` of `configs` were
    /// admitted, one after the other.
    pub open spec fn enroll_all(self, configs: Seq<BackendConfig>, n: int) -> (Balancer, Seq<int>)
        decreases n,
    {
        if n <= 0 {
            (self, Seq::empty())
        } else {
            let (b, next) = self.enroll_all(configs, n - 1);
            b.enroll(next, configs[n - 1])
        }
    }

    /// The state after a reload to `configs`: every backend was enrolled, and
    /// the new snapshot replaces the old one as a whole.
    pub open spec fn after_update(self, configs: Seq<BackendConfig>) -> Balancer {
        let (b, next) = self.enroll_all(configs, configs.len() as int);
        Balancer { snapshot: next, ..b }
    }

    /// A balancer at its start: one fresh backend for each of `configs`.
    pub open spec fn initial(
        rule_name: Seq<char>,
        configs: Seq<BackendConfig>,
        limit: Option<nat>,
    ) -> Balancer {
        Balancer {
            rule_name,
            pool: Seq::new(configs.len(), |i: int| BackendView::fresh(rule_name, configs[i])),
            snapshot: Seq::new(configs.len(), |i: int| i),
            cursor: 0,
            limit,
        }
    }
}

/// What a report on a backend's health changed.
#[derive(Clone, Copy, Debug, PartialEq, Eq, Structural)]
pub enum HealthChange {
    /// The snapshot holds no backend with that address.
    Unknown,
    /// The backend had that health already.
    Unchanged,
    /// The backend became healthy.
    BecameHealthy,
    /// The backend became unhealthy.
    BecameUnhealthy,
}

/// The hold of one connection on a backend. It is made by a selection and
/// given back to the balancer when the connection ends; it cannot be copied.
#[derive(Debug)]
pub struct ConnectionGuard {
    rule_name: String,
    backend_addr: String,
    handle: usize,
}

impl ConnectionGuard {
    /// The handle of the backend that the guard holds.
    pub closed spec fn handle(&self) -> int {
        self.handle as int
    }

    /// The address of the backend that the guard holds.
    pub closed spec fn addr(&self) -> Seq<char> {
        self.backend_addr@
    }

    /// The rule that the backend belongs to.
    pub closed spec fn rule(&self) -> Seq<char> {
        self.rule_name@
    }

    pub fn backend_addr(&self) -> (addr: &String)
        ensures
            addr@ == self.addr(),
    {
        &self.backend_addr
    }

    pub fn rule_name(&self) -> (rule: &String)
        ensures
            rule@ == self.rule(),
    {
        &self.rule_name
    }
}

/// The selector of one rule.
pub struct LoadBalancer {
    pub rule_name: String,
    pool: Vec<Backend>,
    snapshot: Vec<usize>,
    current: usize,
    connection_limit: Option<usize>,
}

impl View for LoadBalancer {
    type V = Balancer;

    closed spec fn view(&self) -> Balancer {
        Balancer {
            rule_name: self.rule_name@,
            pool: pool_view(self.pool@),
            snapshot: handles(self.snapshot@),
            cursor: self.current as nat,
            limit: match self.connection_limit {
                Some(l) => Some(l as nat),
                None => None,
            },
        }
    }
}

fn listed(list: &Vec<usize>, h: usize) -> (found: bool)
    ensures
        found == handles(list@).contains(h as int),
{
    let mut i: usize = 0;
    while i < list.len()
        invariant
            i <= list@.len(),
            forall|j: int| 0 <= j < i ==> handles(list@)[j] != h,
        decreases list@.len() - i,
    {
        if list[i] == h {
            assert(handles(list@)[i as int] == h);
            return true;
        }
        i = i + 1;
    }
    false
}

fn fresh_backend(rule_name: &String, config: &BackendConfig) -> (backend: Backend)
    ensures
        backend@ == BackendView::fresh(rule_name@, *config),
{
    Backend {
        rule_name: rule_name.clone(),
        addr: config.addr().clone(),
        active_connections: 0,
        healthy: true,
        drain: config.drain(),
    }
}

impl LoadBalancer {
    /// A balancer over one fresh backend for each of `backend_configs`.
    pub fn new(
        rule_name: String,
        backend_configs: Vec<BackendConfig>,
        connection_limit: Option<usize>,
    ) -> (lb: LoadBalancer)
        ensures
            lb@ == Balancer::initial(
                rule_name@,
                backend_configs@,
                match connection_limit {
                    Some(l) => Some(l as nat),
                    None => None,
                },
            ),
            lb@.wf(),
    {
        let mut pool: Vec<Backend> = Vec::new();
        let mut snapshot: Vec<usize> = Vec::new();
        let mut i: usize = 0;
        while i < backend_configs.len()
            invariant
                i <= backend_configs@.len(),
                pool@.len() == i,
                snapshot@.len() == i,
                forall|j: int|
                    0 <= j < i ==> (#[trigger] pool@[j])@ == BackendView::fresh(
                        rule_name@,
                        backend_configs@[j],
                    ),
                forall|j: int| 0 <= j < i ==> (#[trigger] snapshot@[j]) == j,
            decreases backend_configs@.len() - i,
        {
            pool.push(fresh_backend(&rule_name, &backend_configs[i]));
            snapshot.push(i);
            i = i + 1;
        }
        let lb = LoadBalancer { rule_name, pool, snapshot, current: 0, connection_limit };
        proof {
            let want = Balancer::initial(
                rule_name@,
                backend_configs@,
                match connection_limit {
                    Some(l) => Some(l as nat),
                    None => None,
                },
            );
            assert(lb@.pool =~= want.pool);
            assert(lb@.snapshot =~= want.snapshot);
        }
        lb
    }

    /// A well-formed balancer has every handle of its snapshot in its pool.
    proof fn lemma_handles(&self)
        requires
            self@.wf(),
        ensures
            forall|i: int|
                0 <= i < self.snapshot@.len() ==> (#[trigger] self.snapshot@[i]) < self.pool@.len(),
    {
        assert forall|i: int| 0 <= i < self.snapshot@.len() implies (#[trigger] self.snapshot@[i])
            < self.pool@.len() by {
            assert(self@.snapshot[i] == self.snapshot@[i] as int);
        }
    }

    /// Number of current backends.
    pub fn len(&self) -> (n: usize)
        ensures
            n == self@.len(),
    {
        self.snapshot.len()
    }

    /// Places in the pool: the backends of the snapshot, those that left it
    /// with guards still held on them, and the places that are free.
    pub fn places(&self) -> (n: usize)
        ensures
            n == self@.pool.len(),
    {
        self.pool.len()
    }

    /// The backend at place `i` of the snapshot, as it stands.
    pub fn backend(&self, i: usize) -> (backend: Option<Backend>)
        requires
            self@.wf(),
        ensures
            match backend {
                Some(b) => i < self@.len() && b@ == self@.backend(i as int),
                None => i >= self@.len(),
            },
    {
        proof {
            self.lemma_handles();
        }
        if i < self.snapshot.len() {
            let h: usize = self.snapshot[i];
            Some(self.pool[h].duplicate())
        } else {
            None
        }
    }

    /// The connections that hold a guard on the backend of this guard; none
    /// for a guard that was not taken on this balancer.
    pub fn active_connections(&self, guard: &ConnectionGuard) -> (active: usize)
        ensures
            active == if guard.handle() < self@.pool.len() && self@.pool[guard.handle()].holds(
                guard.addr(),
                guard.rule(),
            ) {
                self@.pool[guard.handle()].active
            } else {
                0
            },
    {
        let h: usize = guard.handle;
        if h < self.pool.len() && self.pool[h].addr == guard.backend_addr && self.pool[h].rule_name
            == guard.rule_name {
            self.pool[h].active_connections
        } else {
            0
        }
    }

    fn find(&self, addr: &String) -> (found: Option<usize>)
        requires
            self@.wf(),
        ensures
            match found {
                Some(h) => self@.find(addr@, 0) == Some(h as int) && h < self@.pool.len(),
                None => self@.find(addr@, 0) is None,
            },
    {
        proof {
            self.lemma_handles();
        }
        let mut k: usize = 0;
        while k < self.snapshot.len()
            invariant
                k <= self.snapshot@.len(),
                self@.find(addr@, 0) == self@.find(addr@, k as int),
                forall|i: int|
                    0 <= i < self.snapshot@.len() ==> (#[trigger] self.snapshot@[i])
                        < self.pool@.len(),
            decreases self.snapshot@.len() - k,
        {
            let h: usize = self.snapshot[k];
            if self.pool[h].addr == *addr {
                return Some(h);
            }
            k = k + 1;
        }
        None
    }

    fn first_free(&self, next: &Vec<usize>) -> (found: Option<usize>)
        requires
            self@.wf(),
        ensures
            match found {
                Some(f) => self@.first_free(handles(next@), 0) == Some(f as int) && f
                    < self@.pool.len(),
                None => self@.first_free(handles(next@), 0) is None,
            },
    {
        let mut k: usize = 0;
        while k < self.pool.len()
            invariant
                k <= self.pool@.len(),
                self@.first_free(handles(next@), 0) == self@.first_free(handles(next@), k as int),
            decreases self.pool@.len() - k,
        {
            if self.pool[k].active_connections == 0 && !listed(&self.snapshot, k) && !listed(
                next,
                k,
            ) {
                return Some(k);
            }
            k = k + 1;
        }
        None
    }

    /// Publishes the snapshot for `new_backend_configs`. A backend whose
    /// address the current snapshot holds is kept, with its counter and its
    /// health, and takes the configured drain state; every other address gets
    /// a fresh backend.
    pub fn update_backends(&mut self, new_backend_configs: Vec<BackendConfig>)
        requires
            old(self)@.wf(),
        ensures
            final(self)@ == old(self)@.after_update(new_backend_configs@),
            final(self)@.wf(),
    {
        proof {
            old(self).lemma_handles();
        }
        let mut next: Vec<usize> = Vec::new();
        let mut i: usize = 0;
        let ghost start = self@;
        while i < new_backend_configs.len()
            invariant
                i <= new_backend_configs@.len(),
                next@.len() == i,
                start == old(self)@,
                forall|j: int|
                    0 <= j < self.snapshot@.len() ==> (#[trigger] self.snapshot@[j])
                        < self.pool@.len(),
                forall|j: int| 0 <= j < i ==> (#[trigger] next@[j]) < self.pool@.len(),
                start.enroll_all(new_backend_configs@, i as int) == (
                    self@,
                    handles(next@),
                ),
            decreases new_backend_configs@.len() - i,
        {
            let config = &new_backend_configs[i];
            let ghost before = self@;
            let ghost before_next = handles(next@);
            match self.find(config.addr()) {
                Some(h) => {
                    let mut backend = self.pool[h].duplicate();
                    backend.drain = config.drain();
                    self.pool.set(h, backend);
                    next.push(h);
                },
                None => match self.first_free(&next) {
                    Some(f) => {
                        self.pool.set(f, fresh_backend(&self.rule_name, config));
                        next.push(f);
                    },
                    None => {
                        self.pool.push(fresh_backend(&self.rule_name, config));
                        let handle: usize = self.pool.len() - 1;
                        next.push(handle);
                    },
                },
            }
            proof {
                let (b2, n2) = before.enroll(before_next, *config);
                assert(b2.pool =~= self@.pool);
                assert(b2.snapshot =~= self@.snapshot);
                assert(n2 =~= handles(next@));
            }
            i = i + 1;
        }
        self.snapshot = next;
        proof {
            let (b, n) = start.enroll_all(new_backend_configs@, new_backend_configs@.len() as int);
            assert(self@.snapshot =~= n);
        }
    }

    /// Records the health that a probe of the backend at `backend_addr` found,
    /// and says what that changed.
    pub fn set_backend_health(&mut self, backend_addr: &str, healthy: bool) -> (change:
        HealthChange)
        requires
            old(self)@.wf(),
        ensures
            final(self)@ == old(self)@.after_health(backend_addr@, healthy),
            final(self)@.wf(),
            change == old(self)@.health_change(backend_addr@, healthy),
    {
        proof {
            old(self).lemma_handles();
        }
        let addr: String = backend_addr.to_owned();
        match self.find(&addr) {
            None => HealthChange::Unknown,
            Some(h) => {
                let mut backend = self.pool[h].duplicate();
                let was: bool = backend.healthy;
                backend.healthy = healthy;
                self.pool.set(h, backend);
                proof {
                    assert(self@.pool =~= old(self)@.after_health(backend_addr@, healthy).pool);
                    assert(self@.snapshot =~= old(self)@.snapshot);
                }
                if was == healthy {
                    HealthChange::Unchanged
                } else if healthy {
                    HealthChange::BecameHealthy
                } else {
                    HealthChange::BecameUnhealthy
                }
            },
        }
    }

    fn is_eligible(&self, idx: usize) -> (ok: bool)
        requires
            self@.wf(),
            idx < self@.len(),
        ensures
            ok == self@.eligible(idx as int),
    {
        proof {
            self.lemma_handles();
        }
        let backend = &self.pool[self.snapshot[idx]];
        if backend.drain {
            return false;
        }
        if !backend.healthy {
            return false;
        }
        match self.connection_limit {
            Some(limit) => backend.active_connections < limit,
            None => true,
        }
    }

    /// Selects the next backend in round-robin order that does not drain, is
    /// healthy and is below the cap, and takes a guard on it; `None` where no
    /// backend qualifies. The cursor moves on by one in either case, unless
    /// there is no backend at all.
    pub fn next_backend(&mut self) -> (res: Option<(String, ConnectionGuard)>)
        requires
            old(self)@.wf(),
        ensures
            final(self)@ == old(self)@.after_select(),
            final(self)@.wf(),
            match res {
                Some((addr, guard)) => old(self)@.selected() matches Some(i) && addr@ == old(
                    self,
                )@.backend(i).addr && guard.addr() == addr@ && guard.rule() == old(self)@.backend(
                    i,
                ).rule_name && guard.handle() == old(self)@.snapshot[i],
                None => old(self)@.selected() is None,
            },
    {
        proof {
            old(self).lemma_handles();
        }
        let len: usize = self.snapshot.len();
        if len == 0 {
            proof {
                assert(self@.pool =~= old(self)@.after_select().pool);
            }
            return None;
        }
        let start: usize = self.current % len;
        self.current = self.current.wrapping_add(1);
        let ghost before = old(self)@;
        let mut i: usize = 0;
        while i < len
            invariant
                i <= len,
                len == self.snapshot@.len(),
                len > 0,
                start == (before.cursor as int) % (len as int),
                before == old(self)@,
                self@ == (Balancer { cursor: before.next_cursor(), ..before }),
                before.scan(0) == before.scan(i as int),
                forall|j: int|
                    0 <= j < self.snapshot@.len() ==> (#[trigger] self.snapshot@[j])
                        < self.pool@.len(),
            decreases len - i,
        {
            let idx: usize = if i < len - start {
                start + i
            } else {
                i - (len - start)
            };
            assert(idx == before.position(i as int));
            assert(self@.eligible(idx as int) == before.eligible(idx as int));
            if self.is_eligible(idx) {
                let h: usize = self.snapshot[idx];
                let mut backend = self.pool[h].duplicate();
                backend.active_connections = backend.active_connections.wrapping_add(1);
                let addr: String = backend.addr.clone();
                let guard = ConnectionGuard {
                    rule_name: backend.rule_name.clone(),
                    backend_addr: backend.addr.clone(),
                    handle: h,
                };
                self.pool.set(h, backend);
                proof {
                    assert(self@.pool =~= before.after_select().pool);
                    assert(self@.snapshot =~= before.snapshot);
                }
                return Some((addr, guard));
            }
            i = i + 1;
        }
        None
    }

    /// Gives back the hold of a connection: the backend that the guard was
    /// taken on has one connection less, whether the snapshot still holds it
    /// or not. A guard that was not taken on this balancer is ignored.
    pub fn release(&mut self, guard: ConnectionGuard)
        requires
            old(self)@.wf(),
        ensures
            final(self)@ == old(self)@.after_release(guard.handle(), guard.addr(), guard.rule()),
            final(self)@.wf(),
    {
        let h: usize = guard.handle;
        if h < self.pool.len() && self.pool[h].addr == guard.backend_addr && self.pool[h].rule_name
            == guard.rule_name {
            let mut backend = self.pool[h].duplicate();
            backend.active_connections = backend.active_connections.wrapping_sub(1);
            self.pool.set(h, backend);
            proof {
                assert(self@.pool =~= old(self)@.after_release(
                    guard.handle(),
                    guard.addr(),
                    guard.rule(),
                ).pool);
                assert(self@.snapshot =~= old(self)@.snapshot);
            }
        }
    }
}

} // verus!
