//! One session with a compositor: the capability registry and every surface
//! asked for in it, each under the token issued when it was requested.
//!
//! Events are routed by token; an event for a token that is not (or no
//! longer) in the table is ignored.
use vstd::prelude::*;
use crate::registry::UnboundProtocols;
use crate::surface::{
    ConfigureWork, GpuWork, Layer, PropertyChange, Request, Resource, Sizes, SurfaceProperties,
    SurfaceState, initial_properties, requested_state, setup_requests,
};

verus! {

/// A surface of the session: its token, whether it was handed out as live,
/// and its handshake state.
#[derive(Clone, Copy, Debug, PartialEq, Eq, Structural)]
pub struct Entry {
    pub id: u64,
    pub live: bool,
    pub state: SurfaceState,
}

/// The table that `entries` describe: each token to its entry.
pub open spec fn table(entries: Seq<Entry>) -> Map<u64, Entry>
    decreases entries.len(),
{
    if entries.len() == 0 {
        Map::empty()
    } else {
        table(entries.drop_last()).insert(entries.last().id, entries.last())
    }
}

/// No two entries share a token.
pub open spec fn unique(entries: Seq<Entry>) -> bool {
    forall|i: int, j: int|
        0 <= i < entries.len() && 0 <= j < entries.len() && i != j ==> entries[i].id != entries[j].id
}

proof fn lemma_table_keys(entries: Seq<Entry>, id: u64)
    ensures
        table(entries).contains_key(id) <==> exists|i: int| 0 <= i < entries.len() && entries[i].id == id,
    decreases entries.len(),
{
    if entries.len() > 0 {
        let rest = entries.drop_last();
        lemma_table_keys(rest, id);
        if exists|i: int| 0 <= i < rest.len() && rest[i].id == id {
            let i = choose|i: int| 0 <= i < rest.len() && rest[i].id == id;
            assert(entries[i].id == id);
        }
        if exists|i: int| 0 <= i < entries.len() && entries[i].id == id {
            let i = choose|i: int| 0 <= i < entries.len() && entries[i].id == id;
            if i < entries.len() - 1 {
                assert(rest[i].id == id);
            }
        }
    }
}

proof fn lemma_table_at(entries: Seq<Entry>, i: int)
    requires
        unique(entries),
        0 <= i < entries.len(),
    ensures
        table(entries).contains_key(entries[i].id),
        table(entries)[entries[i].id] == entries[i],
    decreases entries.len(),
{
    let rest = entries.drop_last();
    if i < entries.len() - 1 {
        assert(rest[i] == entries[i]);
        lemma_table_at(rest, i);
        assert(entries.last().id != entries[i].id);
    }
}

proof fn lemma_table_update(entries: Seq<Entry>, i: int, e: Entry)
    requires
        unique(entries),
        0 <= i < entries.len(),
        e.id == entries[i].id,
    ensures
        unique(entries.update(i, e)),
        table(entries.update(i, e)) == table(entries).insert(e.id, e),
    decreases entries.len(),
{
    let u = entries.update(i, e);
    let rest = entries.drop_last();
    assert(unique(u)) by {
        assert forall|a: int, b: int|
            0 <= a < u.len() && 0 <= b < u.len() && a != b implies u[a].id != u[b].id by {
            assert(u[a].id == entries[a].id);
            assert(u[b].id == entries[b].id);
        }
    }
    if i == entries.len() - 1 {
        assert(u.drop_last() =~= rest);
        assert(table(u) =~= table(entries).insert(e.id, e));
    } else {
        assert(u.drop_last() =~= rest.update(i, e));
        assert(unique(rest));
        lemma_table_update(rest, i, e);
        assert(entries.last().id != e.id);
        assert(table(u) =~= table(entries).insert(e.id, e));
    }
}

proof fn lemma_table_remove(entries: Seq<Entry>, i: int)
    requires
        unique(entries),
        0 <= i < entries.len(),
    ensures
        unique(entries.remove(i)),
        table(entries.remove(i)) == table(entries).remove(entries[i].id),
    decreases entries.len(),
{
    let r = entries.remove(i);
    let rest = entries.drop_last();
    let id = entries[i].id;
    assert(unique(r)) by {
        assert forall|a: int, b: int|
            0 <= a < r.len() && 0 <= b < r.len() && a != b implies r[a].id != r[b].id by {
            let a2 = if a < i { a } else { a + 1 };
            let b2 = if b < i { b } else { b + 1 };
            assert(r[a] == entries[a2]);
            assert(r[b] == entries[b2]);
        }
    }
    if i == entries.len() - 1 {
        assert(r =~= rest);
        lemma_table_keys(rest, id);
        assert forall|k: int| 0 <= k < rest.len() implies rest[k].id != id by {
            assert(rest[k] == entries[k]);
        }
        assert(table(r) =~= table(entries).remove(id));
    } else {
        assert(unique(rest));
        assert(r.drop_last() =~= rest.remove(i));
        assert(r.last() == entries.last());
        assert(rest[i] == entries[i]);
        lemma_table_remove(rest, i);
        assert(entries.last().id != id);
        assert(table(r) =~= table(entries).remove(id));
    }
}

/// The registry and the surfaces of one session.
pub struct WaylandState<C, S, L> {
    unbound: UnboundProtocols<C, S, L>,
    entries: Vec<Entry>,
    next_id: u64,
}

impl<C, S, L> View for WaylandState<C, S, L> {
    type V = Map<u64, Entry>;

    closed spec fn view(&self) -> Map<u64, Entry> {
        table(self.entries@)
    }
}

impl<C, S, L> WaylandState<C, S, L> {
    /// Every entry is well formed, tokens are unique, and every token issued
    /// so far is below the next one.
    pub closed spec fn table_wf(&self) -> bool {
        &&& unique(self.entries@)
        &&& forall|i: int| 0 <= i < self.entries@.len() ==> {
            &&& (#[trigger] self.entries@[i]).id < self.next_id
            &&& self.entries@[i].state.wf()
            &&& self.entries@[i].live ==> !(self.entries@[i].state.phase is Requested)
        }
    }

    pub closed spec fn wf(&self) -> bool {
        self.unbound.wf() && self.table_wf()
    }

    /// The capability registry of the session.
    pub closed spec fn registry(&self) -> UnboundProtocols<C, S, L> {
        self.unbound
    }

    /// The capability registry, to read the bound snapshot from.
    pub fn protocols(&self) -> (r: &UnboundProtocols<C, S, L>)
        requires
            self.wf(),
        ensures
            *r == self.registry(),
            r.wf(),
    {
        &self.unbound
    }

    /// See [`UnboundProtocols::record_compositor`].
    pub fn record_compositor(&mut self, handle: C) -> (r: bool)
        requires
            old(self).wf(),
        ensures
            final(self).wf(),
            final(self)@ == old(self)@,
            r == old(self).registry().compositor_of().is_none(),
            final(self).registry().compositor_of() == (if r { Some(handle) } else { old(self).registry().compositor_of() }),
            final(self).registry().shm_of() == old(self).registry().shm_of(),
            final(self).registry().layer_of() == old(self).registry().layer_of(),
    {
        self.unbound.record_compositor(handle)
    }

    /// See [`UnboundProtocols::record_shm`].
    pub fn record_shm(&mut self, handle: S) -> (r: bool)
        requires
            old(self).wf(),
        ensures
            final(self).wf(),
            final(self)@ == old(self)@,
            r == old(self).registry().shm_of().is_none(),
            final(self).registry().shm_of() == (if r { Some(handle) } else { old(self).registry().shm_of() }),
            final(self).registry().compositor_of() == old(self).registry().compositor_of(),
            final(self).registry().layer_of() == old(self).registry().layer_of(),
    {
        self.unbound.record_shm(handle)
    }

    /// See [`UnboundProtocols::record_layer`].
    pub fn record_layer(&mut self, handle: L) -> (r: bool)
        requires
            old(self).wf(),
        ensures
            final(self).wf(),
            final(self)@ == old(self)@,
            r == old(self).registry().layer_of().is_none(),
            final(self).registry().layer_of() == (if r { Some(handle) } else { old(self).registry().layer_of() }),
            final(self).registry().compositor_of() == old(self).registry().compositor_of(),
            final(self).registry().shm_of() == old(self).registry().shm_of(),
    {
        self.unbound.record_layer(handle)
    }

    /// No further token can be issued.
    pub closed spec fn exhausted(&self) -> bool {
        self.next_id == u64::MAX
    }

    /// A session with nothing recorded and no surface.
    pub fn new() -> (r: Self)
        ensures
            r.wf(),
            r@ == Map::<u64, Entry>::empty(),
            !r.registry().complete(),
            !r.exhausted(),
    {
        let r = WaylandState { unbound: UnboundProtocols::new(), entries: Vec::new(), next_id: 0 };
        assert(r@ =~= Map::<u64, Entry>::empty());
        r
    }

    fn find(&self, id: u64) -> (r: Option<usize>)
        requires
            self.table_wf(),
        ensures
            r matches Some(i) ==> i < self.entries@.len() && self.entries@[i as int].id == id,
            r is None ==> !self@.contains_key(id),
    {
        let mut i: usize = 0;
        while i < self.entries.len()
            invariant
                i <= self.entries@.len(),
                forall|k: int| 0 <= k < i ==> self.entries@[k].id != id,
            decreases self.entries@.len() - i,
        {
            if self.entries[i].id == id {
                return Some(i);
            }
            i = i + 1;
        }
        proof {
            lemma_table_keys(self.entries@, id);
        }
        None
    }

    /// Writes entry `i` back after its state changed.
    fn store(&mut self, i: usize, e: Entry)
        requires
            old(self).table_wf(),
            i < old(self).entries@.len(),
            e.id == old(self).entries@[i as int].id,
            e.state.wf(),
            e.live ==> !(e.state.phase is Requested),
        ensures
            final(self).table_wf(),
            final(self).registry() == old(self).registry(),
            final(self).next_id == old(self).next_id,
            final(self)@ == old(self)@.insert(e.id, e),
            final(self).entries@ == old(self).entries@.update(i as int, e),
    {
        proof {
            lemma_table_update(self.entries@, i as int, e);
        }
        self.entries.remove(i);
        self.entries.insert(i, e);
        proof {
            assert(self.entries@ =~= old(self).entries@.update(i as int, e));
        }
    }

    /// Starts the creation of a surface of `width` by `height` on `layer`,
    /// under a fresh token. `None`, with nothing asked for, while the
    /// capabilities are not all bound or no token is left.
    pub fn create_surface_async(&mut self, width: u32, height: u32, layer: Layer, with_gpu: bool) -> (r:
        Option<(u64, Vec<Request>)>)
        requires
            old(self).wf(),
        ensures
            final(self).wf(),
            final(self).registry() == old(self).registry(),
            r.is_some() <==> old(self).registry().complete() && !old(self).exhausted(),
            r is None ==> final(self)@ == old(self)@,
            r matches Some((id, requests)) ==> {
                let props = initial_properties(Sizes { width, height }, layer);
                &&& !old(self)@.contains_key(id)
                &&& final(self)@ == old(self)@.insert(
                    id,
                    Entry { id, live: false, state: requested_state(props, with_gpu) },
                )
                &&& requests@ == setup_requests(props)
            },
    {
        if self.unbound.snapshot().is_none() || self.next_id == u64::MAX {
            return None;
        }
        let id = self.next_id;
        let properties = SurfaceProperties::initial(Sizes { width, height }, layer);
        let state = SurfaceState {
            properties,
            phase: crate::surface::Phase::Requested,
            with_gpu,
            gpu_ready: false,
            pending: None,
            buffer: None,
        };
        let e = Entry { id, live: false, state };
        proof {
            lemma_table_keys(self.entries@, id);
        }
        self.entries.push(e);
        self.next_id = id + 1;
        proof {
            assert(self.entries@.drop_last() =~= old(self).entries@);
            assert forall|a: int, b: int|
                0 <= a < self.entries@.len() && 0 <= b < self.entries@.len() && a != b implies
                self.entries@[a].id != self.entries@[b].id by {
                if a < self.entries@.len() - 1 && b < self.entries@.len() - 1 {
                    assert(self.entries@[a] == old(self).entries@[a]);
                    assert(self.entries@[b] == old(self).entries@[b]);
                } else if a < self.entries@.len() - 1 {
                    assert(self.entries@[a] == old(self).entries@[a]);
                } else if b < self.entries@.len() - 1 {
                    assert(self.entries@[b] == old(self).entries@[b]);
                }
            }
            assert forall|i: int| 0 <= i < self.entries@.len() implies {
                &&& (#[trigger] self.entries@[i]).id < self.next_id
                &&& self.entries@[i].state.wf()
                &&& self.entries@[i].live ==> !(self.entries@[i].state.phase is Requested)
            } by {
                if i < self.entries@.len() - 1 {
                    assert(self.entries@[i] == old(self).entries@[i]);
                }
            }
        }
        let requests = vec![
            Request::CreateSurface,
            Request::CreateLayerSurface { layer: properties.layer },
            Request::SetMargin { margins: properties.margins },
            Request::SetAnchor { anchor: properties.anchor },
            Request::SetKeyboardInteractivity { interactivity: properties.interactivity },
            Request::SetSize { sizes: properties.sizes },
            Request::Commit,
        ];
        Some((id, requests))
    }

    /// Routes a configure event to the surface of `id`; see
    /// [`SurfaceState::configure`]. An unknown token gets nothing.
    pub fn configure(&mut self, id: u64, serial: u32, width: u32, height: u32) -> (r: ConfigureWork)
        requires
            old(self).wf(),
        ensures
            final(self).wf(),
            final(self).registry() == old(self).registry(),
            !old(self)@.contains_key(id) ==> {
                &&& final(self)@ == old(self)@
                &&& r.requests@ == Seq::<Request>::empty()
                &&& r.layout is None
            },
            old(self)@.contains_key(id) ==> {
                let e = old(self)@[id];
                &&& final(self)@ == old(self)@.insert(
                    id,
                    Entry { state: e.state.configured(width, height), ..e },
                )
                &&& r.requests@ == e.state.configure_requests(serial)
                &&& r.layout == e.state.configured(width, height).pending
                &&& r.gpu == e.state.gpu_work_for(r.layout)
            },
    {
        match self.find(id) {
            None => ConfigureWork { requests: Vec::new(), layout: None, gpu: GpuWork::Skip },
            Some(i) => {
                let mut e = self.entries[i];
                proof {
                    lemma_table_at(self.entries@, i as int);
                }
                let r = e.state.configure(serial, width, height);
                self.store(i, e);
                r
            },
        }
    }

    /// Completes the configure of the surface of `id`; see
    /// [`SurfaceState::complete`]. An unknown token gets nothing.
    pub fn complete(&mut self, id: u64, allocated: bool) -> (r: Vec<Request>)
        requires
            old(self).wf(),
        ensures
            final(self).wf(),
            final(self).registry() == old(self).registry(),
            !old(self)@.contains_key(id) ==> final(self)@ == old(self)@ && r@ == Seq::<
                Request,
            >::empty(),
            old(self)@.contains_key(id) ==> {
                let e = old(self)@[id];
                &&& final(self)@ == old(self)@.insert(
                    id,
                    Entry { state: e.state.completed(allocated), ..e },
                )
                &&& r@ == e.state.completion_requests(allocated)
            },
    {
        match self.find(id) {
            None => Vec::new(),
            Some(i) => {
                let mut e = self.entries[i];
                proof {
                    lemma_table_at(self.entries@, i as int);
                }
                let r = e.state.complete(allocated);
                self.store(i, e);
                r
            },
        }
    }

    /// Applies a property change to the live surface of `id`; see
    /// [`SurfaceState::change`]. A token of no live surface gets nothing.
    pub fn change(&mut self, id: u64, c: PropertyChange) -> (r: Vec<Request>)
        requires
            old(self).wf(),
        ensures
            final(self).wf(),
            final(self).registry() == old(self).registry(),
            !(old(self)@.contains_key(id) && old(self)@[id].live) ==> final(self)@ == old(self)@
                && r@ == Seq::<Request>::empty(),
            old(self)@.contains_key(id) && old(self)@[id].live ==> {
                let e = old(self)@[id];
                &&& final(self)@ == old(self)@.insert(id, Entry { state: e.state.changed(c), ..e })
                &&& r@ == e.state.change_requests(c)
            },
    {
        match self.find(id) {
            None => Vec::new(),
            Some(i) => {
                let mut e = self.entries[i];
                proof {
                    lemma_table_at(self.entries@, i as int);
                }
                if !e.live {
                    return Vec::new();
                }
                let r = e.state.change(c);
                self.store(i, e);
                r
            },
        }
    }

    /// Hands out every pending surface that became ready as live, and
    /// returns their tokens.
    pub fn promote_ready(&mut self) -> (r: Vec<u64>)
        requires
            old(self).wf(),
        ensures
            final(self).wf(),
            final(self).registry() == old(self).registry(),
            final(self)@.dom() == old(self)@.dom(),
            forall|id: u64| #[trigger]
                old(self)@.contains_key(id) ==> final(self)@[id] == (Entry {
                    live: old(self)@[id].live || old(self)@[id].state.ready(),
                    ..old(self)@[id]
                }),
            forall|id: u64|
                r@.contains(id) <==> old(self)@.contains_key(id) && !old(self)@[id].live
                    && old(self)@[id].state.ready(),
    {
        let mut promoted: Vec<u64> = Vec::new();
        let n = self.entries.len();
        let mut i: usize = 0;
        while i < n
            invariant
                n == self.entries@.len(),
                n == old(self).entries@.len(),
                i <= n,
                self.table_wf(),
                self.unbound == old(self).unbound,
                self.next_id == old(self).next_id,
                forall|k: int| 0 <= k < n ==> (#[trigger] self.entries@[k]).id == old(self).entries@[k].id
                    && self.entries@[k].state == old(self).entries@[k].state,
                forall|k: int| 0 <= k < i ==> (#[trigger] self.entries@[k]).live == (old(self).entries@[k].live
                    || old(self).entries@[k].state.ready()),
                forall|k: int| i <= k < n ==> (#[trigger] self.entries@[k]).live == old(self).entries@[k].live,
                forall|id: u64|
                    promoted@.contains(id) <==> exists|k: int|
                        0 <= k < i && (#[trigger] old(self).entries@[k]).id == id
                            && !old(self).entries@[k].live && old(self).entries@[k].state.ready(),
            decreases n - i,
        {
            let e = self.entries[i];
            let ready = e.state.buffer.is_some() && (!e.state.with_gpu || e.state.gpu_ready)
                && !matches!(e.state.phase, crate::surface::Phase::Closed);
            if !e.live && ready {
                let ghost prom = promoted@;
                self.store(i, Entry { live: true, ..e });
                promoted.push(e.id);
                proof {
                    assert forall|id: u64|
                        promoted@.contains(id) <==> exists|k: int|
                            0 <= k < i + 1 && (#[trigger] old(self).entries@[k]).id == id
                                && !old(self).entries@[k].live && old(self).entries@[k].state.ready() by {
                        if promoted@.contains(id) && id != e.id {
                            assert(prom.contains(id));
                        }
                        if id == e.id {
                            assert(promoted@[promoted@.len() - 1] == id);
                        }
                        if exists|k: int|
                            0 <= k < i + 1 && (#[trigger] old(self).entries@[k]).id == id
                                && !old(self).entries@[k].live && old(self).entries@[k].state.ready() {
                            let k = choose|k: int|
                                0 <= k < i + 1 && (#[trigger] old(self).entries@[k]).id == id
                                    && !old(self).entries@[k].live && old(self).entries@[k].state.ready();
                            if k < i {
                                assert(prom.contains(id));
                                let j = choose|j: int| 0 <= j < prom.len() && prom[j] == id;
                                assert(promoted@[j] == id);
                            } else {
                                assert(promoted@[promoted@.len() - 1] == id);
                            }
                        }
                    }
                }
            }
            i = i + 1;
        }
        proof {
            assert forall|id: u64| #[trigger]
                old(self)@.contains_key(id) implies self@[id] == (Entry {
                    live: old(self)@[id].live || old(self)@[id].state.ready(),
                    ..old(self)@[id]
                }) by {
                lemma_table_keys(old(self).entries@, id);
                let k = choose|k: int| 0 <= k < n && old(self).entries@[k].id == id;
                lemma_table_at(old(self).entries@, k);
                lemma_table_at(self.entries@, k);
                assert(self.entries@[k] == (Entry {
                    live: old(self).entries@[k].live || old(self).entries@[k].state.ready(),
                    ..old(self).entries@[k]
                }));
            }
            assert forall|id: u64| #[trigger] self@.contains_key(id) <==> old(self)@.contains_key(id) by {
                lemma_table_keys(old(self).entries@, id);
                lemma_table_keys(self.entries@, id);
                if old(self)@.contains_key(id) {
                    let k = choose|k: int| 0 <= k < n && old(self).entries@[k].id == id;
                    assert(self.entries@[k].id == id);
                }
                if self@.contains_key(id) {
                    let k = choose|k: int| 0 <= k < n && self.entries@[k].id == id;
                    assert(old(self).entries@[k].id == id);
                }
            }
            assert(self@.dom() =~= old(self)@.dom());
            assert forall|id: u64|
                promoted@.contains(id) <==> old(self)@.contains_key(id) && !old(self)@[id].live
                    && old(self)@[id].state.ready() by {
                lemma_table_keys(old(self).entries@, id);
                if old(self)@.contains_key(id) {
                    let k = choose|k: int| 0 <= k < n && old(self).entries@[k].id == id;
                    lemma_table_at(old(self).entries@, k);
                }
                if promoted@.contains(id) {
                    let k = choose|k: int|
                        0 <= k < n && (#[trigger] old(self).entries@[k]).id == id
                            && !old(self).entries@[k].live && old(self).entries@[k].state.ready();
                    lemma_table_at(old(self).entries@, k);
                }
            }
        }
        promoted
    }

    /// Closes the surface of `id` and drops it from the session; returns
    /// the resources to release, newest first. An unknown token gets nothing.
    pub fn close(&mut self, id: u64) -> (r: Vec<Resource>)
        requires
            old(self).wf(),
        ensures
            final(self).wf(),
            final(self).registry() == old(self).registry(),
            !old(self)@.contains_key(id) ==> final(self)@ == old(self)@ && r@ == Seq::<
                Resource,
            >::empty(),
            old(self)@.contains_key(id) ==> {
                &&& final(self)@ == old(self)@.remove(id)
                &&& r@ == old(self)@[id].state.release_order()
            },
    {
        match self.find(id) {
            None => Vec::new(),
            Some(i) => {
                let mut e = self.entries[i];
                proof {
                    lemma_table_at(self.entries@, i as int);
                    lemma_table_remove(self.entries@, i as int);
                }
                let r = e.state.close();
                self.entries.remove(i);
                proof {
                    assert forall|k: int| 0 <= k < self.entries@.len() implies {
                        &&& (#[trigger] self.entries@[k]).id < self.next_id
                        &&& self.entries@[k].state.wf()
                        &&& self.entries@[k].live ==> !(self.entries@[k].state.phase is Requested)
                    } by {
                        if k < i {
                            assert(self.entries@[k] == old(self).entries@[k]);
                        } else {
                            assert(self.entries@[k] == old(self).entries@[k + 1]);
                        }
                    }
                }
                r
            },
        }
    }

    /// Whether `id` names a surface handed out as live.
    pub fn is_live(&self, id: u64) -> (r: bool)
        requires
            self.wf(),
        ensures
            r == (self@.contains_key(id) && self@[id].live),
    {
        match self.find(id) {
            None => false,
            Some(i) => {
                proof {
                    lemma_table_at(self.entries@, i as int);
                }
                self.entries[i].live
            },
        }
    }

    /// The handshake state of the surface of `id`, if there is one.
    pub fn surface_state(&self, id: u64) -> (r: Option<SurfaceState>)
        requires
            self.wf(),
        ensures
            r == (if self@.contains_key(id) { Some(self@[id].state) } else { None }),
    {
        match self.find(id) {
            None => None,
            Some(i) => {
                proof {
                    lemma_table_at(self.entries@, i as int);
                }
                Some(self.entries[i].state)
            },
        }
    }
}

} // verus!
