//! The capabilities that a compositor announces, gathered until all three
//! that the surfaces need are bound.
use vstd::prelude::*;

verus! {

/// One of the three globals a surface needs.
#[derive(Clone, Copy, Debug, PartialEq, Eq, Structural)]
pub enum Capability {
    Compositor,
    SharedMemory,
    LayerShell,
}

/// All three capability handles, bound together.
#[derive(Clone, Debug)]
pub struct BoundProtocols<C, S, L> {
    compositor: C,
    shm: S,
    layer: L,
}

impl<C, S, L> BoundProtocols<C, S, L> {
    pub closed spec fn compositor_spec(&self) -> C {
        self.compositor
    }

    pub closed spec fn shm_spec(&self) -> S {
        self.shm
    }

    pub closed spec fn layer_spec(&self) -> L {
        self.layer
    }

    /// The surface-compositing handle.
    pub fn get_compositor(&self) -> (r: &C)
        ensures
            *r == self.compositor_spec(),
    {
        &self.compositor
    }

    /// The shared-memory pool handle.
    pub fn get_shm(&self) -> (r: &S)
        ensures
            *r == self.shm_spec(),
    {
        &self.shm
    }

    /// The layer-shell handle.
    pub fn get_layer(&self) -> (r: &L)
        ensures
            *r == self.layer_spec(),
    {
        &self.layer
    }
}

/// A registry that records announced capabilities until all three are present.
///
/// Each capability is recorded at most once; once all three are there they
/// are moved into one bound snapshot, and later announcements are ignored.
pub struct UnboundProtocols<C, S, L> {
    compositor: Option<C>,
    shm: Option<S>,
    layer: Option<L>,
    bound: Option<BoundProtocols<C, S, L>>,
}

impl<C, S, L> UnboundProtocols<C, S, L> {
    /// Handles wait in their slots until the set is complete, then all move
    /// into the snapshot together.
    pub closed spec fn wf(&self) -> bool {
        match self.bound {
            Some(_) => self.compositor.is_none() && self.shm.is_none() && self.layer.is_none(),
            None => !(self.compositor.is_some() && self.shm.is_some() && self.layer.is_some()),
        }
    }

    /// The compositor handle recorded so far, if any.
    pub closed spec fn compositor_of(&self) -> Option<C> {
        match self.bound {
            Some(b) => Some(b.compositor),
            None => self.compositor,
        }
    }

    /// The shared-memory handle recorded so far, if any.
    pub closed spec fn shm_of(&self) -> Option<S> {
        match self.bound {
            Some(b) => Some(b.shm),
            None => self.shm,
        }
    }

    /// The layer-shell handle recorded so far, if any.
    pub closed spec fn layer_of(&self) -> Option<L> {
        match self.bound {
            Some(b) => Some(b.layer),
            None => self.layer,
        }
    }

    /// Whether a handle for `cap` has been recorded.
    pub open spec fn has(&self, cap: Capability) -> bool {
        match cap {
            Capability::Compositor => self.compositor_of().is_some(),
            Capability::SharedMemory => self.shm_of().is_some(),
            Capability::LayerShell => self.layer_of().is_some(),
        }
    }

    /// All three capabilities are recorded.
    pub open spec fn complete(&self) -> bool {
        self.has(Capability::Compositor) && self.has(Capability::SharedMemory) && self.has(
            Capability::LayerShell,
        )
    }

    /// A registry with nothing recorded.
    pub fn new() -> (r: Self)
        ensures
            r.wf(),
            r.compositor_of().is_none(),
            r.shm_of().is_none(),
            r.layer_of().is_none(),
    {
        UnboundProtocols { compositor: None, shm: None, layer: None, bound: None }
    }

    /// Whether an announcement of `cap` would be recorded: no handle for it yet.
    pub fn wants(&self, cap: Capability) -> (r: bool)
        requires
            self.wf(),
        ensures
            r == !self.has(cap),
    {
        if self.bound.is_some() {
            return false;
        }
        match cap {
            Capability::Compositor => self.compositor.is_none(),
            Capability::SharedMemory => self.shm.is_none(),
            Capability::LayerShell => self.layer.is_none(),
        }
    }

    /// Moves the three handles into the snapshot once all are present.
    fn finalize(&mut self)
        requires
            old(self).bound.is_none(),
        ensures
            final(self).wf(),
            final(self).compositor_of() == old(self).compositor,
            final(self).shm_of() == old(self).shm,
            final(self).layer_of() == old(self).layer,
    {
        if self.compositor.is_some() && self.shm.is_some() && self.layer.is_some() {
            let compositor = self.compositor.take().unwrap();
            let shm = self.shm.take().unwrap();
            let layer = self.layer.take().unwrap();
            self.bound = Some(BoundProtocols { compositor, shm, layer });
        }
    }

    /// Records the compositor handle unless one is recorded already; returns
    /// whether `handle` was kept.
    pub fn record_compositor(&mut self, handle: C) -> (r: bool)
        requires
            old(self).wf(),
        ensures
            final(self).wf(),
            r == old(self).compositor_of().is_none(),
            final(self).compositor_of() == (if r { Some(handle) } else { old(self).compositor_of() }),
            final(self).shm_of() == old(self).shm_of(),
            final(self).layer_of() == old(self).layer_of(),
    {
        if self.bound.is_some() || self.compositor.is_some() {
            return false;
        }
        self.compositor = Some(handle);
        self.finalize();
        true
    }

    /// Records the shared-memory handle unless one is recorded already;
    /// returns whether `handle` was kept.
    pub fn record_shm(&mut self, handle: S) -> (r: bool)
        requires
            old(self).wf(),
        ensures
            final(self).wf(),
            r == old(self).shm_of().is_none(),
            final(self).shm_of() == (if r { Some(handle) } else { old(self).shm_of() }),
            final(self).compositor_of() == old(self).compositor_of(),
            final(self).layer_of() == old(self).layer_of(),
    {
        if self.bound.is_some() || self.shm.is_some() {
            return false;
        }
        self.shm = Some(handle);
        self.finalize();
        true
    }

    /// Records the layer-shell handle unless one is recorded already; returns
    /// whether `handle` was kept.
    pub fn record_layer(&mut self, handle: L) -> (r: bool)
        requires
            old(self).wf(),
        ensures
            final(self).wf(),
            r == old(self).layer_of().is_none(),
            final(self).layer_of() == (if r { Some(handle) } else { old(self).layer_of() }),
            final(self).compositor_of() == old(self).compositor_of(),
            final(self).shm_of() == old(self).shm_of(),
    {
        if self.bound.is_some() || self.layer.is_some() {
            return false;
        }
        self.layer = Some(handle);
        self.finalize();
        true
    }

    /// The bound snapshot: present exactly when all three capabilities are
    /// recorded, and made of the recorded handles.
    pub fn snapshot(&self) -> (r: Option<&BoundProtocols<C, S, L>>)
        requires
            self.wf(),
        ensures
            r.is_some() <==> self.complete(),
            r matches Some(b) ==> {
                &&& self.compositor_of() == Some(b.compositor_spec())
                &&& self.shm_of() == Some(b.shm_spec())
                &&& self.layer_of() == Some(b.layer_spec())
            },
    {
        self.bound.as_ref()
    }
}

} // verus!
