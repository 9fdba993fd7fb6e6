//! The surface handshake: a pending surface waits for the compositor's
//! configure, gets a buffer sized to it, and becomes a live surface whose
//! later configures repeat the buffer step.
//!
//! Every transition returns the protocol requests that the driver must send,
//! in order. The buffer is always sized to the last acknowledged configure,
//! never to the last requested size.
use vstd::prelude::*;
use crate::layout::{BufferLayout, layout_for};
use crate::registry::BoundProtocols;

verus! {

/// Distances from the anchored screen edges.
#[derive(Clone, Copy, Debug, Default, PartialEq, Eq, Structural)]
pub struct Margins {
    pub top: i32,
    pub right: i32,
    pub bottom: i32,
    pub left: i32,
}

/// A surface size in pixels.
#[derive(Clone, Copy, Debug, Default, PartialEq, Eq, Structural)]
pub struct Sizes {
    pub width: u32,
    pub height: u32,
}

/// The stacking layer of a layer-shell surface.
#[derive(Clone, Copy, Debug, PartialEq, Eq, Structural)]
pub enum Layer {
    Background,
    Bottom,
    Top,
    Overlay,
}

/// Which keyboard focus the surface takes.
#[derive(Clone, Copy, Debug, PartialEq, Eq, Structural)]
pub enum KeyboardInteractivity {
    /// The protocol's `none`: the surface never takes keyboard focus.
    Disabled,
    Exclusive,
    OnDemand,
}

/// The screen edges a surface is anchored to, as the protocol's bitmask
/// (top 1, bottom 2, left 4, right 8).
#[derive(Clone, Copy, Debug, PartialEq, Eq, Structural)]
pub struct Anchor {
    pub bits: u32,
}

impl Anchor {
    /// Anchored to the top edge only.
    pub fn top() -> (r: Anchor)
        ensures
            r.bits == 1,
    {
        Anchor { bits: 1 }
    }
}

/// The properties requested for a surface.
#[derive(Clone, Copy, Debug, PartialEq, Eq, Structural)]
pub struct SurfaceProperties {
    pub margins: Margins,
    pub anchor: Anchor,
    pub interactivity: KeyboardInteractivity,
    pub layer: Layer,
    pub sizes: Sizes,
}

/// No margins, anchored to the top edge, no keyboard focus, on `layer`, of `sizes`.
pub open spec fn initial_properties(sizes: Sizes, layer: Layer) -> SurfaceProperties {
    SurfaceProperties {
        margins: Margins { top: 0, right: 0, bottom: 0, left: 0 },
        anchor: Anchor { bits: 1 },
        interactivity: KeyboardInteractivity::Disabled,
        layer,
        sizes,
    }
}

impl SurfaceProperties {
    /// The initial properties of a surface of `sizes` on `layer`.
    pub fn initial(sizes: Sizes, layer: Layer) -> (r: SurfaceProperties)
        ensures
            r == initial_properties(sizes, layer),
    {
        SurfaceProperties {
            margins: Margins { top: 0, right: 0, bottom: 0, left: 0 },
            anchor: Anchor::top(),
            interactivity: KeyboardInteractivity::Disabled,
            layer,
            sizes,
        }
    }
}

impl Default for SurfaceProperties {
    fn default() -> (r: SurfaceProperties)
        ensures
            r == initial_properties(Sizes { width: 0, height: 0 }, Layer::Top),
    {
        SurfaceProperties::initial(Sizes { width: 0, height: 0 }, Layer::Top)
    }
}

/// A protocol request for the driver to send.
#[derive(Clone, Copy, Debug, PartialEq, Eq, Structural)]
pub enum Request {
    /// Create the base surface object.
    CreateSurface,
    /// Give the surface the layer-shell role, on `layer`, with no popup parent.
    CreateLayerSurface { layer: Layer },
    SetMargin { margins: Margins },
    SetAnchor { anchor: Anchor },
    SetKeyboardInteractivity { interactivity: KeyboardInteractivity },
    SetSize { sizes: Sizes },
    SetLayer { layer: Layer },
    /// Create a pool of `size` bytes over the newest shared-memory region.
    CreatePool { size: u32 },
    /// Create an ARGB buffer in the newest pool.
    CreateBuffer { offset: u32, width: u32, height: u32, stride: u32 },
    /// Attach the newest buffer at the origin.
    Attach,
    Damage { width: u32, height: u32 },
    Commit,
    AckConfigure { serial: u32 },
    /// Release the pool and region that the newest buffer replaced.
    ReleasePrevious,
}

/// A resource of a surface that the driver must release.
#[derive(Clone, Copy, Debug, PartialEq, Eq, Structural)]
pub enum Resource {
    BufferPool,
    GpuContext,
    Region,
    LayerSurface,
    BaseSurface,
}

/// What the driver does about the accelerated context before completing a configure.
#[derive(Clone, Copy, Debug, PartialEq, Eq, Structural)]
pub enum GpuWork {
    Skip,
    Create,
    Resize,
}

/// Where a surface stands in the handshake. The generation counts the
/// configures whose buffers were attached.
#[derive(Clone, Copy, Debug, PartialEq, Eq, Structural)]
pub enum Phase {
    Requested,
    Configured { generation: u64 },
    Closed,
}

/// The phase after a buffer is attached for one more configure.
pub open spec fn next_phase(p: Phase) -> Phase {
    match p {
        Phase::Configured { generation } => Phase::Configured {
            generation: if generation < u64::MAX { (generation + 1) as u64 } else { generation },
        },
        _ => Phase::Configured { generation: 1 },
    }
}

/// The requests that attach a buffer of layout `l`; `replacing` when an
/// earlier buffer is released afterwards.
pub open spec fn attach_requests(l: BufferLayout, replacing: bool) -> Seq<Request> {
    let base = seq![
        Request::CreatePool { size: l.size },
        Request::CreateBuffer { offset: 0, width: l.width, height: l.height, stride: l.stride },
        Request::Attach,
        Request::Damage { width: l.width, height: l.height },
        Request::Commit,
    ];
    if replacing {
        base.push(Request::ReleasePrevious)
    } else {
        base
    }
}

/// What a configure hands the driver: the requests to send at once, the
/// region to allocate (if any), and what to do about the accelerated context.
pub struct ConfigureWork {
    pub requests: Vec<Request>,
    pub layout: Option<BufferLayout>,
    pub gpu: GpuWork,
}

/// A change of a live surface's properties.
#[derive(Clone, Copy, Debug, PartialEq, Eq, Structural)]
pub enum PropertyChange {
    Margin { margins: Margins },
    Anchor { anchor: Anchor },
    Interactivity { interactivity: KeyboardInteractivity },
    Layer { layer: Layer },
    /// A size request: recorded only when its configure completes.
    Size { sizes: Sizes },
    /// All properties at once; the size as for `Size`.
    All { properties: SurfaceProperties },
}

/// The state of one surface in the handshake.
#[derive(Clone, Copy, Debug, PartialEq, Eq, Structural)]
pub struct SurfaceState {
    /// The last requested properties, but for the size: that one is the last
    /// acknowledged size once a buffer is attached.
    pub properties: SurfaceProperties,
    pub phase: Phase,
    /// An accelerated context was asked for.
    pub with_gpu: bool,
    /// The accelerated context exists.
    pub gpu_ready: bool,
    /// The layout of an acknowledged configure whose buffer is not attached yet.
    pub pending: Option<BufferLayout>,
    /// The layout of the attached buffer.
    pub buffer: Option<BufferLayout>,
}

impl SurfaceState {
    pub open spec fn wf(self) -> bool {
        &&& self.gpu_ready ==> self.with_gpu
        &&& self.pending matches Some(l) ==> l.wf()
        &&& self.buffer matches Some(l) ==> {
            &&& l.wf()
            &&& self.properties.sizes == Sizes { width: l.width, height: l.height }
        }
        &&& self.phase is Requested ==> self.buffer.is_none() && !self.gpu_ready
        &&& self.phase is Configured ==> self.buffer.is_some()
        &&& self.phase is Closed ==> self.buffer.is_none() && self.pending.is_none()
            && !self.gpu_ready
    }

    pub open spec fn is_closed(self) -> bool {
        self.phase is Closed
    }

    /// What to do about the accelerated context for a buffer of `layout`.
    pub open spec fn gpu_work_for(self, layout: Option<BufferLayout>) -> GpuWork {
        if layout.is_none() || !self.with_gpu {
            GpuWork::Skip
        } else if self.gpu_ready {
            GpuWork::Resize
        } else {
            GpuWork::Create
        }
    }

    /// The state after a configure of `width` by `height`.
    pub open spec fn configured(self, width: u32, height: u32) -> SurfaceState {
        if self.is_closed() {
            self
        } else {
            SurfaceState { pending: layout_for(width, height), ..self }
        }
    }

    /// The requests sent at once on a configure: the acknowledgement, unless
    /// the surface is closed.
    pub open spec fn configure_requests(self, serial: u32) -> Seq<Request> {
        if self.is_closed() {
            seq![]
        } else {
            seq![Request::AckConfigure { serial }]
        }
    }

    /// Whether completing now attaches a buffer.
    pub open spec fn attaches(self, allocated: bool) -> bool {
        allocated && !self.is_closed() && self.pending.is_some()
    }

    /// The state once the driver reports whether the region (and the
    /// context, where one is used) was allocated.
    pub open spec fn completed(self, allocated: bool) -> SurfaceState {
        if self.attaches(allocated) {
            let l = self.pending.unwrap();
            SurfaceState {
                properties: SurfaceProperties {
                    sizes: Sizes { width: l.width, height: l.height },
                    ..self.properties
                },
                phase: next_phase(self.phase),
                gpu_ready: self.with_gpu,
                pending: None,
                buffer: Some(l),
                ..self
            }
        } else {
            SurfaceState { pending: None, ..self }
        }
    }

    /// The requests sent once the driver reports the allocation.
    pub open spec fn completion_requests(self, allocated: bool) -> Seq<Request> {
        if self.attaches(allocated) {
            attach_requests(self.pending.unwrap(), self.buffer.is_some())
        } else {
            seq![]
        }
    }

    /// Whether the buffer and, where one was asked for, the accelerated
    /// context are both present.
    pub open spec fn ready(self) -> bool {
        &&& self.buffer.is_some()
        &&& self.with_gpu ==> self.gpu_ready
        &&& !self.is_closed()
    }

    /// The properties recorded after `c`: all that it names but the size.
    pub open spec fn changed(self, c: PropertyChange) -> SurfaceState {
        if self.is_closed() {
            self
        } else {
            let p = self.properties;
            let q = match c {
                PropertyChange::Margin { margins } => SurfaceProperties { margins, ..p },
                PropertyChange::Anchor { anchor } => SurfaceProperties { anchor, ..p },
                PropertyChange::Interactivity { interactivity } => SurfaceProperties {
                    interactivity,
                    ..p
                },
                PropertyChange::Layer { layer } => SurfaceProperties { layer, ..p },
                PropertyChange::Size { .. } => p,
                PropertyChange::All { properties } => SurfaceProperties {
                    sizes: p.sizes,
                    ..properties
                },
            };
            SurfaceState { properties: q, ..self }
        }
    }

    /// The requests of `c`, each ending in a commit; none on a closed surface.
    pub open spec fn change_requests(self, c: PropertyChange) -> Seq<Request> {
        if self.is_closed() {
            seq![]
        } else {
            match c {
                PropertyChange::Margin { margins } => seq![
                    Request::SetMargin { margins },
                    Request::Commit,
                ],
                PropertyChange::Anchor { anchor } => seq![Request::SetAnchor { anchor }, Request::Commit],
                PropertyChange::Interactivity { interactivity } => seq![
                    Request::SetKeyboardInteractivity { interactivity },
                    Request::Commit,
                ],
                PropertyChange::Layer { layer } => seq![Request::SetLayer { layer }, Request::Commit],
                PropertyChange::Size { sizes } => seq![Request::SetSize { sizes }, Request::Commit],
                PropertyChange::All { properties } => seq![
                    Request::SetMargin { margins: properties.margins },
                    Request::SetAnchor { anchor: properties.anchor },
                    Request::SetKeyboardInteractivity { interactivity: properties.interactivity },
                    Request::SetLayer { layer: properties.layer },
                    Request::SetSize { sizes: properties.sizes },
                    Request::Commit,
                ],
            }
        }
    }

    /// The resources to release on close, newest first.
    pub open spec fn release_order(self) -> Seq<Resource> {
        if self.is_closed() {
            seq![]
        } else {
            let pool: Seq<Resource> = if self.buffer.is_some() { seq![Resource::BufferPool] } else { seq![] };
            let gpu: Seq<Resource> = if self.gpu_ready { seq![Resource::GpuContext] } else { seq![] };
            let region: Seq<Resource> = if self.buffer.is_some() { seq![Resource::Region] } else { seq![] };
            pool + gpu + region + seq![Resource::LayerSurface, Resource::BaseSurface]
        }
    }

    /// The state after the surface is closed.
    pub open spec fn closed(self) -> SurfaceState {
        SurfaceState {
            phase: Phase::Closed,
            gpu_ready: false,
            pending: None,
            buffer: None,
            ..self
        }
    }

    /// Handles a configure event: acknowledges `serial` at once and names
    /// the buffer to allocate, with zero dimensions taken as one. A closed
    /// surface ignores the event.
    pub fn configure(&mut self, serial: u32, width: u32, height: u32) -> (r: ConfigureWork)
        requires
            old(self).wf(),
        ensures
            final(self).wf(),
            *final(self) == old(self).configured(width, height),
            r.requests@ == old(self).configure_requests(serial),
            r.layout == final(self).pending,
            r.gpu == old(self).gpu_work_for(r.layout),
    {
        if matches!(self.phase, Phase::Closed) {
            return ConfigureWork { requests: Vec::new(), layout: None, gpu: GpuWork::Skip };
        }
        let layout = BufferLayout::for_configure(width, height);
        self.pending = layout;
        let gpu = if layout.is_none() || !self.with_gpu {
            GpuWork::Skip
        } else if self.gpu_ready {
            GpuWork::Resize
        } else {
            GpuWork::Create
        };
        ConfigureWork { requests: vec![Request::AckConfigure { serial }], layout, gpu }
    }

    /// Completes a configure once the driver reports whether the region of
    /// the pending layout (and the context, where one is used) was
    /// allocated. On success the new buffer is attached, the acknowledged
    /// size is recorded, and the generation advances; on failure nothing is
    /// attached and the state keeps its earlier buffer.
    pub fn complete(&mut self, allocated: bool) -> (r: Vec<Request>)
        requires
            old(self).wf(),
        ensures
            final(self).wf(),
            *final(self) == old(self).completed(allocated),
            r@ == old(self).completion_requests(allocated),
    {
        let pending = self.pending;
        self.pending = None;
        if !allocated || matches!(self.phase, Phase::Closed) {
            return Vec::new();
        }
        match pending {
            None => Vec::new(),
            Some(l) => {
                let mut requests = vec![
                    Request::CreatePool { size: l.size },
                    Request::CreateBuffer {
                        offset: 0,
                        width: l.width,
                        height: l.height,
                        stride: l.stride,
                    },
                    Request::Attach,
                    Request::Damage { width: l.width, height: l.height },
                    Request::Commit,
                ];
                if self.buffer.is_some() {
                    requests.push(Request::ReleasePrevious);
                }
                self.phase = match self.phase {
                    Phase::Configured { generation } => Phase::Configured {
                        generation: if generation < u64::MAX { generation + 1 } else { generation },
                    },
                    _ => Phase::Configured { generation: 1 },
                };
                self.properties.sizes = Sizes { width: l.width, height: l.height };
                self.gpu_ready = self.with_gpu;
                self.buffer = Some(l);
                requests
            }
        }
    }

    /// Applies a property change: records what it names (never the size)
    /// and returns its requests. A closed surface ignores it.
    pub fn change(&mut self, c: PropertyChange) -> (r: Vec<Request>)
        requires
            old(self).wf(),
        ensures
            final(self).wf(),
            *final(self) == old(self).changed(c),
            r@ == old(self).change_requests(c),
    {
        if matches!(self.phase, Phase::Closed) {
            return Vec::new();
        }
        match c {
            PropertyChange::Margin { margins } => {
                self.properties.margins = margins;
                vec![Request::SetMargin { margins }, Request::Commit]
            },
            PropertyChange::Anchor { anchor } => {
                self.properties.anchor = anchor;
                vec![Request::SetAnchor { anchor }, Request::Commit]
            },
            PropertyChange::Interactivity { interactivity } => {
                self.properties.interactivity = interactivity;
                vec![Request::SetKeyboardInteractivity { interactivity }, Request::Commit]
            },
            PropertyChange::Layer { layer } => {
                self.properties.layer = layer;
                vec![Request::SetLayer { layer }, Request::Commit]
            },
            PropertyChange::Size { sizes } => vec![Request::SetSize { sizes }, Request::Commit],
            PropertyChange::All { properties } => {
                let kept = self.properties.sizes;
                self.properties = SurfaceProperties { sizes: kept, ..properties };
                vec![
                    Request::SetMargin { margins: properties.margins },
                    Request::SetAnchor { anchor: properties.anchor },
                    Request::SetKeyboardInteractivity { interactivity: properties.interactivity },
                    Request::SetLayer { layer: properties.layer },
                    Request::SetSize { sizes: properties.sizes },
                    Request::Commit,
                ]
            },
        }
    }

    /// Closes the surface: no event is acted on afterwards. Returns the
    /// resources to release, newest first.
    pub fn close(&mut self) -> (r: Vec<Resource>)
        requires
            old(self).wf(),
        ensures
            final(self).wf(),
            *final(self) == old(self).closed(),
            r@ == old(self).release_order(),
    {
        let mut r: Vec<Resource> = Vec::new();
        if !matches!(self.phase, Phase::Closed) {
            if self.buffer.is_some() {
                r.push(Resource::BufferPool);
            }
            if self.gpu_ready {
                r.push(Resource::GpuContext);
            }
            if self.buffer.is_some() {
                r.push(Resource::Region);
            }
            r.push(Resource::LayerSurface);
            r.push(Resource::BaseSurface);
        }
        self.phase = Phase::Closed;
        self.gpu_ready = false;
        self.pending = None;
        self.buffer = None;
        r
    }
}

/// The state of a surface just requested with `properties`.
pub open spec fn requested_state(properties: SurfaceProperties, with_gpu: bool) -> SurfaceState {
    SurfaceState {
        properties,
        phase: Phase::Requested,
        with_gpu,
        gpu_ready: false,
        pending: None,
        buffer: None,
    }
}

/// The requests that create a surface with `properties`: the surface, its
/// layer-shell role on the requested layer, each requested property, and a commit.
pub open spec fn setup_requests(properties: SurfaceProperties) -> Seq<Request> {
    seq![
        Request::CreateSurface,
        Request::CreateLayerSurface { layer: properties.layer },
        Request::SetMargin { margins: properties.margins },
        Request::SetAnchor { anchor: properties.anchor },
        Request::SetKeyboardInteractivity { interactivity: properties.interactivity },
        Request::SetSize { sizes: properties.sizes },
        Request::Commit,
    ]
}

/// A surface that was asked for and has no buffer attached yet.
pub struct UninitSurface {
    state: SurfaceState,
}

impl View for UninitSurface {
    type V = SurfaceState;

    closed spec fn view(&self) -> SurfaceState {
        self.state
    }
}

impl UninitSurface {
    /// Starts the creation of a surface of `width` by `height` on `layer`.
    ///
    /// Returns `None`, and asks for nothing, while the capabilities are not
    /// all bound; otherwise the pending surface and the requests that create
    /// it against the requested (not yet acknowledged) properties.
    pub fn setup<C, S, L>(
        width: u32,
        height: u32,
        layer: Layer,
        protocols: Option<&BoundProtocols<C, S, L>>,
        with_gpu: bool,
    ) -> (r: Option<(UninitSurface, Vec<Request>)>)
        ensures
            r.is_some() <==> protocols.is_some(),
            r matches Some((s, requests)) ==> {
                let props = initial_properties(Sizes { width, height }, layer);
                &&& s@ == requested_state(props, with_gpu)
                &&& s@.wf()
                &&& requests@ == setup_requests(props)
            },
    {
        if protocols.is_none() {
            return None;
        }
        let properties = SurfaceProperties::initial(Sizes { width, height }, layer);
        let requests = vec![
            Request::CreateSurface,
            Request::CreateLayerSurface { layer: properties.layer },
            Request::SetMargin { margins: properties.margins },
            Request::SetAnchor { anchor: properties.anchor },
            Request::SetKeyboardInteractivity { interactivity: properties.interactivity },
            Request::SetSize { sizes: properties.sizes },
            Request::Commit,
        ];
        let state = SurfaceState {
            properties,
            phase: Phase::Requested,
            with_gpu,
            gpu_ready: false,
            pending: None,
            buffer: None,
        };
        Some((UninitSurface { state }, requests))
    }

    /// The buffer and, where one was asked for, the accelerated context are
    /// both present.
    pub open spec fn ready(&self) -> bool {
        self@.ready()
    }

    pub fn is_ready(&self) -> (r: bool)
        ensures
            r == self.ready(),
    {
        self.state.buffer.is_some() && (!self.state.with_gpu || self.state.gpu_ready)
            && !matches!(self.state.phase, Phase::Closed)
    }

    /// See [`SurfaceState::configure`].
    pub fn configure(&mut self, serial: u32, width: u32, height: u32) -> (r: ConfigureWork)
        requires
            old(self)@.wf(),
        ensures
            final(self)@.wf(),
            final(self)@ == old(self)@.configured(width, height),
            r.requests@ == old(self)@.configure_requests(serial),
            r.layout == final(self)@.pending,
            r.gpu == old(self)@.gpu_work_for(r.layout),
    {
        self.state.configure(serial, width, height)
    }

    /// See [`SurfaceState::complete`].
    pub fn complete(&mut self, allocated: bool) -> (r: Vec<Request>)
        requires
            old(self)@.wf(),
        ensures
            final(self)@.wf(),
            final(self)@ == old(self)@.completed(allocated),
            r@ == old(self)@.completion_requests(allocated),
    {
        self.state.complete(allocated)
    }

    /// See [`SurfaceState::close`].
    pub fn close(&mut self) -> (r: Vec<Resource>)
        requires
            old(self)@.wf(),
        ensures
            final(self)@.wf(),
            final(self)@ == old(self)@.closed(),
            r@ == old(self)@.release_order(),
    {
        self.state.close()
    }

    pub fn get_properties(&self) -> (r: &SurfaceProperties)
        ensures
            *r == self@.properties,
    {
        &self.state.properties
    }

    /// Turns a ready surface into a live one, keeping its whole state;
    /// `None` when it is not ready.
    pub fn finalize(self) -> (r: Option<Surface>)
        ensures
            r.is_some() <==> self.ready(),
            r matches Some(s) ==> s@ == self@,
    {
        if self.is_ready() {
            Some(Surface { state: self.state })
        } else {
            None
        }
    }
}

/// A surface with a buffer attached.
pub struct Surface {
    state: SurfaceState,
}

impl View for Surface {
    type V = SurfaceState;

    closed spec fn view(&self) -> SurfaceState {
        self.state
    }
}

impl Surface {
    /// See [`SurfaceState::configure`].
    pub fn configure(&mut self, serial: u32, width: u32, height: u32) -> (r: ConfigureWork)
        requires
            old(self)@.wf(),
        ensures
            final(self)@.wf(),
            final(self)@ == old(self)@.configured(width, height),
            r.requests@ == old(self)@.configure_requests(serial),
            r.layout == final(self)@.pending,
            r.gpu == old(self)@.gpu_work_for(r.layout),
    {
        self.state.configure(serial, width, height)
    }

    /// See [`SurfaceState::complete`].
    pub fn complete(&mut self, allocated: bool) -> (r: Vec<Request>)
        requires
            old(self)@.wf(),
        ensures
            final(self)@.wf(),
            final(self)@ == old(self)@.completed(allocated),
            r@ == old(self)@.completion_requests(allocated),
    {
        self.state.complete(allocated)
    }

    /// See [`SurfaceState::close`].
    pub fn close(&mut self) -> (r: Vec<Resource>)
        requires
            old(self)@.wf(),
        ensures
            final(self)@.wf(),
            final(self)@ == old(self)@.closed(),
            r@ == old(self)@.release_order(),
    {
        self.state.close()
    }

    /// Sets the margins and records them.
    pub fn set_margin(&mut self, margins: Margins) -> (r: Vec<Request>)
        requires
            old(self)@.wf(),
        ensures
            final(self)@.wf(),
            final(self)@ == old(self)@.changed(PropertyChange::Margin { margins }),
            r@ == old(self)@.change_requests(PropertyChange::Margin { margins }),
    {
        self.state.change(PropertyChange::Margin { margins })
    }

    /// Sets the anchor and records it.
    pub fn set_anchor(&mut self, anchor: Anchor) -> (r: Vec<Request>)
        requires
            old(self)@.wf(),
        ensures
            final(self)@.wf(),
            final(self)@ == old(self)@.changed(PropertyChange::Anchor { anchor }),
            r@ == old(self)@.change_requests(PropertyChange::Anchor { anchor }),
    {
        self.state.change(PropertyChange::Anchor { anchor })
    }

    /// Sets the keyboard interactivity and records it.
    pub fn set_keyboard_interactivity(&mut self, interactivity: KeyboardInteractivity) -> (r: Vec<
        Request,
    >)
        requires
            old(self)@.wf(),
        ensures
            final(self)@.wf(),
            final(self)@ == old(self)@.changed(PropertyChange::Interactivity { interactivity }),
            r@ == old(self)@.change_requests(PropertyChange::Interactivity { interactivity }),
    {
        self.state.change(PropertyChange::Interactivity { interactivity })
    }

    /// Sets the layer and records it.
    pub fn set_layer(&mut self, layer: Layer) -> (r: Vec<Request>)
        requires
            old(self)@.wf(),
        ensures
            final(self)@.wf(),
            final(self)@ == old(self)@.changed(PropertyChange::Layer { layer }),
            r@ == old(self)@.change_requests(PropertyChange::Layer { layer }),
    {
        self.state.change(PropertyChange::Layer { layer })
    }

    /// Asks the compositor for a new size. The recorded size and the buffer
    /// stay as they are until the matching configure completes.
    pub fn set_size(&mut self, sizes: Sizes) -> (r: Vec<Request>)
        requires
            old(self)@.wf(),
        ensures
            final(self)@ == old(self)@,
            r@ == old(self)@.change_requests(PropertyChange::Size { sizes }),
    {
        self.state.change(PropertyChange::Size { sizes })
    }

    /// Requests all of `props` at once and records them, but for the size:
    /// that one is asked for, and recorded only when its configure completes.
    pub fn set_properties(&mut self, props: SurfaceProperties) -> (r: Vec<Request>)
        requires
            old(self)@.wf(),
        ensures
            final(self)@.wf(),
            final(self)@ == old(self)@.changed(PropertyChange::All { properties: props }),
            r@ == old(self)@.change_requests(PropertyChange::All { properties: props }),
    {
        self.state.change(PropertyChange::All { properties: props })
    }

    pub fn get_properties(&self) -> (r: &SurfaceProperties)
        ensures
            *r == self@.properties,
    {
        &self.state.properties
    }

    /// The layout of the attached buffer; the pixel bytes of one frame are
    /// `stride * height` of it.
    pub fn buffer_layout(&self) -> (r: Option<BufferLayout>)
        ensures
            r == self@.buffer,
    {
        self.state.buffer
    }

    /// The number of configures whose buffers were attached, or `None` once closed.
    pub fn generation(&self) -> (r: Option<u64>)
        ensures
            r == (match self@.phase {
                Phase::Configured { generation } => Some(generation),
                Phase::Requested => Some(0u64),
                Phase::Closed => None,
            }),
    {
        match self.state.phase {
            Phase::Configured { generation } => Some(generation),
            Phase::Requested => Some(0),
            Phase::Closed => None,
        }
    }
}

/// One configure event as the driver handles it: the event's serial and
/// dimensions, and whether the buffer it asked for could be allocated.
#[derive(Clone, Copy, Debug, PartialEq, Eq, Structural)]
pub struct ConfigureEvent {
    pub serial: u32,
    pub width: u32,
    pub height: u32,
    pub allocated: bool,
}

/// The serials acknowledged by `requests`, in order.
pub open spec fn acks_of(requests: Seq<Request>) -> Seq<u32>
    decreases requests.len(),
{
    if requests.len() == 0 {
        seq![]
    } else {
        let head: Seq<u32> = match requests[0] {
            Request::AckConfigure { serial } => seq![serial],
            _ => seq![],
        };
        head + acks_of(requests.drop_first())
    }
}

impl SurfaceState {
    /// The state after one configure event is handled to its end.
    pub open spec fn handled(self, e: ConfigureEvent) -> SurfaceState {
        self.configured(e.width, e.height).completed(e.allocated)
    }

    /// The requests sent while one configure event is handled.
    pub open spec fn handle_requests(self, e: ConfigureEvent) -> Seq<Request> {
        self.configure_requests(e.serial) + self.configured(e.width, e.height).completion_requests(
            e.allocated,
        )
    }

    /// The requests sent while `events` are handled in turn.
    pub open spec fn requests_for(self, events: Seq<ConfigureEvent>) -> Seq<Request>
        decreases events.len(),
    {
        if events.len() == 0 {
            seq![]
        } else {
            self.handle_requests(events[0]) + self.handled(events[0]).requests_for(
                events.drop_first(),
            )
        }
    }
}

proof fn lemma_acks_of_concat(a: Seq<Request>, b: Seq<Request>)
    ensures
        acks_of(a + b) == acks_of(a) + acks_of(b),
    decreases a.len(),
{
    if a.len() == 0 {
        assert(a + b =~= b);
        assert(acks_of(a) + acks_of(b) =~= acks_of(b));
    } else {
        assert((a + b).drop_first() =~= a.drop_first() + b);
        assert((a + b)[0] == a[0]);
        lemma_acks_of_concat(a.drop_first(), b);
    }
}

proof fn lemma_no_acks(requests: Seq<Request>)
    requires
        forall|i: int| 0 <= i < requests.len() ==> !(#[trigger] requests[i] is AckConfigure),
    ensures
        acks_of(requests) == Seq::<u32>::empty(),
    decreases requests.len(),
{
    if requests.len() > 0 {
        assert forall|i: int| 0 <= i < requests.drop_first().len() implies !(
        #[trigger] requests.drop_first()[i] is AckConfigure) by {
            assert(requests.drop_first()[i] == requests[i + 1]);
        }
        lemma_no_acks(requests.drop_first());
        assert(!(requests[0] is AckConfigure));
        assert(acks_of(requests) =~= Seq::<u32>::empty());
    }
}

/// Handling one configure event acknowledges exactly its serial, whether or
/// not its buffer could be allocated.
pub proof fn lemma_one_ack(s: SurfaceState, e: ConfigureEvent)
    requires
        !s.is_closed(),
    ensures
        acks_of(s.handle_requests(e)) == seq![e.serial],
        !s.handled(e).is_closed(),
{
    let c = s.configured(e.width, e.height);
    let done = c.completion_requests(e.allocated);
    assert forall|i: int| 0 <= i < done.len() implies !(#[trigger] done[i] is AckConfigure) by {
        if c.attaches(e.allocated) {
            let l = c.pending.unwrap();
            let base = seq![
                Request::CreatePool { size: l.size },
                Request::CreateBuffer { offset: 0, width: l.width, height: l.height, stride: l.stride },
                Request::Attach,
                Request::Damage { width: l.width, height: l.height },
                Request::Commit,
            ];
            if c.buffer.is_some() {
                assert(done == base.push(Request::ReleasePrevious));
            }
        }
    }
    lemma_no_acks(done);
    let first = seq![Request::AckConfigure { serial: e.serial }];
    assert(acks_of(first.drop_first()) == Seq::<u32>::empty());
    assert(acks_of(first) =~= seq![e.serial]);
    lemma_acks_of_concat(first, done);
    assert(acks_of(first) + acks_of(done) =~= seq![e.serial]);
}

/// The buffer is always sized to the last acknowledged configure: once a
/// configure is handled, a surface whose region was allocated holds a buffer
/// of exactly that configure's layout and records its size, one generation
/// on; one whose allocation failed keeps its earlier buffer, size and phase.
pub proof fn lemma_buffer_follows_acknowledgement(s: SurfaceState, e: ConfigureEvent)
    requires
        s.wf(),
        !s.is_closed(),
    ensures
        s.handled(e).wf(),
        e.allocated && layout_for(e.width, e.height).is_some() ==> {
            let l = layout_for(e.width, e.height).unwrap();
            &&& s.handled(e).buffer == Some(l)
            &&& s.handled(e).properties.sizes == Sizes { width: l.width, height: l.height }
            &&& s.handled(e).phase == next_phase(s.phase)
        },
        !(e.allocated && layout_for(e.width, e.height).is_some()) ==> {
            &&& s.handled(e).buffer == s.buffer
            &&& s.handled(e).properties == s.properties
            &&& s.handled(e).phase == s.phase
        },
{
    if let Some(l) = layout_for(e.width, e.height) {
        BufferLayout::lemma_layout_for_wf(e.width, e.height);
    }
}

/// Serials are acknowledged in exactly the order their configure events
/// arrive, one per event, even where the buffer of an earlier event could
/// not be allocated.
pub proof fn lemma_acks_in_order(s: SurfaceState, events: Seq<ConfigureEvent>)
    requires
        !s.is_closed(),
    ensures
        acks_of(s.requests_for(events)) == events.map_values(|e: ConfigureEvent| e.serial),
    decreases events.len(),
{
    if events.len() == 0 {
        assert(events.map_values(|e: ConfigureEvent| e.serial) =~= Seq::<u32>::empty());
    } else {
        let e = events[0];
        lemma_one_ack(s, e);
        lemma_acks_in_order(s.handled(e), events.drop_first());
        lemma_acks_of_concat(s.handle_requests(e), s.handled(e).requests_for(events.drop_first()));
        assert(events.map_values(|e: ConfigureEvent| e.serial) =~= seq![e.serial]
            + events.drop_first().map_values(|e: ConfigureEvent| e.serial));
    }
}

} // verus!
