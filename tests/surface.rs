use dwr::layout::BufferLayout;
use dwr::registry::UnboundProtocols;
use dwr::surface::{
    Anchor, GpuWork, KeyboardInteractivity, Layer, Margins, Phase, Request, Resource, Sizes,
    Surface, SurfaceProperties, UninitSurface,
};

fn bound_registry() -> UnboundProtocols<u32, u32, u32> {
    let mut reg = UnboundProtocols::new();
    reg.record_compositor(1);
    reg.record_shm(2);
    reg.record_layer(3);
    reg
}

fn pending(width: u32, height: u32, with_gpu: bool) -> UninitSurface {
    let reg = bound_registry();
    let (s, _) = UninitSurface::setup(width, height, Layer::Top, reg.snapshot(), with_gpu).unwrap();
    s
}

fn attach(l: BufferLayout) -> Vec<Request> {
    vec![
        Request::CreatePool { size: l.size },
        Request::CreateBuffer { offset: 0, width: l.width, height: l.height, stride: l.stride },
        Request::Attach,
        Request::Damage { width: l.width, height: l.height },
        Request::Commit,
    ]
}

fn live(width: u32, height: u32) -> Surface {
    let mut s = pending(width, height, false);
    s.configure(1, width, height);
    s.complete(true);
    s.finalize().unwrap()
}

#[test]
fn request_before_capabilities_returns_none() {
    let mut reg: UnboundProtocols<u32, u32, u32> = UnboundProtocols::new();
    assert!(UninitSurface::setup(500, 300, Layer::Top, reg.snapshot(), true).is_none());
    reg.record_compositor(1);
    reg.record_layer(3);
    assert!(UninitSurface::setup(500, 300, Layer::Top, reg.snapshot(), true).is_none());
    reg.record_shm(2);
    assert!(UninitSurface::setup(500, 300, Layer::Top, reg.snapshot(), true).is_some());
}

#[test]
fn setup_requests_use_requested_properties() {
    let reg = bound_registry();
    let (s, requests) = UninitSurface::setup(500, 300, Layer::Overlay, reg.snapshot(), false).unwrap();
    let props = SurfaceProperties::initial(Sizes { width: 500, height: 300 }, Layer::Overlay);
    assert_eq!(*s.get_properties(), props);
    assert_eq!(
        requests,
        vec![
            Request::CreateSurface,
            Request::CreateLayerSurface { layer: Layer::Overlay },
            Request::SetMargin { margins: Margins { top: 0, right: 0, bottom: 0, left: 0 } },
            Request::SetAnchor { anchor: Anchor { bits: 1 } },
            Request::SetKeyboardInteractivity { interactivity: KeyboardInteractivity::Disabled },
            Request::SetSize { sizes: Sizes { width: 500, height: 300 } },
            Request::Commit,
        ]
    );
    assert!(!s.is_ready());
}

#[test]
fn first_configure_allocates_and_acknowledges() {
    let mut s = pending(100, 100, true);
    let work = s.configure(7, 500, 300);
    assert_eq!(work.requests, vec![Request::AckConfigure { serial: 7 }]);
    let l = work.layout.unwrap();
    assert_eq!(l.size, 300 * 2000 * 2);
    assert_eq!(l.size, 1_200_000);
    assert_eq!(l.stride, 2000);
    assert_eq!(work.gpu, GpuWork::Create);
    assert!(!s.is_ready());
    let requests = s.complete(true);
    assert_eq!(requests, attach(l));
    assert!(s.is_ready());
    assert_eq!(s.get_properties().sizes, Sizes { width: 500, height: 300 });
    let live = s.finalize().unwrap();
    assert_eq!(live.generation(), Some(1));
    assert_eq!(live.buffer_layout(), Some(l));
}

#[test]
fn second_configure_replaces_region_and_advances_generation() {
    let mut s = pending(100, 100, true);
    s.configure(7, 500, 300);
    s.complete(true);
    let mut live = s.finalize().unwrap();
    let work = live.configure(8, 600, 300);
    assert_eq!(work.requests, vec![Request::AckConfigure { serial: 8 }]);
    let l = work.layout.unwrap();
    assert_eq!(l.size, 300 * 2400 * 2);
    assert_eq!(work.gpu, GpuWork::Resize);
    let mut expected = attach(l);
    expected.push(Request::ReleasePrevious);
    assert_eq!(live.complete(true), expected);
    assert_eq!(live.generation(), Some(2));
    assert_eq!(live.get_properties().sizes, Sizes { width: 600, height: 300 });
}

#[test]
fn failed_allocation_still_acknowledges_and_attaches_nothing() {
    let mut s = pending(100, 100, false);
    let work = s.configure(3, 500, 300);
    assert_eq!(work.requests, vec![Request::AckConfigure { serial: 3 }]);
    assert_eq!(work.gpu, GpuWork::Skip);
    assert!(s.complete(false).is_empty());
    assert!(!s.is_ready());
    assert_eq!(s.get_properties().sizes, Sizes { width: 100, height: 100 });
    let work = s.configure(4, 500, 300);
    assert_eq!(work.requests, vec![Request::AckConfigure { serial: 4 }]);
    assert!(!s.complete(true).is_empty());
    assert!(s.is_ready());
    assert_eq!(s.finalize().unwrap().generation(), Some(1));
}

#[test]
fn acknowledgements_follow_event_order() {
    let mut s = pending(10, 10, false);
    let mut acks = Vec::new();
    for (serial, w, ok) in [(11u32, 100u32, true), (12, 200, false), (13, 0, true), (14, 50, true)] {
        let work = s.configure(serial, w, 20);
        let mut requests = work.requests;
        requests.extend(s.complete(ok));
        for r in requests {
            if let Request::AckConfigure { serial } = r {
                acks.push(serial);
            }
        }
    }
    assert_eq!(acks, vec![11, 12, 13, 14]);
}

#[test]
fn zero_dimension_configure_is_coerced_before_allocation() {
    let mut s = pending(10, 10, false);
    let l = s.configure(1, 0, 300).layout.unwrap();
    assert_eq!((l.width, l.height), (1, 300));
    let l = s.configure(2, 500, 0).layout.unwrap();
    assert_eq!((l.width, l.height), (500, 1));
}

#[test]
fn set_size_waits_for_configure() {
    let mut live = live(500, 300);
    let requests = live.set_size(Sizes { width: 100, height: 100 });
    assert_eq!(
        requests,
        vec![Request::SetSize { sizes: Sizes { width: 100, height: 100 } }, Request::Commit]
    );
    assert_eq!(live.get_properties().sizes, Sizes { width: 500, height: 300 });
    assert_eq!(live.buffer_layout().unwrap().width, 500);
    live.configure(9, 100, 100);
    assert_eq!(live.get_properties().sizes, Sizes { width: 500, height: 300 });
    live.complete(true);
    assert_eq!(live.get_properties().sizes, Sizes { width: 100, height: 100 });
}

#[test]
fn setters_record_and_commit() {
    let mut live = live(500, 300);
    let m = Margins { top: 100, right: 0, bottom: 0, left: 0 };
    assert_eq!(live.set_margin(m), vec![Request::SetMargin { margins: m }, Request::Commit]);
    assert_eq!(live.get_properties().margins, m);
    let a = Anchor { bits: 1 | 4 };
    assert_eq!(live.set_anchor(a), vec![Request::SetAnchor { anchor: a }, Request::Commit]);
    assert_eq!(live.get_properties().anchor, a);
    let k = KeyboardInteractivity::OnDemand;
    assert_eq!(
        live.set_keyboard_interactivity(k),
        vec![Request::SetKeyboardInteractivity { interactivity: k }, Request::Commit]
    );
    assert_eq!(live.get_properties().interactivity, k);
    assert_eq!(live.set_layer(Layer::Bottom), vec![Request::SetLayer { layer: Layer::Bottom }, Request::Commit]);
    assert_eq!(live.get_properties().layer, Layer::Bottom);
}

#[test]
fn set_properties_keeps_acknowledged_size() {
    let mut live = live(500, 300);
    let props = SurfaceProperties {
        margins: Margins { top: 1, right: 2, bottom: 3, left: 4 },
        anchor: Anchor { bits: 8 },
        interactivity: KeyboardInteractivity::Exclusive,
        layer: Layer::Background,
        sizes: Sizes { width: 10, height: 20 },
    };
    let requests = live.set_properties(props);
    assert_eq!(requests.len(), 6);
    assert_eq!(requests[4], Request::SetSize { sizes: Sizes { width: 10, height: 20 } });
    assert_eq!(*live.get_properties(), SurfaceProperties { sizes: Sizes { width: 500, height: 300 }, ..props });
}

#[test]
fn close_releases_newest_first_and_ignores_later_events() {
    let mut s = pending(100, 100, true);
    s.configure(1, 500, 300);
    s.complete(true);
    let mut live = s.finalize().unwrap();
    assert_eq!(
        live.close(),
        vec![
            Resource::BufferPool,
            Resource::GpuContext,
            Resource::Region,
            Resource::LayerSurface,
            Resource::BaseSurface,
        ]
    );
    assert_eq!(live.generation(), None);
    let work = live.configure(2, 10, 10);
    assert!(work.requests.is_empty());
    assert!(work.layout.is_none());
    assert!(live.complete(true).is_empty());
    assert!(live.set_margin(Margins::default()).is_empty());
    assert!(live.close().is_empty());
}

#[test]
fn closed_pending_surface_never_becomes_ready() {
    let mut s = pending(100, 100, false);
    assert_eq!(s.close(), vec![Resource::LayerSurface, Resource::BaseSurface]);
    s.configure(1, 10, 10);
    assert!(s.complete(true).is_empty());
    assert!(s.finalize().is_none());
}

#[test]
fn default_properties() {
    let p = SurfaceProperties::default();
    assert_eq!(p.layer, Layer::Top);
    assert_eq!(p.anchor, Anchor::top());
    assert_eq!(p.interactivity, KeyboardInteractivity::Disabled);
    assert_eq!(p.sizes, Sizes::default());
    let _ = Phase::Requested;
}
