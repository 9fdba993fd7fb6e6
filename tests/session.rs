use dwr::session::WaylandState;
use dwr::surface::{GpuWork, Layer, Margins, PropertyChange, Request, Resource, Sizes};

fn bound() -> WaylandState<u32, u32, u32> {
    let mut st = WaylandState::new();
    st.record_layer(3);
    st.record_compositor(1);
    st.record_shm(2);
    st
}

#[test]
fn session_refuses_surfaces_until_bound() {
    let mut st: WaylandState<u32, u32, u32> = WaylandState::new();
    assert!(st.create_surface_async(500, 300, Layer::Top, true).is_none());
    st.record_compositor(1);
    st.record_shm(2);
    assert!(st.create_surface_async(500, 300, Layer::Top, true).is_none());
    st.record_layer(3);
    let (id, requests) = st.create_surface_async(500, 300, Layer::Top, true).unwrap();
    assert_eq!(requests.len(), 7);
    assert!(!st.is_live(id));
    assert!(st.surface_state(id).is_some());
}

#[test]
fn tokens_are_distinct() {
    let mut st = bound();
    let (a, _) = st.create_surface_async(10, 10, Layer::Top, false).unwrap();
    let (b, _) = st.create_surface_async(10, 10, Layer::Top, false).unwrap();
    assert_ne!(a, b);
}

#[test]
fn session_routes_configure_and_promotes_ready_surfaces() {
    let mut st = bound();
    let (a, _) = st.create_surface_async(500, 300, Layer::Top, true).unwrap();
    let (b, _) = st.create_surface_async(100, 100, Layer::Overlay, false).unwrap();
    let work = st.configure(a, 7, 500, 300);
    assert_eq!(work.requests, vec![Request::AckConfigure { serial: 7 }]);
    assert_eq!(work.gpu, GpuWork::Create);
    assert_eq!(work.layout.unwrap().size, 1_200_000);
    assert_eq!(st.complete(a, true).len(), 5);
    assert!(st.promote_ready() == vec![a]);
    assert!(st.is_live(a));
    assert!(!st.is_live(b));
    assert!(st.promote_ready().is_empty());
    let m = Margins { top: 100, right: 0, bottom: 0, left: 0 };
    assert_eq!(st.change(a, PropertyChange::Margin { margins: m }).len(), 2);
    assert!(st.change(b, PropertyChange::Margin { margins: m }).is_empty());
    assert_eq!(st.surface_state(a).unwrap().properties.margins, m);
    assert_eq!(
        st.change(a, PropertyChange::Size { sizes: Sizes { width: 100, height: 100 } }),
        vec![Request::SetSize { sizes: Sizes { width: 100, height: 100 } }, Request::Commit]
    );
    assert_eq!(st.surface_state(a).unwrap().properties.sizes, Sizes { width: 500, height: 300 });
}

#[test]
fn unknown_token_is_ignored() {
    let mut st = bound();
    let work = st.configure(42, 1, 10, 10);
    assert!(work.requests.is_empty());
    assert!(work.layout.is_none());
    assert!(st.complete(42, true).is_empty());
    assert!(st.close(42).is_empty());
}

#[test]
fn closing_drops_the_surface() {
    let mut st = bound();
    let (a, _) = st.create_surface_async(500, 300, Layer::Top, false).unwrap();
    assert_eq!(st.close(a), vec![Resource::LayerSurface, Resource::BaseSurface]);
    assert!(st.surface_state(a).is_none());
    assert!(st.configure(a, 1, 10, 10).requests.is_empty());
}
