use dwr::layout::{BufferLayout, BYTES_PER_PIXEL, FRAME_COUNT};

#[test]
fn pool_size_of_five_hundred_by_three_hundred() {
    let l = BufferLayout::for_configure(500, 300).unwrap();
    assert_eq!(l.stride, 2000);
    assert_eq!(l.size, 1_200_000);
    assert_eq!((l.width, l.height), (500, 300));
}

#[test]
fn pool_size_formula_holds() {
    for (w, h) in [(1u32, 1u32), (600, 300), (1920, 1080), (7, 13)] {
        let l = BufferLayout::for_configure(w, h).unwrap();
        assert_eq!(l.size, h * (w * BYTES_PER_PIXEL) * FRAME_COUNT);
        assert_eq!(l.stride, w * 4);
    }
}

#[test]
fn zero_width_is_taken_as_one() {
    let l = BufferLayout::for_configure(0, 300).unwrap();
    assert_eq!((l.width, l.height, l.stride, l.size), (1, 300, 4, 2400));
}

#[test]
fn zero_height_is_taken_as_one() {
    let l = BufferLayout::for_configure(500, 0).unwrap();
    assert_eq!((l.width, l.height, l.stride, l.size), (500, 1, 2000, 4000));
}

#[test]
fn zero_by_zero_is_one_pixel() {
    let l = BufferLayout::for_configure(0, 0).unwrap();
    assert_eq!((l.width, l.height, l.stride, l.size), (1, 1, 4, 8));
}

#[test]
fn pool_too_large_for_the_wire_is_refused() {
    assert!(BufferLayout::for_configure(u32::MAX, u32::MAX).is_none());
    assert!(BufferLayout::for_configure(16384, 16384).is_none());
    // 0x7fff_ffff / 8 = 268_435_455 = 5 * 53_687_091
    assert!(BufferLayout::for_configure(5, 53_687_091).is_some());
    assert!(BufferLayout::for_configure(5, 53_687_092).is_none());
}
