use led_matrix::framebuffer::Framebuffer;
use led_matrix::surface::Surface;

#[test]
fn new_buffer_is_blank() {
    assert_eq!(Framebuffer::new().rows(), [0u8; 8]);
}

#[test]
fn column_zero_is_the_most_significant_bit() {
    let mut fb = Framebuffer::new();
    fb.set_pixel(0, 0, true);
    fb.set_pixel(7, 1, true);
    fb.set_pixel(1, 3, true);
    assert_eq!(fb.rows(), [0x80, 0x01, 0x00, 0x40, 0x00, 0x00, 0x00, 0x00]);
    assert_eq!(fb.row(3), 0x40);
}

#[test]
fn set_pixel_then_get_pixel() {
    for y in 0..8u8 {
        for x in 0..8u8 {
            let mut fb = Framebuffer::from_rows([0x55, 0xAA, 0x55, 0xAA, 0x55, 0xAA, 0x55, 0xAA]);
            let before = fb;
            fb.set_pixel(x, y, true);
            assert!(fb.get_pixel(x, y));
            fb.set_pixel(x, y, false);
            assert!(!fb.get_pixel(x, y));
            for j in 0..8u8 {
                for i in 0..8u8 {
                    if i != x || j != y {
                        assert_eq!(fb.get_pixel(i, j), before.get_pixel(i, j));
                    }
                }
            }
        }
    }
}

#[test]
fn set_then_clear_restores_a_dark_pixel() {
    for y in 0..8u8 {
        for x in 0..8u8 {
            let start = [0x00, 0x12, 0x00, 0x48, 0x00, 0x21, 0x00, 0x84];
            let mut fb = Framebuffer::from_rows(start);
            if fb.get_pixel(x, y) {
                continue;
            }
            fb.set_pixel(x, y, true);
            fb.set_pixel(x, y, false);
            assert_eq!(fb.rows(), start);
        }
    }
}

#[test]
fn set_then_clear_of_a_lit_pixel_leaves_it_dark() {
    let mut fb = Framebuffer::from_rows([0x80, 0, 0, 0, 0, 0, 0, 0]);
    fb.set_pixel(0, 0, true);
    fb.set_pixel(0, 0, false);
    assert_eq!(fb.rows(), [0u8; 8]);
}

#[test]
fn clearing_twice_is_clearing_once() {
    let mut fb = Framebuffer::from_rows([0xFF; 8]);
    fb.set_pixel(4, 4, false);
    let once = fb.rows();
    fb.set_pixel(4, 4, false);
    assert_eq!(fb.rows(), once);
    assert_eq!(once[4], 0xF7);
}

#[test]
fn clear_blanks_every_row() {
    let mut fb = Framebuffer::from_rows([0xFF; 8]);
    fb.clear();
    assert_eq!(fb.rows(), [0u8; 8]);
}

#[test]
fn set_rows_replaces_everything() {
    let mut fb = Framebuffer::from_rows([0xFF; 8]);
    fb.set_rows([1, 2, 3, 4, 5, 6, 7, 8]);
    assert_eq!(fb.rows(), [1, 2, 3, 4, 5, 6, 7, 8]);
}

#[test]
fn single_module_plot_reads_back() {
    for y in 0..8i32 {
        for x in 0..8i32 {
            let mut fb = Framebuffer::new();
            fb.plot(x, y, true);
            assert!(fb.get_pixel(x as u8, y as u8));
            fb.plot(x, y, false);
            assert!(!fb.get_pixel(x as u8, y as u8));
        }
    }
}

#[test]
fn single_module_plot_outside_changes_nothing() {
    let start = [0x3C, 0x42, 0x81, 0x81, 0x81, 0x81, 0x42, 0x3C];
    let outside = [(-1, 0), (0, -1), (8, 0), (0, 8), (8, 8), (100, 3), (3, -100), (i32::MAX, 0), (0, i32::MIN)];
    for (x, y) in outside {
        let mut fb = Framebuffer::from_rows(start);
        fb.plot(x, y, true);
        assert_eq!(fb.rows(), start);
        fb.plot(x, y, false);
        assert_eq!(fb.rows(), start);
    }
    assert_eq!(Framebuffer::new().modules(), 1);
}
