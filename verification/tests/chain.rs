use led_matrix::chain::{locate, Chain, Place, MAX_MODULES};
use led_matrix::error::ConfigError;
use led_matrix::framebuffer::Framebuffer;

#[test]
fn chain_length_is_checked() {
    assert_eq!(Chain::new(0).err(), Some(ConfigError::InvalidChainLength));
    assert_eq!(Chain::new(MAX_MODULES + 1).err(), Some(ConfigError::InvalidChainLength));
    assert_eq!(Chain::new(1).unwrap().len(), 1);
    assert_eq!(Chain::new(MAX_MODULES).unwrap().len(), 255);
}

#[test]
fn new_chain_is_blank() {
    let chain = Chain::new(4).unwrap();
    for m in 0..4 {
        assert_eq!(chain.module(m).unwrap().rows(), [0u8; 8]);
    }
    assert_eq!(chain.module(4).err(), Some(ConfigError::InvalidModule));
}

#[test]
fn plot_nine_three_lands_in_module_one() {
    let mut chain = Chain::new(4).unwrap();
    chain.plot(9, 3, true);
    assert_eq!(chain.module(0).unwrap().rows(), [0u8; 8]);
    assert_eq!(chain.module(1).unwrap().rows(), [0, 0, 0, 0x40, 0, 0, 0, 0]);
    assert!(chain.module(1).unwrap().get_pixel(1, 3));
    assert_eq!(chain.module(2).unwrap().rows(), [0u8; 8]);
    assert_eq!(chain.module(3).unwrap().rows(), [0u8; 8]);
    assert_eq!(chain.pixel_at(9, 3), Some(true));
    assert_eq!(chain.pixel_at(8, 3), Some(false));
}

#[test]
fn plot_off_the_canvas_is_dropped() {
    let mut chain = Chain::new(4).unwrap();
    chain.plot(5, 5, true);
    for (x, y) in [(32, 0), (-1, 0), (0, 8), (0, -1), (i32::MAX, 7), (i32::MIN, 0), (31, 8)] {
        chain.plot(x, y, true);
        assert_eq!(chain.pixel_at(x, y), None);
    }
    assert_eq!(chain.module(0).unwrap().rows(), [0, 0, 0, 0, 0, 0x04, 0, 0]);
    for m in 1..4 {
        assert_eq!(chain.module(m).unwrap().rows(), [0u8; 8]);
    }
}

#[test]
fn plot_reaches_the_last_column() {
    let mut chain = Chain::new(4).unwrap();
    chain.plot(31, 7, true);
    assert_eq!(chain.module(3).unwrap().rows(), [0, 0, 0, 0, 0, 0, 0, 0x01]);
    chain.plot(31, 7, false);
    assert_eq!(chain.module(3).unwrap().rows(), [0u8; 8]);
}

#[test]
fn locate_maps_to_module_and_local_coordinate() {
    assert_eq!(locate(4, 9, 3), Some(Place { module: 1, x: 1, y: 3 }));
    assert_eq!(locate(4, 0, 0), Some(Place { module: 0, x: 0, y: 0 }));
    assert_eq!(locate(4, 31, 7), Some(Place { module: 3, x: 7, y: 7 }));
    assert_eq!(locate(4, 32, 7), None);
    assert_eq!(locate(4, 9, 8), None);
    assert_eq!(locate(4, -1, 3), None);
    assert_eq!(locate(1, 8, 0), None);
}

#[test]
fn set_module_and_clear() {
    let mut chain = Chain::new(3).unwrap();
    let fb = Framebuffer::from_rows([1, 2, 3, 4, 5, 6, 7, 8]);
    assert_eq!(chain.set_module(1, fb), Ok(()));
    assert_eq!(chain.set_module(3, fb), Err(ConfigError::InvalidModule));
    assert_eq!(chain.module(1).unwrap().rows(), [1, 2, 3, 4, 5, 6, 7, 8]);
    assert_eq!(chain.module(0).unwrap().rows(), [0u8; 8]);
    assert_eq!(chain.set_module(2, fb), Ok(()));
    assert_eq!(chain.clear(1), Ok(()));
    assert_eq!(chain.clear(3), Err(ConfigError::InvalidModule));
    assert_eq!(chain.module(1).unwrap().rows(), [0u8; 8]);
    assert_eq!(chain.module(2).unwrap().rows(), [1, 2, 3, 4, 5, 6, 7, 8]);
    chain.clear_all();
    assert_eq!(chain.module(2).unwrap().rows(), [0u8; 8]);
}
