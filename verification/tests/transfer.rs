use led_matrix::command::{Command, Register};
use led_matrix::error::{ConfigError, Error};
use led_matrix::transfer::{build_frame, transfer_outcome, Link, Transport};

struct Wire {
    frames: Vec<Vec<u8>>,
    fail_at: Option<usize>,
}

impl Transport for Wire {
    type Error = u32;

    fn write_frame(&mut self, bytes: &[u8]) -> Result<(), u32> {
        let index = self.frames.len();
        self.frames.push(bytes.to_vec());
        if self.fail_at == Some(index) {
            Err(7000 + index as u32)
        } else {
            Ok(())
        }
    }
}

#[test]
fn frame_holds_the_command_at_the_target_and_no_ops_elsewhere() {
    let frame = build_frame(4, 2, Command::new(Register::Intensity, 0x1F)).unwrap();
    assert_eq!(frame, vec![0, 0, 0, 0, 0x0A, 0x0F, 0, 0]);
    let first = build_frame(4, 0, Command::new(Register::Digit(7), 0x81)).unwrap();
    assert_eq!(first, vec![0x08, 0x81, 0, 0, 0, 0, 0, 0]);
    let last = build_frame(4, 3, Command::new(Register::Shutdown, 1)).unwrap();
    assert_eq!(last, vec![0, 0, 0, 0, 0, 0, 0x0C, 0x01]);
}

#[test]
fn frame_layout_for_every_length_and_target() {
    let word = Command::new(Register::ScanLimit, 7).encode();
    for n in 1..=12usize {
        for t in 0..n {
            let frame = build_frame(n, t, Command::new(Register::ScanLimit, 7)).unwrap();
            assert_eq!(frame.len(), 2 * n);
            for k in 0..n {
                let slot = &frame[2 * k..2 * k + 2];
                if k == t {
                    assert_eq!(slot, &word[..]);
                } else {
                    assert_eq!(slot, &[0u8, 0u8][..]);
                }
            }
        }
    }
}

#[test]
fn frame_of_a_single_module_is_the_word() {
    assert_eq!(build_frame(1, 0, Command::new(Register::DecodeMode, 0)).unwrap(), vec![0x09, 0x00]);
}

#[test]
fn frame_of_the_longest_chain() {
    let frame = build_frame(255, 254, Command::new(Register::DisplayTest, 1)).unwrap();
    assert_eq!(frame.len(), 510);
    assert_eq!(&frame[508..], &[0x0F, 0x01][..]);
    assert!(frame[..508].iter().all(|b| *b == 0));
}

#[test]
fn frame_is_refused_for_a_bad_length_or_target() {
    assert_eq!(build_frame(0, 0, Command::no_op()), Err(ConfigError::InvalidChainLength));
    assert_eq!(build_frame(256, 0, Command::no_op()), Err(ConfigError::InvalidChainLength));
    assert_eq!(build_frame(4, 4, Command::no_op()), Err(ConfigError::InvalidModule));
    assert_eq!(build_frame(1, usize::MAX, Command::no_op()), Err(ConfigError::InvalidModule));
}

#[test]
fn transfer_outcome_passes_the_fault_on() {
    assert_eq!(transfer_outcome::<u32>(Ok(())), Ok(()));
    assert_eq!(transfer_outcome(Err(42u32)), Err(Error::Transfer(42u32)));
}

#[test]
fn link_length_is_checked() {
    assert!(matches!(
        Link::new(Wire { frames: vec![], fail_at: None }, 0),
        Err(ConfigError::InvalidChainLength)
    ));
    assert!(matches!(
        Link::new(Wire { frames: vec![], fail_at: None }, 256),
        Err(ConfigError::InvalidChainLength)
    ));
    let link = Link::new(Wire { frames: vec![], fail_at: None }, 3).ok().unwrap();
    assert_eq!(link.len(), 3);
}

#[test]
fn link_sends_one_frame_per_command() {
    let mut link = Link::new(Wire { frames: vec![], fail_at: None }, 3).ok().unwrap();
    assert_eq!(link.send(1, Command::new(Register::Intensity, 5)), Ok(()));
    assert_eq!(link.send(0, Command::new(Register::Digit(2), 0xFF)), Ok(()));
    let wire = link.release();
    assert_eq!(wire.frames, vec![vec![0, 0, 0x0A, 5, 0, 0], vec![0x03, 0xFF, 0, 0, 0, 0]]);
}

#[test]
fn link_refuses_a_target_outside_the_chain_without_traffic() {
    let mut link = Link::new(Wire { frames: vec![], fail_at: None }, 3).ok().unwrap();
    assert_eq!(
        link.send(3, Command::new(Register::Intensity, 5)),
        Err(Error::Config(ConfigError::InvalidModule))
    );
    assert!(link.release().frames.is_empty());
}

#[test]
fn link_passes_a_fault_on_and_does_not_retry() {
    let mut link = Link::new(Wire { frames: vec![], fail_at: Some(1) }, 2).ok().unwrap();
    assert_eq!(link.send(0, Command::new(Register::Shutdown, 1)), Ok(()));
    assert_eq!(link.send(1, Command::new(Register::Shutdown, 1)), Err(Error::Transfer(7001)));
    let wire = link.release();
    assert_eq!(wire.frames.len(), 2);
    assert_eq!(wire.frames[1], vec![0, 0, 0x0C, 1]);
}
