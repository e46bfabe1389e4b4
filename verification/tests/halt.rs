use led_matrix::halt::Fatal;

#[test]
fn panic_policy_is_to_halt() {
    assert_eq!(led_matrix::halt::panic(), Fatal::Halt);
}
