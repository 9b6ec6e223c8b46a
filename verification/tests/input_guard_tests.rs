use lifegrid::guard::GuardCell;
use lifegrid::input::{ButtonState, Channel, InputCapture};

#[test]
fn last_replayed_level_wins() {
    // A burst of coalesced edges: whatever came before, the published
    // state is the one implied by the last re-read pin level.
    let mut cap = InputCapture::new();
    cap.on_edge(Channel::A, true);
    cap.on_edge(Channel::A, false);
    cap.on_edge(Channel::A, true);
    cap.on_edge(Channel::A, true);
    assert_eq!(cap.read(Channel::A), ButtonState::Pressed);
    cap.on_edge(Channel::A, false);
    assert_eq!(cap.read(Channel::A), ButtonState::Released);
}

#[test]
fn low_level_means_pressed() {
    // The buttons are active-low.
    let mut cap = InputCapture::new();
    cap.on_edge(Channel::B, true);
    assert_eq!(cap.read(Channel::B), ButtonState::Pressed);
    cap.on_edge(Channel::B, false);
    assert_eq!(cap.read(Channel::B), ButtonState::Released);
}

#[test]
fn channels_are_independent() {
    let mut cap = InputCapture::new();
    assert_eq!(cap.read(Channel::A), ButtonState::Unknown);
    assert_eq!(cap.read(Channel::B), ButtonState::Unknown);
    cap.on_edge(Channel::B, true);
    assert_eq!(cap.read(Channel::A), ButtonState::Unknown);
    assert_eq!(cap.read(Channel::B), ButtonState::Pressed);
    cap.on_edge(Channel::A, false);
    assert_eq!(cap.read(Channel::A), ButtonState::Released);
    assert_eq!(cap.read(Channel::B), ButtonState::Pressed);
}

#[test]
fn guard_initializes_once_and_serves_reads() {
    let mut cell: GuardCell<u64> = GuardCell::new();
    assert!(!cell.is_initialized());
    cell.init(42);
    assert!(cell.is_initialized());
    assert_eq!(*cell.borrow(), 42);
}

#[test]
fn guard_critical_section_transforms_the_value() {
    let mut cell: GuardCell<u64> = GuardCell::new();
    cell.init(10);
    cell.with_exclusive_access(|v| v + 5);
    assert_eq!(*cell.borrow(), 15);
    cell.with_exclusive_access(|v| v * 2);
    assert_eq!(*cell.borrow(), 30);
}
