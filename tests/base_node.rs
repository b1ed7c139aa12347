use saf_relay::base_node::{StateEvent, Starting};

#[test]
fn starting_state_initializes() {
    let mut state = Starting;
    assert_eq!(state.next_event(), StateEvent::Initialized);
}
