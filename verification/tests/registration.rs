use curri::identity;
use curri_fsm::context::ContextFn;
use curri_fsm::fsm;
use curri_fsm::fsm::{state, transitions, Machine};

#[test]
fn new_machine_has_nothing_registered() {
    let machine = Machine::new(199, "default".to_string());
    assert_eq!(machine.context, 199);
    assert_eq!(machine.current_state, "default");
    assert!(machine.states.is_empty());
    assert!(machine.transitions.is_empty());
    assert!(machine.target("default").is_none());
}

#[test]
fn registering_a_state_leaves_context_and_current_state() {
    let machine = Machine::new(vec![1u8, 2, 3], "here".to_string());
    let machine = state("there", |mut v: Vec<u8>| { v.push(9); v }, identity)(machine);
    assert_eq!(machine.context, vec![1u8, 2, 3]);
    assert_eq!(machine.current_state, "here");
    assert_eq!(machine.states.len(), 1);
    assert!(machine.states.contains_key("there"));
    assert!(machine.transitions.is_empty());
}

#[test]
fn registering_an_edge_leaves_context_and_current_state() {
    let machine = Machine::new(3, "here".to_string());
    let machine = transitions("go", "here", "there")(machine);
    assert_eq!(machine.context, 3);
    assert_eq!(machine.current_state, "here");
    assert!(machine.states.is_empty());
    assert_eq!(machine.transitions.len(), 1);
}

#[test]
fn edges_accumulate_in_registration_order() {
    let machine = Machine::new(0, "a".to_string());
    let machine = transitions("go", "a", "b")(machine);
    let machine = transitions("stop", "b", "a")(machine);
    let machine = transitions("go", "b", "c")(machine);
    let machine = transitions("go", "*", "d")(machine);

    let expected: Vec<(String, String)> = vec![
        ("a".to_string(), "b".to_string()),
        ("b".to_string(), "c".to_string()),
        ("*".to_string(), "d".to_string()),
    ];
    assert_eq!(machine.transitions.get("go"), Some(&expected));
    assert_eq!(machine.transitions.get("stop"), Some(&vec![("b".to_string(), "a".to_string())]));
    assert_eq!(machine.transitions.get("pause"), None);
    assert_eq!(machine.transitions.len(), 2);
}

#[test]
fn registered_functions_are_the_ones_stored() {
    let machine = Machine::new(0, "a".to_string());
    let machine = state("a", |i: i32| i + 7, |i: i32| i * 11)(machine);
    let stored = machine.states.get("a").unwrap();
    assert_eq!(stored.enter.apply(1), 8);
    assert_eq!(stored.exit.apply(1), 11);
}

#[test]
fn reregistering_a_state_replaces_it() {
    let machine = Machine::new(1, "a".to_string());
    let machine = state("b", identity, identity)(machine);
    let machine = state("a", |i: i32| i + 1, |i: i32| i + 10)(machine);
    let machine = state("a", |i: i32| i + 100, |i: i32| i + 1000)(machine);
    let machine = transitions("leave", "a", "b")(machine);
    let machine = transitions("back", "b", "a")(machine);
    assert_eq!(machine.states.len(), 2);

    let machine = fsm::trigger("leave")(machine);
    assert_eq!(machine.context, 1001);
    let machine = fsm::trigger("back")(machine);
    assert_eq!(machine.context, 1101);
    assert_eq!(machine.current_state, "a");
}

#[test]
fn reregistering_leaves_other_states_alone() {
    let machine = Machine::new(1, "a".to_string());
    let machine = state("a", identity, |i: i32| i + 1)(machine);
    let machine = state("b", |i: i32| i * 2, identity)(machine);
    let machine = state("a", identity, |i: i32| i + 5)(machine);
    let machine = transitions("go", "a", "b")(machine);

    let machine = fsm::trigger("go")(machine);
    assert_eq!(machine.context, 12);
}

#[test]
fn a_registration_can_be_applied_to_many_machines() {
    let register = state("a", |i: i32| i + 1, |i: i32| i - 1);
    let link = transitions("loop", "a", "a");
    let first = link(register(Machine::new(0, "a".to_string())));
    let second = link(register(Machine::new(50, "a".to_string())));
    let fire = fsm::trigger("loop");
    assert_eq!(fire(first).context, 0);
    assert_eq!(fire(second).context, 50);
}

#[test]
fn closures_with_captured_values_can_be_registered() {
    let step = 4;
    let machine = Machine::new(1, "a".to_string());
    let machine = state("a", identity, move |i: i32| i + step)(machine);
    let machine = state("b", move |i: i32| i * step, identity)(machine);
    let machine = transitions("go", "a", "b")(machine);
    let machine = fsm::trigger("go")(machine);
    assert_eq!(machine.context, 20);
}

#[test]
fn every_unary_function_is_a_context_function() {
    fn negate(i: i64) -> i64 {
        -i
    }
    assert_eq!(negate.apply(4), -4);
    assert_eq!((|s: String| s + "!").apply("hey".to_string()), "hey!");
    assert_eq!(identity.apply(3u8), 3u8);
}
