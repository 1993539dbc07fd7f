use curri::identity;
use curri_fsm::compose::{compose, compose_vec};
use curri_fsm::fsm;
use curri_fsm::fsm::{state, transitions, Machine};

type Unary = Box<dyn Fn(i32) -> i32>;
type Step = Box<dyn Fn(Machine<i32>) -> Machine<i32>>;

fn add_one(x: i32) -> i32 {
    x + 1
}

fn double(x: i32) -> i32 {
    x * 2
}

fn square(x: i32) -> i32 {
    x * x
}

#[test]
fn compose_applies_the_first_function_first() {
    assert_eq!(compose(add_one, double)(2), 6);
    assert_eq!(compose(double, add_one)(2), 5);
}

#[test]
fn compose_vec_applies_left_to_right() {
    let fs: Vec<fn(i32) -> i32> = vec![add_one, double, square];
    let composed = compose_vec(fs);
    assert_eq!(composed(2), 36);
    assert_eq!(composed(2), square(double(add_one(2))));
    assert_eq!(composed(-1), 0);
}

#[test]
fn compose_vec_of_nothing_is_the_identity() {
    let nothing: Vec<fn(i32) -> i32> = Vec::new();
    let composed = compose_vec(nothing);
    assert_eq!(composed(17), 17);
    assert_eq!(composed(-3), -3);
}

#[test]
fn compose_vec_of_one_is_that_function() {
    let composed = compose_vec(vec![square]);
    assert_eq!(composed(9), 81);
}

#[test]
fn compose_vec_takes_boxed_closures() {
    let offset = 10;
    let fs: Vec<Unary> = vec![Box::new(move |x| x + offset), Box::new(double), Box::new(|x| x - 1)];
    assert_eq!(compose_vec(fs)(1), 21);
}

#[test]
fn composition_is_associative() {
    let left = compose(compose(add_one, double), square);
    let right = compose(add_one, compose(double, square));
    for x in [-5, -1, 0, 1, 2, 7, 100] {
        assert_eq!(left(x), right(x));
        assert_eq!(left(x), square(double(add_one(x))));
    }
}

#[test]
fn composing_chains_is_chaining_the_compositions() {
    let whole: Vec<fn(i32) -> i32> = vec![add_one, double, square, add_one];
    let front: Vec<fn(i32) -> i32> = vec![add_one, double];
    let back: Vec<fn(i32) -> i32> = vec![square, add_one];
    let whole = compose_vec(whole);
    let front = compose_vec(front);
    let back = compose_vec(back);
    for x in [-3, 0, 2, 11] {
        assert_eq!(whole(x), back(front(x)));
    }
}

#[test]
fn composed_registrations_equal_sequential_ones() {
    let composed: Vec<Step> = vec![
        Box::new(transitions("go", "a", "first")),
        Box::new(transitions("go", "a", "second")),
        Box::new(state("a", identity, |i: i32| i + 1)),
        Box::new(state("a", identity, |i: i32| i + 2)),
        Box::new(state("first", |i: i32| i * 10, identity)),
        Box::new(state("second", |i: i32| i * 100, identity)),
    ];
    let at_once = compose_vec(composed)(Machine::new(1, "a".to_string()));

    let one_by_one = Machine::new(1, "a".to_string());
    let one_by_one = transitions("go", "a", "first")(one_by_one);
    let one_by_one = transitions("go", "a", "second")(one_by_one);
    let one_by_one = state("a", identity, |i: i32| i + 1)(one_by_one);
    let one_by_one = state("a", identity, |i: i32| i + 2)(one_by_one);
    let one_by_one = state("first", |i: i32| i * 10, identity)(one_by_one);
    let one_by_one = state("second", |i: i32| i * 100, identity)(one_by_one);

    let at_once = fsm::trigger("go")(at_once);
    let one_by_one = fsm::trigger("go")(one_by_one);
    assert_eq!(at_once.current_state, "first");
    assert_eq!(at_once.context, 30);
    assert_eq!(one_by_one.current_state, at_once.current_state);
    assert_eq!(one_by_one.context, at_once.context);
}

#[test]
fn triggers_compose_like_any_transformation() {
    let setup: Vec<Step> = vec![
        Box::new(state("state1", identity, identity)),
        Box::new(state("state2", identity, identity)),
        Box::new(state("state3", identity, identity)),
        Box::new(transitions("transition", "state1", "state2")),
        Box::new(transitions("transition", "state2", "state3")),
        Box::new(transitions("transition", "state3", "state1")),
    ];
    let machine = compose_vec(setup)(Machine::new(0, "state1".to_string()));

    let machine = fsm::trigger("transition")(machine);
    assert_eq!(machine.current_state, "state2");
    let machine = fsm::trigger("transition")(machine);
    assert_eq!(machine.current_state, "state3");
    let machine = fsm::trigger("transition")(machine);
    assert_eq!(machine.current_state, "state1");

    let twice: Vec<Step> = vec![Box::new(fsm::trigger("transition")), Box::new(fsm::trigger("transition"))];
    let machine = compose_vec(twice)(machine);
    assert_eq!(machine.current_state, "state3");
}
