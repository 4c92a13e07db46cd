#[test]
fn the_beginning_of_your_journey() {
    let i_am_ready_to_start = true;

    assert!(i_am_ready_to_start);
}

#[test]
fn the_next_step_of_your_journey() {
    let i_am_ready_to_continue = true;

    assert!(i_am_ready_to_continue);
}

#[test]
#[allow(unused_assignments)]
fn to_change_a_value() {
    let mut x = 4;
    x = 5;

    assert_eq!(5, x);
}

#[test]
#[allow(unused_variables, unused_mut)]
fn that_which_cannot_be_changed() {
    let mut x = 4;
}

#[test]
fn a_change_in_reference() {
    let mut x = 5;
    let y = &mut x;

    assert_eq!(5, *y);
}
