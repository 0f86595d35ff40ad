use elm_pair::intersperse::{Intersperse, IntersperseState};

#[test]
fn empty_iterator() {
    let empty: Vec<bool> = vec![];
    assert_eq!(empty.clone().my_intersperse(false).collect(), empty);
}

#[test]
fn single_element_iterator() {
    let singleton: Vec<bool> = vec![true];
    assert_eq!(singleton.clone().my_intersperse(false).collect(), singleton);
}

#[test]
fn many_element_iterator() {
    let vec: Vec<bool> = vec![true, true, true];
    assert_eq!(vec.my_intersperse(false).collect(), vec![true, false, true, false, true]);
}

#[test]
fn intersperse_state_yields_one_element_at_a_time() {
    let mut state = IntersperseState::new(vec![1u32, 2, 3], 0);
    assert_eq!(state.next(), Some(1));
    assert_eq!(state.next(), Some(0));
    assert_eq!(state.next(), Some(2));
    assert_eq!(state.next(), Some(0));
    assert_eq!(state.next(), Some(3));
    assert_eq!(state.next(), None);
    assert_eq!(state.next(), None);
}

#[test]
fn interspersed_length_is_twice_minus_one() {
    let out = vec![7u8; 5].my_intersperse(1).collect();
    assert_eq!(out.len(), 9);
    for (i, x) in out.iter().enumerate() {
        if i % 2 == 0 {
            assert_eq!(*x, 7);
        } else {
            assert_eq!(*x, 1);
        }
    }
}
