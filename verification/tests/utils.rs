use lemma::utils::{consume_while, split, split_at};

#[test]
fn split_at_ok() {
    let elems = vec![1, 2, 3, 4, 5];
    let (head, tail) = split_at(elems, 3);
    assert_eq!(head, vec![1, 2]);
    assert_eq!(tail, vec![4, 5]);
}

#[test]
fn split_ok() {
    let elems = vec![1, 2, 3, 4, 5];
    let (head, tail) = split(elems, |t| *t == 3);
    assert_eq!(head, vec![1, 2]);
    assert_eq!(tail, vec![4, 5]);
}

#[test]
fn consume_while_ok() {
    let mut elems = vec![1, 2, 3, 4, 5];
    let head = consume_while(&mut elems, |t| *t < 3);
    assert_eq!(elems, vec![3, 4, 5]);
    assert_eq!(head, vec![1, 2]);
}

#[test]
fn split_stops_at_the_second_match() {
    let (head, tail) = split_at(vec![1, 0, 2, 3, 0, 4], 0);
    assert_eq!(head, vec![1]);
    assert_eq!(tail, vec![2, 3]);
}

#[test]
fn split_without_a_match_keeps_everything_in_front() {
    let (head, tail) = split_at(vec![1, 2, 3], 9);
    assert_eq!(head, vec![1, 2, 3]);
    assert_eq!(tail, Vec::<i32>::new());
    let (head, tail) = split(Vec::<i32>::new(), |t| *t == 0);
    assert_eq!(head, Vec::<i32>::new());
    assert_eq!(tail, Vec::<i32>::new());
}

#[test]
fn split_at_a_match_at_either_end() {
    let (head, tail) = split_at(vec![0, 1, 2], 0);
    assert_eq!(head, Vec::<i32>::new());
    assert_eq!(tail, vec![1, 2]);
    let (head, tail) = split_at(vec![1, 2, 0], 0);
    assert_eq!(head, vec![1, 2]);
    assert_eq!(tail, Vec::<i32>::new());
}

#[test]
fn consume_while_may_take_all_or_nothing() {
    let mut elems = vec![1, 2, 3];
    let head = consume_while(&mut elems, |t| *t < 10);
    assert_eq!(head, vec![1, 2, 3]);
    assert_eq!(elems, Vec::<i32>::new());

    let mut elems = vec![1, 2, 3];
    let head = consume_while(&mut elems, |t| *t > 10);
    assert_eq!(head, Vec::<i32>::new());
    assert_eq!(elems, vec![1, 2, 3]);
}
