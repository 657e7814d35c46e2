use svg_graph::add_two;

#[test]
fn it_works_one() {
    assert_eq!(4, add_two(2));
}

#[test]
fn it_works() {
    assert!(true);
    assert_eq!("one", "one");
}

#[test]
#[should_panic]
fn it_panics() {
    panic!("something");
}
