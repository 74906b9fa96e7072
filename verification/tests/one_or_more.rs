use explain::man_parse::one_or_more::OneOrMany;

#[test]
fn test_is_one() {
    let one = OneOrMany::One(42);

    assert!(one.is_one());
}

#[test]
fn test_is_many() {
    let many = OneOrMany::Many(vec![1, 2, 3, 4]);

    assert!(many.is_many());
}

#[test]
fn one_is_not_many_and_many_is_not_one() {
    let one = OneOrMany::One(42);
    let many = OneOrMany::Many(vec![1, 2, 3, 4]);

    assert!(!one.is_many());
    assert!(!many.is_one());
}

#[test]
fn iter_walks_the_items_in_order() {
    let many = OneOrMany::Many(vec![1, 2, 3]);
    let mut iter = many.iter();

    assert_eq!(iter.next(), Some(&1));
    assert_eq!(iter.next(), Some(&2));
    assert_eq!(iter.next(), Some(&3));
    assert_eq!(iter.next(), None);
    assert_eq!(iter.next(), None);
}
