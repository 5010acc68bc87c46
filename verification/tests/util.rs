use stormy_skies::util::AlwaysEqual;
use stormy_skies::util::NeverEqual;

#[test]
fn always_equal_values_are_equal_whatever_they_hold() {
    assert!(AlwaysEqual(1) == AlwaysEqual(2));
    assert!(AlwaysEqual(1) == AlwaysEqual(1));
    assert!(!(AlwaysEqual("a") != AlwaysEqual("b")));
}

#[test]
fn never_equal_values_differ_even_from_themselves() {
    let value = NeverEqual(1);
    assert!(value != value);
    assert!(!(NeverEqual(1) == NeverEqual(1)));
    assert!(NeverEqual("a") != NeverEqual("b"));
}

#[test]
fn into_inner_hands_the_value_out() {
    assert_eq!(AlwaysEqual(7).into_inner(), 7);
    assert_eq!(NeverEqual(String::from("seven")).into_inner(), "seven");
    assert_eq!(AlwaysEqual(vec![1, 2]).clone().into_inner(), vec![1, 2]);
    assert_eq!(NeverEqual(3u8).0, 3);
}
