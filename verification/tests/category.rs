use joke_stream::category::{JokeType, ANY, KNOCK_KNOCK, LIMERICK};

#[test]
fn wire_numbers_are_fixed() {
    assert_eq!(LIMERICK, 0);
    assert_eq!(KNOCK_KNOCK, 1);
    assert_eq!(ANY, 2);
    assert_eq!(JokeType::Limerick.as_i32(), 0);
    assert_eq!(JokeType::KnockKnock.as_i32(), 1);
    assert_eq!(JokeType::Any.as_i32(), 2);
}

#[test]
fn known_numbers_are_read() {
    assert_eq!(JokeType::from_i32(0), Some(JokeType::Limerick));
    assert_eq!(JokeType::from_i32(1), Some(JokeType::KnockKnock));
    assert_eq!(JokeType::from_i32(2), Some(JokeType::Any));
}

#[test]
fn unknown_numbers_are_not_read() {
    assert_eq!(JokeType::from_i32(3), None);
    assert_eq!(JokeType::from_i32(-1), None);
    assert_eq!(JokeType::from_i32(i32::MAX), None);
    assert_eq!(JokeType::from_i32(i32::MIN), None);
}

#[test]
fn every_kind_is_read_back_from_its_number() {
    for kind in [JokeType::Limerick, JokeType::KnockKnock, JokeType::Any] {
        assert_eq!(JokeType::from_i32(kind.as_i32()), Some(kind));
    }
}
