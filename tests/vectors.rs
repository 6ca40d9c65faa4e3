use ascii_renderer::vector2::Vector2;

#[test]
fn length_rounds_down() {
    assert_eq!(Vector2(3i64, 4).len(), 5);
    assert_eq!(Vector2(1i64, 1).len(), 1);
    assert_eq!(Vector2(0i64, 0).len(), 0);
    assert_eq!(Vector2(i64::MIN, i64::MIN).len(), 13043817825332782212);
}

#[test]
fn squared_length_is_exact() {
    assert_eq!(Vector2(-3i64, 4).len_squared(), 25);
    assert_eq!(Vector2(i64::MIN, i64::MIN).len_squared(), 1u128 << 127);
}

#[test]
fn dot_product() {
    assert_eq!(Vector2(2i64, -3).dot(&Vector2(4, 5)), -7);
    assert_eq!(Vector2(i64::MAX, i64::MAX).dot(&Vector2(i64::MAX, i64::MAX)), 2 * (i64::MAX as i128) * (i64::MAX as i128));
}

#[test]
fn normalised_axis_vectors_are_units() {
    assert_eq!(Vector2(0i64, 5).normalised(), Vector2(0, 1));
    assert_eq!(Vector2(-7i64, 0).normalised(), Vector2(-1, 0));
}

#[test]
fn normalised_rounds_toward_zero() {
    assert_eq!(Vector2(3i64, 4).normalised(), Vector2(0, 0));
    assert_eq!(Vector2(-1i64, 1).normalised(), Vector2(-1, 1));
}

#[test]
fn normalise_in_place() {
    let mut v = Vector2(0i64, -9);
    v.normalise();
    assert_eq!(v, Vector2(0, -1));
}

#[test]
fn to_normalised_consumes() {
    assert_eq!(Vector2(12i64, 0).to_normalised(), Vector2(1, 0));
}

#[test]
fn arithmetic() {
    assert_eq!(Vector2(1i64, 2).add(Vector2(3, -5)), Vector2(4, -3));
    assert_eq!(Vector2(1i64, 2).sub(Vector2(3, -5)), Vector2(-2, 7));
    assert_eq!(Vector2(1i64, -2).scale(3), Vector2(3, -6));
}

#[test]
fn directions() {
    assert_eq!(Vector2::up(), Vector2(0, 1));
    assert_eq!(Vector2::down(), Vector2(0, -1));
    assert_eq!(Vector2::left(), Vector2(-1, 0));
    assert_eq!(Vector2::right(), Vector2(1, 0));
    assert_eq!(Vector2::zero(), Vector2(0, 0));
}
