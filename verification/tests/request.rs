use agent_desktop::request::Direction;

#[test]
fn scroll_directions_parse_case_insensitively() {
    for (value, expected) in [
        ("Down", Direction::Down),
        ("UP", Direction::Up),
        ("l", Direction::Left),
        ("right", Direction::Right),
    ] {
        assert_eq!(Direction::parse(value).unwrap(), expected);
    }
    let error = Direction::parse("sideways").unwrap_err();
    assert!(error.contains("unknown scroll direction"));
}

#[test]
fn unknown_direction_quotes_the_lowercased_value() {
    assert_eq!(
        Direction::parse("SideWays").unwrap_err(),
        "unknown scroll direction \"sideways\" (use up, down, left, or right)"
    );
}

#[test]
fn only_left_and_right_are_horizontal() {
    assert!(Direction::Left.horizontal());
    assert!(Direction::Right.horizontal());
    assert!(!Direction::Up.horizontal());
    assert!(!Direction::Down.horizontal());
}
