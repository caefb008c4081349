use agent_desktop::desktop::perform::{Operation, Perform, Phase, PointOf, Step};
use agent_desktop::error::fail;
use agent_desktop::types::{Button, ToolError};

fn refusal(step: &Step, code: &str, message: &str, invalidate: bool) -> bool {
    match step {
        Step::Finish { result: Err(e), invalidate: i } => {
            e.code == code && e.message == message && *i == invalidate
        }
        _ => false,
    }
}

fn finished_ok(step: &Step, invalidate: bool) -> bool {
    matches!(step, Step::Finish { result: Ok(()), invalidate: i } if *i == invalidate)
}

fn err(code: &str) -> Result<(), ToolError> {
    Err(fail(code, "boom"))
}

#[test]
fn single_left_click_uses_the_element_action_first() {
    let (mut p, step) = Perform::start(Operation::Click {
        element: Some(3),
        button: Button::Left,
        count: 1,
    });
    assert!(matches!(step, Step::Element(3)));
    let step = p.after_bounds(Ok(Some([0, 0, 10, 10])));
    assert!(matches!(step, Step::Action(None)));
    let step = p.after(Ok(()));
    assert!(finished_ok(&step, true));
    assert_eq!(p.phase, Phase::Finished);
}

#[test]
fn click_falls_back_to_the_pointer_when_the_action_is_unsupported() {
    let (mut p, _) = Perform::start(Operation::Click {
        element: Some(7),
        button: Button::Left,
        count: 1,
    });
    p.after_bounds(Ok(Some([10, 20, 30, 40])));
    let step = p.after(err("unsupported"));
    assert!(matches!(step, Step::Focus));
    let step = p.after(Ok(()));
    assert!(matches!(step, Step::Element(7)));
    let step = p.after_bounds(Ok(Some([10, 20, 30, 40])));
    assert!(matches!(step, Step::RequireInput));
    let step = p.after(Ok(()));
    assert!(matches!(step, Step::Position(25, 40)));
    let step = p.after(Ok(()));
    assert!(matches!(step, Step::Element(7)));
    let step = p.after_bounds(Ok(Some([10, 20, 30, 40])));
    assert!(matches!(step, Step::Click(25, 40, Button::Left)));
    let step = p.after(Ok(()));
    assert!(finished_ok(&step, true));
}

#[test]
fn an_action_failure_other_than_unsupported_keeps_the_observation() {
    let (mut p, _) = Perform::start(Operation::Click {
        element: Some(1),
        button: Button::Left,
        count: 1,
    });
    p.after_bounds(Ok(Some([0, 0, 4, 4])));
    let step = p.after(err("action_failed"));
    assert!(refusal(&step, "action_failed", "boom", false));
}

#[test]
fn right_triple_click_on_an_element_clicks_three_times() {
    let (mut p, _) = Perform::start(Operation::Click {
        element: Some(2),
        button: Button::Right,
        count: 3,
    });
    let step = p.after_bounds(Ok(Some([0, 0, 8, 6])));
    assert!(matches!(step, Step::Focus));
    p.after(Ok(()));
    p.after_bounds(Ok(Some([0, 0, 8, 6])));
    p.after(Ok(()));
    p.after(Ok(()));
    let mut clicks = 0;
    let mut step = p.after_bounds(Ok(Some([0, 0, 8, 6])));
    while let Step::Click(4, 3, Button::Right) = step {
        clicks += 1;
        step = p.after(Ok(()));
    }
    assert_eq!(clicks, 3);
    assert!(finished_ok(&step, true));
}

#[test]
fn element_without_usable_bounds_is_refused() {
    let (mut p, _) = Perform::start(Operation::Click {
        element: Some(2),
        button: Button::Middle,
        count: 1,
    });
    p.after_bounds(Ok(None));
    p.after(Ok(()));
    let step = p.after_bounds(Ok(Some([5, 5, 0, 9])));
    assert!(refusal(
        &step,
        "unsupported",
        "Element has neither an action nor usable bounds",
        false
    ));
}

#[test]
fn click_count_outside_one_to_three_is_refused() {
    let (p, step) = Perform::start(Operation::Click {
        element: None,
        button: Button::Left,
        count: 4,
    });
    assert!(refusal(&step, "invalid_argument", "clickCount must be 1..3", false));
    assert_eq!(p.phase, Phase::Finished);
}

#[test]
fn double_click_at_a_point_checks_input_before_each_click() {
    let (mut p, step) = Perform::start(Operation::Click {
        element: None,
        button: Button::Left,
        count: 2,
    });
    assert!(matches!(step, Step::Focus));
    assert!(matches!(p.after(Ok(())), Step::Point(PointOf::Target)));
    assert!(matches!(p.after_point(Ok((100, 50))), Step::Position(100, 50)));
    assert!(matches!(p.after(Ok(())), Step::Point(PointOf::Target)));
    assert!(matches!(p.after_point(Ok((1, 1))), Step::RequireInput));
    assert!(matches!(p.after(Ok(())), Step::Click(100, 50, Button::Left)));
    assert!(matches!(p.after(Ok(())), Step::RequireInput));
    assert!(matches!(p.after(Ok(())), Step::Click(100, 50, Button::Left)));
    assert!(finished_ok(&p.after(Ok(())), true));
}

#[test]
fn a_failed_click_keeps_the_observation() {
    let (mut p, _) = Perform::start(Operation::Click {
        element: None,
        button: Button::Left,
        count: 1,
    });
    p.after(Ok(()));
    p.after_point(Ok((3, 4)));
    p.after(Ok(()));
    p.after_point(Ok((3, 4)));
    p.after(Ok(()));
    let step = p.after(err("input_dispatch_failed"));
    assert!(refusal(&step, "input_dispatch_failed", "boom", false));
}

#[test]
fn drag_moves_along_twenty_five_points() {
    let (mut p, step) = Perform::start(Operation::Drag);
    assert!(matches!(step, Step::Focus));
    assert!(matches!(p.after(Ok(())), Step::Point(PointOf::From)));
    assert!(matches!(p.after_point(Ok((0, 0))), Step::Point(PointOf::To)));
    assert!(matches!(p.after_point(Ok((48, -24))), Step::Position(0, 0)));
    assert!(matches!(p.after(Ok(())), Step::Point(PointOf::From)));
    assert!(matches!(p.after_point(Ok((0, 0))), Step::RequireInput));
    match p.after(Ok(())) {
        Step::Drag(path) => {
            assert_eq!(path.len(), 25);
            assert_eq!(path[0], (0, 0));
            assert_eq!(path[12], (24, -12));
            assert_eq!(path[24], (48, -24));
        }
        _ => panic!("expected a drag"),
    }
    let step = p.after(err("input_dispatch_failed"));
    assert!(refusal(&step, "input_dispatch_failed", "boom", true));
}

#[test]
fn scroll_at_an_element_measures_refocuses_and_scrolls() {
    let (mut p, step) = Perform::start(Operation::Scroll {
        element: Some(4),
        pages_valid: true,
    });
    assert!(matches!(step, Step::Focus));
    assert!(matches!(p.after(Ok(())), Step::Element(4)));
    assert!(matches!(p.after_bounds(Ok(Some([0, 0, 200, 100]))), Step::ScrollAmount));
    assert!(matches!(p.after_point(Ok((0, 300))), Step::Focus));
    assert!(matches!(p.after(Ok(())), Step::Position(100, 50)));
    assert!(matches!(p.after(Ok(())), Step::RequireInput));
    assert!(matches!(p.after(Ok(())), Step::Scroll(100, 50, 0, 300)));
    assert!(finished_ok(&p.after(Ok(())), true));
}

#[test]
fn scroll_with_invalid_pages_is_refused_after_the_target_resolves() {
    let (mut p, _) = Perform::start(Operation::Scroll {
        element: None,
        pages_valid: false,
    });
    assert!(matches!(p.after(Ok(())), Step::Point(PointOf::Target)));
    let step = p.after_point(Ok((5, 5)));
    assert!(refusal(
        &step,
        "invalid_argument",
        "pages must be greater than zero and at most 20",
        false
    ));
}

#[test]
fn scroll_element_without_bounds_is_refused() {
    let (mut p, _) = Perform::start(Operation::Scroll {
        element: Some(1),
        pages_valid: true,
    });
    p.after(Ok(()));
    let step = p.after_bounds(Ok(None));
    assert!(refusal(&step, "unsupported", "Element has no usable scroll bounds", false));
}

#[test]
fn press_key_checks_the_chord_first() {
    let (_, step) = Perform::start(Operation::PressKey {
        key: "ctrl+nosuchkey".to_string(),
    });
    assert!(matches!(step, Step::Finish { result: Err(_), invalidate: false }));
    let (mut p, step) = Perform::start(Operation::PressKey {
        key: "ctrl+s".to_string(),
    });
    assert!(matches!(step, Step::Focus));
    assert!(matches!(p.after(Ok(())), Step::RequireInput));
    match p.after(Ok(())) {
        Step::Key(k) => assert_eq!(k, "ctrl+s"),
        _ => panic!("expected a key"),
    }
    assert!(finished_ok(&p.after(Ok(())), true));
}

#[test]
fn empty_text_types_nothing_and_long_text_is_refused() {
    let (_, step) = Perform::start(Operation::TypeText {
        text: String::new(),
    });
    assert!(finished_ok(&step, false));
    let (_, step) = Perform::start(Operation::TypeText {
        text: "x".repeat(100_001),
    });
    assert!(refusal(&step, "invalid_argument", "Text exceeds 100000 bytes", false));
}

#[test]
fn typing_falls_back_to_pasting_and_restores_the_clipboard() {
    let (mut p, _) = Perform::start(Operation::TypeText {
        text: "héllo".to_string(),
    });
    assert!(matches!(p.after(Ok(())), Step::RequireInput));
    match p.after(Ok(())) {
        Step::Type(t) => assert_eq!(t, "héllo"),
        _ => panic!("expected typing"),
    }
    assert!(matches!(p.after(err("unsupported")), Step::Focus));
    match p.after(Ok(())) {
        Step::ReplaceClipboard(t) => assert_eq!(t, "héllo"),
        _ => panic!("expected the clipboard"),
    }
    assert!(matches!(p.after(Ok(())), Step::RequireInput));
    assert!(matches!(p.after(Ok(())), Step::PressPaste));
    assert!(matches!(p.after(err("input_dispatch_failed")), Step::Settle));
    assert!(matches!(p.after(Ok(())), Step::RestoreClipboard));
    let step = p.after(err("external_command_failed"));
    assert!(refusal(&step, "input_dispatch_failed", "boom", true));
}

#[test]
fn paste_answers_the_restore_when_the_chord_went_through() {
    let (mut p, step) = Perform::start(Operation::Paste {
        text: "a".to_string(),
        format: "text".to_string(),
    });
    assert!(matches!(step, Step::Focus));
    assert!(matches!(p.after(Ok(())), Step::ReplaceClipboard(_)));
    assert!(matches!(p.after(Ok(())), Step::RequireInput));
    assert!(matches!(p.after(Ok(())), Step::PressPaste));
    assert!(matches!(p.after(Ok(())), Step::Settle));
    assert!(matches!(p.after(Ok(())), Step::RestoreClipboard));
    let step = p.after(err("external_command_failed"));
    assert!(refusal(&step, "external_command_failed", "boom", true));
    let (_, step) = Perform::start(Operation::Paste {
        text: "a".to_string(),
        format: "html".to_string(),
    });
    assert!(refusal(
        &step,
        "unsupported",
        "Native rich clipboard formats are not available",
        false
    ));
}

#[test]
fn element_calls_resolve_then_invalidate() {
    let (mut p, step) = Perform::start(Operation::SetValue {
        element: 9,
        value: "v".to_string(),
    });
    assert!(matches!(step, Step::Element(9)));
    match p.after_bounds(Ok(None)) {
        Step::SetValue(v) => assert_eq!(v, "v"),
        _ => panic!("expected a value"),
    }
    let step = p.after(err("action_failed"));
    assert!(refusal(&step, "action_failed", "boom", true));

    let (mut p, _) = Perform::start(Operation::SecondaryAction {
        element: 2,
        action: "expand".to_string(),
    });
    match p.after_bounds(Ok(None)) {
        Step::Action(Some(a)) => assert_eq!(a, "expand"),
        _ => panic!("expected an action"),
    }

    let (mut p, _) = Perform::start(Operation::SelectText { element: 2 });
    let step = p.after_bounds(Err(fail("stale_element", "gone")));
    assert!(refusal(&step, "stale_element", "gone", false));
}

#[test]
fn unsupported_operations_are_refused_and_invalidate() {
    let (_, step) = Perform::start(Operation::Unsupported);
    assert!(refusal(
        &step,
        "unsupported",
        "Operation is not supported by a desktop application",
        true
    ));
}

#[test]
fn a_paste_without_input_puts_the_clipboard_back_at_once() {
    let (mut p, _) = Perform::start(Operation::Paste {
        text: "a".to_string(),
        format: "text".to_string(),
    });
    p.after(Ok(()));
    assert!(matches!(p.after(Ok(())), Step::RequireInput));
    assert!(matches!(p.after(err("unsupported")), Step::RestoreClipboard));
    let step = p.after(Ok(()));
    assert!(refusal(&step, "unsupported", "boom", true));
}
