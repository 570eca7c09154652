use demido_studio::stream::{char_boundary_floor, chars_within, forwarded_effort, show_thinking, CallAccumulator, CallDelta};

fn delta(index: u64, id: Option<&str>, name: Option<&str>, args: Option<&str>) -> CallDelta {
    CallDelta { index, id: id.map(String::from), name: name.map(String::from), arguments: args.map(String::from) }
}

#[test]
fn reasoning_is_shown_unless_turned_off() {
    assert!(show_thinking(None));
    assert!(show_thinking(Some("high")));
    assert!(!show_thinking(Some("off")));
}

#[test]
fn only_graded_efforts_reach_the_server() {
    assert_eq!(forwarded_effort(Some("high")).as_deref(), Some("high"));
    assert_eq!(forwarded_effort(Some("on")), None);
    assert_eq!(forwarded_effort(Some("off")), None);
    assert_eq!(forwarded_effort(None), None);
}

#[test]
fn streamed_call_fragments_come_together_by_index() {
    let mut acc = CallAccumulator::new();
    acc.add(delta(1, Some("b"), Some("second"), Some("{\"x\":")));
    acc.add(delta(0, Some("a"), Some("first"), Some("{}")));
    acc.add(delta(1, None, None, Some("1}")));
    acc.add(delta(1, Some("b2"), None, None));
    let calls = acc.calls();
    assert_eq!(
        calls,
        vec![
            (0, "a".to_string(), "first".to_string(), "{}".to_string()),
            (1, "b2".to_string(), "second".to_string(), "{\"x\":1}".to_string()),
        ]
    );
    assert!(CallAccumulator::new().calls().is_empty());
}

#[test]
fn cuts_land_on_character_boundaries() {
    let s = "aé€😀";
    assert_eq!(char_boundary_floor(s, 0), 0);
    assert_eq!(char_boundary_floor(s, 2), 1);
    assert_eq!(char_boundary_floor(s, 3), 3);
    assert_eq!(char_boundary_floor(s, 5), 3);
    assert_eq!(char_boundary_floor(s, 100), s.len());
    let cs: Vec<char> = s.chars().collect();
    assert_eq!(chars_within(&cs, 3), 2);
    assert_eq!(chars_within(&cs, 6), 3);
    assert_eq!(chars_within(&cs, 100), 4);
}
