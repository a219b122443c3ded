use text_input_relay::{
    Enumerant, Instance, ObjectKey, RelayAction, TextInputError, TextInputHandle,
    TextInputRequest,
};

fn key(client: u64, id: u64) -> ObjectKey {
    ObjectKey::new(client, id)
}

fn instance(ti: ObjectKey, serial: u32, ready: bool) -> Instance {
    Instance { instance: ti, serial, ready }
}

#[test]
fn new_instance_starts_at_serial_zero_not_ready() {
    let mut h = TextInputHandle::new();
    h.add_instance(key(1, 10));
    assert_eq!(h.instances(), vec![instance(key(1, 10), 0, false)]);
    assert_eq!(h.focus(), None);
}

#[test]
fn each_commit_adds_one_to_the_serial() {
    let mut h = TextInputHandle::new();
    let ti = key(1, 10);
    h.add_instance(ti);
    h.add_instance(key(1, 11));
    for n in 1..=5u32 {
        h.increment_serial(ti);
        assert_eq!(h.instances()[0], instance(ti, n, true));
        assert_eq!(h.instances()[1], instance(key(1, 11), 0, false));
    }
}

#[test]
fn commit_request_bumps_serial_and_tells_relay_done() {
    let mut h = TextInputHandle::new();
    let ti = key(1, 10);
    h.add_instance(ti);
    let r = h.request(ti, TextInputRequest::Commit);
    assert_eq!(r, Ok(vec![RelayAction::Done]));
    assert_eq!(h.instances(), vec![instance(ti, 1, true)]);
}

#[test]
fn done_sends_only_after_a_commit() {
    let mut h = TextInputHandle::new();
    let ti = key(1, 10);
    let surface = key(1, 20);
    h.add_instance(ti);
    h.enter(&surface);
    assert_eq!(h.done(true), vec![]);
    h.increment_serial(ti);
    assert_eq!(h.done(true), vec![(ti, 1)]);
    assert_eq!(h.done(true), vec![]);
    assert_eq!(h.instances(), vec![instance(ti, 1, false)]);
}

#[test]
fn enter_and_leave_reach_only_the_focused_client() {
    let mut h = TextInputHandle::new();
    let a1 = key(1, 10);
    let b1 = key(2, 10);
    let a2 = key(1, 11);
    h.add_instance(a1);
    h.add_instance(b1);
    h.add_instance(a2);
    let surface = key(1, 30);
    assert_eq!(h.enter(&surface), vec![a1, a2]);
    assert_eq!(h.focus(), Some(surface));
    assert_eq!(h.leave(&surface), vec![a1, a2]);
    assert_eq!(h.focus(), Some(surface));
    assert_eq!(h.leave(&key(2, 40)), vec![b1]);
}

#[test]
fn done_reaches_only_the_focused_client() {
    let mut h = TextInputHandle::new();
    let a = key(1, 10);
    let b = key(2, 10);
    h.add_instance(a);
    h.add_instance(b);
    h.increment_serial(a);
    h.increment_serial(b);
    h.enter(&key(1, 30));
    assert_eq!(h.done(true), vec![(a, 1)]);
    assert_eq!(h.instances(), vec![instance(a, 1, false), instance(b, 1, true)]);
    assert_eq!(h.with_focused_text_input(true), vec![a]);
    assert_eq!(h.focused_text_input_serial(true), vec![1]);
}

#[test]
fn dead_focus_counts_as_no_focus() {
    let mut h = TextInputHandle::new();
    let ti = key(1, 10);
    h.add_instance(ti);
    h.enter(&key(1, 30));
    h.increment_serial(ti);
    assert_eq!(h.done(false), vec![]);
    assert_eq!(h.instances(), vec![instance(ti, 1, true)]);
    assert_eq!(h.with_focused_text_input(false), vec![]);
    assert_eq!(h.focused_text_input_serial(false), vec![]);
}

#[test]
fn no_focus_sends_nothing() {
    let mut h = TextInputHandle::new();
    let ti = key(1, 10);
    h.add_instance(ti);
    h.increment_serial(ti);
    assert_eq!(h.done(true), vec![]);
    assert_eq!(h.with_focused_text_input(true), vec![]);
    h.enter(&key(1, 30));
    h.clear_focus();
    assert_eq!(h.focus(), None);
    assert_eq!(h.done(true), vec![]);
}

#[test]
fn destroy_deactivates_then_done_then_forgets() {
    let mut h = TextInputHandle::new();
    let ti = key(1, 10);
    let other = key(1, 11);
    h.add_instance(ti);
    h.add_instance(other);
    h.add_instance(ti);
    h.enter(&key(1, 30));
    let actions = h.destroyed(&ti);
    assert_eq!(actions, vec![RelayAction::Deactivate, RelayAction::Done]);
    assert_eq!(h.instances(), vec![instance(other, 0, false)]);
    assert_eq!(h.with_focused_text_input(true), vec![other]);
}

#[test]
fn commit_of_unknown_instance_changes_nothing() {
    let mut h = TextInputHandle::new();
    h.add_instance(key(1, 10));
    h.increment_serial(key(1, 99));
    assert_eq!(h.instances(), vec![instance(key(1, 10), 0, false)]);
}

#[test]
fn same_client_compares_clients_only() {
    assert!(key(1, 10).same_client_as(&key(1, 99)));
    assert!(!key(1, 10).same_client_as(&key(2, 10)));
}

#[test]
fn field_state_requests_are_forwarded() {
    let mut h = TextInputHandle::new();
    let ti = key(1, 10);
    h.add_instance(ti);
    let r = h.request(
        ti,
        TextInputRequest::SetSurroundingText { text: String::from("hello"), cursor: 2, anchor: 4 },
    );
    assert_eq!(
        r,
        Ok(vec![RelayAction::SurroundingText { text: String::from("hello"), cursor: 2, anchor: 4 }])
    );
    let r = h.request(ti, TextInputRequest::SetTextChangeCause { cause: Enumerant::Known(1) });
    assert_eq!(r, Ok(vec![RelayAction::TextChangeCause { cause: 1 }]));
    let r = h.request(
        ti,
        TextInputRequest::SetContentType { hint: Enumerant::Known(0x40), purpose: Enumerant::Known(5) },
    );
    assert_eq!(r, Ok(vec![RelayAction::ContentType { hint: 0x40, purpose: 5 }]));
    let r = h.request(
        ti,
        TextInputRequest::SetCursorRectangle { x: 1, y: 2, width: 3, height: 4 },
    );
    assert_eq!(
        r,
        Ok(vec![RelayAction::SetTextInputRectangle { x: 1, y: 2, width: 3, height: 4 }])
    );
    assert_eq!(h.instances(), vec![instance(ti, 0, false)]);
}

#[test]
fn enable_disable_destroy_requests_do_nothing() {
    let mut h = TextInputHandle::new();
    let ti = key(1, 10);
    h.add_instance(ti);
    assert_eq!(h.request(ti, TextInputRequest::Enable), Ok(vec![]));
    assert_eq!(h.request(ti, TextInputRequest::Disable), Ok(vec![]));
    assert_eq!(h.request(ti, TextInputRequest::Destroy), Ok(vec![]));
    assert_eq!(h.instances(), vec![instance(ti, 0, false)]);
}

#[test]
fn negative_cursor_is_reinterpreted_as_unsigned() {
    let mut h = TextInputHandle::new();
    let r = h.request(
        key(1, 10),
        TextInputRequest::SetSurroundingText { text: String::new(), cursor: -1, anchor: 0 },
    );
    assert_eq!(
        r,
        Ok(vec![RelayAction::SurroundingText { text: String::new(), cursor: u32::MAX, anchor: 0 }])
    );
}

#[test]
fn unknown_change_cause_is_refused() {
    let mut h = TextInputHandle::new();
    let r = h.request(key(1, 10), TextInputRequest::SetTextChangeCause { cause: Enumerant::Unknown(9) });
    assert_eq!(r, Err(TextInputError::UnknownEnumerant { value: 9 }));
}

#[test]
fn unknown_content_type_is_refused() {
    let mut h = TextInputHandle::new();
    let ti = key(1, 10);
    let r = h.request(
        ti,
        TextInputRequest::SetContentType { hint: Enumerant::Unknown(0x8000), purpose: Enumerant::Known(0) },
    );
    assert_eq!(r, Err(TextInputError::UnknownEnumerant { value: 0x8000 }));
    let r = h.request(
        ti,
        TextInputRequest::SetContentType { hint: Enumerant::Known(0), purpose: Enumerant::Unknown(77) },
    );
    assert_eq!(r, Err(TextInputError::UnknownEnumerant { value: 77 }));
}

#[test]
fn end_to_end_commit_done_destroy() {
    let mut h = TextInputHandle::new();
    let i1 = key(1, 10);
    let surface = key(1, 20);
    h.add_instance(i1);
    assert_eq!(h.instances(), vec![instance(i1, 0, false)]);
    assert_eq!(h.enter(&surface), vec![i1]);
    let r = h.request(
        i1,
        TextInputRequest::SetSurroundingText { text: String::from("abc"), cursor: 3, anchor: 3 },
    );
    assert_eq!(
        r,
        Ok(vec![RelayAction::SurroundingText { text: String::from("abc"), cursor: 3, anchor: 3 }])
    );
    assert_eq!(h.instances(), vec![instance(i1, 0, false)]);
    assert_eq!(h.request(i1, TextInputRequest::Commit), Ok(vec![RelayAction::Done]));
    assert_eq!(h.instances(), vec![instance(i1, 1, true)]);
    assert_eq!(h.done(true), vec![(i1, 1)]);
    assert_eq!(h.instances(), vec![instance(i1, 1, false)]);
    assert_eq!(h.destroyed(&i1), vec![RelayAction::Deactivate, RelayAction::Done]);
    assert_eq!(h.instances(), vec![]);
}

#[test]
fn default_handle_is_empty() {
    let h = TextInputHandle::default();
    assert_eq!(h.instances(), vec![]);
    assert_eq!(h.focus(), None);
}
