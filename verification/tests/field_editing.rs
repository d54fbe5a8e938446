use capture_gui::edit::{apply_key, paste_into, paste_into_field, FieldKind, KeyOutcome, KeyPress};

fn key(k: &str, ch: Option<&str>) -> KeyPress {
    KeyPress {
        platform: false,
        control: false,
        function: false,
        key: k.to_string(),
        key_char: ch.map(String::from),
    }
}

fn press(kind: FieldKind, buf: &str, p: &KeyPress) -> (String, KeyOutcome) {
    let mut b = buf.to_string();
    let r = apply_key(kind, &mut b, p);
    (b, r)
}

#[test]
fn paste_shortcut_and_other_shortcuts() {
    let mut cmd_v = key("v", Some("v"));
    cmd_v.platform = true;
    assert_eq!(press(FieldKind::Command, "ls", &cmd_v), ("ls".to_string(), KeyOutcome::Paste));
    let mut ctrl_a = key("a", Some("a"));
    ctrl_a.control = true;
    assert_eq!(press(FieldKind::Command, "ls", &ctrl_a), ("ls".to_string(), KeyOutcome::Ignored));
    let mut fn_x = key("x", Some("x"));
    fn_x.function = true;
    assert_eq!(press(FieldKind::Host, "h", &fn_x), ("h".to_string(), KeyOutcome::Ignored));
}

#[test]
fn backspace_enter_and_space() {
    let bs = key("backspace", None);
    assert_eq!(press(FieldKind::Command, "héé", &bs), ("hé".to_string(), KeyOutcome::Changed));
    assert_eq!(press(FieldKind::Key, "", &bs), (String::new(), KeyOutcome::Changed));
    let enter = key("enter", None);
    assert_eq!(press(FieldKind::Host, "box", &enter), ("box".to_string(), KeyOutcome::Submit));
    let space = key("space", Some(" "));
    assert_eq!(press(FieldKind::Command, "npm", &space), ("npm ".to_string(), KeyOutcome::Changed));
    assert_eq!(press(FieldKind::Host, "a", &space), ("a ".to_string(), KeyOutcome::Changed));
}

#[test]
fn typed_characters() {
    assert_eq!(
        press(FieldKind::Command, "l", &key("s", Some("s"))),
        ("ls".to_string(), KeyOutcome::Changed)
    );
    assert_eq!(
        press(FieldKind::Key, "", &key("tab", Some("\t"))),
        (String::new(), KeyOutcome::Changed)
    );
    assert_eq!(
        press(FieldKind::Key, "a", &key("shift", None)),
        ("a".to_string(), KeyOutcome::Changed)
    );
    assert_eq!(
        press(FieldKind::Key, "a", &key("x", Some(""))),
        ("a".to_string(), KeyOutcome::Changed)
    );
}

#[test]
fn port_field_takes_digits_only() {
    assert_eq!(
        press(FieldKind::Port, "12", &key("3", Some("3"))),
        ("123".to_string(), KeyOutcome::Changed)
    );
    assert_eq!(
        press(FieldKind::Port, "12", &key("a", Some("a"))),
        ("12".to_string(), KeyOutcome::Ignored)
    );
    assert_eq!(
        press(FieldKind::Port, "12", &key("space", Some(" "))),
        ("12".to_string(), KeyOutcome::Ignored)
    );
    let (b, _) = press(FieldKind::Port, "80", &key("٣", Some("٣")));
    assert_eq!(b, "80");
}

#[test]
fn language_field_opens_and_clears() {
    assert_eq!(
        press(FieldKind::Language, "ge", &key("r", Some("r"))),
        ("ger".to_string(), KeyOutcome::Typed)
    );
    assert_eq!(
        press(FieldKind::Language, "ger", &key("escape", None)),
        (String::new(), KeyOutcome::Cleared)
    );
    assert_eq!(
        press(FieldKind::Command, "ls", &key("escape", None)),
        ("ls".to_string(), KeyOutcome::Changed)
    );
}

#[test]
fn pasting_appends_trimmed_text() {
    let mut b = "http://".to_string();
    paste_into(&mut b, "  localhost\n");
    assert_eq!(b, "http://localhost");
}

#[test]
fn port_field_takes_only_digit_pastes() {
    let mut b = "12".to_string();
    paste_into_field(FieldKind::Port, &mut b, " 34 ");
    assert_eq!(b, "1234");
    paste_into_field(FieldKind::Port, &mut b, "ab");
    assert_eq!(b, "1234");
    paste_into_field(FieldKind::Port, &mut b, "5a");
    assert_eq!(b, "1234");
    let mut h = "box".to_string();
    paste_into_field(FieldKind::Host, &mut h, " .lan\n");
    assert_eq!(h, "box.lan");
}
