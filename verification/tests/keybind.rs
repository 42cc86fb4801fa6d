use comphwde::keybind::{parse_combo, Keybindings, Modifiers};

fn listed(pairs: &[(&str, &str)]) -> Vec<(String, String)> {
    pairs.iter().map(|(a, b)| (a.to_string(), b.to_string())).collect()
}

#[test]
fn parses_a_simple_single_modifier_combo() {
    let combo = parse_combo("Super+Q").unwrap();
    assert_eq!(combo.key_name, "q");
    assert!(combo.modifiers.super_);
    assert!(!combo.modifiers.shift);
}

#[test]
fn parses_multiple_modifiers_in_any_order() {
    let a = parse_combo("Super+Shift+Q").unwrap();
    let b = parse_combo("Shift+Super+Q").unwrap();
    assert_eq!(a, b, "modifier order shouldn't affect the parsed result");
    assert!(a.modifiers.super_ && a.modifiers.shift);
}

#[test]
fn is_case_insensitive_and_trims_whitespace() {
    let combo = parse_combo("  super + SHIFT + q  ").unwrap();
    assert_eq!(combo.key_name, "q");
    assert!(combo.modifiers.super_ && combo.modifiers.shift);
}

#[test]
fn accepts_common_modifier_aliases() {
    assert_eq!(parse_combo("Mod4+Q").unwrap().modifiers.super_, true);
    assert_eq!(parse_combo("Win+Q").unwrap().modifiers.super_, true);
    assert_eq!(parse_combo("Control+Q").unwrap().modifiers.ctrl, true);
    assert_eq!(parse_combo("Mod1+F4").unwrap().modifiers.alt, true);
}

#[test]
fn rejects_empty_string() {
    assert!(parse_combo("").is_err());
    assert!(parse_combo("   ").is_err());
}

#[test]
fn rejects_unrecognized_modifier() {
    let err = parse_combo("Hyper+Q").unwrap_err();
    assert!(err.0.contains("Hyper"));
}

#[test]
fn rejects_dangling_plus() {
    assert!(parse_combo("Super+").is_err());
    assert!(parse_combo("+Q").is_err());
    assert!(parse_combo("Super++Q").is_err());
}

#[test]
fn a_bare_key_with_no_modifiers_is_valid() {
    let combo = parse_combo("F4").unwrap();
    assert_eq!(combo.key_name, "f4");
    assert_eq!(combo.modifiers, Modifiers::default());
}

#[test]
fn keybindings_matches_the_exact_modifier_combination() {
    let actions = listed(&[("close_window", "Super+Q")]);
    let (bindings, errors) = Keybindings::from_config(&actions);
    assert!(errors.is_empty());

    let supermods = Modifiers { super_: true, ..Default::default() };
    assert_eq!(bindings.action_for(supermods, "q"), Some("close_window"));
    assert_eq!(bindings.action_for(Modifiers::default(), "q"), None);

    let super_shift = Modifiers { super_: true, shift: true, ..Default::default() };
    assert_eq!(bindings.action_for(super_shift, "q"), None);
}

#[test]
fn malformed_combo_is_reported_but_does_not_break_other_bindings() {
    let actions = listed(&[("close_window", "Super+Q"), ("broken", "Hyper+Nonsense+")]);
    let (bindings, errors) = Keybindings::from_config(&actions);

    assert_eq!(errors.len(), 1);
    assert_eq!(errors[0].0, "broken");

    let supermods = Modifiers { super_: true, ..Default::default() };
    assert_eq!(bindings.action_for(supermods, "q"), Some("close_window"));
}

#[test]
fn empty_config_produces_an_empty_matcher_not_an_error() {
    let (bindings, errors) = Keybindings::from_config(&Vec::new());
    assert!(bindings.is_empty());
    assert!(errors.is_empty());
}

#[test]
fn default_keybindings_from_config_all_parse_successfully() {
    let mut actions = listed(&[
        ("close_window", "Super+Q"),
        ("toggle_fullscreen", "Super+F"),
        ("toggle_floating", "Super+Space"),
        ("cycle_windows", "Super+Tab"),
        ("launch_terminal", "Super+Return"),
    ]);
    for n in 1..=5 {
        actions.push((format!("workspace_{n}"), format!("Super+{n}")));
    }
    let (bindings, errors) = Keybindings::from_config(&actions);
    assert!(
        errors.is_empty(),
        "default keybindings should always parse cleanly: {errors:?}"
    );
    assert_eq!(bindings.len(), actions.len());
}

#[test]
fn each_malformed_combo_has_its_own_message() {
    for s in ["", "Super+", "Hyper+Q"] {
        let err = parse_combo(s).unwrap_err();
        assert!(err.message().contains(&err.0));
    }
    assert_ne!(parse_combo("").unwrap_err().0, parse_combo("Super+").unwrap_err().0);
}

#[test]
fn a_combo_given_twice_keeps_one_binding() {
    let actions = listed(&[("first", "Super+Q"), ("second", "Win+q")]);
    let (bindings, errors) = Keybindings::from_config(&actions);
    assert!(errors.is_empty());
    assert_eq!(bindings.len(), 1);
}

#[test]
fn spelling_does_not_matter() {
    let plain = parse_combo("Super+Ctrl+Alt+Q").unwrap();
    for text in [
        " super + control+ alt +q ",
        "Meta+LOGO+ctrl+Q",
        "mod1+mod4+Control+ctrl+win+q",
        "\tcmd\u{3000}+ Mod1 +CTRL+\u{a0}Q\n",
    ] {
        assert_eq!(parse_combo(text).unwrap(), plain, "{text}");
    }
    assert!(parse_combo("hyper + q").is_err());
}
