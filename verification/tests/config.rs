use comphwde::config::{
    config_path_for, config_source, default_keybindings, file_name_for, load_for, load_text,
    user_config_path, Config, ConfigSource, GeneralConfig, LoadProblem,
};
use hk_parser::HkValue;

#[test]
fn defaults_are_sane() {
    let cfg = Config::default();
    assert_eq!(cfg.workspaces.count, 5);
    assert!(cfg.general.default_tiling);
    assert_eq!(cfg.keybinding("close_window"), Some("Super+Q"));
}

#[test]
fn parses_a_real_config_hk() {
    let src = r##"
[general]
-> gaps_px             => 12
-> border_px            => 3
-> focus_follows_mouse  => true

[appearance]
-> wallpaper             => /usr/share/wallpapers/HackerOS-Wallpapers/Wallpaper1.png
-> active_border_color   => "#22c55e"
-> cursor_size           => 32

[workspaces]
-> count => 4
-> names => ["code", "web", "chat", "media"]

[keybindings]
-> close_window       => Super+Shift+Q
-> launch_terminal    => Super+Return

[autostart]
-> commands => ["blue-panel", "blue-dock"]
"##;
    let mut raw = hk_parser::parse_hk(src).expect("valid .hk");
    hk_parser::resolve_interpolations(&mut raw).expect("no interpolation errors");
    let cfg = Config::from_hk(&raw);

    assert_eq!(cfg.general.gaps_px, 12);
    assert_eq!(cfg.general.border_px, 3);
    assert!(cfg.general.focus_follows_mouse);
    assert_eq!(
        cfg.appearance.wallpaper.as_deref(),
        Some("/usr/share/wallpapers/HackerOS-Wallpapers/Wallpaper1.png")
    );
    assert_eq!(cfg.appearance.active_border_color, "#22c55e");
    assert_eq!(cfg.appearance.cursor_size, 32);
    assert_eq!(cfg.workspaces.count, 4);
    assert_eq!(cfg.workspaces.names, vec!["code", "web", "chat", "media"]);
    assert_eq!(cfg.keybinding("close_window"), Some("Super+Shift+Q"));
    assert_eq!(cfg.autostart, vec!["blue-panel", "blue-dock"]);
    assert_eq!(cfg.input.keyboard_layout, "us");
}

#[test]
fn malformed_field_falls_back_to_default_without_failing_the_section() {
    let src = r#"
[general]
-> gaps_px            => not_a_number
-> focus_follows_mouse => true
"#;
    let raw = hk_parser::parse_hk(src).expect("still syntactically valid .hk");
    let cfg = Config::from_hk(&raw);
    assert_eq!(cfg.general.gaps_px, GeneralConfig::default().gaps_px);
    assert!(cfg.general.focus_follows_mouse);
}

#[test]
fn saved_settings_read_back() {
    let mut cfg = Config::default();
    cfg.general.gaps_px = 21;
    cfg.general.focus_follows_mouse = true;
    cfg.appearance.wallpaper = Some(String::from("/tmp/picture.png"));
    cfg.appearance.cursor_size = 48;
    cfg.input.natural_scroll = true;
    cfg.input.mouse_sensitivity = HkValue::Number(-0.25);
    cfg.workspaces.count = 9;
    cfg.workspaces.names = vec![String::from("one"), String::from("two")];
    cfg.autostart = vec![String::from("blue-panel")];

    let back = Config::from_hk(&cfg.to_hk());

    assert_eq!(back.general.gaps_px, 21);
    assert!(back.general.focus_follows_mouse);
    assert_eq!(back.appearance.wallpaper.as_deref(), Some("/tmp/picture.png"));
    assert_eq!(back.appearance.cursor_size, 48);
    assert!(back.input.natural_scroll);
    assert!(matches!(back.input.mouse_sensitivity, HkValue::Number(n) if n == -0.25));
    assert_eq!(back.workspaces.count, 9);
    assert_eq!(back.workspaces.names, vec!["one", "two"]);
    assert_eq!(back.autostart, vec!["blue-panel"]);
    assert_eq!(back.keybindings.len(), default_keybindings().len());
}

#[test]
fn saved_settings_survive_a_document_as_text() {
    let mut cfg = Config::default();
    cfg.general.border_px = 7;
    cfg.workspaces.count = 3;
    let text = hk_parser::serialize_hk(&cfg.to_hk());
    let raw = hk_parser::parse_hk(&text).expect("a saved document is valid");
    let back = Config::from_hk(&raw);
    assert_eq!(back.general.border_px, 7);
    assert_eq!(back.workspaces.count, 3);
    assert_eq!(back.keybinding("toggle_floating"), Some("Super+Space"));
}

#[test]
fn numbers_out_of_range_are_held_at_the_bounds() {
    let raw = hk_parser::parse_hk(
        "[general]\n-> gaps_px => -4\n-> border_px => 9999999999\n[workspaces]\n-> count => 0\n",
    )
    .unwrap();
    let cfg = Config::from_hk(&raw);
    assert_eq!(cfg.general.gaps_px, 0);
    assert_eq!(cfg.general.border_px, u32::MAX);
    assert_eq!(cfg.workspaces.count, 1);
}

#[test]
fn without_a_document_the_defaults_hold() {
    let (cfg, problem) = load_for(None);
    assert_eq!(cfg.general.gaps_px, 8);
    assert!(problem.is_none());
    let raw = hk_parser::parse_hk("[general]\n-> gaps_px => 2\n").unwrap();
    let (cfg, problem) = load_for(Some(raw));
    assert_eq!(cfg.general.gaps_px, 2);
    assert!(problem.is_none());
}

#[test]
fn references_are_filled_in() {
    let raw = hk_parser::parse_hk(
        "[input]\n-> keyboard_layout => pl\n-> keyboard_variant => \"${input.keyboard_layout}-dvorak\"\n",
    )
    .unwrap();
    let (cfg, problem) = load_for(Some(raw));
    assert!(problem.is_none());
    assert_eq!(cfg.input.keyboard_layout, "pl");
    assert_eq!(cfg.input.keyboard_variant, "pl-dvorak");
}

#[test]
fn a_bad_reference_does_not_spoil_the_rest() {
    let raw = hk_parser::parse_hk(
        "[general]\n-> gaps_px => 3\n[input]\n-> keyboard_layout => \"${no.such_key}\"\n",
    )
    .unwrap();
    let (cfg, problem) = load_for(Some(raw));
    assert!(problem.is_some());
    assert_eq!(cfg.general.gaps_px, 3);
    assert_eq!(cfg.input.keyboard_layout, "${no.such_key}");
}

#[test]
fn a_session_has_its_own_file() {
    assert_eq!(file_name_for(None), "config.hk");
    assert_eq!(file_name_for(Some("sde")), "config-sde.hk");
    assert_eq!(
        config_path_for(Some("/home/user/.config"), Some("sde"), true),
        "/home/user/.config/HackerOS-Comp/config-sde.hk"
    );
    assert_eq!(config_path_for(None, None, true), "./HackerOS-Comp/config.hk");
    assert_eq!(user_config_path(None, None), "./HackerOS-Comp/config.hk");
    for session in [None, Some("sde")] {
        assert_eq!(
            config_path_for(Some("/home/user/.config"), session, false),
            "/etc/xdg/HackerOS-Comp/config.hk"
        );
    }
}

#[test]
fn the_users_file_comes_first() {
    assert_eq!(config_source(true, true), ConfigSource::User);
    assert_eq!(config_source(false, true), ConfigSource::System);
    assert_eq!(config_source(false, false), ConfigSource::BuiltIn);
}

#[test]
fn settings_are_read_from_a_text() {
    let text = "[workspaces]\n-> count => 9\n[general]\n-> gaps_px => 3\n";
    let (config, problem) = load_text(text).unwrap();
    assert!(problem.is_none());
    assert_eq!(config.workspaces.count, 9);
    assert_eq!(config.general.gaps_px, 3);
}

#[test]
fn a_text_that_is_no_document_gives_the_defaults() {
    let (config, problem) = load_text("no section").unwrap();
    assert!(problem.is_some());
    assert_eq!(config.workspaces.count, Config::default().workspaces.count);
}

#[test]
fn lone_quotation_marks_are_not_handed_to_the_parser() {
    assert!(load_text("[input]\n-> keyboard_layout => \"\n").is_none());
    assert!(load_text("[input]\n  --> keyboard_layout =>\t\" \r\n").is_none());
    assert!(load_text("[input]\n-> keyboard_layout => \"").is_none());
    assert!(load_text("[input]\n-> keyboard_layout => \"pl\"\n").is_some());
    assert!(load_text("[input]\n-> keyboard_layout => \"\"\n").is_some());
    assert!(load_text("! a \" in a comment\n[input]\n-> keyboard_layout => \" x \"\n").is_some());
    assert!(load_text("! x => \"\n[input]\n-> keyboard_layout => \"a => \"\n").is_some());
}

#[test]
fn texts_are_only_bounded_in_depth() {
    let many: String = (0..2000).map(|n| format!("[s{n}]\n-> k => [[1], [2]]\n")).collect();
    assert!(load_text(&many).is_some());
    assert!(load_text(&" ".repeat(0x2_0000)).is_some());
    assert!(load_text(&"[".repeat(513)).is_none());
    let dotted = |n: usize| format!("[a]\n-> x{} => 1\n", ".x".repeat(n));
    assert!(load_text(&dotted(31)).is_some());
    assert!(load_text(&dotted(32)).is_none());
}

#[test]
fn references_are_resolved() {
    let text = "[appearance]\n-> cursor_theme => \"mine\"\n-> wallpaper => \"/w/${appearance.cursor_theme}.png\"\n";
    let (config, problem) = load_text(text).unwrap();
    assert!(problem.is_none());
    assert_eq!(config.appearance.wallpaper.as_deref(), Some("/w/mine.png"));
    assert_eq!(config.appearance.cursor_theme, "mine");

    let text = "[appearance]\n-> wallpaper => \"${no.such}\"\n-> cursor_size => 48\n";
    let (config, problem) = load_text(text).unwrap();
    assert!(matches!(problem, Some(LoadProblem::Reference(_))));
    assert_eq!(config.appearance.cursor_size, 48);
}

#[test]
fn documents_without_end_are_not_resolved() {
    let deep = format!("[a]\n-> x{} => 1\n[workspaces]\n-> count => 3\n", ".x".repeat(20));
    let (config, problem) = load_text(&deep).unwrap();
    assert!(matches!(problem, Some(LoadProblem::Unresolved)));
    assert_eq!(config.workspaces.count, 3);

    let mut forked = String::from("[s]\n-> a0 => 1\n");
    for n in 1..41 {
        forked += &format!("-> a{n} => ${{s.a{}}}${{s.a{}}}\n", n - 1, n - 1);
    }
    let (_, problem) = load_text(&forked).unwrap();
    assert!(matches!(problem, Some(LoadProblem::Unresolved)));

    let single: String = (1..100).map(|n| format!("-> a{n} => ${{s.a{}}}\n", n - 1)).collect();
    let chain = format!("[s]\n-> a0 => 1\n{single}");
    let (_, problem) = load_text(&chain).unwrap();
    assert!(problem.is_none());
}

#[test]
fn values_of_the_wrong_kind_fall_back() {
    let text = "[appearance]\n-> wallpaper => [1, 2]\n-> cursor_size => \"big\"\n[input]\n-> tap_to_click => 3\n-> mouse_sensitivity => [0]\n[workspaces]\n-> names => 7\n[keybindings]\n-> close_window => [1]\n";
    let (config, problem) = load_text(text).unwrap();
    assert!(problem.is_none());
    let d = Config::default();
    assert_eq!(config.appearance.wallpaper, None);
    assert_eq!(config.appearance.cursor_size, d.appearance.cursor_size);
    assert!(config.input.tap_to_click);
    assert_eq!(config.workspaces.names, d.workspaces.names);
    assert_eq!(config.keybinding("close_window"), Some("Super+Q"));
}
