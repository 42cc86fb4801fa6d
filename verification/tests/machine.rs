use comphwde::drm::{
    can_light_up, connector_connected, find_crtc_for_connector, find_free_crtc, flatten_crtcs, is_card_name,
    light_up, number_of_card, order_cards, output_mode, output_position, parse_transform, preferred_mode, OutputSettings, Transform,
    Connector, DrmMode, LightUp, OutputMode,
};
use comphwde::geometry::{Point, Rectangle, Size};
use comphwde::gpus::{Driven, GpuTable};
use comphwde::portal::{
    connect_failure, eis_socket_path, handle_request, EisAction, EisRequest, PortalState,
    SeatDevices, GRANTED,
};
use comphwde::power::{command_for, is_dimmed, Power, Screen};
use comphwde::scan::{
    apply_hardware_modeset, best_mode, choose_renderer, distinct_modes, frame_program,
    offers_dmabuf, output_name, render_path, start_offset, ConnectorInfo, DrivenSurface, DumbSwapchain,
    HdrAwareElement, Modeset, PlacedOutput, RenderBackend, RenderPath, Scan,
};
use comphwde::startup::{
    choose_backend, choose_gpu, desktop_entry, desktop_entry_path, identity_of, log_dir,
    output_identity, retries_in_software, seat_access, services, Backend,
    SeatAccess,
};
use comphwde::title_text::{
    fit_title, rasterize, title_room, Fit, Glyph, TitleFit, TitleStep, TitleTextureCache,
};
use comphwde::wallpaper::{Wallpaper, DEFAULT_WALLPAPER};

fn mode(width: u16, height: u16, vrefresh: u32, preferred: bool) -> DrmMode {
    DrmMode { width, height, vrefresh, preferred }
}

#[test]
fn the_session_becomes_idle_unless_a_client_objects() {
    let mut power = Power::default();
    assert!(power.is_timed());
    power.inhibitors = 1;
    assert!(power.is_idle_inhibited());
    assert_eq!(power.on_idle(), Screen::Keep);
    power.inhibitors = 0;
    assert_eq!(power.on_idle(), Screen::Blank);
    assert_eq!(power.on_idle(), Screen::Keep);
    assert_eq!(power.reset_idle(), Screen::Wake);
    assert_eq!(power.reset_idle(), Screen::Keep);
}

#[test]
fn the_screen_is_blanked_and_woken() {
    let mut power = Power::default();
    assert_eq!(power.handle_dpms(power.dpms_timeout), Screen::Keep);
    assert_eq!(power.handle_dpms(power.dpms_timeout + 1), Screen::Blank);
    assert_eq!(power.handle_dpms(power.dpms_timeout + 2), Screen::Keep);
    assert_eq!(power.record_input(), (Screen::Wake, Screen::Keep));
    assert_eq!(
        command_for(Screen::Blank, "DP-1").as_deref(),
        Some("wlr-randr --output DP-1 --off 2>/dev/null || xset dpms force off 2>/dev/null")
    );
    assert_eq!(command_for(Screen::Keep, "DP-1"), None);
    assert!(is_dimmed(60, false, 60));
    assert!(!is_dimmed(60, true, 600));
    assert!(!is_dimmed(0, false, 600));
    assert!(!is_dimmed(60, false, 59));
}

#[test]
fn a_portal_session_remembers_its_devices() {
    let mut portal = PortalState::new();
    assert_eq!(portal.create_session("/s/1".into()), GRANTED);
    assert_eq!(portal.select_devices("/s/1".into(), Some(3)), GRANTED);
    assert_eq!(portal.start(), GRANTED);
    assert_eq!(portal.sessions.len(), 1);
    assert_eq!(portal.sessions[0].1.devices, 3);
    assert_eq!(
        connect_failure("/tmp/eis-blue", "refused"),
        "failed to connect to internal EIS socket at /tmp/eis-blue: refused"
    );
    assert_eq!(eis_socket_path(Some("/run/user/1")), "/run/user/1/eis-blue");
    assert_eq!(eis_socket_path(None), "/tmp/eis-blue");
}

#[test]
fn emulated_input_goes_to_the_seat() {
    let seat = SeatDevices { pointer: true, keyboard: false };
    assert_eq!(handle_request(EisRequest::PointerMotion, seat), EisAction::MoveBy);
    assert_eq!(
        handle_request(EisRequest::Button { button: 272, pressed: true }, seat),
        EisAction::Button { button: 272, pressed: true }
    );
    assert_eq!(
        handle_request(EisRequest::KeyboardKey { key: 30, pressed: true }, seat),
        EisAction::Nothing
    );
    assert_eq!(handle_request(EisRequest::Disconnect, seat), EisAction::Nothing);
    assert_eq!(
        handle_request(EisRequest::ScrollDiscrete { dx: 0, dy: 120 }, seat),
        EisAction::WheelScroll { dx: 0, dy: 120 }
    );
}

#[test]
fn connectors_get_engines_of_their_own() {
    assert_eq!(find_free_crtc(&vec![1, 2, 3], &vec![1]), Some(2));
    assert_eq!(find_free_crtc(&vec![1], &vec![1]), None);
    assert_eq!(flatten_crtcs(&vec![vec![1, 2], vec![3]]), vec![1, 2, 3]);
    let encoders = vec![vec![4, 5], vec![6]];
    assert_eq!(find_crtc_for_connector(Some(5), &encoders, &Vec::new()), Some(5));
    assert_eq!(find_crtc_for_connector(None, &encoders, &vec![4, 5]), Some(6));
    assert_eq!(find_crtc_for_connector(None, &encoders, &vec![4, 5, 6]), None);
}

#[test]
fn outputs_have_modes_and_places() {
    let modes = vec![mode(800, 600, 60, false), mode(1920, 1080, 60, true)];
    assert!(can_light_up(true, &modes));
    assert!(!can_light_up(false, &modes));
    assert!(!can_light_up(true, &Vec::new()));
    assert_eq!(preferred_mode(&modes), 1);
    assert_eq!(output_mode(&modes[1]), OutputMode { w: 1920, h: 1080, refresh: 60000 });
    assert_eq!(output_position(None, &vec![1920, 800]), Point { x: 2720, y: 0 });
    let told = Point { x: -5, y: 7 };
    assert_eq!(output_position(Some(told), &vec![1920]), told);
}

fn connector(current: Option<u32>) -> Connector {
    Connector {
        interface: String::from("DP"),
        interface_id: 2,
        connected: true,
        modes: vec![mode(800, 600, 60, false), mode(1920, 1080, 60, true)],
        current,
        encoders: vec![vec![4, 5]],
    }
}

#[test]
fn a_connector_is_planned_as_a_whole() {
    let plan = connector_connected(&connector(None), &vec![4], &OutputSettings::default(), &Vec::new(), &vec![1280]).unwrap();
    assert_eq!(plan.name, "DP-2");
    assert_eq!((plan.crtc, plan.mode), (5, 1));
    assert_eq!(plan.position, Point { x: 1280, y: 0 });
    let placed = vec![(String::from("DP-2"), Point { x: 7, y: 8 })];
    let plan = connector_connected(&connector(Some(9)), &vec![4], &OutputSettings::default(), &placed, &vec![1280]).unwrap();
    assert_eq!(plan.crtc, 9);
    assert_eq!(plan.position, Point { x: 7, y: 8 });
    let text = connector_connected(&connector(None), &vec![4, 5], &OutputSettings::default(), &placed, &Vec::new());
    assert_eq!(text.unwrap_err(), "no free CRTC for connector DP");
}

#[test]
fn outputs_are_turned_and_scaled_as_configured() {
    let settings = OutputSettings {
        transform: String::from("flipped-270"),
        scale_bits: 1.5f64.to_bits(),
    };
    let plan =
        connector_connected(&connector(None), &vec![4], &settings, &Vec::new(), &vec![]).unwrap();
    assert_eq!(plan.transform, Transform::Flipped270);
    assert_eq!(f64::from_bits(plan.scale_bits), 1.5);
    assert_eq!(f64::from_bits(OutputSettings::default().scale_bits), 1.0);
    let names = [
        ("normal", Transform::Normal),
        ("90", Transform::_90),
        ("180", Transform::_180),
        ("270", Transform::_270),
        ("flipped", Transform::Flipped),
        ("flipped-90", Transform::Flipped90),
        ("flipped-180", Transform::Flipped180),
        ("flipped-270", Transform::Flipped270),
        ("sideways", Transform::Normal),
    ];
    for (name, transform) in names {
        assert_eq!(parse_transform(name), transform);
    }
}

#[test]
fn the_first_card_with_a_renderer_of_its_own_offers_its_buffers() {
    assert!(offers_dmabuf(false, false));
    assert!(!offers_dmabuf(true, false));
    assert!(!offers_dmabuf(false, true));
}

#[test]
fn connectors_without_a_monitor_are_skipped() {
    let none = Vec::new();
    let unplugged = Connector { connected: false, ..connector(None) };
    assert!(matches!(light_up(&unplugged, &none, &OutputSettings::default(), &Vec::new(), &none_widths()), LightUp::Skip));
    let blank = Connector { modes: Vec::new(), ..connector(None) };
    assert!(matches!(light_up(&blank, &none, &OutputSettings::default(), &Vec::new(), &none_widths()), LightUp::Skip));
    assert!(matches!(
        light_up(&connector(None), &none, &OutputSettings::default(), &Vec::new(), &none_widths()),
        LightUp::Plan(plan) if plan.crtc == 4
    ));
    assert!(matches!(
        light_up(&connector(None), &vec![4, 5], &OutputSettings::default(), &Vec::new(), &none_widths()),
        LightUp::Fail(_)
    ));
}

fn none_widths() -> Vec<i32> {
    Vec::new()
}

#[test]
fn cards_are_taken_in_order() {
    assert!(is_card_name("card0"));
    assert!(!is_card_name("renderD128") && !is_card_name("cardx"));
    assert_eq!(number_of_card("card12"), 12);
    let names: Vec<String> =
        ["card10", "card", "card2", "renderD128", "card0"].iter().map(|s| s.to_string()).collect();
    assert_eq!(order_cards(&names), vec!["card0", "card2", "card10", "card"]);
}

#[test]
fn the_fastest_preferred_mode_wins() {
    let modes = vec![
        mode(1920, 1080, 60, true),
        mode(1920, 1080, 144, true),
        mode(3840, 2160, 240, false),
    ];
    assert_eq!(best_mode(&modes), Some(1));
    assert_eq!(best_mode(&Vec::new()), None);
    let twice = vec![mode(800, 600, 60, false), mode(800, 600, 60, true)];
    assert_eq!(distinct_modes(&twice).len(), 1);
}

#[test]
fn a_scan_places_outputs_side_by_side() {
    let there = vec![PlacedOutput { x: 0, width: Some(1920), scale: 1 }];
    assert_eq!(start_offset(&there), 1920);
    let mut scan = Scan::new(&there);
    let connector = |id: u32| ConnectorInfo {
        id,
        interface: 10,
        connected: true,
        modes: vec![mode(1280, 720, 60, true)],
        encoders: vec![vec![7, 8]],
    };
    let plan = scan.next_output(&connector(1), &vec![7, 8]).unwrap();
    assert_eq!((plan.crtc, plan.mode, plan.x), (7, 0, 1920));
    assert_eq!(plan.name, output_name(10, 1));
    scan.lit_up(plan.crtc);
    let plan = scan.next_output(&connector(2), &vec![7, 8]).unwrap();
    assert_eq!((plan.crtc, plan.x), (8, 3200));
    scan.lit_up(plan.crtc);
    assert!(scan.next_output(&connector(3), &vec![7, 8]).is_none());
    let unplugged = ConnectorInfo { connected: false, ..connector(4) };
    assert!(scan.next_output(&unplugged, &vec![7, 8, 9]).is_none());
}

#[test]
fn a_mode_is_applied_where_the_hardware_has_it() {
    let wanted = OutputMode { w: 800, h: 600, refresh: 60000 };
    assert_eq!(apply_hardware_modeset(false, None, wanted), Modeset::Granted);
    let surface = |modes| Some(DrivenSurface { software: true, modes });
    let modes = vec![mode(640, 480, 60, false), mode(800, 600, 60, false)];
    assert_eq!(
        apply_hardware_modeset(true, surface(Some(modes)), wanted),
        Modeset::Apply { mode: 1, software: true }
    );
    assert_eq!(
        apply_hardware_modeset(true, surface(Some(Vec::new())), wanted),
        Modeset::Refused
    );
    assert_eq!(apply_hardware_modeset(true, surface(None), wanted), Modeset::Refused);
}

#[test]
fn software_rendering_is_the_last_resort() {
    let mut gles = choose_renderer(Some(1), Some(2)).unwrap();
    assert!(!gles.is_software());
    assert_eq!(gles.as_gles(), Some(&1));
    *gles.as_gles_mut().unwrap() = 5;
    assert_eq!(gles.as_gles(), Some(&5));
    assert!(gles.as_pixman_mut().is_none());
    let pixman = choose_renderer(None, Some(2)).unwrap();
    assert!(pixman.is_software());
    assert!(matches!(pixman, RenderBackend::Pixman(2)));
    assert!(choose_renderer(None, None).is_none());
    assert_eq!(render_path(true, Some(true)), RenderPath::Software);
    assert_eq!(render_path(true, Some(false)), RenderPath::Hardware);
    assert_eq!(render_path(true, None), RenderPath::Hardware);
    assert_eq!(render_path(false, Some(true)), RenderPath::Skip);
}

#[test]
fn buffers_take_turns() {
    let mut chain = DumbSwapchain::new(1, 2, 30, 31);
    let first = chain.back_mut().fb;
    assert_eq!(chain.back_age(), 0);
    chain.finish_frame(true);
    let second = chain.back_mut().fb;
    assert_ne!(first, second);
    chain.finish_frame(true);
    assert_eq!(chain.back_mut().fb, first);
    assert_eq!(chain.back_age(), 2);
    chain.finish_frame(false);
    assert_eq!(chain.back_mut().fb, first);
}

#[test]
fn a_program_keeps_an_element_from_the_screen() {
    assert!(HdrAwareElement::passthrough(1u8).may_scan_out());
    assert!(!HdrAwareElement::new(1u8, Some(9)).may_scan_out());
    assert_eq!(frame_program(Some(9), true), Some(9));
    assert_eq!(frame_program(Some(9), false), None);
}

#[test]
fn cards_come_and_go() {
    let mut table = GpuTable::new();
    assert!(table.is_new(1) && table.loads_wallpaper());
    table.device_added(1, vec![Driven { crtc: 7, output: 70 }]);
    assert!(!table.is_new(1) && !table.loads_wallpaper());
    table.device_added(2, Vec::new());
    table.lit_up(2, Driven { crtc: 8, output: 80 });
    assert_eq!(table.targets(), vec![(1, 7), (2, 8)]);
    let list = table.gpu_list(2);
    assert_eq!(list.len(), 2);
    assert!(list[1].primary && !list[0].primary);
    assert_eq!(list[1].output_count, 1);
    assert_eq!(table.device_removed(2), vec![80]);
    assert!(table.is_new(2));
    assert_eq!(table.device_changed(1), vec![70]);
    assert!(table.targets().is_empty());
}

#[test]
fn titles_get_shorter_until_they_fit() {
    let bar = Rectangle { loc: Point { x: 0, y: 0 }, size: Size { w: 300, h: 28 } };
    assert_eq!(title_room(&bar), 256);
    let mut fit = TitleFit::new("abcd");
    assert_eq!(fit.text(), "abcd");
    assert_eq!(fit.measured(100, 50), Fit::Cut);
    assert_eq!(fit.text(), "abc\u{2026}");
    assert_eq!(fit.measured(90, 50), Fit::Cut);
    assert_eq!(fit.text(), "ab\u{2026}");
    assert_eq!(fit.measured(50, 50), Fit::Used);
    assert_eq!(fit.text(), "ab\u{2026}");
}

#[test]
fn a_single_character_gives_way_to_an_ellipsis() {
    let mut fit = TitleFit::new("W");
    assert_eq!(fit.measured(100, 50), Fit::Cut);
    assert_eq!(fit.text(), "\u{2026}");
    assert_eq!(fit.measured(51, 50), Fit::Nothing);
    assert_eq!(fit.text(), "");
}

#[test]
fn the_longest_beginning_that_fits_is_drawn() {
    let width = |text: &str| 10 * text.chars().count() as i32;
    assert_eq!(fit_title("abcd", width, 40), "abcd");
    assert_eq!(fit_title("abcd", width, 39), "ab\u{2026}");
    assert_eq!(fit_title("abcd", width, 10), "\u{2026}");
    assert_eq!(fit_title("abcd", width, 9), "");
    assert_eq!(fit_title("ab\u{2026}", width, 25), "a\u{2026}");
    assert_eq!(fit_title("\u{2026}", width, 5), "");
}

#[test]
fn glyphs_are_drawn_into_the_picture() {
    let glyph = Glyph { x: 1, y: 0, width: 1, height: 2, bitmap: vec![255, 0] };
    let picture = rasterize(&vec![glyph], 2, 2);
    assert_eq!(picture.len(), 16);
    assert_eq!(picture[0..4], [0, 0, 0, 0]);
    assert_eq!(picture[7], 255);
    assert_eq!(picture[15], 0);
    let outside = Glyph { x: -5, y: 9, width: 1, height: 1, bitmap: vec![255] };
    assert_eq!(rasterize(&vec![outside], 2, 2), vec![0; 16]);
}

#[test]
fn pictures_of_titles_are_kept() {
    let mut cache = TitleTextureCache::new();
    assert!(matches!(cache.step_for(1, "", 100), TitleStep::Skip));
    assert!(matches!(cache.step_for(1, "a", 100), TitleStep::Draw));
    assert!(cache.drawn(1, String::from("a"), 100, 40, 12));
    assert!(matches!(cache.step_for(1, "a", 100), TitleStep::Reuse { height: 12 }));
    assert!(matches!(cache.step_for(1, "b", 100), TitleStep::Draw));
    assert!(matches!(cache.step_for(1, "a", 90), TitleStep::Draw));
    cache.forget(1);
    assert!(matches!(cache.step_for(1, "a", 100), TitleStep::Draw));
}

#[test]
fn the_backend_follows_the_surroundings() {
    assert_eq!(choose_backend(true, false), Backend::Nested);
    assert_eq!(choose_backend(false, true), Backend::Nested);
    assert_eq!(choose_backend(false, false), Backend::Hardware);
    assert_eq!(seat_access(true, true, false), SeatAccess::Logind);
    assert_eq!(seat_access(false, false, true), SeatAccess::Seatd);
    assert_eq!(seat_access(true, false, false), SeatAccess::NoSession);
    assert_eq!(seat_access(false, false, false), SeatAccess::NeedsSeatd);
    assert!(retries_in_software(true, false));
    assert!(!retries_in_software(true, true) && !retries_in_software(false, false));
}

#[test]
fn one_socket_is_served() {
    for shell in [None, Some("hackerland"), Some("sde"), Some("other")] {
        let s = services(shell);
        let count = [s.control, s.hackerland, s.shell].iter().filter(|on| **on).count();
        assert_eq!(count, 1, "{shell:?}");
    }
    assert!(services(Some("hackerland")).hackerland);
    assert!(services(Some("sde")).shell);
    assert!(services(None).control);
    assert!(services(Some("sde")).toplevels && !services(Some("other")).toplevels);
}

#[test]
fn outputs_are_named_after_the_shell() {
    let named = |shell: Option<&str>| {
        let identity = output_identity(shell);
        (identity.name, identity.make)
    };
    let pair = |a: &str, b: &str| (String::from(a), String::from(b));
    assert_eq!(named(Some("sde")), pair("SDE-1", "SDE"));
    assert_eq!(named(Some("stra\u{df}e")), pair("STRASSE-1", "STRASSE"));
    assert_eq!(named(None), pair("HWDE-1", "HWDE"));
    assert_eq!(identity_of(Some("sde")).name, "sde-1");
}

#[test]
fn files_have_their_places() {
    assert!(log_dir(false, "/home/u").starts_with("/home/u/"));
    assert!(!log_dir(true, "/home/u").starts_with("/home/u"));
    assert!(desktop_entry_path("/home/u").starts_with("/home/u/"));
    assert!(desktop_entry("/usr/bin/comphwde").contains("/usr/bin/comphwde"));
    let some = |s: &str| Some(String::from(s));
    assert_eq!(choose_gpu(some("a"), some("b"), some("c")), some("a"));
    assert_eq!(choose_gpu(None, some("b"), some("c")), some("b"));
    assert_eq!(choose_gpu(None, None, some("c")), some("c"));
    assert_eq!(choose_gpu(None, None, None), None);
}

#[test]
fn a_wallpaper_is_drawn_once_it_is_loaded() {
    let size = Size { w: 640, h: 480 };
    let mut wallpaper = Wallpaper::new(String::from(DEFAULT_WALLPAPER));
    assert!(wallpaper.render_element(size).is_none());
    wallpaper.loaded(Some(4));
    let element = wallpaper.render_element(size).unwrap();
    assert_eq!(element.texture, 4);
    assert_eq!(element.size, size);
    wallpaper.set_path(String::from("/other.png"));
    assert_eq!(wallpaper.path, "/other.png");
    assert!(wallpaper.render_element(size).is_some());
    wallpaper.loaded(None);
    assert!(wallpaper.render_element(size).is_none());
}
