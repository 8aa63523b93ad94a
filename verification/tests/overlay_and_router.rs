use poratake_daemon_win::overlay::{monitor_device_number, to_wide, KeyHandlers};
use poratake_daemon_win::router::{
    route_target, sorted_names, system_action, text_before, RouteTarget, SystemAction,
};

#[test]
fn encodes_wide_strings_with_a_terminator() {
    assert_eq!(to_wide("Ab"), vec![0x41, 0x62, 0]);
    assert_eq!(to_wide(""), vec![0]);
    assert_eq!(to_wide("é😀"), vec![0xE9, 0xD83D, 0xDE00, 0]);
    let expected: Vec<u16> = "Segoe UI".encode_utf16().chain(std::iter::once(0)).collect();
    assert_eq!(to_wide("Segoe UI"), expected);
}

#[test]
fn wide_strings_read_back_to_the_text() {
    for text in ["", "Ab", "é😀 ok", "日本語𝄞"] {
        let wide = to_wide(text);
        assert_eq!(wide.last(), Some(&0));
        assert_eq!(String::from_utf16(&wide[..wide.len() - 1]).unwrap(), text);
    }
}

#[test]
fn reads_display_numbers_from_device_names() {
    assert_eq!(monitor_device_number("\\\\.\\DISPLAY2"), 2);
    assert_eq!(monitor_device_number("\\\\.\\DISPLAY12"), 12);
    assert_eq!(monitor_device_number("no digits"), 0);
    assert_eq!(monitor_device_number("99999999999"), 0);
}

#[test]
fn key_handlers_get_distinct_tokens_and_can_be_removed() {
    let mut handlers = KeyHandlers::new();
    let escape = handlers.add(0x1B, "escape");
    let enter = handlers.add(0x0D, "enter");
    let second_escape = handlers.add(0x1B, "escape again");
    assert_eq!((escape, enter, second_escape), (1, 2, 3));
    assert_eq!(handlers.matching(0x1B), vec![0, 2]);
    assert!(!handlers.remove(escape));
    assert_eq!(handlers.matching(0x1B), vec![1]);
    assert_eq!(handlers.entries[1].handler, "escape again");
    assert!(!handlers.remove(enter));
    assert!(handlers.remove(second_escape));
    assert!(handlers.remove(second_escape));
}

#[test]
fn routes_requests_to_modules_by_name() {
    let names = vec!["print", "ocr", "print"];
    assert_eq!(route_target(&names, "system"), RouteTarget::System);
    assert_eq!(route_target(&names, "print"), RouteTarget::Module(0));
    assert_eq!(route_target(&names, "ocr"), RouteTarget::Module(1));
    let RouteTarget::NotFound(error) = route_target(&names, "camera") else {
        panic!("unknown module");
    };
    assert_eq!(error.code, "MODULE_NOT_FOUND");
    assert_eq!(error.message, "Module 'camera' not found");
}

#[test]
fn answers_system_methods() {
    assert_eq!(system_action("ping"), SystemAction::Ping);
    assert_eq!(system_action("list-modules"), SystemAction::ListModules);
    assert_eq!(system_action("quit"), SystemAction::Quit);
    let SystemAction::Unknown(error) = system_action("reboot") else {
        panic!("unknown method");
    };
    assert_eq!(error.code, "METHOD_NOT_FOUND");
    assert_eq!(error.message, "System method 'reboot' not found");
}

#[test]
fn lists_module_names_in_order() {
    let names = vec!["screen-recorder", "ocr", "all-in-one", "qrcode", "ocr"];
    assert_eq!(
        sorted_names(&names),
        vec!["all-in-one", "ocr", "ocr", "qrcode", "screen-recorder"]
    );
    assert!(text_before("ab", "b"));
    assert!(text_before("a", "ab"));
    assert!(!text_before("ab", "ab"));
    assert!(text_before("Z", "a"));
}
