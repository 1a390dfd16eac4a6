use dns_adblock::auth::{
    check_password, extract_session_cookie, generate_token, hash_password, session_clear_cookie,
    session_live, session_row, session_set_cookie, verify_password, AppError, SESSION_TTL_SECS,
};
use dns_adblock::devices::{generate_device_id, pretty_device_type, validate_new_device, DeviceError, DeviceType};

#[test]
fn session_cookie_is_found_among_cookies() {
    assert_eq!(extract_session_cookie("theme=dark; session=abc123; lang=en"), Some("abc123".to_string()));
    assert_eq!(extract_session_cookie("  session=xyz  "), Some("xyz".to_string()));
    assert_eq!(extract_session_cookie("theme=dark"), None);
    assert_eq!(extract_session_cookie(""), None);
}

#[test]
fn set_cookie_round_trips() {
    let token = generate_token().expect("system generator available");
    assert_eq!(token.len(), 64);
    assert!(token.chars().all(|c| c.is_ascii_hexdigit() && !c.is_ascii_uppercase()));
    let set = session_set_cookie(&token);
    assert_eq!(set, format!("session={}; HttpOnly; Secure; SameSite=Lax; Path=/; Max-Age=86400", token));
    let sent_back = format!("session={}", token);
    assert_eq!(extract_session_cookie(&sent_back), Some(token));
    assert_eq!(session_clear_cookie(), "session=; Max-Age=0; Path=/; HttpOnly; SameSite=Lax");
}

#[test]
fn password_hash_verifies() {
    let h = hash_password("hunter2").unwrap();
    assert!(verify_password("hunter2", &h));
    assert!(!verify_password("hunter3", &h));
    assert_eq!(check_password("hunter2", &h), Some(true));
    assert_eq!(check_password("x", "not a hash"), None);
}

#[test]
fn session_rows() {
    let r = session_row("t".to_string(), "1.2.3.4".to_string(), 1000, SESSION_TTL_SECS);
    assert_eq!(r.created_at, 1000);
    assert_eq!(r.last_used, 1000);
    assert_eq!(r.expires_at, 1000 + 86400);
    assert!(session_live(r.expires_at, 1000));
    assert!(!session_live(r.expires_at, 1000 + 86400));
}

#[test]
fn app_error_status() {
    assert_eq!(AppError::new("x".to_string()).status(), 500);
    assert_eq!(AppError::with_code("Unauthorized".to_string(), 401).status(), 401);
}

#[test]
fn device_types_parse_ignoring_case() {
    assert_eq!(DeviceType::from_str("Mac-OS"), Some(DeviceType::MacOs));
    assert_eq!(DeviceType::from_str("windows"), Some(DeviceType::Windows));
    assert_eq!(DeviceType::from_str("toaster"), None);
    assert_eq!(DeviceType::MacOs.as_str(), "macos");
    assert_eq!(DeviceType::MacOs.value_str(), "mac-os");
    assert_eq!(DeviceType::from_stored("macos"), Some(DeviceType::MacOs));
    assert_eq!(DeviceType::from_stored("MACOS"), None);
    assert_eq!(DeviceType::from_stored("mac-os"), None);
    for t in [DeviceType::Windows, DeviceType::Linux, DeviceType::MacOs, DeviceType::Ios,
              DeviceType::Android, DeviceType::Router, DeviceType::Other] {
        assert_eq!(DeviceType::from_str(t.value_str()), Some(t));
    }
}

#[test]
fn device_validation() {
    assert_eq!(validate_new_device("   ", "linux"), Err(DeviceError::EmptyName));
    assert_eq!(validate_new_device("Laptop", "fridge"), Err(DeviceError::InvalidType));
    assert_eq!(validate_new_device("Laptop", "LINUX"), Ok(DeviceType::Linux));
}

#[test]
fn device_ids_and_labels() {
    let id = generate_device_id().expect("system generator available");
    assert_eq!(id.len(), 8);
    assert!(id.chars().all(|c| c.is_ascii_alphanumeric()));
    assert!(pretty_device_type(DeviceType::MacOs).contains("macOS"));
    assert!(pretty_device_type(DeviceType::Ios).contains("iOS"));
}

#[test]
fn device_label_is_painted_in_its_colour() {
    let cases = [
        (DeviceType::Windows, "Windows", "56;189;248"),
        (DeviceType::Linux, "Linux", "251;191;36"),
        (DeviceType::MacOs, "macOS", "167;139;250"),
        (DeviceType::Android, "Android", "52;211;153"),
        (DeviceType::Ios, "iOS", "251;113;133"),
        (DeviceType::Router, "Router", "251;146;60"),
        (DeviceType::Other, "Other", "148;163;184"),
    ];
    for (ty, label, rgb) in cases {
        let s = pretty_device_type(ty);
        let painted = format!("\x1b[38;2;{rgb}m{label}\x1b[0m");
        assert!(s == label || s == painted, "{s:?}");
    }
}
