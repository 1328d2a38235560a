use boopass::loader::{is_process_attach, os_banner, proxy_target_path, push_decimal, DLL_PROCESS_ATTACH};

#[test]
fn attach_reason() {
    assert_eq!(DLL_PROCESS_ATTACH, 1);
    assert!(is_process_attach(1));
    assert!(!is_process_attach(0));
    assert!(!is_process_attach(2));
    assert!(!is_process_attach(3));
}

#[test]
fn proxy_path_in_system_directory() {
    assert_eq!(proxy_target_path("C:\\Windows\\system32"), "C:\\Windows\\system32\\dinput8.dll");
    assert_eq!(proxy_target_path(""), "\\dinput8.dll");
}

#[test]
fn decimal_notation() {
    let mut s = String::from("n=");
    push_decimal(&mut s, 0);
    assert_eq!(s, "n=0");
    let mut s = String::new();
    push_decimal(&mut s, 4294967295);
    assert_eq!(s, "4294967295");
    let mut s = String::new();
    push_decimal(&mut s, 1000);
    assert_eq!(s, "1000");
}

#[test]
fn banner_on_windows() {
    assert_eq!(os_banner(10, 0, 19045, None), "Starting on Windows v10.0.19045.");
    assert_eq!(os_banner(6, 1, 7601, None), "Starting on Windows v6.1.7601.");
}

#[test]
fn banner_under_wine() {
    assert_eq!(
        os_banner(10, 0, 19045, Some("9.0")),
        "Starting on Windows v10.0.19045 in Wine v9.0"
    );
}

#[test]
fn banner_matches_format() {
    let wine = "8.0.2";
    for (a, b, c) in [(0u32, 0u32, 0u32), (5, 1, 2600), (u32::MAX, 7, 10)] {
        assert_eq!(os_banner(a, b, c, None), format!("Starting on Windows v{}.{}.{}.", a, b, c));
        assert_eq!(
            os_banner(a, b, c, Some(wine)),
            format!("Starting on Windows v{}.{}.{} in Wine v{}", a, b, c, wine)
        );
    }
}
