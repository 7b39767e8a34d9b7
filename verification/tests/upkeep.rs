use kasugai_converter::tools::{
    bind_again, check_update_url, BIND_RETRIES, BIND_RETRY_DELAY_MS, configured_tool_path, env_path_candidate, first_line_path, folder_to_open, index_page,
    local_tool_path, update_info, updater_command,
};

fn s(x: &str) -> String {
    x.to_string()
}

#[test]
fn tool_paths() {
    assert_eq!(env_path_candidate(&Some(s("  C:/jdk/bin/java.exe "))), Some(s("C:/jdk/bin/java.exe")));
    assert_eq!(env_path_candidate(&Some(s("  "))), None);
    assert_eq!(local_tool_path(Some(s("e")), true, "b", true), Some(s("e")));
    assert_eq!(local_tool_path(Some(s("e")), false, "b", true), Some(s("b")));
    assert_eq!(local_tool_path(None, false, "b", false), None);
    assert_eq!(first_line_path("C:\\java\\bin\\java.exe\r\nC:\\other\\java.exe\r\n"), Some(s("C:\\java\\bin\\java.exe")));
    assert_eq!(first_line_path(""), None);
    assert_eq!(first_line_path("  \nsecond"), None);
    assert_eq!(configured_tool_path(&Some(s(" x ")), "d", true, None), "x");
    assert_eq!(configured_tool_path(&None, "d", false, Some(("a", true))), "a");
    assert_eq!(configured_tool_path(&None, "d", true, Some(("a", true))), "d");
    assert_eq!(configured_tool_path(&Some(s("")), "d", false, Some(("a", false))), "d");
}

#[test]
fn update_checks() {
    let platforms = vec![(s("linux"), s("l.zip")), (s("windows-x86_64"), s("w.zip"))];
    let u = update_info("0.7.0", "0.8.0", "notes", &platforms);
    assert!(u.update_available);
    assert_eq!(u.url.as_deref(), Some("w.zip"));
    let u = update_info("0.7.0", "0.7.0", "", &vec![]);
    assert!(!u.update_available);
    assert!(u.url.is_none());
    assert_eq!(check_update_url(" https://x/a.zip ").unwrap(), "https://x/a.zip");
    assert_eq!(check_update_url("http://x/a.zip").unwrap_err().message, "url must be an https URL");
    assert_eq!(check_update_url("https://x/a.exe").unwrap_err().message, "url must point to a zip file");
    assert_eq!(check_update_url("  ").unwrap_err().status, 400);
    let c = updater_command("C:/t/updater.ps1", "C:/app", "https://x/a.zip", 1234);
    assert_eq!(c.program, "powershell");
    assert_eq!(
        c.args,
        vec!["-WindowStyle", "Hidden", "-ExecutionPolicy", "Bypass", "-File", "C:/t/updater.ps1", "C:/app", "https://x/a.zip", "1234"]
    );
}

#[test]
fn folders_and_index() {
    assert_eq!(folder_to_open(" C:/data ").unwrap(), "C:/data");
    assert_eq!(folder_to_open(" ").unwrap_err().message, "path is required");
    assert_eq!(index_page("<b>v<version></b><version>", "0.7.0"), "<b>v0.7.0</b>0.7.0");
}

#[test]
fn port_binding_is_retried_sixty_times() {
    assert!(bind_again(0));
    assert!(bind_again(59));
    assert!(!bind_again(60));
    assert_eq!(BIND_RETRIES, 60);
    assert_eq!(BIND_RETRY_DELAY_MS, 500);
}
