use codex_tz_launcher::client::{
    already_running_message, bundle_executable_ok, clean_path_text, client_exe_name_ok,
    debugging_arguments, discovery_candidate_paths, is_client_bundle_id, join_unix_path,
    launched_message, needs_discovery, process_counts_as_running, same_windows_path, Platform,
};
use codex_tz_launcher::command::{parse_command, unknown_command_message, BackendCommand};
use codex_tz_launcher::process::{app_bundle_depth, process_list_has, windows_path_within};

#[test]
fn blank_executable_means_discovery() {
    assert!(needs_discovery(""));
    assert!(needs_discovery("  \t\u{3000}"));
    assert!(!needs_discovery(" /Applications/Codex.app "));
}

#[test]
fn pasted_paths_are_cleaned() {
    assert_eq!(clean_path_text("  \"/Applications/带 空格.app\"  "), "/Applications/带 空格.app");
    assert_eq!(clean_path_text("\"\"C:\\Codex\\Codex.exe\"\""), "C:\\Codex\\Codex.exe");
    assert_eq!(clean_path_text("\" /x \""), " /x ");
    assert_eq!(clean_path_text("\"\"\""), "");
}

#[test]
fn bundle_checks() {
    assert!(is_client_bundle_id("com.openai.codex"));
    assert!(!is_client_bundle_id("other.app"));
    assert!(!is_client_bundle_id("com.openai.codex "));
    assert!(bundle_executable_ok("ChatGPT"));
    assert!(!bundle_executable_ok(""));
    assert!(!bundle_executable_ok("."));
    assert!(!bundle_executable_ok(".."));
    assert!(!bundle_executable_ok("../bin"));
    assert!(bundle_executable_ok("..."));
}

#[test]
fn windows_executable_names() {
    assert!(client_exe_name_ok("Codex.exe"));
    assert!(client_exe_name_ok("CHATGPT.EXE"));
    assert!(!client_exe_name_ok("codex.com"));
    assert!(!client_exe_name_ok("codex-cli.exe"));
    assert!(client_exe_name_ok("ChatGPT.Exe"));
}

#[test]
fn windows_paths_compare_without_case_and_verbatim_prefix() {
    assert!(same_windows_path(r"\\?\C:\Apps\Codex.exe", r"c:\apps\codex.EXE"));
    assert!(same_windows_path(r"\\?\\\?\C:\A", r"C:\a"));
    assert!(!same_windows_path(r"C:\Apps\Codex.exe", r"C:\Apps\ChatGPT.exe"));
}

#[test]
fn debugging_arguments_name_the_port() {
    assert_eq!(
        debugging_arguments(9341, None),
        vec!["--remote-debugging-address=127.0.0.1".to_string(), "--remote-debugging-port=9341".to_string()]
    );
    assert_eq!(
        debugging_arguments(9335, Some("C:\\Skin\\cdp-profile")),
        vec![
            "--remote-debugging-address=127.0.0.1".to_string(),
            "--remote-debugging-port=9335".to_string(),
            "--user-data-dir=C:\\Skin\\cdp-profile".to_string(),
        ]
    );
}

#[test]
fn launch_reports() {
    assert_eq!(launched_message(Platform::MacOs, false), "Codex 已按所选时区启动（Dream Skin 兼容启动未开启）。");
    assert_eq!(launched_message(Platform::Windows, false), "Codex 已按所选时区启动（Dream Skin 兼容启动未开启）。");
    assert_eq!(launched_message(Platform::MacOs, true), "Codex 已按所选时区启动，Dream Skin 已验证应用。");
    assert_eq!(launched_message(Platform::Windows, true), "Codex 已按所选时区启动，Dream Skin 已应用皮肤。");
    assert!(already_running_message(Platform::MacOs).contains("正在运行"));
    assert_eq!(already_running_message(Platform::Windows), "客户端正在运行，请保存工作并完全退出 Codex 后重试。");
}

#[test]
fn commands_are_recognised() {
    assert_eq!(parse_command("bootstrap"), Some(BackendCommand::Bootstrap));
    assert_eq!(parse_command("launch_dream_skin"), Some(BackendCommand::LaunchDreamSkinApp));
    assert_eq!(parse_command("launch_dream_skin_app"), Some(BackendCommand::LaunchDreamSkinApp));
    assert_eq!(parse_command("network_info"), Some(BackendCommand::NetworkInfo));
    assert_eq!(parse_command("Launch"), None);
    assert_eq!(unknown_command_message("reboot"), "未知命令：reboot");
}

#[test]
fn process_listing_compares_paths() {
    let exe = "/Applications/Codex.app/Contents/MacOS/Codex";
    let listing = "/sbin/launchd\n  /Applications//Codex.app/./Contents/MacOS/Codex/  \n/usr/bin/ssh\n";
    assert!(process_list_has(listing, exe));
    assert!(!process_list_has("/sbin/launchd\nApplications/Codex.app/Contents/MacOS/Codex\n", exe));
    assert!(!process_list_has("/Applications/Codex.app/Contents/MacOS/Codex Helper\n", exe));
    assert!(!process_list_has("", exe));
    assert!(process_list_has("/a/b\r\n", "/a/b"));
    assert!(!process_list_has("./a", "a"));
}

#[test]
fn bundle_is_the_nearest_app_ancestor() {
    assert_eq!(app_bundle_depth("/Applications/Codex.app/Contents/MacOS/Codex"), Some(3));
    assert_eq!(app_bundle_depth("/Applications/Codex.app"), Some(0));
    assert_eq!(app_bundle_depth("/Applications/Codex.app/"), Some(0));
    assert_eq!(app_bundle_depth("/A.app/B.app/Contents/MacOS/x"), Some(3));
    assert_eq!(app_bundle_depth("/Applications/.app/Contents"), None);
    assert_eq!(app_bundle_depth("/usr/local/bin/codex"), None);
    assert_eq!(app_bundle_depth("/x/Codex.app.bak/y"), None);
}

#[test]
fn package_folder_holds_whole_parts() {
    let root = "\\\\?\\C:\\Program Files\\WindowsApps\\OpenAI.Codex_1";
    assert!(windows_path_within("\\\\?\\C:\\Program Files\\WindowsApps\\OpenAI.Codex_1\\app\\Codex.exe", root));
    assert!(windows_path_within(root, root));
    assert!(!windows_path_within("\\\\?\\C:\\Program Files\\WindowsApps\\OpenAI.Codex_10\\Codex.exe", root));
    assert!(!windows_path_within("\\\\?\\C:\\Windows\\System32\\cmd.exe", root));
}

#[test]
fn snapshot_entries_that_count_as_running() {
    let exe = "\\\\?\\C:\\Codex\\Codex.exe";
    assert!(process_counts_as_running("Codex.exe", true, Some("\\\\?\\c:\\codex\\codex.exe"), exe));
    assert!(process_counts_as_running("CHATGPT.EXE", true, None, exe));
    assert!(!process_counts_as_running("Codex.exe", false, None, exe));
    assert!(!process_counts_as_running("notepad.exe", true, None, exe));
    assert!(!process_counts_as_running("Codex.exe", true, Some("\\\\?\\C:\\Other\\Codex.exe"), exe));
}

#[test]
fn discovery_tries_system_then_home_applications() {
    assert_eq!(
        discovery_candidate_paths(Some("/Users/ana")),
        vec![
            "/Applications/Codex.app".to_string(),
            "/Applications/ChatGPT.app".to_string(),
            "/Users/ana/Applications/Codex.app".to_string(),
            "/Users/ana/Applications/ChatGPT.app".to_string(),
        ]
    );
    assert_eq!(
        discovery_candidate_paths(None),
        vec!["/Applications/Codex.app".to_string(), "/Applications/ChatGPT.app".to_string()]
    );
    assert_eq!(join_unix_path("/Users/ana/", "Applications"), "/Users/ana/Applications");
    assert_eq!(join_unix_path("", "Applications"), "Applications");
}
