use codex_tz_launcher::supervise::{
    early_exit_message, endpoint_timeout_message, run_failure_message, run_step,
    run_timeout_message, wait_step, Poll,
};
use codex_tz_launcher::text::{last_lines, strip_bom};

#[test]
fn failure_report_quotes_last_six_lines() {
    let log = "a\nb\nc\nd\nverification-failed\ne\nf\ng\n";
    let m = run_failure_message("exit status: 7", log, "/tmp/skin.log");
    assert_eq!(m, "Dream Skin 应用失败（exit status: 7）：\nc\nd\nverification-failed\ne\nf\ng\n日志：/tmp/skin.log");
    assert!(m.contains("verification-failed"));
    assert!(m.contains("7"));
}

#[test]
fn last_lines_follow_str_lines() {
    assert_eq!(last_lines("1\n2\n3\n4\n5\n6\n7\n8", 6), "3\n4\n5\n6\n7\n8");
    assert_eq!(last_lines("x\r\ny\r\n", 6), "x\ny");
    assert_eq!(last_lines("", 6), "");
    assert_eq!(last_lines("\n\n", 6), "\n");
    assert_eq!(last_lines("only", 6), "only");
    assert_eq!(last_lines("a\nb", 0), "");
    assert_eq!(last_lines("a\r", 6), "a\r");
    assert_eq!(last_lines("a\rb\n", 6), "a\rb");
}

#[test]
fn timeout_reports() {
    assert_eq!(run_timeout_message("/x/dream-skin.log"), "Dream Skin 验证超时，尚未确认皮肤生效，任务仍在后台运行。日志：/x/dream-skin.log");
    assert_eq!(
        endpoint_timeout_message(9341),
        "客户端已启动，但皮肤调试接口 127.0.0.1:9341 未就绪。请完全退出客户端后勾选兼容启动重试。"
    );
    assert_eq!(early_exit_message("exit status: 1", true), "客户端启动后提前退出：exit status: 1。请检查是否已有实例运行。");
    assert_eq!(early_exit_message("exit code: 1", false), "客户端启动后提前退出：exit code: 1。");
}

#[test]
fn polling_steps() {
    assert_eq!(run_step(Some(true), false), Poll::Finish);
    assert_eq!(run_step(Some(false), true), Poll::Fail);
    assert_eq!(run_step(None, true), Poll::GiveUp);
    assert_eq!(run_step(None, false), Poll::Again);
    assert_eq!(wait_step(true, true), Poll::Finish);
    assert_eq!(wait_step(false, true), Poll::GiveUp);
    assert_eq!(wait_step(false, false), Poll::Again);
}

#[test]
fn byte_order_mark_is_stripped_once() {
    assert_eq!(strip_bom(b"\xef\xbb\xbf{}"), b"{}");
    assert_eq!(strip_bom(b"\xef\xbb\xbf\xef\xbb\xbf{}"), b"\xef\xbb\xbf{}");
    assert_eq!(strip_bom(b"{}"), b"{}");
    assert_eq!(strip_bom(b"\xef\xbb"), b"\xef\xbb");
}

#[test]
fn skin_script_failure_is_not_reported_as_success() {
    assert_ne!(run_step(Some(false), false), Poll::Finish);
    let error = run_failure_message("exit status: 7", "verification-failed\n", "/tmp/skin.log");
    assert!(error.contains("verification-failed"));
    assert!(error.contains("7"));
}
