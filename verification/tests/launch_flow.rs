use codex_tz_launcher::client::Platform;
use codex_tz_launcher::launch::{Launch, LaunchAction, LaunchEvent};
use codex_tz_launcher::settings::{Settings, ZoneCatalog};

fn catalog() -> ZoneCatalog {
    ZoneCatalog { ids: vec!["Asia/Tokyo".to_string(), "Asia/Shanghai".to_string()] }
}

fn settings(executable: &str, skin: bool) -> Settings {
    let mut s = Settings::default();
    s.zone_id = "Asia/Tokyo".to_string();
    s.executable = executable.to_string();
    s.dream_skin_compatible = skin;
    s
}

fn finished(action: LaunchAction) -> Result<String, String> {
    match action {
        LaunchAction::Finish(r) => r,
        other => panic!("expected the end of the launch, got {other:?}"),
    }
}

#[test]
fn launch_refuses_invalid_zone_at_once() {
    let mut s = settings("/Applications/Codex.app", false);
    s.zone_id = "../../etc/passwd".to_string();
    let (_, first) = Launch::start(&s, &catalog(), Platform::MacOs);
    assert_eq!(finished(first), Err("请选择有效时区或 -12 至 +14 小时的 UTC 偏移。".to_string()));
}

#[test]
fn launch_discovers_then_refuses_running_client() {
    let (mut run, first) = Launch::start(&settings("   ", false), &catalog(), Platform::MacOs);
    assert!(matches!(first, LaunchAction::Discover));
    match run.step(LaunchEvent::Found("/Applications/ChatGPT.app".to_string())) {
        LaunchAction::Validate(p) => assert_eq!(p, "/Applications/ChatGPT.app"),
        other => panic!("{other:?}"),
    }
    assert!(matches!(run.step(LaunchEvent::Done), LaunchAction::CheckRunning));
    assert_eq!(
        finished(run.step(LaunchEvent::Running(true))),
        Err("客户端正在运行，请保存工作并完全退出 Codex / ChatGPT 后重试。".to_string())
    );
}

#[test]
fn launch_without_skin_saves_then_starts() {
    let (mut run, first) = Launch::start(&settings("/Applications/Codex.app", false), &catalog(), Platform::MacOs);
    match first {
        LaunchAction::Validate(p) => assert_eq!(p, "/Applications/Codex.app"),
        other => panic!("{other:?}"),
    }
    assert!(matches!(run.step(LaunchEvent::Done), LaunchAction::CheckRunning));
    assert!(matches!(run.step(LaunchEvent::Running(false)), LaunchAction::Save));
    match run.step(LaunchEvent::Done) {
        LaunchAction::Spawn { tz, args } => {
            assert_eq!(tz, "Asia/Tokyo");
            assert!(args.is_empty());
        }
        other => panic!("{other:?}"),
    }
    assert!(matches!(run.step(LaunchEvent::Done), LaunchAction::Watch));
    assert_eq!(
        finished(run.step(LaunchEvent::Exited(None))),
        Ok("Codex 已按所选时区启动（Dream Skin 兼容启动未开启）。".to_string())
    );
}

#[test]
fn launch_with_skin_uses_one_port_throughout() {
    let mut s = settings("C:\\Codex\\Codex.exe", true);
    s.mode = "offset".to_string();
    s.offset = -5;
    let (mut run, _) = Launch::start(&s, &catalog(), Platform::Windows);
    assert!(matches!(run.step(LaunchEvent::Done), LaunchAction::CheckRunning));
    assert!(matches!(run.step(LaunchEvent::Running(false)), LaunchAction::PrepareSkin));
    let ready = LaunchEvent::SkinReady { port: 9335, profile: Some("C:\\Skin\\cdp-profile".to_string()) };
    assert!(matches!(run.step(ready), LaunchAction::Save));
    match run.step(LaunchEvent::Done) {
        LaunchAction::Spawn { tz, args } => {
            assert_eq!(tz, "Etc/GMT+5");
            assert_eq!(
                args,
                vec![
                    "--remote-debugging-address=127.0.0.1".to_string(),
                    "--remote-debugging-port=9335".to_string(),
                    "--user-data-dir=C:\\Skin\\cdp-profile".to_string(),
                ]
            );
        }
        other => panic!("{other:?}"),
    }
    assert!(matches!(run.step(LaunchEvent::Done), LaunchAction::Watch));
    assert!(matches!(run.step(LaunchEvent::Exited(None)), LaunchAction::WaitEndpoint(9335)));
    assert!(matches!(run.step(LaunchEvent::Done), LaunchAction::ApplySkin(9335)));
    assert_eq!(
        finished(run.step(LaunchEvent::Done)),
        Ok("Codex 已按所选时区启动，Dream Skin 已应用皮肤。".to_string())
    );
}

#[test]
fn launch_reports_failed_step_and_early_exit() {
    let (mut run, _) = Launch::start(&settings("/Applications/Codex.app", false), &catalog(), Platform::MacOs);
    run.step(LaunchEvent::Done);
    run.step(LaunchEvent::Running(false));
    assert_eq!(finished(run.step(LaunchEvent::Failed("磁盘已满".to_string()))), Err("磁盘已满".to_string()));

    let (mut run, _) = Launch::start(&settings("/Applications/Codex.app", true), &catalog(), Platform::MacOs);
    run.step(LaunchEvent::Done);
    run.step(LaunchEvent::Running(false));
    run.step(LaunchEvent::SkinReady { port: 9341, profile: None });
    match run.step(LaunchEvent::Done) {
        LaunchAction::Spawn { args, .. } => assert_eq!(
            args,
            vec!["--remote-debugging-address=127.0.0.1".to_string(), "--remote-debugging-port=9341".to_string()]
        ),
        other => panic!("{other:?}"),
    }
    run.step(LaunchEvent::Done);
    assert_eq!(
        finished(run.step(LaunchEvent::Exited(Some("exit status: 1".to_string())))),
        Err("客户端启动后提前退出：exit status: 1。请检查是否已有实例运行。".to_string())
    );
}

#[test]
fn launch_asks_again_on_an_answer_that_does_not_fit() {
    let (mut run, _) = Launch::start(&settings("/Applications/Codex.app", false), &catalog(), Platform::MacOs);
    assert!(matches!(run.step(LaunchEvent::Running(true)), LaunchAction::Validate(_)));
    assert!(matches!(run.step(LaunchEvent::Done), LaunchAction::CheckRunning));
    assert!(matches!(run.step(LaunchEvent::Done), LaunchAction::CheckRunning));
    assert!(matches!(run.step(LaunchEvent::Running(false)), LaunchAction::Save));
}
