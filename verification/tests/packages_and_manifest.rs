use codex_tz_launcher::manifest::{
    app_executable_from_events, manifest_app_executable, to_windows_separators, XmlEvent,
};
use codex_tz_launcher::packages::client_packages_newest_first;

#[test]
fn packages_newest_first() {
    let packages = vec![
        ("OpenAI.Codex".to_string(), (1, 2, 0, 0)),
        ("Other.App".to_string(), (9, 9, 9, 9)),
        ("openai.codex".to_string(), (1, 10, 0, 0)),
        ("OpenAI.Codex".to_string(), (1, 2, 0, 0)),
        ("OPENAI.CODEX".to_string(), (0, 9, 0, 1)),
    ];
    assert_eq!(client_packages_newest_first(&packages), vec![2, 0, 3, 4]);
    assert_eq!(client_packages_newest_first(&vec![]), Vec::<usize>::new());
}

const MANIFEST: &str = r#"<?xml version="1.0" encoding="utf-8"?>
<Package xmlns="http://schemas.microsoft.com/appx/manifest/foundation/windows10">
  <Identity Name="OpenAI.Codex" Version="1.2.0.0" />
  <Applications>
    <Application Id="Helper" Executable="app/helper.exe">
    </Application>
    <Application Id="App" Executable="app/Codex.exe" EntryPoint="Windows.FullTrustApplication">
      <VisualElements DisplayName="Codex" />
    </Application>
  </Applications>
</Package>"#;

#[test]
fn manifest_names_the_main_executable() {
    assert_eq!(manifest_app_executable(MANIFEST), Some("app/Codex.exe".to_string()));
    assert_eq!(manifest_app_executable("<Package><Applications/></Package>"), None);
    assert_eq!(manifest_app_executable("<Package><Application Id=\"App\"></Package"), None);
    assert_eq!(
        manifest_app_executable(
            "<Package>\n  <Application Id=\"Helper\" Executable=\"h.exe\"/>\n  <Application Id=\"App\" Executable=\"main.exe\">\n  </Application>\n</Package>"
        ),
        Some("main.exe".to_string())
    );
    assert_eq!(manifest_app_executable(""), None);
    assert_eq!(to_windows_separators("app/sub/Codex.exe"), "app\\sub\\Codex.exe");
}

#[test]
fn manifest_events_decide() {
    let start = |name: &str, attrs: &[(&str, &str)]| XmlEvent::Start {
        name: name.to_string(),
        attributes: attrs.iter().map(|(k, v)| Some((k.to_string(), v.to_string()))).collect(),
    };
    let events = vec![
        XmlEvent::Other,
        start("Application", &[("Id", "Other"), ("Executable", "x.exe")]),
        start("Application", &[("Executable", "a.exe"), ("Id", "App"), ("Executable", "b.exe")]),
    ];
    assert_eq!(app_executable_from_events(&events), Some("b.exe".to_string()));
    let events = vec![XmlEvent::Failed, start("Application", &[("Id", "App"), ("Executable", "a.exe")])];
    assert_eq!(app_executable_from_events(&events), None);
    let events = vec![start("Application", &[("Id", "App")])];
    assert_eq!(app_executable_from_events(&events), None);
    let events = vec![start("Application", &[("Id", "App"), ("Executable", "a.exe"), ("Id", "Other")]), XmlEvent::Eof];
    assert_eq!(app_executable_from_events(&events), None);
}
