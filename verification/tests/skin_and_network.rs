use codex_tz_launcher::client::Platform;
use codex_tz_launcher::network::{
    network_info, proxy_configured, proxy_variables, public_ip_from_fields, public_ip_from_reply,
    public_ip_service_urls, query_failed_message, route_answer,
};
use codex_tz_launcher::settings::ZoneCatalog;
use codex_tz_launcher::skin::{
    complete_script_folder, profile_setting, read_skin_state, skin_port, skin_script_files, SkinState,
};

fn catalog() -> ZoneCatalog {
    ZoneCatalog { ids: vec!["Asia/Tokyo".to_string(), "Europe/Paris".to_string()] }
}

#[test]
fn skin_state_members() {
    let st = read_skin_state(br#"{"port": 9400, "injectorPath": "C:\\Skin\\engine\\injector.ps1", "profilePath": "  "}"#).unwrap();
    assert_eq!(st.port, Some(9400));
    assert_eq!(st.injector_path.as_deref(), Some("C:\\Skin\\engine\\injector.ps1"));
    assert_eq!(profile_setting(&st), None);
    let st = read_skin_state(br#"{"port": "9400", "profilePath": "D:\\p"}"#).unwrap();
    assert_eq!(st.port, None);
    assert_eq!(profile_setting(&st), Some("D:\\p".to_string()));
    assert!(read_skin_state(b"{port").is_err());
    let st = read_skin_state(b"[1, 2]").unwrap();
    assert_eq!(st.port, None);
    assert_eq!(st.injector_path, None);
}

#[test]
fn skin_ports() {
    assert_eq!(skin_port(&SkinState::empty(), Platform::MacOs), Ok(9341));
    assert_eq!(skin_port(&SkinState::empty(), Platform::Windows), Ok(9335));
    let mut st = SkinState::empty();
    st.port = Some(1024);
    assert_eq!(skin_port(&st, Platform::Windows), Ok(1024));
    st.port = Some(65535);
    assert_eq!(skin_port(&st, Platform::MacOs), Ok(65535));
    st.port = Some(1023);
    assert_eq!(skin_port(&st, Platform::MacOs), Err("Dream Skin 端口无效。".to_string()));
    st.port = Some(65536);
    assert!(skin_port(&st, Platform::Windows).is_err());
}

#[test]
fn script_folder_must_be_complete() {
    assert_eq!(skin_script_files().len(), 5);
    assert_eq!(skin_script_files()[0], "start-dream-skin.ps1");
    assert_eq!(skin_script_files()[1], "tray-dream-skin.ps1");
    let present = vec![vec![true, true, false, true, true], vec![true; 5], vec![true; 5]];
    assert_eq!(complete_script_folder(&present), Some(1));
    assert_eq!(complete_script_folder(&vec![vec![false; 5]]), None);
    assert_eq!(complete_script_folder(&vec![]), None);
}

#[test]
fn proxy_detection() {
    assert_eq!(proxy_variables().len(), 6);
    assert!(!proxy_configured(&vec![None, None]));
    assert!(!proxy_configured(&vec![Some(String::new()), None]));
    assert!(proxy_configured(&vec![None, Some("http://127.0.0.1:7890".to_string())]));
}

#[test]
fn public_ip_replies() {
    let ok = public_ip_from_reply(
        br#"{"ip":"203.0.113.5","timezone":"Asia/Tokyo","city":"Tokyo","country_name":"Japan"}"#,
        true,
        &catalog(),
    )
    .unwrap();
    assert_eq!(ok.ip, "203.0.113.5");
    assert_eq!(ok.timezone, "Asia/Tokyo");
    assert_eq!(ok.city_json.as_deref(), Some("\"Tokyo\""));
    assert_eq!(ok.country_json.as_deref(), Some("\"Japan\""));
    assert!(ok.via_proxy);
    let bare = public_ip_from_reply(br#"{"ip":"1.2.3.4","timezone":"Europe/Paris","city":null}"#, false, &catalog()).unwrap();
    assert_eq!(bare.city_json.as_deref(), Some("null"));
    assert_eq!(bare.country_json, None);
    assert!(!bare.via_proxy);
    assert_eq!(
        public_ip_from_reply(br#"{"ip":"  ","timezone":"Asia/Tokyo"}"#, false, &catalog()).err(),
        Some("公网 IP 服务未返回地址。".to_string())
    );
    assert_eq!(
        public_ip_from_reply(br#"{"ip":"1.2.3.4"}"#, false, &catalog()).err(),
        Some("公网 IP 服务未返回时区。".to_string())
    );
    assert_eq!(
        public_ip_from_reply(br#"{"ip":"1.2.3.4","timezone":"Mars/Olympus"}"#, false, &catalog()).err(),
        Some("公网 IP 返回了未收录的时区：Mars/Olympus".to_string())
    );
    assert!(public_ip_from_reply(b"<html>", false, &catalog()).unwrap_err().starts_with("公网 IP 服务返回无效数据："));
    assert_eq!(query_failed_message("  curl: (6) Could not resolve host\n"), "公网 IP 查询失败：curl: (6) Could not resolve host");
}

#[test]
fn network_needs_one_answer() {
    assert_eq!(network_info(true, None, None).err(), Some("无法获取公网 IP，请检查网络连接。".to_string()));
    let one = public_ip_from_reply(br#"{"ip":"1.2.3.4","timezone":"Europe/Paris"}"#, false, &catalog()).unwrap();
    let info = network_info(false, None, Some(one)).unwrap();
    assert!(info.proxy.is_none());
    assert_eq!(info.direct.unwrap().ip, "1.2.3.4");
    assert!(!info.proxy_configured);
}

#[test]
fn public_ip_fields_are_checked() {
    let ok = public_ip_from_fields(
        Some("198.51.100.7".to_string()),
        Some("Europe/Paris".to_string()),
        Some("\"Paris\"".to_string()),
        None,
        false,
        &catalog(),
    )
    .unwrap();
    assert_eq!(ok.ip, "198.51.100.7");
    assert_eq!(ok.timezone, "Europe/Paris");
    assert_eq!(ok.city_json.as_deref(), Some("\"Paris\""));
    assert_eq!(ok.country_json, None);
    assert_eq!(
        public_ip_from_fields(None, Some("Europe/Paris".to_string()), None, None, false, &catalog()).err(),
        Some("公网 IP 服务未返回地址。".to_string())
    );
    assert_eq!(
        public_ip_from_fields(Some("1.2.3.4".to_string()), Some(" ".to_string()), None, None, false, &catalog()).err(),
        Some("公网 IP 服务未返回时区。".to_string())
    );
    assert_eq!(
        public_ip_from_fields(Some("1.2.3.4".to_string()), Some("Mars/Base".to_string()), None, None, false, &catalog()).err(),
        Some("公网 IP 返回了未收录的时区：Mars/Base".to_string())
    );
}

#[test]
fn route_falls_back_to_the_next_service() {
    assert_eq!(public_ip_service_urls(), vec!["https://ipinfo.io/json", "https://ipapi.co/json/"]);
    let good = br#"{"ip":"203.0.113.9","timezone":"Asia/Tokyo","country_name":"Japan"}"#.to_vec();
    let other = br#"{"ip":"203.0.113.10","timezone":"Europe/Paris"}"#.to_vec();
    let refused = br#"{"ip":"203.0.113.9","timezone":"Mars/Base"}"#.to_vec();
    let answer = route_answer(&vec![None, Some(refused.clone()), Some(good), Some(other.clone())], true, &catalog()).unwrap();
    assert_eq!(answer.ip, "203.0.113.9");
    assert_eq!(answer.timezone, "Asia/Tokyo");
    assert_eq!(answer.country_json.as_deref(), Some("\"Japan\""));
    assert!(answer.via_proxy);
    assert_eq!(route_answer(&vec![Some(other), None], false, &catalog()).unwrap().timezone, "Europe/Paris");
    assert!(route_answer(&vec![None, Some(refused), Some(b"<html>".to_vec())], false, &catalog()).is_none());
    assert!(route_answer(&vec![], false, &catalog()).is_none());
}
