use codex_tz_launcher::settings::{tz, Settings, ZoneCatalog};

fn catalog() -> ZoneCatalog {
    ZoneCatalog {
        ids: vec![
            "Asia/Shanghai".to_string(),
            "Asia/Kathmandu".to_string(),
            "America/Los_Angeles".to_string(),
            "America/New_York".to_string(),
            "Australia/Adelaide".to_string(),
        ],
    }
}

#[test]
fn default_settings_use_shanghai() {
    let s = Settings::default();
    assert_eq!(s.mode, "zone");
    assert_eq!(s.zone_id, "Asia/Shanghai");
    assert_eq!(s.offset, 8);
    assert_eq!(s.executable, "");
    assert!(!s.dream_skin_compatible);
    assert_eq!(tz(&s, &catalog()).unwrap(), "Asia/Shanghai");
}

#[test]
fn offset_names_invert_the_sign() {
    let mut s = Settings::default();
    s.mode = "offset".into();
    for offset in -12..=14 {
        s.offset = offset;
        let expected = if offset == 0 {
            "Etc/UTC".to_string()
        } else if offset > 0 {
            format!("Etc/GMT-{}", offset)
        } else {
            format!("Etc/GMT+{}", -offset)
        };
        assert_eq!(tz(&s, &catalog()).unwrap(), expected);
    }
    s.offset = -5;
    assert_eq!(tz(&s, &catalog()).unwrap(), "Etc/GMT+5");
    s.offset = 14;
    assert_eq!(tz(&s, &catalog()).unwrap(), "Etc/GMT-14");
}

#[test]
fn offsets_outside_the_range_are_refused() {
    let mut s = Settings::default();
    s.mode = "offset".into();
    for offset in [15, -13, 99, i32::MIN, i32::MAX] {
        s.offset = offset;
        assert_eq!(
            tz(&s, &catalog()).unwrap_err(),
            "请选择有效时区或 -12 至 +14 小时的 UTC 偏移。"
        );
    }
}

#[test]
fn zones_must_be_in_the_catalog() {
    let mut s = Settings::default();
    s.zone_id = "../../etc/passwd".into();
    assert!(tz(&s, &catalog()).is_err());
    s.zone_id = "Asia/Kathmandu".into();
    assert_eq!(tz(&s, &catalog()).unwrap(), "Asia/Kathmandu");
    s.zone_id = "asia/kathmandu".into();
    assert!(tz(&s, &catalog()).is_err());
    s.mode = "Zone".into();
    s.zone_id = "Asia/Kathmandu".into();
    assert!(tz(&s, &catalog()).is_err());
}

// The zone names themselves are checked here; how an operating system's
// zone data turns them into clock offsets is outside the library.
#[test]
fn timezone_rules() {
    let mut s = Settings::default();
    s.mode = "offset".into();
    for offset in -12..=14 {
        s.offset = offset;
        let name = tz(&s, &catalog()).unwrap();
        if offset == 0 {
            assert_eq!(name, "Etc/UTC");
        } else {
            let sign = if offset < 0 { "+" } else { "-" };
            assert_eq!(name, format!("Etc/GMT{}{}", sign, offset.abs()));
        }
    }
    s.offset = 15;
    assert!(tz(&s, &catalog()).is_err());
    s.mode = "zone".into();
    s.zone_id = "../../etc/passwd".into();
    assert!(tz(&s, &catalog()).is_err());
    for zone in ["America/Los_Angeles", "Asia/Kathmandu", "Australia/Adelaide"] {
        s.zone_id = zone.into();
        assert_eq!(tz(&s, &catalog()).unwrap(), zone);
    }
}

#[test]
fn every_offset_has_its_own_zone() {
    let mut s = Settings::default();
    s.mode = "offset".into();
    let mut names = std::collections::BTreeSet::new();
    for offset in -12..=14 {
        s.offset = offset;
        names.insert(tz(&s, &catalog()).unwrap());
    }
    assert_eq!(names.len(), 27);
}
