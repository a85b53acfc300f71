use rsdish::cabinet::{build_cabinet_from_config, is_cabinet_config_name, CABINET_CONFIG_NAME};
use rsdish::conf::{
    default_cabinet_config, default_membership, CabinetConfig, CabinetConfigError, CabinetJoinArgs, CoverLevel,
    DstOption, LinkOption, MemberConfig, SaveLevel, SrcOption,
};

fn membership(uuid: &str, cover: i32, save: i32) -> MemberConfig {
    MemberConfig {
        group_uuid: uuid.to_string(),
        priority: 2,
        src_option: SrcOption { enable: true },
        dst_option: DstOption { enable: true, cover_level: cover, save_level: save, params: "-v".to_string() },
        link_option: LinkOption { enable: false, save_level: 1 },
    }
}

fn config(ms: Vec<MemberConfig>) -> CabinetConfig {
    CabinetConfig { note: Some("n".to_string()), memberships: ms }
}

#[test]
fn levels_from_codes() {
    assert_eq!(CoverLevel::from(0), CoverLevel::DontCover);
    assert_eq!(CoverLevel::from(1), CoverLevel::HigherCover);
    assert_eq!(CoverLevel::from(2), CoverLevel::Unknown);
    assert_eq!(CoverLevel::from(-1), CoverLevel::Unknown);
    assert_eq!(SaveLevel::from(0), SaveLevel::DontSave);
    assert_eq!(SaveLevel::from(1), SaveLevel::SaveHigher);
    assert_eq!(SaveLevel::from(2), SaveLevel::SaveHigherEqual);
    assert_eq!(SaveLevel::from(3), SaveLevel::SaveAll);
    assert_eq!(SaveLevel::from(4), SaveLevel::Unknown);
    assert_eq!(SaveLevel::SaveAll.code(), 3);
    assert_eq!(CoverLevel::HigherCover.code(), 1);
}

#[test]
fn verify_accepts_valid_config() {
    assert_eq!(config(vec![membership("g1", 1, 2), membership("g2", 0, 3)]).verify(), Ok(()));
    assert_eq!(config(vec![]).verify(), Ok(()));
}

#[test]
fn verify_rejects_empty_and_blank_uuid() {
    assert_eq!(config(vec![membership("", 1, 2)]).verify(), Err(CabinetConfigError::EmptyGroupUuid));
    assert_eq!(config(vec![membership(" \t\n", 1, 2)]).verify(), Err(CabinetConfigError::EmptyGroupUuid));
    assert_eq!(config(vec![membership(" g ", 1, 2)]).verify(), Ok(()));
}

#[test]
fn verify_rejects_invalid_levels() {
    assert_eq!(config(vec![membership("g", 5, 2)]).verify(), Err(CabinetConfigError::InvalidCoverLevel(5)));
    assert_eq!(config(vec![membership("g", 1, 4)]).verify(), Err(CabinetConfigError::InvalidSaveLevel(4)));
    assert_eq!(config(vec![membership("g", 7, 9)]).verify(), Err(CabinetConfigError::InvalidCoverLevel(7)));
}

#[test]
fn verify_reports_first_faulty_membership() {
    let c = config(vec![membership("ok", 1, 2), membership("g", 1, -3), membership("", 1, 2)]);
    assert_eq!(c.verify(), Err(CabinetConfigError::InvalidSaveLevel(-3)));
}

#[test]
fn presets_rewrite_every_membership() {
    let mut c = config(vec![membership("a", 0, 0), membership("b", 1, 3)]);
    c.to_main();
    for m in &c.memberships {
        assert_eq!(m.priority, 3);
        assert!(m.src_option.enable && m.dst_option.enable && !m.link_option.enable);
        assert_eq!(m.dst_option.cover_level, 1);
        assert_eq!(m.dst_option.save_level, 2);
        assert_eq!(m.dst_option.params, "-v");
    }
    assert_eq!(c.memberships[1].group_uuid, "b");
    c.to_mirror();
    assert!(c.memberships.iter().all(|m| m.priority == 1 && m.dst_option.cover_level == 1));
    c.to_gate();
    for m in &c.memberships {
        assert_eq!(m.priority, 0);
        assert!(!m.src_option.enable && !m.dst_option.enable && m.link_option.enable);
        assert_eq!(m.link_option.save_level, 3);
    }
    assert_eq!(c.note, Some("n".to_string()));
}

#[test]
fn default_cabinet_config_is_empty() {
    let c = default_cabinet_config();
    assert_eq!(c.note, Some("New Cabinet".to_string()));
    assert!(c.memberships.is_empty());
}

#[test]
fn default_membership_has_fresh_hyphenated_uuid() {
    let a = default_membership();
    let b = default_membership();
    assert_eq!(a.group_uuid.len(), 36);
    for (i, ch) in a.group_uuid.chars().enumerate() {
        if i == 8 || i == 13 || i == 18 || i == 23 {
            assert_eq!(ch, '-');
        } else {
            assert!(ch.is_ascii_hexdigit() && !ch.is_ascii_uppercase());
        }
    }
    assert_ne!(a.group_uuid, b.group_uuid);
    assert_eq!(a.priority, 0);
    assert!(!a.src_option.enable && !a.dst_option.enable && !a.link_option.enable);
    assert_eq!(config(vec![a]).verify(), Ok(()));
}

#[test]
fn join_adds_one_membership_per_uuid() {
    let mut c = config(vec![membership("old", 1, 2)]);
    c.join(&CabinetJoinArgs { group_uuids: vec!["g1".to_string(), "g2".to_string()] });
    assert_eq!(c.memberships.len(), 3);
    assert_eq!(c.memberships[0].group_uuid, "old");
    assert_eq!(c.memberships[1].group_uuid, "g1");
    assert_eq!(c.memberships[2].group_uuid, "g2");
    assert_eq!(c.memberships[2].priority, 0);
}

#[test]
fn join_without_uuid_makes_new_group() {
    let mut c = default_cabinet_config();
    c.join(&CabinetJoinArgs { group_uuids: vec![] });
    assert_eq!(c.memberships.len(), 1);
    assert_eq!(c.memberships[0].group_uuid.len(), 36);
}

#[test]
fn cabinet_config_name_is_recognised() {
    assert!(is_cabinet_config_name(CABINET_CONFIG_NAME));
    assert!(is_cabinet_config_name("rsdish.cabinet.toml"));
    assert!(!is_cabinet_config_name("rsdish.cabinet.toml.bak"));
    assert!(!is_cabinet_config_name("data.txt"));
}

#[test]
fn build_cabinet_from_config_checks_declaration() {
    let ok = build_cabinet_from_config("/s/c".to_string(), "/s/c/rsdish.cabinet.toml".to_string(), default_cabinet_config())
        .unwrap();
    assert_eq!(ok.cab_info.abs_path, "/s/c");
    assert_eq!(ok.cab_info.conf_abs_path, "/s/c/rsdish.cabinet.toml");
    assert_eq!(ok.cab_info.cab_conf.note, Some("New Cabinet".to_string()));
    let bad = build_cabinet_from_config("/s/c".to_string(), "/s/c/x".to_string(), config(vec![membership("", 1, 1)]));
    assert_eq!(bad.err(), Some(CabinetConfigError::EmptyGroupUuid));
}
