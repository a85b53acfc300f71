use rsdish::cabinet::{Cabinet, CabinetInfo};
use rsdish::conf::{CabinetConfig, DstOption, LinkOption, MemberConfig, SrcOption};
use rsdish::group::{build_group_map_from_storages, select_groups, Group, GroupInfo};
use rsdish::member::{Member, MemberInfo};
use rsdish::policy::{DstState, FileStat, LeafProbe};
use rsdish::storage::{build_storage, Storage, StorageInfo};
use rsdish::symlink::{symlink_steps, temp_link_name, LinkStep, PriorEntry};
use rsdish::user::UserConfig;
use rsdish::vmem::{build_virtual_member_from_group, FoundFile, VirtualMember};

fn conf(uuid: &str, priority: i32, src: bool, dst: bool, cover: i32, save: i32, link: bool, link_save: i32) -> MemberConfig {
    MemberConfig {
        group_uuid: uuid.to_string(),
        priority,
        src_option: SrcOption { enable: src },
        dst_option: DstOption { enable: dst, cover_level: cover, save_level: save, params: String::new() },
        link_option: LinkOption { enable: link, save_level: link_save },
    }
}

fn cab_info(root: &str, ms: Vec<MemberConfig>) -> CabinetInfo {
    CabinetInfo {
        abs_path: root.to_string(),
        conf_abs_path: format!("{}/rsdish.cabinet.toml", root),
        cab_conf: CabinetConfig { note: None, memberships: ms },
    }
}

fn member(root: &str, c: MemberConfig) -> Member {
    Member { mem_info: MemberInfo { mem_conf: c, cab_info: cab_info(root, vec![]), stg_info: StorageInfo { abs_path: "/".to_string() } } }
}

fn group(mems: Vec<Member>) -> Group {
    Group { gp_info: GroupInfo { gp_uuid: "g".to_string() }, mems }
}

fn found(root: &str, rels: &[&str]) -> Vec<FoundFile> {
    rels.iter().map(|r| FoundFile { rel_path: r.to_string(), abs_path: format!("{}/{}", root, r) }).collect()
}

fn stat(size: u64, modified: i128) -> FileStat {
    FileStat { size, modified }
}

/// A destination as a map from relative path to (contents, modification time).
type Disk = Vec<(String, String, i128)>;

fn probe_dir(v: &VirtualMember, disk: &Disk, sources: &[(&str, &str, i128)]) -> Vec<LeafProbe> {
    v.virtual_tree
        .iter()
        .map(|l| {
            let src = sources.iter().find(|(p, _, _)| *p == l.file_abs_path).map(|(_, c, t)| stat(c.len() as u64, *t));
            let dst = match disk.iter().find(|(p, _, _)| *p == l.file_rel_path) {
                Some((_, c, t)) => DstState::Present(stat(c.len() as u64, *t)),
                None => DstState::Absent,
            };
            LeafProbe { dst, src }
        })
        .collect()
}

fn apply_copies(v: &VirtualMember, plan: &[bool], disk: &mut Disk, sources: &[(&str, &str, i128)], now: i128) -> usize {
    let mut n = 0;
    for (l, copy) in v.virtual_tree.iter().zip(plan) {
        if *copy {
            let (_, content, _) = sources.iter().find(|(p, _, _)| *p == l.file_abs_path).unwrap();
            disk.retain(|(p, _, _)| *p != l.file_rel_path);
            disk.push((l.file_rel_path.clone(), content.to_string(), now));
            n += 1;
        }
    }
    n
}

fn content(disk: &Disk, rel: &str) -> Option<String> {
    disk.iter().find(|(p, _, _)| p == rel).map(|(_, c, _)| c.clone())
}

#[test]
fn end_to_end_sync_then_clean() {
    let sources = [("/a/x", "1", 10), ("/b/x", "2", 10), ("/b/y", "3", 10), ("/c/x", "5", 50)];
    let a = conf("g", 1, true, false, 0, 0, false, 0);
    let b = conf("g", 3, true, false, 0, 0, false, 0);
    let d = conf("g", 0, false, true, 1, 3, false, 0);
    let g = group(vec![member("/a", a.clone()), member("/b", b.clone()), member("/d", d.clone())]);
    let walks = vec![found("/a", &["x"]), found("/b", &["x", "y"]), vec![]];
    let v = build_virtual_member_from_group(&g, &walks);
    assert_eq!(v.highest_priority, 3);
    let mut disk: Disk = vec![];
    let probes = vec![vec![], vec![], probe_dir(&v, &disk, &sources)];
    let plan = g.sync_from_vmem(&v, &probes, false);
    assert!(plan[0].is_empty() && plan[1].is_empty());
    apply_copies(&v, &plan[2], &mut disk, &sources, 100);
    assert_eq!(content(&disk, "x"), Some("2".to_string()));
    assert_eq!(content(&disk, "y"), Some("3".to_string()));

    // a third source of priority 5 appears
    let c = conf("g", 5, true, false, 0, 0, false, 0);
    let g2 = group(vec![member("/a", a), member("/b", b), member("/c", c), member("/d", d)]);
    let walks2 = vec![found("/a", &["x"]), found("/b", &["x", "y"]), found("/c", &["x"]), vec![]];
    let v2 = build_virtual_member_from_group(&g2, &walks2);
    assert_eq!(v2.highest_priority, 5);
    let sources2 = [("/a/x", "1", 10), ("/b/x", "2", 10), ("/b/y", "3", 10), ("/c/x", "5", 150)];
    let probes2 = vec![vec![], vec![], vec![], probe_dir(&v2, &disk, &sources2)];
    let plan2 = g2.sync_from_vmem(&v2, &probes2, false);
    apply_copies(&v2, &plan2[3], &mut disk, &sources2, 200);
    assert_eq!(content(&disk, "x"), Some("5".to_string()));

    let files = vec![vec![], vec![], vec![], disk.iter().map(|(p, _, _)| p.clone()).collect::<Vec<_>>()];
    let removed = g2.clean_from_vmem(&v2, &files);
    let gone: Vec<&String> = files[3].iter().zip(&removed[3]).filter(|(_, r)| **r).map(|(p, _)| p).collect();
    assert_eq!(gone, vec![&"y".to_string()]);
}

#[test]
fn second_sync_pass_copies_nothing() {
    let sources = [("/a/x", "hello", 10), ("/a/y", "abc", 20)];
    let d = conf("g", 0, false, true, 1, 3, false, 0);
    let g = group(vec![member("/a", conf("g", 2, true, false, 0, 0, false, 0)), member("/d", d)]);
    let v = build_virtual_member_from_group(&g, &vec![found("/a", &["x", "y"]), vec![]]);
    // "y" exists but is stale (older, different size)
    let mut disk: Disk = vec![("y".to_string(), "old contents".to_string(), 5)];
    let plan = g.sync_from_vmem(&v, &vec![vec![], probe_dir(&v, &disk, &sources)], false);
    assert_eq!(apply_copies(&v, &plan[1], &mut disk, &sources, 30), 2);
    let again = g.sync_from_vmem(&v, &vec![vec![], probe_dir(&v, &disk, &sources)], false);
    assert!(again[1].iter().all(|c| !c));
    let strict = g.sync_from_vmem(&v, &vec![vec![], probe_dir(&v, &disk, &sources)], true);
    assert!(strict[1].iter().all(|c| *c));
}

#[test]
fn clean_leaves_unknown_files_alone() {
    let g = group(vec![
        member("/hi", conf("g", 5, true, false, 0, 0, false, 0)),
        member("/lo", conf("g", 1, true, false, 0, 0, false, 0)),
        member("/d", conf("g", 0, false, true, 1, 3, false, 0)),
    ]);
    let v = build_virtual_member_from_group(&g, &vec![found("/hi", &["a"]), found("/lo", &["b"]), vec![]]);
    let files = vec![vec![], vec![], vec!["a".to_string(), "b".to_string(), "foreign".to_string()]];
    let r = g.clean_from_vmem(&v, &files);
    assert_eq!(r[2], vec![false, true, false]);
    assert!(r[0].is_empty() && r[1].is_empty());
}

#[test]
fn link_pass_targets_link_members_only() {
    let g = group(vec![
        member("/a", conf("g", 3, true, false, 0, 0, false, 0)),
        member("/gate", conf("g", 0, false, false, 0, 0, true, 3)),
    ]);
    let v = build_virtual_member_from_group(&g, &vec![found("/a", &["x", "y"]), vec![]]);
    let probes = vec![vec![], vec![
        LeafProbe { dst: DstState::Absent, src: None },
        LeafProbe { dst: DstState::Present(stat(1, 1)), src: None },
    ]];
    let r = g.link_from_vmem(&v, &probes);
    assert!(r[0].is_empty());
    assert_eq!(r[1], vec![true, false]);
}

fn storage(root: &str, cabs: Vec<(&str, Vec<MemberConfig>)>) -> Storage {
    let cabs: Vec<Cabinet> = cabs.into_iter().map(|(p, ms)| Cabinet { cab_info: cab_info(p, ms) }).collect();
    build_storage(root.to_string(), cabs).unwrap()
}

#[test]
fn groups_collect_members_by_uuid() {
    let stgs = vec![
        storage("/s1", vec![("/s1/c1", vec![conf("g1", 1, true, false, 0, 0, false, 0), conf("g2", 2, true, false, 0, 0, false, 0)])]),
        storage("/s2", vec![("/s2/c2", vec![conf("g2", 3, false, true, 1, 2, false, 0)]), ("/s2/c3", vec![])]),
    ];
    let gs = build_group_map_from_storages(&stgs);
    assert_eq!(gs.len(), 2);
    assert_eq!(gs[0].gp_info.gp_uuid, "g1");
    assert_eq!(gs[0].mems.len(), 1);
    assert_eq!(gs[1].gp_info.gp_uuid, "g2");
    assert_eq!(gs[1].mems.len(), 2);
    assert_eq!(gs[1].mems[0].mem_info.cab_info.abs_path, "/s1/c1");
    assert_eq!(gs[1].mems[1].mem_info.cab_info.abs_path, "/s2/c2");
    assert_eq!(gs[1].mems[1].mem_info.stg_info.abs_path, "/s2");
    assert_eq!(gs[1].mems[1].mem_info.mem_conf.priority, 3);
    assert!(build_group_map_from_storages(&vec![]).is_empty());
}

#[test]
fn storage_without_cabinets_is_dropped() {
    assert!(build_storage("/empty".to_string(), vec![]).is_none());
}

#[test]
fn select_groups_reports_unknown_uuids() {
    let gs = vec![
        Group { gp_info: GroupInfo { gp_uuid: "g1".to_string() }, mems: vec![] },
        Group { gp_info: GroupInfo { gp_uuid: "g2".to_string() }, mems: vec![] },
    ];
    let (picked, unknown) = select_groups(&gs, false, &vec!["g2".to_string(), "nope".to_string(), "g1".to_string()]);
    assert_eq!(picked, vec![1, 0]);
    assert_eq!(unknown, vec!["nope".to_string()]);
    let (all, none) = select_groups(&gs, true, &vec!["nope".to_string()]);
    assert_eq!(all, vec![0, 1]);
    assert!(none.is_empty());
}

#[test]
fn exec_runs_in_every_member_root() {
    let g = group(vec![member("/a", conf("g", 1, true, false, 0, 0, false, 0)), member("/b", conf("g", 0, false, false, 0, 0, false, 0))]);
    let runs = g.exec(&"ls".to_string());
    assert_eq!(runs.len(), 2);
    assert_eq!(runs[0].dir, "/a");
    assert_eq!(runs[1].dir, "/b");
    assert_eq!(runs[1].script, "ls");
}

#[test]
fn symlink_steps_clear_only_links_and_directories() {
    assert_eq!(symlink_steps(PriorEntry::Absent), vec![LinkStep::CreateTemp, LinkStep::RenameTemp]);
    assert_eq!(symlink_steps(PriorEntry::Other), vec![LinkStep::CreateTemp, LinkStep::RenameTemp]);
    assert_eq!(symlink_steps(PriorEntry::Symlink), vec![LinkStep::CreateTemp, LinkStep::RemoveSymlink, LinkStep::RenameTemp]);
    assert_eq!(symlink_steps(PriorEntry::Directory), vec![LinkStep::CreateTemp, LinkStep::RemoveDirAll, LinkStep::RenameTemp]);
}

#[test]
fn temp_link_name_appends_pid_and_time() {
    assert_eq!(temp_link_name(Some("my_link"), 1234, 1698324000000), "my_link_1234_1698324000000");
    assert_eq!(temp_link_name(None, 0, 7), "link_0_7");
}

#[test]
fn storage_roots_put_mounts_first() {
    let u = UserConfig { rclone_path: String::new(), custom_storages: vec!["/mnt/x".to_string()] };
    assert_eq!(u.storage_roots(&vec!["/".to_string(), "/media/usb".to_string()]), vec!["/", "/media/usb", "/mnt/x"]);
    assert!(UserConfig::default().custom_storages.is_empty());
}
