use rustfs_core::dangling::{count_offline, dangling_delete, DanglingFindings, DanglingMeta};
use rustfs_core::disk::{DeleteOptions, DiskError, Uuid, VersionDelete};
use rustfs_core::set_disks::SetDisks;
use std::collections::{HashMap, HashSet};

const SET: SetDisks = SetDisks { set_index: 3, pool_index: 1, set_drive_count: 6, default_parity_count: 2 };
const NOT_FOUND: usize = 4;

fn meta(valid: bool) -> DanglingMeta {
    DanglingMeta { valid, size: -12, mod_time: Some(1700000000), data_blocks: 4, parity_blocks: 2 }
}

fn findings<'a>(
    meta: DanglingMeta,
    can_heal: bool,
    errs: &'a [Option<DiskError>],
    parts: &'a HashMap<usize, Vec<usize>>,
) -> DanglingFindings<'a> {
    DanglingFindings {
        meta,
        can_heal,
        errs,
        errs_text: "errs".to_string(),
        data_errs_by_part: parts,
        data_errs_text: "{}".to_string(),
        part_disk_not_found: NOT_FOUND,
    }
}

fn pairs(tags: &[(String, String)]) -> Vec<(&str, &str)> {
    tags.iter().map(|(k, v)| (k.as_str(), v.as_str())).collect()
}

#[test]
fn healable_object_is_left_alone() {
    let parts = HashMap::new();
    let r = SET.delete_if_dangling::<()>(findings(meta(true), false, &[], &parts), None);
    assert_eq!(r.unwrap_err(), DiskError::ErasureReadQuorum);
}

#[test]
fn purge_of_a_valid_object_is_noted() {
    let parts = HashMap::new();
    let purge = SET.delete_if_dangling::<()>(findings(meta(true), true, &[None, None], &parts), None).unwrap();
    assert_eq!(
        pairs(&purge.tags),
        vec![
            ("set", "3"),
            ("pool", "1"),
            ("merrs", "errs"),
            ("derrs", "{}"),
            ("sz", "-12"),
            ("mt", "1700000000"),
            ("d:p", "4:2"),
        ]
    );
    assert_eq!(purge.delete.version_id, None);
    assert_eq!(purge.delete.how(), VersionDelete { force: false, opts: DeleteOptions::default() });
}

#[test]
fn object_without_a_time_is_noted_without_one() {
    let parts = HashMap::new();
    let timeless = DanglingMeta { mod_time: None, ..meta(true) };
    let tags = SET.dangling_notes(findings(timeless, true, &[], &parts));
    assert!(pairs(&tags).contains(&("mt", "")));
}

#[test]
fn purge_of_an_invalid_object_notes_the_layout_of_the_set() {
    let mut parts = HashMap::new();
    parts.insert(1, vec![0, 0, NOT_FOUND]);
    let errs = [Some(DiskError::DiskNotFound), Some(DiskError::FaultyDisk), None];
    let purge = SET.delete_if_dangling::<()>(findings(meta(false), true, &errs, &parts), None).unwrap();
    let (back, tags) = purge.finish(vec![Ok(()), Err("disk not found".to_string())]);
    assert_eq!(back, meta(false));
    assert_eq!(
        pairs(&tags),
        vec![
            ("set", "3"),
            ("pool", "1"),
            ("merrs", "errs"),
            ("derrs", "{}"),
            ("invalid", "1"),
            ("d:p", "4:2"),
            ("offline", "2"),
            ("ddisk-0", "<nil>"),
            ("ddisk-1", "disk not found"),
        ]
    );
}

#[test]
fn slots_are_offline_by_error_or_by_part() {
    let mut parts = HashMap::new();
    parts.insert(1, vec![NOT_FOUND, 0]);
    parts.insert(2, vec![NOT_FOUND, 1, NOT_FOUND, NOT_FOUND]);
    let errs = [None, Some(DiskError::DiskNotFound), Some(DiskError::DiskNotFound)];
    // The fourth state has no slot, and a slot counts once.
    assert_eq!(count_offline(&errs, &parts, NOT_FOUND), 3);
    assert_eq!(count_offline(&errs, &HashMap::new(), NOT_FOUND), 2);
    assert_eq!(count_offline(&[None, None], &parts, NOT_FOUND), 1);
    assert_eq!(count_offline(&[None, None], &parts, 1), 1);
    assert_eq!(count_offline(&[None, None], &parts, 2), 0);
}

#[test]
fn version_that_does_not_parse_stands_for_the_object() {
    let id = Uuid { bits: 5 };
    let fresh = Uuid { bits: 0x0123_4567_89ab_4def_8123_4567_89ab_cdef };
    let named = dangling_delete::<()>(Some(Ok(Some(id))), fresh);
    assert_eq!(named.version_id, Some(id));
    assert_eq!(named.tier_free_version_id, "01234567-89ab-4def-8123-456789abcdef");
    assert_eq!(dangling_delete::<()>(Some(Ok(None)), fresh).version_id, None);
    assert_eq!(dangling_delete(Some(Err("bad")), fresh).version_id, None);
    assert_eq!(dangling_delete::<()>(None, fresh).version_id, None);
}

#[test]
fn purge_frees_under_a_fresh_identifier() {
    let parts = HashMap::new();
    let mut seen = HashSet::new();
    for _ in 0..20 {
        let purge = SET.delete_if_dangling::<()>(findings(meta(true), true, &[], &parts), None).unwrap();
        let text = purge.delete.tier_free_version_id;
        let parsed = uuid::Uuid::parse_str(&text).unwrap();
        assert_eq!(parsed.get_version_num(), 4);
        assert_eq!(parsed.to_string(), text);
        assert!(seen.insert(text));
    }
}

#[test]
fn layout_of_the_set_matters_only_for_invalid_metadata() {
    let odd = SetDisks { set_index: 0, pool_index: 0, set_drive_count: 1, default_parity_count: 2 };
    let parts = HashMap::new();
    let purge = odd.delete_if_dangling::<()>(findings(meta(true), true, &[], &parts), None).unwrap();
    assert!(pairs(&purge.tags).contains(&("d:p", "4:2")));
    let left = odd.delete_if_dangling::<()>(findings(meta(false), false, &[], &parts), None);
    assert_eq!(left.unwrap_err(), DiskError::ErasureReadQuorum);
}

#[test]
fn note_names_differ() {
    let parts = HashMap::new();
    let errs = [Some(DiskError::DiskNotFound)];
    for valid in [true, false] {
        let purge = SET.delete_if_dangling::<()>(findings(meta(valid), true, &errs, &parts), None).unwrap();
        let (_, tags) = purge.finish((0..30).map(|_| Ok(())).collect());
        let names: HashSet<&String> = tags.iter().map(|(k, _)| k).collect();
        assert_eq!(names.len(), tags.len());
    }
}
