//! Purging an object that too few disks still hold: what is noted about it, and
//! what every disk is asked to delete.

use std::collections::HashMap;
use vstd::prelude::*;

use crate::disk::{DeleteOptions, DiskError, Uuid, VersionDelete};
use crate::set_disks::SetDisks;
use crate::text::{decimal_text, push_decimal, push_signed_decimal};

verus! {

/// The metadata that the disks agree on, as far as it is noted.
#[derive(Clone, Copy, Debug, PartialEq, Eq, Structural)]
pub struct DanglingMeta {
    /// Whether the metadata is valid.
    pub valid: bool,
    /// The size of the object in bytes.
    pub size: i64,
    /// When the object was last changed, in seconds since the epoch.
    pub mod_time: Option<i64>,
    /// How many blocks hold data.
    pub data_blocks: usize,
    /// How many blocks hold parity.
    pub parity_blocks: usize,
}

/// What the caller found out about the object on the disks.
#[derive(Debug)]
pub struct DanglingFindings<'a> {
    /// The metadata that the disks agree on.
    pub meta: DanglingMeta,
    /// Whether the object is beyond healing and may be purged.
    pub can_heal: bool,
    /// What each disk reported when it was asked for the metadata.
    pub errs: &'a [Option<DiskError>],
    /// Those reports as one text.
    pub errs_text: String,
    /// For each part of the object, the state of that part on each disk.
    pub data_errs_by_part: &'a HashMap<usize, Vec<usize>>,
    /// Those states as one text.
    pub data_errs_text: String,
    /// The state that says that the disk of a part is offline.
    pub part_disk_not_found: usize,
}

/// The version that every disk is asked to delete.
#[derive(Clone, Debug)]
pub struct DanglingDelete {
    /// The version, or none for the object itself.
    pub version_id: Option<Uuid>,
    /// The identifier under which a tiered copy is freed.
    pub tier_free_version_id: String,
}

/// A purge that is under way: the request to the disks and the notes so far.
#[derive(Debug)]
pub struct DanglingPurge {
    pub meta: DanglingMeta,
    pub delete: DanglingDelete,
    pub tags: Vec<(String, String)>,
}

/// Whether a slot counts as offline: its disk was not found when the metadata
/// was read, or a part is marked so.
pub open spec fn slot_offline(
    errs: Seq<Option<DiskError>>,
    parts: Map<usize, Vec<usize>>,
    not_found: usize,
    i: int,
) -> bool {
    ||| errs[i] == Some(DiskError::DiskNotFound)
    ||| exists|part: usize| #[trigger]
        parts.contains_key(part) && i < parts[part]@.len() && parts[part]@[i] == not_found
}

/// How many of the first `n` slots count as offline.
pub open spec fn offline_count(
    errs: Seq<Option<DiskError>>,
    parts: Map<usize, Vec<usize>>,
    not_found: usize,
    n: int,
) -> nat
    decreases n,
{
    if n <= 0 {
        0
    } else if slot_offline(errs, parts, not_found, n - 1) {
        offline_count(errs, parts, not_found, n - 1) + 1
    } else {
        offline_count(errs, parts, not_found, n - 1)
    }
}

/// Two numbers with a colon between them.
pub open spec fn ratio(a: int, b: int) -> Seq<char> {
    crate::text::decimal(a as nat).push(':') + crate::text::decimal(b as nat)
}

/// The notes that stand before the disks are asked: a name and a text each.
pub open spec fn notes_before(set: SetDisks, f: DanglingFindings) -> Seq<(Seq<char>, Seq<char>)> {
    let place = seq![
        ("set"@, crate::text::decimal(set.set_index as nat)),
        ("pool"@, crate::text::decimal(set.pool_index as nat)),
        ("merrs"@, f.errs_text@),
        ("derrs"@, f.data_errs_text@),
    ];
    let shape = if f.meta.valid {
        seq![
            ("sz"@, crate::text::signed_decimal(f.meta.size as int)),
            (
                "mt"@,
                match f.meta.mod_time {
                    Some(t) => crate::text::signed_decimal(t as int),
                    None => Seq::empty(),
                },
            ),
            ("d:p"@, ratio(f.meta.data_blocks as int, f.meta.parity_blocks as int)),
        ]
    } else {
        seq![
            ("invalid"@, "1"@),
            ("d:p"@, ratio(set.data_drives(), set.default_parity_count as int)),
        ]
    };
    let offline = offline_count(
        f.errs@,
        f.data_errs_by_part@,
        f.part_disk_not_found,
        f.errs@.len() as int,
    );
    if offline > 0 {
        (place + shape).push(("offline"@, crate::text::decimal(offline)))
    } else {
        place + shape
    }
}

/// What is noted of one disk's answer.
pub open spec fn disk_note(index: int, answer: Result<(), String>) -> (Seq<char>, Seq<char>) {
    (
        "ddisk-"@ + crate::text::decimal(index as nat),
        match answer {
            Ok(_) => "<nil>"@,
            Err(text) => text@,
        },
    )
}

/// What notes say, name by name.
pub open spec fn noted(tags: Seq<(String, String)>) -> Seq<(Seq<char>, Seq<char>)> {
    tags.map_values(|t: (String, String)| (t.0@, t.1@))
}

fn note(tags: &mut Vec<(String, String)>, name: &str, text: String)
    ensures
        noted(final(tags)@) == noted(old(tags)@).push((name@, text@)),
{
    tags.push((name.to_owned(), text));
    assert(noted(tags@) =~= noted(old(tags)@).push((name@, text@)));
}

fn ratio_text(a: usize, b: usize) -> (r: String)
    ensures
        r@ == ratio(a as int, b as int),
{
    let mut r: String = decimal_text(a as u128);
    r.push(':');
    push_decimal(&mut r, b as u128);
    r
}

fn signed_text(n: i64) -> (r: String)
    ensures
        r@ == crate::text::signed_decimal(n as int),
{
    let mut r: String = String::new();
    push_signed_decimal(&mut r, n);
    assert(Seq::<char>::empty() + crate::text::signed_decimal(n as int)
        =~= crate::text::signed_decimal(n as int));
    r
}

proof fn lemma_listed(parts: Map<usize, Vec<usize>>, lists: Seq<&Vec<usize>>, at: int)
    requires
        lists.unref().to_set() == parts.values(),
        0 <= at < lists.len(),
    ensures
        exists|part: usize| #[trigger] parts.contains_key(part) && parts[part] == *lists[at],
{
    assert(lists.unref()[at] == *lists[at]);
    assert(lists.unref().to_set().contains(*lists[at]));
}

proof fn lemma_all_listed(parts: Map<usize, Vec<usize>>, lists: Seq<&Vec<usize>>)
    requires
        lists.unref().to_set() == parts.values(),
    ensures
        forall|part: usize| #[trigger]
            parts.contains_key(part) ==> exists|k: int|
                0 <= k < lists.len() && *(#[trigger] lists[k]) == parts[part],
{
    assert forall|part: usize| #[trigger] parts.contains_key(part) implies exists|k: int|
        0 <= k < lists.len() && *(#[trigger] lists[k]) == parts[part] by {
        assert(parts.values().contains(parts[part]));
        assert(lists.unref().to_set().contains(parts[part]));
        let k = choose|k: int| 0 <= k < lists.unref().len() && lists.unref()[k] == parts[part];
        assert(*lists[k] == parts[part]);
    }
}

/// Whether a part is marked as offline in slot `i`.
fn part_offline(parts: &HashMap<usize, Vec<usize>>, not_found: usize, i: usize) -> (r: bool)
    ensures
        r == exists|part: usize| #[trigger]
            parts@.contains_key(part) && i < parts@[part]@.len() && parts@[part]@[i as int]
                == not_found,
{
    broadcast use vstd::std_specs::hash::group_hash_axioms;

    let mut found: bool = false;
    for states in it: parts.values()
        invariant
            it.seq().unref().to_set() == parts@.values(),
            found == exists|k: int|
                0 <= k < it.index() && i < (#[trigger] it.seq()[k])@.len() && it.seq()[k]@[i as int]
                    == not_found,
            found ==> exists|part: usize| #[trigger]
                parts@.contains_key(part) && i < parts@[part]@.len() && parts@[part]@[i as int]
                    == not_found,
            !found && it.index() == it.seq().len() ==> forall|part: usize| #[trigger]
                parts@.contains_key(part) ==> !(i < parts@[part]@.len() && parts@[part]@[i as int]
                    == not_found),
    {
        assert(it.seq()[it.index() as int] == states);
        if i < states.len() && states[i] == not_found {
            found = true;
            assert(exists|part: usize| #[trigger]
                parts@.contains_key(part) && i < parts@[part]@.len() && parts@[part]@[i as int]
                    == not_found) by {
                lemma_listed(parts@, it.seq(), it.index() as int);
            }
        }
        assert(!found && it.index() + 1 == it.seq().len() ==> forall|part: usize| #[trigger]
            parts@.contains_key(part) ==> !(i < parts@[part]@.len() && parts@[part]@[i as int]
                == not_found)) by {
            lemma_all_listed(parts@, it.seq());
        }
    }
    found
}

/// How many slots count as offline.
pub fn count_offline(
    errs: &[Option<DiskError>],
    parts: &HashMap<usize, Vec<usize>>,
    not_found: usize,
) -> (r: usize)
    ensures
        r == offline_count(errs@, parts@, not_found, errs@.len() as int),
{
    let mut offline: usize = 0;
    let mut i: usize = 0;
    while i < errs.len()
        invariant
            i <= errs@.len(),
            offline <= i,
            offline == offline_count(errs@, parts@, not_found, i as int),
        decreases errs@.len() - i,
    {
        let lost: bool = match errs[i] {
            Some(err) => err == DiskError::DiskNotFound,
            None => false,
        };
        if part_offline(parts, not_found, i) || lost {
            offline = offline + 1;
        }
        i = i + 1;
    }
    offline
}

/// The version that the disks are asked to delete. `version_id` is what the
/// caller's version parses to, where the caller named one; one that does not
/// parse stands for the object itself.
pub fn dangling_delete<E>(version_id: Option<Result<Option<Uuid>, E>>, fresh: Uuid) -> (r:
    DanglingDelete)
    ensures
        r.version_id == (match version_id {
            Some(Ok(id)) => id,
            _ => None,
        }),
        r.tier_free_version_id@ == crate::uuids::hyphenated(fresh.bits),
{
    let version_id: Option<Uuid> = match version_id {
        Some(Ok(id)) => id,
        _ => None,
    };
    DanglingDelete { version_id, tier_free_version_id: fresh.to_text() }
}

impl SetDisks {
    /// What is noted about a dangling object before the disks are asked.
    pub fn dangling_notes(&self, found: DanglingFindings) -> (r: Vec<(String, String)>)
        requires
            !found.meta.valid ==> self.wf(),
        ensures
            noted(r@) == notes_before(*self, found),
    {
        let meta: DanglingMeta = found.meta;
        let offline: usize = count_offline(
            found.errs,
            found.data_errs_by_part,
            found.part_disk_not_found,
        );
        let mut tags: Vec<(String, String)> = Vec::new();
        let ghost none = Seq::<(Seq<char>, Seq<char>)>::empty();
        assert(noted(tags@) =~= none);
        note(&mut tags, "set", decimal_text(self.set_index as u128));
        note(&mut tags, "pool", decimal_text(self.pool_index as u128));
        note(&mut tags, "merrs", found.errs_text);
        note(&mut tags, "derrs", found.data_errs_text);
        if meta.valid {
            note(&mut tags, "sz", signed_text(meta.size));
            let mod_time: String = match meta.mod_time {
                Some(t) => signed_text(t),
                None => String::new(),
            };
            note(&mut tags, "mt", mod_time);
            note(&mut tags, "d:p", ratio_text(meta.data_blocks, meta.parity_blocks));
        } else {
            note(&mut tags, "invalid", "1".to_owned());
            note(
                &mut tags,
                "d:p",
                ratio_text(
                    self.set_drive_count - self.default_parity_count,
                    self.default_parity_count,
                ),
            );
        }
        if offline > 0 {
            note(&mut tags, "offline", decimal_text(offline as u128));
        }
        assert(noted(tags@) =~= notes_before(*self, found));
        tags
    }

    /// Begins the purge of a dangling object. One that may still be healed is
    /// left alone, and the read fails for want of a quorum.
    pub fn delete_if_dangling<E>(
        &self,
        found: DanglingFindings,
        version_id: Option<Result<Option<Uuid>, E>>,
    ) -> (r: Result<DanglingPurge, DiskError>)
        requires
            found.can_heal && !found.meta.valid ==> self.wf(),
        ensures
            !found.can_heal ==> r == Err::<DanglingPurge, DiskError>(DiskError::ErasureReadQuorum),
            found.can_heal ==> {
                &&& r is Ok
                &&& r->Ok_0.meta == found.meta
                &&& noted(r->Ok_0.tags@) == notes_before(*self, found)
                &&& r->Ok_0.delete.version_id == (match version_id {
                    Some(Ok(id)) => id,
                    _ => None,
                })
                &&& exists|bits: u128| #[trigger]
                    crate::uuids::is_random_uuid(bits) && r->Ok_0.delete.tier_free_version_id@
                        == crate::uuids::hyphenated(bits)
            },
    {
        if !found.can_heal {
            return Err(DiskError::ErasureReadQuorum);
        }
        let meta: DanglingMeta = found.meta;
        let fresh: Uuid = Uuid::random();
        let delete: DanglingDelete = dangling_delete(version_id, fresh);
        let tags: Vec<(String, String)> = self.dangling_notes(found);
        Ok(DanglingPurge { meta, delete, tags })
    }
}

impl DanglingDelete {
    /// How each disk deletes the version: with no option set.
    pub fn how(&self) -> (r: VersionDelete)
        ensures
            r == (VersionDelete {
                force: false,
                opts: DeleteOptions {
                    recursive: false,
                    immediate: false,
                    undo_write: false,
                    old_data_dir: None,
                },
            }),
    {
        VersionDelete { force: false, opts: DeleteOptions::default() }
    }
}

impl DanglingPurge {
    /// Notes what each disk answered, in the order of the disks, and hands the
    /// metadata out. An answer is a success or the text of an error.
    pub fn finish(self, answers: Vec<Result<(), String>>) -> (r: (DanglingMeta, Vec<
        (String, String),
    >))
        ensures
            r.0 == self.meta,
            noted(r.1@) == noted(self.tags@) + Seq::new(
                answers@.len(),
                |i: int| disk_note(i, answers@[i]),
            ),
    {
        let meta: DanglingMeta = self.meta;
        let mut tags: Vec<(String, String)> = self.tags;
        let ghost before = noted(tags@);
        let mut i: usize = 0;
        while i < answers.len()
            invariant
                i <= answers@.len(),
                noted(tags@) == before + Seq::new(i as nat, |k: int| disk_note(k, answers@[k])),
            decreases answers@.len() - i,
        {
            let mut name: String = "ddisk-".to_owned();
            push_decimal(&mut name, i as u128);
            let text: String = match &answers[i] {
                Ok(_) => "<nil>".to_owned(),
                Err(text) => text.clone(),
            };
            note(&mut tags, name.as_str(), text);
            assert(noted(tags@) =~= before + Seq::new(
                (i + 1) as nat,
                |k: int| disk_note(k, answers@[k]),
            ));
            i = i + 1;
        }
        (meta, tags)
    }
}

/// No name is noted twice, so the notes are a map from names to texts.
pub proof fn law_note_names_differ(
    set: SetDisks,
    found: DanglingFindings,
    answers: Seq<Result<(), String>>,
    i: int,
    j: int,
)
    requires
        0 <= i < j < notes_before(set, found).len() + answers.len(),
    ensures
        ({
            let all = notes_before(set, found) + Seq::new(
                answers.len(),
                |k: int| disk_note(k, answers[k]),
            );
            all[i].0 != all[j].0
        }),
{
    let before = notes_before(set, found);
    reveal_strlit("set");
    reveal_strlit("pool");
    reveal_strlit("merrs");
    reveal_strlit("derrs");
    reveal_strlit("sz");
    reveal_strlit("mt");
    reveal_strlit("d:p");
    reveal_strlit("invalid");
    reveal_strlit("offline");
    reveal_strlit("ddisk-");
    if i >= before.len() {
        let a = i - before.len();
        let b = j - before.len();
        let prefix = "ddisk-"@;
        let left = crate::text::decimal(a as nat);
        let right = crate::text::decimal(b as nat);
        crate::text::law_decimal_reads_back(a as nat);
        crate::text::law_decimal_reads_back(b as nat);
        if prefix + left == prefix + right {
            assert(left =~= (prefix + left).skip(6));
            assert(right =~= (prefix + right).skip(6));
        }
    } else if j >= before.len() {
        let name = disk_note(j - before.len(), answers[j - before.len()]).0;
        assert(name[1] == 'd' && name[0] == 'd');
        assert(before[i].0[0] != 'd' || before[i].0[1] != 'd');
    } else {
        assert(before[i].0[0] != before[j].0[0] || before[i].0[1] != before[j].0[1]);
    }
}

/// The slots that count as offline are counted once each: those whose disk was
/// not found when the metadata was read, and those in which any part is marked
/// as being on no disk.
pub proof fn law_offline_slots_are_counted(
    errs: Seq<Option<DiskError>>,
    parts: Map<usize, Vec<usize>>,
    not_found: usize,
    n: nat,
)
    ensures
        offline_count(errs, parts, not_found, n as int) == Set::new(
            |i: int|
                0 <= i < n && (errs[i] == Some(DiskError::DiskNotFound) || exists|part: usize|
                    #[trigger]
                    parts.contains_key(part) && i < parts[part]@.len() && parts[part]@[i]
                        == not_found),
        ).len(),
    decreases n,
{
    let gone = |i: int| slot_offline(errs, parts, not_found, i);
    assert(Set::new(
        |i: int|
            0 <= i < n && (errs[i] == Some(DiskError::DiskNotFound) || exists|part: usize|
                #[trigger]
                parts.contains_key(part) && i < parts[part]@.len() && parts[part]@[i]
                    == not_found),
    ) =~= crate::counting::below(gone, n as int));
    if n == 0 {
        crate::counting::lemma_below_step(gone, 0);
    } else {
        let fewer = (n - 1) as nat;
        law_offline_slots_are_counted(errs, parts, not_found, fewer);
        crate::counting::lemma_below_step(gone, n - 1);
        assert(Set::new(
            |i: int|
                0 <= i < fewer && (errs[i] == Some(DiskError::DiskNotFound) || exists|part: usize|
                    #[trigger]
                    parts.contains_key(part) && i < parts[part]@.len() && parts[part]@[i]
                        == not_found),
        ) =~= crate::counting::below(gone, fewer as int));
    }
}

/// What is noted before the disks are asked, note by note: the place of the set,
/// the two reports, then the shape of the object or, where its metadata is not
/// valid, that of the set, and last how many slots are offline, where any is.
pub proof fn law_notes_tell_what_was_found(set: SetDisks, f: DanglingFindings)
    ensures
        ({
            let notes = notes_before(set, f);
            let gone = Set::new(
                |i: int|
                    0 <= i < f.errs@.len() && (f.errs@[i] == Some(DiskError::DiskNotFound) || exists|
                        part: usize,
                    | #[trigger]
                        f.data_errs_by_part@.contains_key(part) && i < f.data_errs_by_part@[part]@.len()
                            && f.data_errs_by_part@[part]@[i] == f.part_disk_not_found),
            ).len();
            let shape: int = if f.meta.valid {
                3
            } else {
                2
            };
            &&& notes[0] == ("set"@, crate::text::decimal(set.set_index as nat))
            &&& notes[1] == ("pool"@, crate::text::decimal(set.pool_index as nat))
            &&& notes[2] == ("merrs"@, f.errs_text@)
            &&& notes[3] == ("derrs"@, f.data_errs_text@)
            &&& f.meta.valid ==> notes[4] == ("sz"@, crate::text::signed_decimal(f.meta.size as int))
            &&& f.meta.valid ==> notes[5].0 == "mt"@
            &&& f.meta.valid ==> (f.meta.mod_time matches Some(t) ==> notes[5].1
                == crate::text::signed_decimal(t as int))
            &&& f.meta.valid && f.meta.mod_time is None ==> notes[5].1.len() == 0
            &&& f.meta.valid ==> notes[6] == (
                "d:p"@,
                crate::text::decimal(f.meta.data_blocks as nat) + seq![':'] + crate::text::decimal(
                    f.meta.parity_blocks as nat,
                ),
            )
            &&& !f.meta.valid ==> notes[4] == ("invalid"@, "1"@)
            &&& !f.meta.valid && set.wf() ==> notes[5] == (
                "d:p"@,
                crate::text::decimal((set.set_drive_count - set.default_parity_count) as nat)
                    + seq![':'] + crate::text::decimal(set.default_parity_count as nat),
            )
            &&& gone == 0 ==> notes.len() == 4 + shape
            &&& gone > 0 ==> notes.len() == 5 + shape && notes.last() == (
                "offline"@,
                crate::text::decimal(gone),
            )
        }),
{
    let notes = notes_before(set, f);
    law_offline_slots_are_counted(
        f.errs@,
        f.data_errs_by_part@,
        f.part_disk_not_found,
        f.errs@.len(),
    );
    if f.meta.valid {
        let blocks = crate::text::decimal(f.meta.data_blocks as nat);
        assert(blocks.push(':') =~= blocks + seq![':']);
    } else {
        let drives = crate::text::decimal(set.data_drives() as nat);
        assert(drives.push(':') =~= drives + seq![':']);
    }
}

/// Each disk is noted under its number, a success as `<nil>` and a failure as
/// its text; notes say what they hold, in their order.
pub proof fn law_disk_is_noted_with_its_answer(
    index: nat,
    text: String,
    tags: Seq<(String, String)>,
    i: int,
)
    ensures
        disk_note(index as int, Ok(())) == ("ddisk-"@ + crate::text::decimal(index), "<nil>"@),
        disk_note(index as int, Err(text)) == ("ddisk-"@ + crate::text::decimal(index), text@),
        noted(tags).len() == tags.len(),
        0 <= i < tags.len() ==> noted(tags)[i] == (tags[i].0@, tags[i].1@),
{
}

/// An object that may still be healed is left alone, and reading it fails for
/// want of a quorum. Else its purge names the version that was asked for, or the
/// object itself, and keeps what was found.
pub proof fn law_only_hopeless_objects_are_purged<E>(
    set: SetDisks,
    found: DanglingFindings,
    version_id: Option<Result<Option<Uuid>, E>>,
    r: Result<DanglingPurge, DiskError>,
)
    requires
        call_ensures(SetDisks::delete_if_dangling::<E>, (&set, found, version_id), r),
    ensures
        r is Ok <==> found.can_heal,
        r matches Err(e) ==> e == DiskError::ErasureReadQuorum,
        r matches Ok(purge) ==> purge.meta == found.meta && noted(purge.tags@) == notes_before(
            set,
            found,
        ),
        r matches Ok(purge) ==> (version_id matches Some(Ok(id)) ==> purge.delete.version_id == id),
        r matches Ok(purge) ==> (version_id is None ==> purge.delete.version_id is None),
        r matches Ok(purge) ==> (version_id matches Some(Err(_)) ==> purge.delete.version_id
            is None),
        r matches Ok(purge) ==> purge.delete.tier_free_version_id@.len() == 36
            && purge.delete.tier_free_version_id@[14] == '4',
{
    if let Ok(purge) = r {
        let bits = choose|bits: u128| #[trigger]
            crate::uuids::is_random_uuid(bits) && purge.delete.tier_free_version_id@
                == crate::uuids::hyphenated(bits);
        crate::uuids::law_uuid_text_shows_the_digits(bits, 0);
        crate::uuids::law_random_uuid_is_marked(bits);
    }
}

/// A purge ends with one note for each disk behind those that it began with, in
/// the order of the disks, and with the metadata that it began with. The disks
/// delete the version plainly.
pub proof fn law_purge_notes_every_disk(
    purge: DanglingPurge,
    answers: Vec<Result<(), String>>,
    r: (DanglingMeta, Vec<(String, String)>),
    how: VersionDelete,
    i: int,
)
    requires
        call_ensures(DanglingPurge::finish, (purge, answers), r),
        call_ensures(DanglingDelete::how, (&purge.delete,), how),
    ensures
        r.0 == purge.meta,
        r.1@.len() == purge.tags@.len() + answers@.len(),
        0 <= i < purge.tags@.len() ==> r.1@[i].0@ == purge.tags@[i].0@ && r.1@[i].1@
            == purge.tags@[i].1@,
        0 <= i < answers@.len() ==> r.1@[purge.tags@.len() + i].0@ == "ddisk-"@
            + crate::text::decimal(i as nat),
        0 <= i < answers@.len() ==> (answers@[i] is Ok ==> r.1@[purge.tags@.len() + i].1@
            == "<nil>"@),
        0 <= i < answers@.len() ==> (answers@[i] matches Err(text) ==> r.1@[purge.tags@.len()
            + i].1@ == text@),
        !how.force && !how.opts.recursive && !how.opts.immediate && !how.opts.undo_write
            && how.opts.old_data_dir is None,
{
    let all = noted(r.1@);
    let before = noted(purge.tags@);
    assert(all.len() == before.len() + answers@.len());
    if 0 <= i < purge.tags@.len() {
        assert(all[i] == before[i]);
    }
    if 0 <= i < answers@.len() {
        assert(all[before.len() + i] == disk_note(i, answers@[i]));
    }
}

/// A version that was asked for and parses is the one to delete; one that does
/// not parse stands for the object itself, and so does none. A tiered copy is
/// freed under the text of the fresh identifier.
pub proof fn law_version_to_delete_is_the_one_asked_for<E>(
    id: Option<Uuid>,
    err: E,
    fresh: Uuid,
    parsed: DanglingDelete,
    unparsed: DanglingDelete,
    unasked: DanglingDelete,
)
    requires
        call_ensures(dangling_delete::<E>, (Some(Ok::<Option<Uuid>, E>(id)), fresh), parsed),
        call_ensures(dangling_delete::<E>, (Some(Err::<Option<Uuid>, E>(err)), fresh), unparsed),
        call_ensures(dangling_delete::<E>, (None::<Result<Option<Uuid>, E>>, fresh), unasked),
    ensures
        parsed.version_id == id,
        unparsed.version_id is None,
        unasked.version_id is None,
        parsed.tier_free_version_id@ == crate::uuids::hyphenated(fresh.bits),
        unparsed.tier_free_version_id@ == crate::uuids::hyphenated(fresh.bits),
        unasked.tier_free_version_id@ == crate::uuids::hyphenated(fresh.bits),
{
}

}
