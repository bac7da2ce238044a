//! The collector at work on an in-memory store.

use std::collections::{BTreeMap, BTreeSet};

use blob_gc::cycle::{CycleAction, CycleInput, GcRunOnce};
use blob_gc::digest::{BlobFormat, Digest, HashAndFormat};
use blob_gc::event::GcMarkEvent;
use blob_gc::mark::{GcMark, MarkAction, MarkInput, TagEntry, TempTagEntry};
use blob_gc::set::DigestSet;
use blob_gc::sweep::{GcSweep, SweepAction, SweepInput};

/// A store of blobs, tags and temporary tags.
///
/// Between the clearing of its protected set and the next one it protects what is claimed, and a
/// claim of a collection that is not there poisons it: nothing is deleted any more.
#[derive(Default)]
struct MemStore {
    blobs: BTreeMap<Digest, Vec<u8>>,
    tags: BTreeMap<String, HashAndFormat>,
    temp_tags: BTreeMap<u64, HashAndFormat>,
    next_temp_tag: u64,
    protected: BTreeSet<Digest>,
    poisoned: bool,
}

/// A digest that tells the contents of these tests apart.
fn digest(data: &[u8]) -> Digest {
    let mut halves = [0x6c62272e07bb014262b821756295c58du128, 0x27d4eb2f165667c5u128];
    for half in halves.iter_mut() {
        for byte in data {
            *half = (*half ^ u128::from(*byte)).wrapping_mul(0x0000000001000000000000000000013b);
        }
    }
    Digest { hi: halves[0], lo: halves[1] }
}

fn hash_seq(members: &[Digest]) -> Vec<u8> {
    let mut bytes = Vec::new();
    for member in members {
        bytes.extend_from_slice(&member.hi.to_be_bytes());
        bytes.extend_from_slice(&member.lo.to_be_bytes());
    }
    bytes
}

fn parse_hash_seq(bytes: &[u8]) -> Vec<Digest> {
    bytes
        .chunks(32)
        .map(|member| Digest {
            hi: u128::from_be_bytes(member[..16].try_into().unwrap()),
            lo: u128::from_be_bytes(member[16..].try_into().unwrap()),
        })
        .collect()
}

impl MemStore {
    fn add(&mut self, data: &[u8]) -> Digest {
        let hash = digest(data);
        self.blobs.insert(hash, data.to_vec());
        hash
    }

    fn claim(&mut self, claim: HashAndFormat) {
        self.protected.insert(claim.hash);
        if claim.format == BlobFormat::HashSeq {
            match self.blobs.get(&claim.hash) {
                Some(bytes) => self.protected.extend(parse_hash_seq(bytes)),
                None => self.poisoned = true,
            }
        }
    }

    fn temp_tag(&mut self, claim: HashAndFormat) -> u64 {
        self.claim(claim);
        let id = self.next_temp_tag;
        self.next_temp_tag += 1;
        self.temp_tags.insert(id, claim);
        id
    }

    fn drop_temp_tag(&mut self, id: u64) {
        self.temp_tags.remove(&id);
    }

    fn set_tag(&mut self, name: &str, claim: HashAndFormat) {
        self.claim(claim);
        self.tags.insert(name.to_string(), claim);
    }

    fn delete_tag(&mut self, name: &str) {
        self.tags.remove(name);
    }

    fn has(&self, hash: Digest) -> bool {
        self.blobs.contains_key(&hash)
    }

    fn get_bytes(&self, hash: Digest) -> Result<Vec<u8>, String> {
        self.blobs.get(&hash).cloned().ok_or_else(|| "not found".to_string())
    }

    fn clear_protected(&mut self) {
        self.protected.clear();
        self.poisoned = false;
    }

    fn delete(&mut self, batch: &[Digest]) {
        if !self.poisoned {
            for hash in batch {
                if !self.protected.contains(hash) {
                    self.blobs.remove(hash);
                }
            }
        }
    }
}

/// The store's side of a mark phase.
#[derive(Default)]
struct Marker {
    tags: Vec<TagEntry>,
    temp_tags: Vec<TempTagEntry>,
    children: Vec<Result<Digest, String>>,
}

impl Marker {
    fn answer(&mut self, store: &MemStore, action: MarkAction<String>) -> MarkInput<String> {
        match action {
            MarkAction::Yield(_) => MarkInput::Resume,
            MarkAction::ListTags => {
                self.tags = store
                    .tags
                    .iter()
                    .map(|(name, claim)| TagEntry {
                        name_text: format!("{name:?}"),
                        claim: *claim,
                        claim_text: format!("{claim:?}"),
                    })
                    .collect();
                MarkInput::Listed(Ok(()))
            }
            MarkAction::NextTag => MarkInput::Tag(self.tags.pop().map(Ok)),
            MarkAction::ListTempTags => {
                self.temp_tags = store
                    .temp_tags
                    .values()
                    .map(|claim| TempTagEntry { claim: *claim, claim_text: format!("{claim:?}") })
                    .collect();
                MarkInput::Listed(Ok(()))
            }
            MarkAction::NextTempTag => MarkInput::TempTag(self.temp_tags.pop()),
            MarkAction::OpenChildren(root, ranges) => {
                assert_eq!(ranges.boundaries, vec![0]);
                self.children = match store.blobs.get(&root) {
                    Some(bytes) => parse_hash_seq(bytes).into_iter().map(Ok).collect(),
                    None => vec![Err("not found".to_string())],
                };
                MarkInput::Resume
            }
            MarkAction::NextChild => MarkInput::Child(self.children.pop()),
            MarkAction::Return(_) => panic!("the phase is over"),
        }
    }
}

/// The store's side of a sweep phase.
#[derive(Default)]
struct Sweeper {
    blobs: Vec<Digest>,
}

impl Sweeper {
    fn answer(&mut self, store: &mut MemStore, action: SweepAction<String>) -> SweepInput<String> {
        match action {
            SweepAction::Yield(_) => SweepInput::Resume,
            SweepAction::ListBlobs => {
                self.blobs = store.blobs.keys().copied().collect();
                SweepInput::Done(Ok(()))
            }
            SweepAction::NextBlob => SweepInput::Blob(self.blobs.pop().map(Ok)),
            SweepAction::Delete(batch) => {
                store.delete(&batch);
                SweepInput::Done(Ok(()))
            }
            SweepAction::SyncDb => SweepInput::Done(Ok(())),
            SweepAction::Return(_) => panic!("the phase is over"),
        }
    }
}

fn gc_run_once(store: &mut MemStore, live: &mut DigestSet) -> Result<(), String> {
    let mut cycle = GcRunOnce::new();
    let mut marker = Marker::default();
    let mut sweeper = Sweeper::default();
    let mut input = CycleInput::Begin;
    loop {
        assert!(cycle.accepts(&input));
        input = match cycle.step(live, input) {
            CycleAction::ClearProtected => {
                store.clear_protected();
                CycleInput::Cleared(Ok(()))
            }
            CycleAction::Mark(action) => CycleInput::Mark(marker.answer(store, action)),
            CycleAction::Sweep(action) => CycleInput::Sweep(sweeper.answer(store, action)),
            CycleAction::Return(result) => return result,
        };
    }
}

fn gc_mark(store: &MemStore, live: &mut DigestSet) -> Vec<GcMarkEvent<String>> {
    let mut stream = GcMark::new();
    let mut marker = Marker::default();
    let mut events = Vec::new();
    let mut input = MarkInput::Resume;
    loop {
        assert!(stream.accepts(&input));
        input = match stream.step(live, input) {
            MarkAction::Yield(event) => {
                events.push(event);
                MarkInput::Resume
            }
            MarkAction::Return(result) => {
                assert!(result.is_ok());
                return events;
            }
            action => marker.answer(store, action),
        };
    }
}

fn gc_sweep(store: &mut MemStore, live: &DigestSet) {
    let mut stream = GcSweep::new();
    let mut sweeper = Sweeper::default();
    let mut input = SweepInput::Resume;
    loop {
        assert!(stream.accepts(&input));
        input = match stream.step(live, input) {
            SweepAction::Return(result) => {
                assert!(result.is_ok());
                return;
            }
            action => sweeper.answer(store, action),
        };
    }
}

fn unfailing(events: &[GcMarkEvent<String>]) -> bool {
    !events.iter().any(|event| matches!(event, GcMarkEvent::Error(_)))
}

#[test]
fn gc_smoke_mem() {
    let mut store = MemStore::default();
    let a = store.add(b"a");
    let _at = store.temp_tag(HashAndFormat::raw(a));
    let b = store.add(b"b");
    let bt = store.temp_tag(HashAndFormat::raw(b));
    let c = store.add(b"c");
    let _ct = store.temp_tag(HashAndFormat::raw(c));
    let d = store.add(b"d");
    let _dt = store.temp_tag(HashAndFormat::raw(d));
    let e = store.add(b"e");
    let _et = store.temp_tag(HashAndFormat::raw(e));
    let f = store.add(b"f");
    let _ft = store.temp_tag(HashAndFormat::raw(f));
    let g = store.add(b"g");
    let _gt = store.temp_tag(HashAndFormat::raw(g));
    let h = store.add(b"h");
    store.set_tag("h", HashAndFormat::raw(h));
    store.set_tag("c", HashAndFormat::raw(c));
    let dehs = store.add(&hash_seq(&[d, e]));
    let _hehs = store.temp_tag(HashAndFormat::hash_seq(dehs));
    let fghs = store.add(&hash_seq(&[f, g]));
    let fghst = store.temp_tag(HashAndFormat::hash_seq(fghs));
    store.set_tag("fg", HashAndFormat::hash_seq(fghs));
    store.drop_temp_tag(fghst);
    store.drop_temp_tag(bt);
    store.delete_tag("h");
    let mut live = DigestSet::new();
    gc_run_once(&mut store, &mut live).unwrap();
    // a is protected because we keep the temp tag
    assert!(live.contains(&a));
    assert!(store.has(a));
    // b is not protected because we drop the temp tag
    assert!(!live.contains(&b));
    assert!(!store.has(b));
    // c is protected because we set an explicit tag
    assert!(live.contains(&c));
    assert!(store.has(c));
    // d and e are protected because they are part of a hashseq protected by a temp tag
    assert!(live.contains(&d));
    assert!(store.has(d));
    assert!(live.contains(&e));
    assert!(store.has(e));
    // f and g are protected because they are part of a hashseq protected by a tag
    assert!(live.contains(&f));
    assert!(store.has(f));
    assert!(live.contains(&g));
    assert!(store.has(g));
    // h is not protected because we deleted the tag before gc ran
    assert!(!live.contains(&h));
    assert!(!store.has(h));
}

#[test]
fn collections_alone_keep_their_members() {
    let mut store = MemStore::default();
    let d = store.add(b"d");
    let e = store.add(b"e");
    let f = store.add(b"f");
    let g = store.add(b"g");
    let lone = store.add(b"lone");
    let de = store.add(&hash_seq(&[d, e]));
    let fg = store.add(&hash_seq(&[f, g]));
    store.temp_tag(HashAndFormat::hash_seq(de));
    store.set_tag("fg", HashAndFormat::hash_seq(fg));
    let mut live = DigestSet::new();
    gc_run_once(&mut store, &mut live).unwrap();
    for h in [d, e, f, g, de, fg] {
        assert!(live.contains(&h));
        assert!(store.has(h));
    }
    assert_eq!(live.len(), 6);
    assert!(!store.has(lone));
}

#[test]
fn gc_check_deletion_mem() {
    let mut store = MemStore::default();
    let hash = store.add(b"foo");
    let temp_tag = store.temp_tag(HashAndFormat::raw(hash));
    assert_eq!(store.get_bytes(hash).unwrap(), b"foo");
    store.drop_temp_tag(temp_tag);
    let mut live = DigestSet::new();
    gc_run_once(&mut store, &mut live).unwrap();
    assert!(store.get_bytes(hash).is_err());
}

#[test]
fn tag_after_mark_survives_the_sweep_mem() {
    let mut store = MemStore::default();
    let guarded_data = b"claimed under a live batch guard".to_vec();
    let tagged_data = b"claimed by a bare persistent tag".to_vec();
    let guarded = store.add(&guarded_data);
    let tagged = store.add(&tagged_data);

    // The sweep's mark runs first: no roots, so neither hash is live.
    store.clear_protected();
    let mut live = DigestSet::new();
    assert!(unfailing(&gc_mark(&store, &mut live)));
    assert!(!live.contains(&guarded) && !live.contains(&tagged));

    // The claims land after the mark, before the delete.
    let guard = store.temp_tag(HashAndFormat::raw(guarded));
    store.set_tag("claimed-under-guard", HashAndFormat::raw(guarded));
    store.set_tag("claimed-bare", HashAndFormat::raw(tagged));

    // The same sweep's delete phase runs with its stale live set.
    gc_sweep(&mut store, &live);
    store.drop_temp_tag(guard);
    assert_eq!(store.get_bytes(guarded).unwrap(), guarded_data);
    assert_eq!(store.get_bytes(tagged).unwrap(), tagged_data);

    // An ordinary next cycle still respects the tags.
    let mut live2 = DigestSet::new();
    gc_run_once(&mut store, &mut live2).unwrap();
    assert_eq!(store.get_bytes(guarded).unwrap(), guarded_data);
    assert_eq!(store.get_bytes(tagged).unwrap(), tagged_data);

    // Deleting them makes both reclaimable.
    store.delete_tag("claimed-under-guard");
    store.delete_tag("claimed-bare");
    let mut live3 = DigestSet::new();
    gc_run_once(&mut store, &mut live3).unwrap();
    assert!(store.get_bytes(guarded).is_err());
    assert!(store.get_bytes(tagged).is_err());
}

#[test]
fn hash_seq_tag_after_mark_survives_the_sweep_mem() {
    let mut store = MemStore::default();
    let a = store.add(b"child a");
    let b = store.add(b"child b");
    let c = store.add(b"child c");
    let d = store.add(b"child d");
    let guarded_root = store.add(&hash_seq(&[a, b]));
    let tagged_root = store.add(&hash_seq(&[c, d]));

    // The sweep's mark runs before any claim exists.
    store.clear_protected();
    let mut live = DigestSet::new();
    assert!(unfailing(&gc_mark(&store, &mut live)));
    for h in [guarded_root, tagged_root, a, b, c, d] {
        assert!(!live.contains(&h));
    }

    // The claims land after mark.
    let guard = store.temp_tag(HashAndFormat::hash_seq(guarded_root));
    store.set_tag("claimed-seq", HashAndFormat::hash_seq(tagged_root));
    gc_sweep(&mut store, &live);
    store.drop_temp_tag(guard);

    // Roots and children survived.
    assert_eq!(store.get_bytes(a).unwrap(), b"child a");
    assert_eq!(store.get_bytes(b).unwrap(), b"child b");
    assert_eq!(store.get_bytes(c).unwrap(), b"child c");
    assert_eq!(store.get_bytes(d).unwrap(), b"child d");
    assert!(store.get_bytes(guarded_root).is_ok());
    assert!(store.get_bytes(tagged_root).is_ok());

    // The next cycle respects the persistent tag and reclaims the released guard's collection.
    let mut live2 = DigestSet::new();
    gc_run_once(&mut store, &mut live2).unwrap();
    assert!(store.get_bytes(c).is_ok());
    assert!(store.get_bytes(d).is_ok());
    assert!(store.get_bytes(guarded_root).is_err());
    assert!(store.get_bytes(a).is_err());
    assert!(store.get_bytes(b).is_err());

    // Releasing the persistent tag reclaims its collection too.
    store.delete_tag("claimed-seq");
    let mut live3 = DigestSet::new();
    gc_run_once(&mut store, &mut live3).unwrap();
    assert!(store.get_bytes(tagged_root).is_err());
    assert!(store.get_bytes(c).is_err());
    assert!(store.get_bytes(d).is_err());
}

#[test]
fn late_root_hash_seq_claim_survives_the_sweep_mem() {
    let mut store = MemStore::default();
    let a = store.add(b"late child a");
    let b = store.add(b"late child b");
    let c = store.add(b"late child c");
    let d = store.add(b"late child d");
    let bytes_ab = hash_seq(&[a, b]);
    let bytes_cd = hash_seq(&[c, d]);
    let root_ab = digest(&bytes_ab);
    let root_cd = digest(&bytes_cd);

    // Mark runs first: nothing is claimed, nothing is live.
    store.clear_protected();
    let mut live = DigestSet::new();
    assert!(unfailing(&gc_mark(&store, &mut live)));

    // The claims land with absent roots, and then the roots arrive.
    let guard = store.temp_tag(HashAndFormat::hash_seq(root_ab));
    store.set_tag("late-claim", HashAndFormat::hash_seq(root_cd));
    store.add(&bytes_ab);
    store.add(&bytes_cd);

    // The stale sweep runs, and must delete nothing.
    gc_sweep(&mut store, &live);
    assert_eq!(store.get_bytes(a).unwrap(), b"late child a");
    assert_eq!(store.get_bytes(b).unwrap(), b"late child b");
    assert_eq!(store.get_bytes(c).unwrap(), b"late child c");
    assert_eq!(store.get_bytes(d).unwrap(), b"late child d");
    assert!(store.get_bytes(root_ab).is_ok());
    assert!(store.get_bytes(root_cd).is_ok());

    // An ordinary next cycle: everything claimed stays.
    let mut live2 = DigestSet::new();
    gc_run_once(&mut store, &mut live2).unwrap();
    for h in [a, b, c, d, root_ab, root_cd] {
        assert!(store.get_bytes(h).is_ok());
    }

    // A claim whose root never arrives: the whole sweep is skipped.
    let e = store.add(b"late child e");
    let f = store.add(b"late child f");
    let root_ef = digest(&hash_seq(&[e, f]));
    store.set_tag("unresolvable-claim", HashAndFormat::hash_seq(root_ef));
    store.drop_temp_tag(guard);
    let mut live3 = DigestSet::new();
    gc_run_once(&mut store, &mut live3).unwrap();
    for h in [a, b, root_ab, e, f] {
        assert!(
            store.get_bytes(h).is_ok(),
            "a cycle whose mark cannot enumerate a claimed root must not sweep",
        );
    }

    // Releasing the unresolvable claim lets the collection resume.
    store.delete_tag("unresolvable-claim");
    let mut live4 = DigestSet::new();
    gc_run_once(&mut store, &mut live4).unwrap();
    assert!(store.get_bytes(root_ab).is_err());
    assert!(store.get_bytes(a).is_err());
    assert!(store.get_bytes(b).is_err());
    assert!(store.get_bytes(e).is_err());
    assert!(store.get_bytes(f).is_err());
    assert!(store.get_bytes(c).is_ok());
    assert!(store.get_bytes(d).is_ok());

    // And releasing the last claim reclaims the rest.
    store.delete_tag("late-claim");
    let mut live5 = DigestSet::new();
    gc_run_once(&mut store, &mut live5).unwrap();
    assert!(store.get_bytes(root_cd).is_err());
    assert!(store.get_bytes(c).is_err());
    assert!(store.get_bytes(d).is_err());
}

#[test]
fn already_live_hash_seq_root_is_still_traversed_mem() {
    let mut store = MemStore::default();
    let a = store.add(b"aliased child a");
    let b = store.add(b"aliased child b");
    let root_ab = store.add(&hash_seq(&[a, b]));
    store.set_tag("aliased-seq", HashAndFormat::hash_seq(root_ab));

    // The root is protected before the mark visits it.
    let mut live = DigestSet::new();
    live.insert(root_ab);
    gc_run_once(&mut store, &mut live).unwrap();
    assert_eq!(
        store.get_bytes(a).unwrap(),
        b"aliased child a",
        "an already-live HashSeq root was not traversed and its child was swept",
    );
    assert_eq!(store.get_bytes(b).unwrap(), b"aliased child b");
    assert!(store.get_bytes(root_ab).is_ok());

    // The same hash claimed as both raw and hash seq keeps its children.
    store.set_tag("aliased-raw", HashAndFormat::raw(root_ab));
    let mut live2 = DigestSet::new();
    gc_run_once(&mut store, &mut live2).unwrap();
    assert!(store.get_bytes(a).is_ok());
    assert!(store.get_bytes(b).is_ok());

    // The raw claim alone pins only the root's bytes.
    store.delete_tag("aliased-seq");
    let mut live3 = DigestSet::new();
    gc_run_once(&mut store, &mut live3).unwrap();
    assert!(store.get_bytes(root_ab).is_ok());
    assert!(store.get_bytes(a).is_err());
    assert!(store.get_bytes(b).is_err());
    store.delete_tag("aliased-raw");

    // A root that is live but absent still suppresses the sweep.
    let c = store.add(b"aliased child c");
    let d = store.add(b"aliased child d");
    let root_cd = digest(&hash_seq(&[c, d]));
    store.set_tag("aliased-absent-seq", HashAndFormat::hash_seq(root_cd));
    let mut live4 = DigestSet::new();
    live4.insert(root_cd);
    gc_run_once(&mut store, &mut live4).unwrap();
    assert!(
        store.get_bytes(c).is_ok(),
        "an already-live absent HashSeq root did not suppress the sweep",
    );
    assert!(store.get_bytes(d).is_ok());

    // Releasing the unresolvable claim lets everything be reclaimed.
    store.delete_tag("aliased-absent-seq");
    let mut live5 = DigestSet::new();
    gc_run_once(&mut store, &mut live5).unwrap();
    assert!(store.get_bytes(root_ab).is_err());
    assert!(store.get_bytes(c).is_err());
    assert!(store.get_bytes(d).is_err());
}

#[test]
fn already_live_hash_seq_root_still_marks_children_mem() {
    let mut store = MemStore::default();
    let child = store.add(b"collection child");
    let root = store.add(&hash_seq(&[child]));
    store.set_tag("live-collection", HashAndFormat::hash_seq(root));
    let mut live = DigestSet::new();
    live.insert(root);
    gc_run_once(&mut store, &mut live).unwrap();
    assert!(store.has(root), "the live root was unexpectedly swept");
    assert!(
        store.has(child),
        "GC did not traverse an already-live HashSeq root and swept its child",
    );
}
