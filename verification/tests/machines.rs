//! The machines, step by step.

use std::time::Duration;

use blob_gc::chunks::ChunkRanges;
use blob_gc::cycle::{CycleAction, CycleInput, GcRunOnce};
use blob_gc::digest::{BlobFormat, Digest, HashAndFormat};
use blob_gc::event::{GcMarkEvent, GcSweepEvent};
use blob_gc::mark::{GcMark, MarkAction, MarkInput, MarkTask, TagEntry, TempTagEntry};
use blob_gc::schedule::{GcConfig, ProtectOutcome, RunGc, ScheduleAction, ScheduleInput};
use blob_gc::set::{ClaimSet, DigestSet};
use blob_gc::sweep::{GcSweep, SweepAction, SweepInput, SweepTask, BATCH_SIZE};
use blob_gc::text::push_decimal;

fn hash(n: u128) -> Digest {
    Digest { hi: n % 3, lo: n }
}

fn tag(name: &str, claim: HashAndFormat) -> MarkInput<u8> {
    MarkInput::Tag(Some(Ok(TagEntry {
        name_text: name.to_string(),
        claim,
        claim_text: format!("claim {}", claim.hash.lo),
    })))
}

fn temp_tag(claim: HashAndFormat) -> MarkInput<u8> {
    MarkInput::TempTag(Some(TempTagEntry { claim, claim_text: format!("claim {}", claim.hash.lo) }))
}

/// Steps a mark phase through these tags and temporary tags, up to the first root.
fn to_roots(
    task: &mut MarkTask,
    live: &mut DigestSet,
    tags: Vec<MarkInput<u8>>,
    temp_tags: Vec<MarkInput<u8>>,
) -> MarkAction<u8> {
    task.step::<u8>(live, MarkInput::Resume);
    task.step::<u8>(live, MarkInput::Resume);
    task.step::<u8>(live, MarkInput::Listed(Ok(())));
    for tag in tags {
        task.step::<u8>(live, tag);
        task.step::<u8>(live, MarkInput::Resume);
    }
    task.step::<u8>(live, MarkInput::Tag(None));
    task.step::<u8>(live, MarkInput::Resume);
    task.step::<u8>(live, MarkInput::Listed(Ok(())));
    for tag in temp_tags {
        task.step::<u8>(live, tag);
        task.step::<u8>(live, MarkInput::Resume);
    }
    task.step::<u8>(live, MarkInput::TempTag(None))
}

fn note(action: MarkAction<u8>) -> String {
    match action {
        MarkAction::Yield(GcMarkEvent::CustomDebug(text)) => text,
        other => panic!("no note: {other:?}"),
    }
}

#[test]
fn all_chunks_are_those_of_the_tree_crate() {
    let ranges = ChunkRanges::all();
    assert_eq!(ranges.boundaries, vec![0]);
    let all = bao_tree::ChunkRanges::all();
    for chunk in [0, 1, 2, 1 << 40, u64::MAX] {
        let below = ranges.boundaries.iter().filter(|b| **b <= chunk).count();
        assert_eq!(below % 2 == 1, all.contains(&bao_tree::ChunkNum(chunk)));
    }
}

#[test]
fn decimal_texts() {
    for n in [0, 7, 10, 99, 100, 1234567890, u64::MAX] {
        let mut text = String::from("n ");
        push_decimal(&mut text, n);
        assert_eq!(text, format!("n {n}"));
    }
}

#[test]
fn digest_set_is_a_set() {
    let mut set = DigestSet::new();
    assert_eq!(set.len(), 0);
    for n in 0..50 {
        assert!(set.insert(hash(n)));
        assert!(!set.insert(hash(n)));
    }
    assert_eq!(set.len(), 50);
    assert!(set.contains(&hash(49)));
    assert!(!set.contains(&hash(50)));
    assert!(!set.contains(&Digest { hi: 7, lo: 1 }));
    set.clear();
    assert_eq!(set.len(), 0);
    assert!(!set.contains(&hash(1)));
}

#[test]
fn claim_set_tells_formats_apart() {
    let raw = HashAndFormat::raw(hash(1));
    let seq = HashAndFormat::hash_seq(hash(1));
    assert_eq!(raw.format, BlobFormat::Raw);
    assert!(raw.format.is_raw());
    assert!(!seq.format.is_raw());
    let claims = ClaimSet::new().insert(raw).insert(seq).insert(raw).insert(seq);
    assert_eq!(claims.into_vec(), vec![raw, seq]);
}

#[test]
fn mark_reports_its_progress() {
    let mut live = DigestSet::new();
    let mut task = MarkTask::new();
    let raw = HashAndFormat::raw(hash(1));
    assert_eq!(note(task.step(&mut live, MarkInput::Resume)), "traversing tags");
    assert!(matches!(task.step::<u8>(&mut live, MarkInput::Resume), MarkAction::ListTags));
    assert!(matches!(task.step::<u8>(&mut live, MarkInput::Listed(Ok(()))), MarkAction::NextTag));
    assert_eq!(note(task.step(&mut live, tag("\"x\"", raw))), "adding root \"x\" claim 1");
    assert!(matches!(task.step::<u8>(&mut live, MarkInput::Resume), MarkAction::NextTag));
    assert_eq!(note(task.step(&mut live, MarkInput::Tag(None))), "traversing temp roots");
    assert!(matches!(task.step::<u8>(&mut live, MarkInput::Resume), MarkAction::ListTempTags));
    assert!(matches!(
        task.step::<u8>(&mut live, MarkInput::Listed(Ok(()))),
        MarkAction::NextTempTag
    ));
    assert_eq!(
        note(task.step(&mut live, temp_tag(HashAndFormat::raw(hash(2))))),
        "adding temp root claim 2"
    );
    assert!(matches!(task.step::<u8>(&mut live, MarkInput::Resume), MarkAction::NextTempTag));
    assert_eq!(live.len(), 0);
    assert_eq!(
        note(task.step(&mut live, MarkInput::TempTag(None))),
        "gc mark done. found 2 live blobs"
    );
    assert!(live.contains(&hash(1)) && live.contains(&hash(2)));
    assert!(matches!(
        task.step::<u8>(&mut live, MarkInput::Resume),
        MarkAction::Return(Ok(()))
    ));
    assert!(!task.accepts::<u8>(&MarkInput::Resume));
}

#[test]
fn repeated_claims_are_walked_once() {
    let mut live = DigestSet::new();
    live.insert(hash(5));
    let mut task = MarkTask::new();
    let seq = HashAndFormat::hash_seq(hash(5));
    let first = to_roots(
        &mut task,
        &mut live,
        vec![tag("a", seq), tag("b", HashAndFormat::raw(hash(5))), tag("c", seq)],
        vec![temp_tag(seq)],
    );
    match first {
        MarkAction::OpenChildren(root, ranges) => {
            assert_eq!(root, hash(5));
            assert_eq!(ranges, ChunkRanges::all());
        }
        other => panic!("not opened: {other:?}"),
    }
    assert!(matches!(task.step::<u8>(&mut live, MarkInput::Resume), MarkAction::NextChild));
    assert!(matches!(
        task.step::<u8>(&mut live, MarkInput::Child(Some(Ok(hash(6))))),
        MarkAction::NextChild
    ));
    assert_eq!(
        note(task.step(&mut live, MarkInput::Child(None))),
        "gc mark done. found 2 live blobs"
    );
    assert!(live.contains(&hash(5)) && live.contains(&hash(6)));
}

/// Marks these claims, each collection holding the digest after its own, and gives the
/// collections that were opened.
fn mark_all(live: &mut DigestSet, tags: Vec<MarkInput<u8>>) -> Vec<Digest> {
    let mut task = MarkTask::new();
    let mut opened = Vec::new();
    let mut action = to_roots(&mut task, live, tags, vec![]);
    while let MarkAction::OpenChildren(root, _) = action {
        opened.push(root);
        task.step::<u8>(live, MarkInput::Resume);
        task.step::<u8>(live, MarkInput::Child(Some(Ok(hash(root.lo + 1)))));
        action = task.step(live, MarkInput::Child(None));
    }
    opened.sort();
    opened
}

#[test]
fn order_of_the_tags_does_not_matter() {
    let claims = [
        HashAndFormat::raw(hash(10)),
        HashAndFormat::hash_seq(hash(10)),
        HashAndFormat::hash_seq(hash(20)),
        HashAndFormat::raw(hash(30)),
    ];
    let forward = claims.iter().map(|claim| tag("t", *claim)).collect();
    let backward = claims.iter().rev().map(|claim| tag("t", *claim)).collect();
    let mut live = DigestSet::new();
    let mut other = DigestSet::new();
    assert_eq!(mark_all(&mut live, forward), vec![hash(10), hash(20)]);
    assert_eq!(mark_all(&mut other, backward), vec![hash(10), hash(20)]);
    for n in 0..40 {
        let expected = [10, 11, 20, 21, 30].contains(&n);
        assert_eq!(live.contains(&hash(n)), expected);
        assert_eq!(other.contains(&hash(n)), expected);
    }
}

#[test]
fn unreadable_member_is_warned_about_and_flagged() {
    let mut live = DigestSet::new();
    let mut task = MarkTask::new();
    to_roots(&mut task, &mut live, vec![tag("a", HashAndFormat::hash_seq(hash(1)))], vec![]);
    task.step::<u8>(&mut live, MarkInput::Resume);
    match task.step::<u8>(&mut live, MarkInput::Child(Some(Err("gone".to_string())))) {
        MarkAction::Yield(GcMarkEvent::CustomWarning(text, error)) => {
            assert_eq!(text, "error while traversing hashseq: gone");
            assert_eq!(error, None);
        }
        other => panic!("no warning: {other:?}"),
    }
    match task.step::<u8>(&mut live, MarkInput::Resume) {
        MarkAction::Yield(GcMarkEvent::TraversalIncomplete(root)) => assert_eq!(root, hash(1)),
        other => panic!("not flagged: {other:?}"),
    }
    assert!(matches!(task.step::<u8>(&mut live, MarkInput::Resume), MarkAction::NextChild));
    assert!(matches!(
        task.step::<u8>(&mut live, MarkInput::Child(Some(Ok(hash(2))))),
        MarkAction::NextChild
    ));
    assert!(live.contains(&hash(2)));
}

#[test]
fn mark_failures_end_the_phase() {
    let mut live = DigestSet::new();
    live.insert(hash(1));
    let mut task = MarkTask::new();
    task.step::<u8>(&mut live, MarkInput::Resume);
    task.step::<u8>(&mut live, MarkInput::Resume);
    assert!(matches!(task.step(&mut live, MarkInput::Listed(Err(4))), MarkAction::Return(Err(4))));

    let mut task = MarkTask::new();
    task.step::<u8>(&mut live, MarkInput::Resume);
    task.step::<u8>(&mut live, MarkInput::Resume);
    task.step::<u8>(&mut live, MarkInput::Listed(Ok(())));
    assert!(matches!(
        task.step(&mut live, MarkInput::Tag(Some(Err(5)))),
        MarkAction::Return(Err(5))
    ));

    let mut stream = GcMark::new();
    stream.step::<u8>(&mut live, MarkInput::Resume);
    stream.step::<u8>(&mut live, MarkInput::Resume);
    stream.step::<u8>(&mut live, MarkInput::Listed(Ok(())));
    stream.step::<u8>(&mut live, MarkInput::Tag(None));
    stream.step::<u8>(&mut live, MarkInput::Resume);
    assert!(matches!(
        stream.step(&mut live, MarkInput::Listed(Err(6))),
        MarkAction::Yield(GcMarkEvent::Error(6))
    ));
    assert!(stream.accepts::<u8>(&MarkInput::Resume));
    assert!(matches!(
        stream.step::<u8>(&mut live, MarkInput::Resume),
        MarkAction::Return(Ok(()))
    ));
    assert!(!stream.accepts::<u8>(&MarkInput::Resume));
    assert_eq!(live.len(), 1);
}

#[test]
fn sweep_deletes_the_dead_in_batches() {
    let mut live = DigestSet::new();
    for n in 0..250 {
        if n % 5 == 0 {
            live.insert(hash(n));
        }
    }
    let mut task = SweepTask::new();
    assert!(matches!(task.step::<u8>(&live, SweepInput::Resume), SweepAction::ListBlobs));
    let mut action = task.step::<u8>(&live, SweepInput::Done(Ok(())));
    let mut batches = Vec::new();
    for n in 0..300u128 {
        assert!(matches!(action, SweepAction::NextBlob));
        action = task.step(&live, SweepInput::Blob(Some(Ok(hash(n)))));
        if let SweepAction::Delete(batch) = action {
            batches.push(batch);
            action = task.step(&live, SweepInput::Done(Ok(())));
        }
    }
    match task.step::<u8>(&live, SweepInput::Blob(None)) {
        SweepAction::Delete(batch) => batches.push(batch),
        other => panic!("no last batch: {other:?}"),
    }
    assert_eq!(batches.iter().map(Vec::len).collect::<Vec<_>>(), vec![100, 100, 50]);
    assert_eq!(BATCH_SIZE, 100);
    let expected: Vec<Digest> =
        (0..300).filter(|n| *n >= 250 || n % 5 != 0).map(hash).collect();
    assert_eq!(batches.concat(), expected);
    assert!(matches!(task.step::<u8>(&live, SweepInput::Done(Ok(()))), SweepAction::SyncDb));
    match task.step::<u8>(&live, SweepInput::Done(Ok(()))) {
        SweepAction::Yield(GcSweepEvent::CustomDebug(text)) => {
            assert_eq!(text, "deleted 250 blobs")
        }
        other => panic!("no count: {other:?}"),
    }
    assert!(matches!(
        task.step::<u8>(&live, SweepInput::Resume),
        SweepAction::Return(Ok(()))
    ));
}

#[test]
fn full_last_batch_is_not_followed_by_an_empty_one() {
    let live = DigestSet::new();
    let mut task = SweepTask::new();
    task.step::<u8>(&live, SweepInput::Resume);
    task.step::<u8>(&live, SweepInput::Done(Ok(())));
    for n in 0..99 {
        task.step::<u8>(&live, SweepInput::Blob(Some(Ok(hash(n)))));
    }
    assert!(matches!(
        task.step::<u8>(&live, SweepInput::Blob(Some(Ok(hash(99))))),
        SweepAction::Delete(batch) if batch.len() == 100
    ));
    assert!(matches!(task.step::<u8>(&live, SweepInput::Done(Ok(()))), SweepAction::NextBlob));
    assert!(matches!(task.step::<u8>(&live, SweepInput::Blob(None)), SweepAction::SyncDb));
}

#[test]
fn sweep_failures_end_the_phase() {
    let live = DigestSet::new();
    let mut task = SweepTask::new();
    task.step::<u8>(&live, SweepInput::Resume);
    assert!(matches!(
        task.step(&live, SweepInput::Done(Err(1))),
        SweepAction::Return(Err(1))
    ));
    assert!(!task.accepts::<u8>(&SweepInput::Resume));

    let mut stream = GcSweep::new();
    stream.step::<u8>(&live, SweepInput::Resume);
    stream.step::<u8>(&live, SweepInput::Done(Ok(())));
    assert!(matches!(
        stream.step(&live, SweepInput::Blob(Some(Err(2)))),
        SweepAction::Yield(GcSweepEvent::Error(2))
    ));
    assert!(matches!(
        stream.step::<u8>(&live, SweepInput::Resume),
        SweepAction::Return(Ok(()))
    ));
    assert!(!stream.accepts::<u8>(&SweepInput::Resume));
}

/// Steps a cycle through an empty store up to the listing of its blobs.
fn to_sweep(cycle: &mut GcRunOnce, live: &mut DigestSet) -> CycleAction<u8> {
    assert!(matches!(cycle.step::<u8>(live, CycleInput::Begin), CycleAction::ClearProtected));
    cycle.step::<u8>(live, CycleInput::Cleared(Ok(())));
    for input in [
        MarkInput::Resume,
        MarkInput::Listed(Ok(())),
        MarkInput::Tag(None),
        MarkInput::Resume,
        MarkInput::Listed(Ok(())),
        MarkInput::TempTag(None),
    ] {
        cycle.step::<u8>(live, CycleInput::Mark(input));
    }
    cycle.step::<u8>(live, CycleInput::Mark(MarkInput::Resume))
}

#[test]
fn cycle_ends_with_the_first_failure() {
    let mut live = DigestSet::new();
    let mut cycle = GcRunOnce::new();
    cycle.step::<u8>(&mut live, CycleInput::Begin);
    assert!(matches!(
        cycle.step(&mut live, CycleInput::Cleared(Err(1))),
        CycleAction::Return(Err(1))
    ));
    assert!(!cycle.accepts::<u8>(&CycleInput::Begin));

    let mut cycle = GcRunOnce::new();
    cycle.step::<u8>(&mut live, CycleInput::Begin);
    cycle.step::<u8>(&mut live, CycleInput::Cleared(Ok(())));
    cycle.step::<u8>(&mut live, CycleInput::Mark(MarkInput::Resume));
    assert!(matches!(
        cycle.step(&mut live, CycleInput::Mark(MarkInput::Listed(Err(2)))),
        CycleAction::Return(Err(2))
    ));

    let mut cycle = GcRunOnce::new();
    assert!(matches!(to_sweep(&mut cycle, &mut live), CycleAction::Sweep(SweepAction::ListBlobs)));
    assert!(matches!(
        cycle.step(&mut live, CycleInput::Sweep(SweepInput::Done(Err(3)))),
        CycleAction::Return(Err(3))
    ));
}

#[test]
fn cycle_over_an_empty_store_succeeds() {
    let mut live = DigestSet::new();
    let mut cycle = GcRunOnce::new();
    to_sweep(&mut cycle, &mut live);
    assert!(!cycle.accepts::<u8>(&CycleInput::Mark(MarkInput::Resume)));
    cycle.step::<u8>(&mut live, CycleInput::Sweep(SweepInput::Done(Ok(()))));
    assert!(matches!(
        cycle.step::<u8>(&mut live, CycleInput::Sweep(SweepInput::Blob(None))),
        CycleAction::Sweep(SweepAction::SyncDb)
    ));
    match cycle.step::<u8>(&mut live, CycleInput::Sweep(SweepInput::Done(Ok(())))) {
        CycleAction::Sweep(SweepAction::Yield(GcSweepEvent::CustomDebug(text))) => {
            assert_eq!(text, "deleted 0 blobs")
        }
        other => panic!("no count: {other:?}"),
    }
    assert!(matches!(
        cycle.step::<u8>(&mut live, CycleInput::Sweep(SweepInput::Resume)),
        CycleAction::Return(Ok(()))
    ));
}

#[test]
fn unreadable_member_withholds_the_sweep() {
    let mut live = DigestSet::new();
    let mut cycle = GcRunOnce::new();
    cycle.step::<u8>(&mut live, CycleInput::Begin);
    cycle.step::<u8>(&mut live, CycleInput::Cleared(Ok(())));
    for input in [
        MarkInput::Resume,
        MarkInput::Listed(Ok(())),
        tag("a", HashAndFormat::hash_seq(hash(1))),
        MarkInput::Resume,
        MarkInput::Tag(None),
        MarkInput::Resume,
        MarkInput::Listed(Ok(())),
        MarkInput::TempTag(None),
        MarkInput::Resume,
        MarkInput::Child(Some(Err("gone".to_string()))),
        MarkInput::Resume,
        MarkInput::Resume,
        MarkInput::Child(None),
    ] {
        let input = CycleInput::Mark(input);
        assert!(cycle.accepts(&input));
        assert!(matches!(cycle.step(&mut live, input), CycleAction::Mark(_)));
    }
    assert!(matches!(
        cycle.step::<u8>(&mut live, CycleInput::Mark(MarkInput::Resume)),
        CycleAction::Return(Ok(()))
    ));
    assert!(live.contains(&hash(1)));
}

#[test]
fn schedule_without_a_callback() {
    let interval = Duration::from_millis(1500);
    let config: GcConfig<()> = GcConfig { interval, add_protected: None };
    let mut schedule = RunGc::new(&config);
    let mut live = DigestSet::new();
    live.insert(hash(1));
    assert!(schedule.accepts::<u8>(&ScheduleInput::Begin));
    assert!(matches!(
        schedule.step::<u8>(&mut live, ScheduleInput::Begin),
        ScheduleAction::Sleep(d) if d == interval
    ));
    assert_eq!(live.len(), 0);
    assert!(!schedule.accepts::<u8>(&ScheduleInput::Begin));
    assert!(matches!(
        schedule.step::<u8>(&mut live, ScheduleInput::Slept),
        ScheduleAction::Cycle
    ));
    live.insert(hash(2));
    assert!(matches!(
        schedule.step::<u8>(&mut live, ScheduleInput::Cycled(Ok(()))),
        ScheduleAction::Sleep(d) if d == interval
    ));
    assert_eq!(live.len(), 0);
    schedule.step::<u8>(&mut live, ScheduleInput::Slept);
    assert!(matches!(
        schedule.step(&mut live, ScheduleInput::Cycled(Err(9))),
        ScheduleAction::Stop(9)
    ));
    assert!(!schedule.accepts::<u8>(&ScheduleInput::Slept));
}

#[test]
fn schedule_with_a_callback() {
    let interval = Duration::from_secs(2);
    let config = GcConfig { interval, add_protected: Some(()) };
    let mut schedule = RunGc::new(&config);
    let mut live = DigestSet::new();
    schedule.step::<u8>(&mut live, ScheduleInput::Begin);
    assert!(matches!(
        schedule.step::<u8>(&mut live, ScheduleInput::Slept),
        ScheduleAction::Protect
    ));
    live.insert(hash(1));
    assert!(matches!(
        schedule.step::<u8>(&mut live, ScheduleInput::Protected(ProtectOutcome::Abort)),
        ScheduleAction::Sleep(d) if d == interval
    ));
    assert_eq!(live.len(), 0);
    schedule.step::<u8>(&mut live, ScheduleInput::Slept);
    live.insert(hash(1));
    assert!(matches!(
        schedule.step::<u8>(&mut live, ScheduleInput::Protected(ProtectOutcome::Continue)),
        ScheduleAction::Cycle
    ));
    assert!(live.contains(&hash(1)));
}
