use nbody_playback::body::{BodyState, Vec3, seed_frame};
use nbody_playback::decode::DecodeError;
use nbody_playback::playback::{Fault, PlaybackController};
use nbody_playback::source::{FailingSource, IoError, MemorySource, SnapshotSource};

fn memory_source(records: &[&[u8]]) -> MemorySource {
    MemorySource::from_records(records.iter().map(|r| r.to_vec()).collect())
}

#[test]
fn seed_frame_has_four_default_bodies() {
    let seed = seed_frame();
    assert_eq!(seed.len(), 4);
    let positions: Vec<(i64, i64, i64)> = seed
        .iter()
        .map(|b| (b.position.x, b.position.y, b.position.z))
        .collect();
    assert_eq!(positions, vec![(0, 0, 0), (100, 0, 0), (0, 100, 0), (100, 100, 0)]);
    for b in &seed {
        assert_eq!(b.velocity, Vec3 { x: 0, y: 0, z: 0 });
        assert_eq!(b.mass, 100);
    }
}

#[test]
fn memory_source_delivers_records_in_order() {
    let mut src = memory_source(&[b"first", b"second"]);
    assert_eq!(src.next_record(), Ok(Some(b"first".to_vec())));
    assert_eq!(src.next_record(), Ok(Some(b"second".to_vec())));
    assert_eq!(src.next_record(), Ok(None));
}

#[test]
fn memory_source_exhaustion_is_idempotent() {
    let mut src = memory_source(&[b"only"]);
    assert_eq!(src.next_record(), Ok(Some(b"only".to_vec())));
    assert_eq!(src.next_record(), Ok(None));
    // every later pull reports end-of-stream again
    assert_eq!(src.next_record(), Ok(None));
    assert_eq!(src.next_record(), Ok(None));
    assert_eq!(src.next_record(), Ok(None));
}

#[test]
fn failing_source_faults_once_then_stays_done() {
    let mut src = FailingSource::new();
    assert_eq!(src.next_record(), Err(IoError));
    assert_eq!(src.next_record(), Ok(None));
    assert_eq!(src.next_record(), Ok(None));
}

#[test]
fn single_record_then_eof_freezes_on_last_frame() {
    let src = memory_source(&[b"[{\"pos\":[0,0,0],\"vel\":[0,0,0],\"mass\":100}]"]);
    let mut ctl = PlaybackController::new(src, seed_frame());

    // tick 1: the one record decodes into a one-body frame
    assert_eq!(ctl.advance(), None);
    assert!(!ctl.exhausted());
    let expected = vec![BodyState {
        position: Vec3 { x: 0, y: 0, z: 0 },
        velocity: Vec3 { x: 0, y: 0, z: 0 },
        mass: 100,
    }];
    assert_eq!(ctl.current_frame(), &expected);

    // tick 2: end-of-stream; the frame is retained
    assert_eq!(ctl.advance(), None);
    assert!(ctl.exhausted());
    assert_eq!(ctl.current_frame(), &expected);

    // every later tick is a no-op
    for _ in 0..3 {
        assert_eq!(ctl.advance(), None);
        assert!(ctl.exhausted());
        assert_eq!(ctl.current_frame(), &expected);
    }
}

#[test]
fn malformed_line_is_skipped_and_playback_goes_on() {
    let src = memory_source(&[
        b"[{\"pos\":[1,0,0],\"vel\":[0,0,0],\"mass\":10}]",
        b"[{\"pos\":[2,0,0],\"vel\":[0,0,0]}]",
        b"[{\"pos\":[3,0,0],\"vel\":[0,0,0],\"mass\":30}]",
    ]);
    let mut ctl = PlaybackController::new(src, seed_frame());

    // tick 1: valid line
    assert_eq!(ctl.advance(), None);
    let first = ctl.current_frame().clone();
    assert_eq!(first[0].position.x, 1);

    // tick 2: the malformed line is skipped, the frame is unchanged,
    // and the fault is handed back for logging
    assert_eq!(ctl.advance(), Some(Fault::Decode(DecodeError::Malformed)));
    assert!(!ctl.exhausted());
    assert_eq!(ctl.current_frame(), &first);

    // tick 3: playback proceeds normally with the next valid line
    assert_eq!(ctl.advance(), None);
    assert_eq!(ctl.current_frame()[0].position.x, 3);
    assert!(!ctl.exhausted());
}

#[test]
fn bad_mass_is_skipped_with_its_own_fault() {
    let src = memory_source(&[b"[{\"pos\":[0,0,0],\"vel\":[0,0,0],\"mass\":0}]"]);
    let mut ctl = PlaybackController::new(src, seed_frame());
    assert_eq!(
        ctl.advance(),
        Some(Fault::Decode(DecodeError::NonPositiveMass))
    );
    assert!(!ctl.exhausted());
    assert_eq!(ctl.current_frame(), &seed_frame());
}

#[test]
fn empty_log_keeps_seed_frame_forever() {
    let src = memory_source(&[]);
    let mut ctl = PlaybackController::new(src, seed_frame());
    assert_eq!(ctl.current_frame(), &seed_frame());

    // the first tick sees immediate end-of-stream
    assert_eq!(ctl.advance(), None);
    assert!(ctl.exhausted());
    assert_eq!(ctl.current_frame(), &seed_frame());

    // and the controller stays on the seed frame forever
    for _ in 0..5 {
        assert_eq!(ctl.advance(), None);
        assert_eq!(ctl.current_frame(), &seed_frame());
        assert!(ctl.exhausted());
    }
}

#[test]
fn io_fault_ends_playback_and_keeps_frame() {
    let mut ctl = PlaybackController::new(FailingSource::new(), seed_frame());
    assert_eq!(ctl.advance(), Some(Fault::Io(IoError)));
    assert!(ctl.exhausted());
    assert_eq!(ctl.current_frame(), &seed_frame());

    // once exhausted, later ticks are silent no-ops
    assert_eq!(ctl.advance(), None);
    assert_eq!(ctl.current_frame(), &seed_frame());
}

#[test]
fn frame_length_may_change_between_ticks() {
    let src = memory_source(&[
        b"[{\"pos\":[1,1,1],\"vel\":[0,0,0],\"mass\":1},{\"pos\":[2,2,2],\"vel\":[0,0,0],\"mass\":2}]",
        b"[]",
        b"[{\"pos\":[9,9,9],\"vel\":[0,0,0],\"mass\":9}]",
    ]);
    let mut ctl = PlaybackController::new(src, seed_frame());
    ctl.advance();
    assert_eq!(ctl.current_frame().len(), 2);
    ctl.advance();
    assert_eq!(ctl.current_frame().len(), 0);
    ctl.advance();
    assert_eq!(ctl.current_frame().len(), 1);
}
