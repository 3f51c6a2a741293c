use async_compression::futures::bufread::ZstdEncoder;
use futures::io::AsyncReadExt;

use updatemon::compression::decompress;
use updatemon::hash::Hasher;
use updatemon::manifest::{Artifact, Artifacts};
use updatemon::reconcile::apply_outcomes;
use updatemon::update::{
    archive_path, fetch_new_artifact, update_artifact, Action, Event, Outcome, Phase,
};
use updatemon::UpdateError;

fn zstd_compress(payload: &[u8]) -> Vec<u8> {
    let mut encoder = ZstdEncoder::new(payload);
    let mut archive = Vec::new();
    futures::executor::block_on(encoder.read_to_end(&mut archive)).unwrap();
    archive
}

fn art(version: &str, sha512: String, service: Option<String>, lockfile: Option<String>) -> Artifact {
    Artifact {
        filename: "agent.zst".to_string(),
        sha512,
        version: version.to_string(),
        destination: "/opt/agent".to_string(),
        service,
        lockfile,
    }
}

fn sha_of(archive: &Vec<u8>) -> String {
    let mut h = Hasher::new();
    h.hash(archive)
}

fn manifest_of(name: &str, a: &Artifact) -> Artifacts {
    let mut m = Artifacts::with_capacity(1);
    m.insert(name.to_string(), a.clone());
    m
}

#[test]
fn zstd_round_trips() {
    let payload = b"the agent binary".to_vec();
    let archive = zstd_compress(&payload);
    assert_ne!(archive, payload);
    assert_eq!(decompress(&archive).unwrap(), payload);
}

#[test]
fn garbage_bytes_fail_decompression() {
    let e = decompress(&b"not a zstd frame".to_vec()).unwrap_err();
    assert!(matches!(e, UpdateError::Decompress));
}

#[test]
fn archives_are_staged_under_tmp() {
    assert_eq!(archive_path("agent.zst"), "/tmp/deepfence/agent.zst");
}

#[test]
fn manifest_lookup_finds_inserted_entries() {
    let payload = b"x".to_vec();
    let a = art("v1.0.0", sha_of(&payload), None, None);
    let b = art("v2.0.0", sha_of(&payload), None, None);
    let mut m = Artifacts::with_capacity(2);
    assert_eq!(m.len(), 0);
    m.insert("agent".to_string(), a);
    m.insert("sensor".to_string(), b);
    assert_eq!(m.get(&"agent".to_string()).unwrap().version, "v1.0.0");
    assert_eq!(m.get(&"sensor".to_string()).unwrap().version, "v2.0.0");
    assert!(m.get(&"absent".to_string()).is_none());
}

#[test]
fn newer_remote_is_downloaded_verified_and_installed() {
    let payload = b"agent binary, version 2.1.0".to_vec();
    let archive = zstd_compress(&payload);
    let remote = art("v2.1.0", sha_of(&archive), None, None);
    let local = art("v2.0.0", "0b5".to_string(), None, None);

    let (task, action) = update_artifact("agent", &local, &remote, 3, 90);
    assert!(matches!(action, Action::FetchLength));
    let (task, action) = task.step(Event::Length(archive.len() as u64));
    let (start, end) = match action {
        Action::FetchChunk { start, end } => (start, end),
        other => panic!("expected a chunk request, got {:?}", other),
    };
    assert_eq!((start, end), (0, archive.len() as u64));
    let (task, action) = task.step(Event::Chunk(archive.clone()));
    let (destination, written) = match action {
        Action::WritePayload { destination, payload } => (destination, payload),
        other => panic!("expected the install write, got {:?}", other),
    };
    assert_eq!(destination, "/opt/agent");
    assert_eq!(written, payload);
    let (task, action) = task.step(Event::Installed { ok: true });
    assert!(matches!(action, Action::Finished));
    assert!(matches!(task.phase, Phase::Done(Outcome::Applied)));

    let new_manifest = apply_outcomes(
        &manifest_of("agent", &local),
        &manifest_of("agent", &remote),
        &vec![Outcome::Applied],
    );
    let entry = new_manifest.get(&"agent".to_string()).unwrap();
    assert_eq!(entry.version, "v2.1.0");
    assert_eq!(entry.sha512, remote.sha512);
}

#[test]
fn equal_versions_change_nothing() {
    let remote = art("v1.0.0", "aa".to_string(), None, None);
    let local = art("v1.0.0", "bb".to_string(), None, None);
    let (task, action) = update_artifact("agent", &local, &remote, 3, 90);
    assert!(matches!(action, Action::Finished));
    assert!(matches!(task.phase, Phase::Done(Outcome::UpToDate)));

    let new_manifest = apply_outcomes(
        &manifest_of("agent", &local),
        &manifest_of("agent", &remote),
        &vec![Outcome::UpToDate],
    );
    let entry = new_manifest.get(&"agent".to_string()).unwrap();
    assert_eq!(entry.version, "v1.0.0");
    assert_eq!(entry.sha512, "bb");
}

#[test]
fn absent_artifact_is_fetched_without_version_or_lock_check() {
    let payload = b"a brand new sensor".to_vec();
    let archive = zstd_compress(&payload);
    // Even a remote entry with a lockfile and an unparseable local state is
    // installed fresh: neither the version comparison nor the lock runs.
    let remote = art("v2.1.0", sha_of(&archive), None, Some("/tmp/s.lock".to_string()));

    let (task, action) = fetch_new_artifact("sensor", &remote, 3, 90);
    assert!(matches!(action, Action::FetchLength));
    let (task, action) = task.step(Event::Length(archive.len() as u64));
    assert!(matches!(action, Action::FetchChunk { .. }));
    let (task, action) = task.step(Event::Chunk(archive.clone()));
    let written = match action {
        Action::WritePayload { payload, .. } => payload,
        other => panic!("expected the install write, got {:?}", other),
    };
    assert_eq!(written, payload);
    let (task, _) = task.step(Event::Installed { ok: true });
    assert!(matches!(task.phase, Phase::Done(Outcome::Applied)));

    let empty = Artifacts::with_capacity(0);
    let new_manifest = apply_outcomes(
        &empty,
        &manifest_of("sensor", &remote),
        &vec![Outcome::Applied],
    );
    let entry = new_manifest.get(&"sensor".to_string()).unwrap();
    assert_eq!(entry.version, "v2.1.0");
}

#[test]
fn busy_lock_skips_the_cycle() {
    let remote = art("v2.1.0", "aa".to_string(), None, None);
    let local = art("v2.0.0", "bb".to_string(), None, Some("/var/lock/agent".to_string()));
    let (task, action) = update_artifact("agent", &local, &remote, 3, 90);
    match action {
        Action::AcquireLock(path) => assert_eq!(path, "/var/lock/agent"),
        other => panic!("expected the lock acquisition, got {:?}", other),
    }
    let (task, action) = task.step(Event::LockUnavailable);
    assert!(matches!(action, Action::Finished));
    assert!(matches!(task.phase, Phase::Done(Outcome::Busy)));

    let new_manifest = apply_outcomes(
        &manifest_of("agent", &local),
        &manifest_of("agent", &remote),
        &vec![Outcome::Busy],
    );
    assert_eq!(new_manifest.get(&"agent".to_string()).unwrap().version, "v2.0.0");
}

#[test]
fn acquired_lock_lets_the_download_start() {
    let remote = art("v2.1.0", "aa".to_string(), None, None);
    let local = art("v2.0.0", "bb".to_string(), None, Some("/var/lock/agent".to_string()));
    let (task, _) = update_artifact("agent", &local, &remote, 3, 90);
    let (_, action) = task.step(Event::LockAcquired);
    assert!(matches!(action, Action::FetchLength));
}

#[test]
fn transient_chunk_failures_retry_with_capped_backoff() {
    let payload = b"flaky transfer payload".to_vec();
    let archive = zstd_compress(&payload);
    let remote = art("v2.1.0", sha_of(&archive), None, None);

    let (task, _) = fetch_new_artifact("agent", &remote, 3, 90);
    let (mut task, first) = task.step(Event::Length(archive.len() as u64));
    let first_range = match first {
        Action::FetchChunk { start, end } => (start, end),
        other => panic!("expected a chunk request, got {:?}", other),
    };
    // The transport fails the first six attempts: each retry targets the
    // same chunk and the sleeps grow monotonically up to the ceiling.
    let mut sleeps = Vec::new();
    for _ in 0..6 {
        let (next, action) = task.step(Event::ChunkFailed);
        match action {
            Action::Sleep { seconds } => sleeps.push(seconds),
            other => panic!("expected a backoff sleep, got {:?}", other),
        }
        match &next.phase {
            Phase::Fetching(d) => assert_eq!(d.offset, first_range.0),
            _ => panic!("the task left the fetching phase"),
        }
        task = next;
    }
    assert_eq!(sleeps, vec![3, 6, 12, 24, 48, 90]);
    // Then the chunk arrives and the update completes normally.
    let (task, action) = task.step(Event::Chunk(archive.clone()));
    let written = match action {
        Action::WritePayload { payload, .. } => payload,
        other => panic!("expected the install write, got {:?}", other),
    };
    assert_eq!(written, payload);
    let (task, _) = task.step(Event::Installed { ok: true });
    assert!(matches!(task.phase, Phase::Done(Outcome::Applied)));
}

#[test]
fn unknown_length_fails_the_artifact() {
    let remote = art("v2.1.0", "aa".to_string(), None, None);
    let (task, _) = fetch_new_artifact("agent", &remote, 3, 90);
    let (task, action) = task.step(Event::LengthUnknown);
    assert!(matches!(action, Action::Finished));
    assert!(matches!(
        task.phase,
        Phase::Done(Outcome::Failed(UpdateError::LengthUnavailable))
    ));
}

#[test]
fn checksum_mismatch_fails_before_install() {
    let archive = zstd_compress(b"some payload");
    let remote = art("v2.1.0", "00".repeat(64), None, None);
    let (task, _) = fetch_new_artifact("agent", &remote, 3, 90);
    let (task, _) = task.step(Event::Length(archive.len() as u64));
    let (task, action) = task.step(Event::Chunk(archive.clone()));
    assert!(matches!(action, Action::Finished));
    match task.phase {
        Phase::Done(Outcome::Failed(UpdateError::ChecksumMismatch { expected, actual })) => {
            assert_eq!(expected, "00".repeat(64));
            assert_eq!(actual, sha_of(&archive));
        },
        _ => panic!("expected the checksum mismatch to end the task"),
    }
}

#[test]
fn verified_garbage_fails_decompression() {
    let archive = b"verified but not zstd".to_vec();
    let remote = art("v2.1.0", sha_of(&archive), None, None);
    let (task, _) = fetch_new_artifact("agent", &remote, 3, 90);
    let (task, _) = task.step(Event::Length(archive.len() as u64));
    let (task, action) = task.step(Event::Chunk(archive));
    assert!(matches!(action, Action::Finished));
    assert!(matches!(
        task.phase,
        Phase::Done(Outcome::Failed(UpdateError::Decompress))
    ));
}

#[test]
fn service_is_stopped_then_restarted_around_install() {
    let payload = b"service binary".to_vec();
    let archive = zstd_compress(&payload);
    let remote = art("v2.1.0", sha_of(&archive), Some("myservice".to_string()), None);
    let (task, _) = fetch_new_artifact("agent", &remote, 3, 90);
    let (task, _) = task.step(Event::Length(archive.len() as u64));
    let (task, action) = task.step(Event::Chunk(archive.clone()));
    match action {
        Action::StopService(name) => assert_eq!(name, "myservice"),
        other => panic!("expected the service stop, got {:?}", other),
    }
    let (task, action) = task.step(Event::ServiceStopped { ok: true });
    assert!(matches!(action, Action::WritePayload { .. }));
    let (task, action) = task.step(Event::Installed { ok: true });
    match action {
        Action::StartService(name) => assert_eq!(name, "myservice"),
        other => panic!("expected the service start, got {:?}", other),
    }
    let (task, action) = task.step(Event::ServiceStarted);
    assert!(matches!(action, Action::Finished));
    assert!(matches!(task.phase, Phase::Done(Outcome::Applied)));
}

#[test]
fn supervisor_itself_reloads_instead_of_restarting() {
    let payload = b"the supervisor binary".to_vec();
    let archive = zstd_compress(&payload);
    let remote = art("v2.1.0", sha_of(&archive), Some("supervisord".to_string()), None);
    let (task, _) = fetch_new_artifact("supervisord", &remote, 3, 90);
    let (task, _) = task.step(Event::Length(archive.len() as u64));
    let (task, action) = task.step(Event::Chunk(archive));
    assert!(matches!(action, Action::StopService(_)));
    let (task, _) = task.step(Event::ServiceStopped { ok: true });
    let (task, action) = task.step(Event::Installed { ok: true });
    assert!(matches!(action, Action::SupervisorReload));
    let (task, _) = task.step(Event::ServiceStarted);
    assert!(matches!(task.phase, Phase::Done(Outcome::Applied)));
}

#[test]
fn failed_service_stop_fails_the_artifact() {
    let payload = b"service binary".to_vec();
    let archive = zstd_compress(&payload);
    let remote = art("v2.1.0", sha_of(&archive), Some("myservice".to_string()), None);
    let (task, _) = fetch_new_artifact("agent", &remote, 3, 90);
    let (task, _) = task.step(Event::Length(archive.len() as u64));
    let (task, _) = task.step(Event::Chunk(archive));
    let (task, action) = task.step(Event::ServiceStopped { ok: false });
    assert!(matches!(action, Action::Finished));
    assert!(matches!(
        task.phase,
        Phase::Done(Outcome::Failed(UpdateError::ServiceControl))
    ));
}

#[test]
fn failed_install_write_fails_the_artifact() {
    let payload = b"agent binary".to_vec();
    let archive = zstd_compress(&payload);
    let remote = art("v2.1.0", sha_of(&archive), None, None);
    let (task, _) = fetch_new_artifact("agent", &remote, 3, 90);
    let (task, _) = task.step(Event::Length(archive.len() as u64));
    let (task, _) = task.step(Event::Chunk(archive));
    let (task, action) = task.step(Event::Installed { ok: false });
    assert!(matches!(action, Action::Finished));
    assert!(matches!(
        task.phase,
        Phase::Done(Outcome::Failed(UpdateError::Install))
    ));
}

#[test]
fn failed_update_keeps_the_prior_local_entry() {
    let remote = art("v2.1.0", "aa".to_string(), None, None);
    let local = art("v2.0.0", "bb".to_string(), None, None);
    let new_manifest = apply_outcomes(
        &manifest_of("agent", &local),
        &manifest_of("agent", &remote),
        &vec![Outcome::Failed(UpdateError::LengthUnavailable)],
    );
    let entry = new_manifest.get(&"agent".to_string()).unwrap();
    assert_eq!(entry.version, "v2.0.0");
    assert_eq!(entry.sha512, "bb");
}

#[test]
fn failed_fresh_install_leaves_no_entry() {
    let remote = art("v2.1.0", "aa".to_string(), None, None);
    let empty = Artifacts::with_capacity(0);
    let new_manifest = apply_outcomes(
        &empty,
        &manifest_of("sensor", &remote),
        &vec![Outcome::Failed(UpdateError::LengthUnavailable)],
    );
    assert!(new_manifest.get(&"sensor".to_string()).is_none());
    assert_eq!(new_manifest.len(), 0);
}

#[test]
fn mixed_cycle_merges_each_outcome_in_order() {
    let remote_a = art("v2.1.0", "ra".to_string(), None, None);
    let remote_b = art("v1.0.0", "rb".to_string(), None, None);
    let remote_c = art("v3.0.0", "rc".to_string(), None, None);
    let local_a = art("v2.0.0", "la".to_string(), None, None);
    let local_b = art("v1.0.0", "lb".to_string(), None, None);

    let mut local = Artifacts::with_capacity(2);
    local.insert("a".to_string(), local_a);
    local.insert("b".to_string(), local_b);
    let mut remote = Artifacts::with_capacity(3);
    remote.insert("a".to_string(), remote_a);
    remote.insert("b".to_string(), remote_b);
    remote.insert("c".to_string(), remote_c);

    let new_manifest = apply_outcomes(
        &local,
        &remote,
        &vec![Outcome::Applied, Outcome::UpToDate, Outcome::Applied],
    );
    assert_eq!(new_manifest.get(&"a".to_string()).unwrap().sha512, "ra");
    assert_eq!(new_manifest.get(&"b".to_string()).unwrap().sha512, "lb");
    assert_eq!(new_manifest.get(&"c".to_string()).unwrap().sha512, "rc");
    assert_eq!(new_manifest.len(), 3);
}
