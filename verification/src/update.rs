//! The per-artifact update state machine: decide whether an update is due,
//! take the install lock if one is configured, download the archive chunk by
//! chunk, verify its checksum, decompress it, and swap it into place around
//! the service's stop and start.
//!
//! All I/O is outside: the machine consumes events (what the lock, the store,
//! the filesystem and the supervisor answered) and emits actions (what to do
//! next), so every decision along the way is verified.

use vstd::prelude::*;

use crate::compression::{decompress, zstd_inflate};
use crate::download::{chunk_of, Downloader};
use crate::hash::{checksum_artifact, hex_of, sha512_of};
use crate::manifest::Artifact;
use crate::version::{is_remote_newer, remote_newer, version_valid};
use crate::UpdateError;

verus! {

/// The fixed size of one download chunk, in bytes.
pub const CHUNK_SIZE: u64 = 10240;

/// Where a downloaded archive is staged on local disk.
pub fn archive_path(filename: &str) -> (r: String)
    ensures
        r@ == "/tmp/deepfence/"@ + filename@,
{
    let base = String::from_str("/tmp/deepfence/");
    base.concat(filename)
}

/// How one artifact's update ended this cycle.
#[derive(Debug)]
pub enum Outcome {
    /// The remote version is not newer: nothing to do.
    UpToDate,
    /// The install lock is held elsewhere: skipped, retried next cycle.
    Busy,
    /// Downloaded, verified and installed.
    Applied,
    /// The update failed; the local manifest entry stays as it was.
    Failed(UpdateError),
}

/// Where an artifact's update stands.
pub enum Phase {
    /// Waiting for the install lock.
    Locking,
    /// Waiting for the store to report the archive's content length.
    FetchingLength,
    /// Fetching the archive chunk by chunk.
    Fetching(Downloader),
    /// Archive verified and decompressed; waiting for the service to stop.
    Stopping { payload: Vec<u8> },
    /// Waiting for the payload to be written to its destination.
    Installing,
    /// Files swapped; waiting for the service start or supervisor reload.
    Starting,
    /// The update ended.
    Done(Outcome),
}

/// What the outside world answered.
#[derive(Debug)]
pub enum Event {
    /// The install lock was acquired.
    LockAcquired,
    /// The install lock is held by someone else.
    LockUnavailable,
    /// The store reported the archive's total length in bytes.
    Length(u64),
    /// The store did not report a usable content length.
    LengthUnknown,
    /// The current chunk arrived with this body.
    Chunk(Vec<u8>),
    /// The current chunk's fetch failed (transport error or bad status).
    ChunkFailed,
    /// The supervisor stopped the service, or failed to.
    ServiceStopped { ok: bool },
    /// The payload was written to its destination, or the write failed.
    Installed { ok: bool },
    /// The service start or supervisor reload was attempted; a failure here
    /// does not block the update, since the files were already swapped.
    ServiceStarted,
}

/// What to do next.
#[derive(Debug)]
pub enum Action {
    /// Acquire the install lock at this path, without blocking.
    AcquireLock(String),
    /// Ask the store for the archive's content length.
    FetchLength,
    /// Fetch the byte range `[start, end)` of the archive.
    FetchChunk { start: u64, end: u64 },
    /// Sleep this many seconds, then retry the same chunk.
    Sleep { seconds: u64 },
    /// Ask the supervisor to stop this service.
    StopService(String),
    /// Write the payload to the artifact's destination path.
    WritePayload { destination: String, payload: Vec<u8> },
    /// Ask the supervisor to start this service.
    StartService(String),
    /// Ask the supervisor to reread and apply its own configuration.
    SupervisorReload,
    /// The update ended; the outcome is in the task's phase.
    Finished,
    /// The event did not apply to the current phase; nothing to do.
    Nothing,
}

/// One artifact's update task.
pub struct ArtifactTask {
    /// The remote manifest entry being applied.
    pub remote: Artifact,
    /// Download chunk size in bytes.
    pub chunk_size: u64,
    /// Backoff floor in seconds.
    pub retry_min: u64,
    /// Backoff ceiling in seconds.
    pub retry_max: u64,
    /// Where the update stands.
    pub phase: Phase,
}

impl ArtifactTask {
    /// Well-formed task state.
    pub open spec fn wf(&self) -> bool {
        &&& self.chunk_size >= 1
        &&& self.retry_min <= self.retry_max
        &&& match self.phase {
            Phase::Fetching(d) => d.wf() && !d@.is_done() && d.chunk_size == self.chunk_size
                && d.retry_min == self.retry_min && d.retry_max == self.retry_max,
            _ => true,
        }
    }
}

/// What finishing a download means: the fetched bytes are validated against
/// the manifest digest, decompressed, and handed on towards install — or the
/// task ends with the mismatch or decompression error.
pub open spec fn finish_ok(remote: Artifact, data: Seq<u8>, phase: Phase, action: Action) -> bool {
    if hex_of(sha512_of(data)) != remote.sha512@ {
        &&& phase matches Phase::Done(
            Outcome::Failed(UpdateError::ChecksumMismatch { expected, actual }),
        ) && expected@ == remote.sha512@ && actual@ == hex_of(sha512_of(data))
        &&& action is Finished
    } else {
        match zstd_inflate(data) {
            Option::None => {
                &&& phase matches Phase::Done(Outcome::Failed(UpdateError::Decompress))
                &&& action is Finished
            },
            Option::Some(p) => match remote.service {
                Option::Some(s) => {
                    &&& phase matches Phase::Stopping { payload } && payload@ == p
                    &&& action matches Action::StopService(n) && n@ == s@
                },
                Option::None => {
                    &&& phase is Installing
                    &&& action matches Action::WritePayload { destination, payload }
                        && destination@ == remote.destination@ && payload@ == p
                },
            },
        }
    }
}

/// The machine's transition relation: what one step does for every phase and
/// event, with events that do not apply to the current phase ignored.
pub open spec fn step_ok(pre: ArtifactTask, ev: Event, post: ArtifactTask, action: Action) -> bool {
    &&& post.remote == pre.remote
    &&& post.chunk_size == pre.chunk_size
    &&& post.retry_min == pre.retry_min
    &&& post.retry_max == pre.retry_max
    &&& match (pre.phase, ev) {
        (Phase::Locking, Event::LockAcquired) => post.phase is FetchingLength && action
            is FetchLength,
        (Phase::Locking, Event::LockUnavailable) => post.phase matches Phase::Done(Outcome::Busy)
            && action is Finished,
        (Phase::FetchingLength, Event::Length(n)) => if n > 0 {
            &&& post.phase matches Phase::Fetching(d) && d@ == (crate::download::DownloadState {
                length: n as int,
                chunk_size: pre.chunk_size as int,
                offset: 0,
                chunks_done: 0,
                timeout: pre.retry_min as int,
                retry_min: pre.retry_min as int,
                retry_max: pre.retry_max as int,
                data: Seq::<u8>::empty(),
            })
            &&& action matches Action::FetchChunk { start, end } && (start as int, end as int)
                == chunk_of(n as int, pre.chunk_size as int, 0)
        } else {
            finish_ok(pre.remote, Seq::<u8>::empty(), post.phase, action)
        },
        (Phase::FetchingLength, Event::LengthUnknown) => post.phase matches Phase::Done(
            Outcome::Failed(UpdateError::LengthUnavailable),
        ) && action is Finished,
        (Phase::Fetching(d), Event::ChunkFailed) => {
            &&& post.phase matches Phase::Fetching(d2) && d2@ == d@.on_failure()
            &&& action matches Action::Sleep { seconds } && seconds == d.timeout
        },
        (Phase::Fetching(d), Event::Chunk(body)) => if !d@.on_success(body@).is_done() {
            &&& post.phase matches Phase::Fetching(d2) && d2@ == d@.on_success(body@)
            &&& action matches Action::FetchChunk { start, end } && (start as int, end as int)
                == chunk_of(d@.length, d@.chunk_size, d@.on_success(body@).chunks_done)
        } else {
            finish_ok(pre.remote, d@.data + body@, post.phase, action)
        },
        (Phase::Stopping { payload }, Event::ServiceStopped { ok }) => if ok {
            &&& post.phase is Installing
            &&& action matches Action::WritePayload { destination, payload: p } && destination@
                == pre.remote.destination@ && p@ == payload@
        } else {
            &&& post.phase matches Phase::Done(Outcome::Failed(UpdateError::ServiceControl))
            &&& action is Finished
        },
        (Phase::Installing, Event::Installed { ok }) => if ok {
            match pre.remote.service {
                Option::Some(s) => if s@ == "supervisord"@ {
                    post.phase is Starting && action is SupervisorReload
                } else {
                    post.phase is Starting && (action matches Action::StartService(n) && n@ == s@)
                },
                Option::None => post.phase matches Phase::Done(Outcome::Applied) && action
                    is Finished,
            }
        } else {
            post.phase matches Phase::Done(Outcome::Failed(UpdateError::Install)) && action
                is Finished
        },
        (Phase::Starting, Event::ServiceStarted) => post.phase matches Phase::Done(
            Outcome::Applied,
        ) && action is Finished,
        _ => post == pre && action is Nothing,
    }
}

/// True when the service name is the sentinel meaning the supervisor itself.
fn is_supervisor_reload(s: &String) -> (r: bool)
    ensures
        r == (s@ == "supervisord"@),
{
    let sentinel = String::from_str("supervisord");
    s.eq(&sentinel)
}

/// Validates and decompresses a fully downloaded archive, and hands the
/// update on towards install, per `finish_ok`.
fn finish_download(remote: &Artifact, data: Vec<u8>) -> (r: (Phase, Action))
    ensures
        finish_ok(*remote, data@, r.0, r.1),
{
    match checksum_artifact(&data, remote) {
        Err(e) => (Phase::Done(Outcome::Failed(e)), Action::Finished),
        Ok(_) => match decompress(&data) {
            Err(e) => (Phase::Done(Outcome::Failed(e)), Action::Finished),
            Ok(payload) => match &remote.service {
                Some(s) => (Phase::Stopping { payload }, Action::StopService(s.clone())),
                None => (
                    Phase::Installing,
                    Action::WritePayload { destination: remote.destination.clone(), payload },
                ),
            },
        },
    }
}

impl ArtifactTask {
    /// Consumes one event and moves the update on, returning the next state
    /// and what to do; the step is exactly the transition `step_ok` states.
    pub fn step(self, ev: Event) -> (r: (ArtifactTask, Action))
        requires
            self.wf(),
        ensures
            r.0.wf(),
            step_ok(self, ev, r.0, r.1),
    {
        let ArtifactTask { remote, chunk_size, retry_min, retry_max, phase } = self;
        let (phase2, action) = match (phase, ev) {
            (Phase::Locking, Event::LockAcquired) => (Phase::FetchingLength, Action::FetchLength),
            (Phase::Locking, Event::LockUnavailable) => (
                Phase::Done(Outcome::Busy),
                Action::Finished,
            ),
            (Phase::FetchingLength, Event::Length(n)) => {
                let d = Downloader::new(n, chunk_size, retry_min, retry_max);
                match d.current_request() {
                    Some((start, end)) => (Phase::Fetching(d), Action::FetchChunk { start, end }),
                    None => finish_download(&remote, d.data),
                }
            },
            (Phase::FetchingLength, Event::LengthUnknown) => (
                Phase::Done(Outcome::Failed(UpdateError::LengthUnavailable)),
                Action::Finished,
            ),
            (Phase::Fetching(d), Event::ChunkFailed) => {
                let mut d = d;
                let seconds = d.on_failure();
                (Phase::Fetching(d), Action::Sleep { seconds })
            },
            (Phase::Fetching(d), Event::Chunk(body)) => {
                let mut d = d;
                d.on_success(body);
                match d.current_request() {
                    Some((start, end)) => (Phase::Fetching(d), Action::FetchChunk { start, end }),
                    None => finish_download(&remote, d.data),
                }
            },
            (Phase::Stopping { payload }, Event::ServiceStopped { ok }) => {
                if ok {
                    (
                        Phase::Installing,
                        Action::WritePayload { destination: remote.destination.clone(), payload },
                    )
                } else {
                    (Phase::Done(Outcome::Failed(UpdateError::ServiceControl)), Action::Finished)
                }
            },
            (Phase::Installing, Event::Installed { ok }) => {
                if ok {
                    match &remote.service {
                        Some(s) => {
                            if is_supervisor_reload(s) {
                                (Phase::Starting, Action::SupervisorReload)
                            } else {
                                (Phase::Starting, Action::StartService(s.clone()))
                            }
                        },
                        None => (Phase::Done(Outcome::Applied), Action::Finished),
                    }
                } else {
                    (Phase::Done(Outcome::Failed(UpdateError::Install)), Action::Finished)
                }
            },
            (Phase::Starting, Event::ServiceStarted) => (
                Phase::Done(Outcome::Applied),
                Action::Finished,
            ),
            (p, _) => (p, Action::Nothing),
        };
        (ArtifactTask { remote, chunk_size, retry_min, retry_max, phase: phase2 }, action)
    }
}

/// How an update of an already-installed artifact begins: invalid versions
/// fail the task; a remote version that is not strictly newer ends it up to
/// date; otherwise the lock is taken first where one is configured, and the
/// download starts straight away where none is.
pub open spec fn start_ok(
    local: Artifact,
    remote: Artifact,
    post: ArtifactTask,
    action: Action,
) -> bool {
    if !(version_valid(local.version@) && version_valid(remote.version@)) {
        post.phase matches Phase::Done(Outcome::Failed(UpdateError::VersionParse)) && action
            is Finished
    } else if !remote_newer(local.version@, remote.version@) {
        post.phase matches Phase::Done(Outcome::UpToDate) && action is Finished
    } else {
        match local.lockfile {
            Option::Some(p) => post.phase is Locking && (action matches Action::AcquireLock(q)
                && q@ == p@),
            Option::None => post.phase is FetchingLength && action is FetchLength,
        }
    }
}

/// Begins the update of an artifact that is present in both manifests: the
/// version comparison decides, then the lock where the local entry names one.
pub fn update_artifact(
    name: &str,
    local_artifact: &Artifact,
    remote_artifact: &Artifact,
    retry_min: u64,
    retry_max: u64,
) -> (r: (ArtifactTask, Action))
    requires
        retry_min <= retry_max,
    ensures
        r.0.wf(),
        r.0.remote == *remote_artifact,
        r.0.chunk_size == CHUNK_SIZE,
        r.0.retry_min == retry_min,
        r.0.retry_max == retry_max,
        start_ok(*local_artifact, *remote_artifact, r.0, r.1),
{
    let (phase, action) = match is_remote_newer(name, local_artifact, remote_artifact) {
        Err(e) => (Phase::Done(Outcome::Failed(e)), Action::Finished),
        Ok(false) => (Phase::Done(Outcome::UpToDate), Action::Finished),
        Ok(true) => match &local_artifact.lockfile {
            Some(p) => (Phase::Locking, Action::AcquireLock(p.clone())),
            None => (Phase::FetchingLength, Action::FetchLength),
        },
    };
    (
        ArtifactTask {
            remote: remote_artifact.clone(),
            chunk_size: CHUNK_SIZE,
            retry_min,
            retry_max,
            phase,
        },
        action,
    )
}

/// Begins the fresh install of an artifact that is absent locally: no
/// version comparison and no lock check — straight to the download.
pub fn fetch_new_artifact(name: &str, remote_artifact: &Artifact, retry_min: u64, retry_max: u64)
    -> (r: (ArtifactTask, Action))
    requires
        retry_min <= retry_max,
    ensures
        r.0.wf(),
        r.0.remote == *remote_artifact,
        r.0.chunk_size == CHUNK_SIZE,
        r.0.retry_min == retry_min,
        r.0.retry_max == retry_max,
        r.0.phase is FetchingLength,
        r.1 is FetchLength,
{
    let _ = name;
    (
        ArtifactTask {
            remote: remote_artifact.clone(),
            chunk_size: CHUNK_SIZE,
            retry_min,
            retry_max,
            phase: Phase::FetchingLength,
        },
        Action::FetchLength,
    )
}

} // verus!
