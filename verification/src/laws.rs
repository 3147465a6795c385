//! What holds of every run of a supervisor.
//!
//! Each law follows a [`World`] through the events of one cycle, or of part
//! of one, and says what the files look like afterwards, what was asked for
//! on the way and what was reported. The files are those of the model in
//! [`crate::install`]: a file operation changes them when it is reported as
//! done, and not at all when it is reported as failed.
use crate::error::{StoreFailure, UpdateError};
use crate::install::{
    installed_version, lemma_install_outcome, lemma_progress_keeps_marker, operation, progress,
    read, same_at, Artifact, FileModel, EXECUTABLE_MODE,
};
use crate::layout::Paths;
use crate::notify::notification_of;
use crate::protocol::{ActionView, EventView, PidFileView};
use crate::store::{binary_key_of, config_key_of, latest_key_of};
use crate::supervisor::{JobView, PhaseView, POLL_INTERVAL_SECONDS};
use crate::text::{lemma_trimmed_idempotent, text_of, trimmed};
use crate::version::{installed_of, latest_of, up_to_date};
use crate::world::{
    lemma_next_coherent, lemma_run_concat, lemma_run_push, lemma_run_three, lemma_run_two, World,
};
use vstd::prelude::*;

verus! {

/// The request to sleep until the next poll.
pub open spec fn sleep() -> ActionView {
    ActionView::Sleep { seconds: POLL_INTERVAL_SECONDS }
}

/// The answers that take an install through its first `done` operations:
/// the binary, the configuration, and `done` times success.
pub open spec fn install_answers(artifact: Artifact, done: nat) -> Seq<EventView>
    decreases done,
{
    if done == 0 {
        seq![EventView::Fetched(Ok(artifact.binary)), EventView::Fetched(Ok(artifact.config))]
    } else {
        install_answers(artifact, (done - 1) as nat).push(EventView::Done { ok: true })
    }
}

/// What a supervisor asks for while it gets those answers: the
/// configuration, and then the operations of the install up to the one that
/// comes after `done` others.
pub open spec fn install_requests(
    app: Seq<char>,
    paths: Paths,
    artifact: Artifact,
    version: Seq<char>,
    done: nat,
) -> Seq<ActionView>
    decreases done,
{
    if done == 0 {
        seq![
            ActionView::FetchPayload { key: config_key_of(app, version) },
            operation(paths, artifact, version, 0),
        ]
    } else {
        install_requests(app, paths, artifact, version, (done - 1) as nat).push(
            operation(paths, artifact, version, done),
        )
    }
}

/// The phase of an install of which `done` operations have succeeded.
pub open spec fn install_phase(job: JobView, artifact: Artifact, done: nat) -> PhaseView {
    if done == 0 {
        PhaseView::StagingBinary { job, config: artifact.config }
    } else if done == 1 {
        PhaseView::MarkingExecutable { job, config: artifact.config }
    } else if done == 2 {
        PhaseView::StagingConfig { job }
    } else if done == 3 {
        PhaseView::PromotingBinary { job }
    } else if done == 4 {
        PhaseView::PromotingConfig { job }
    } else {
        PhaseView::Recording { job }
    }
}

/// Whether the supervisor of `world` waits for the binary of `job`.
pub open spec fn fetching(world: World, job: JobView) -> bool {
    world.coherent() && world.supervisor.phase == (PhaseView::FetchingBinary { job })
}

/// Whether the supervisor of `world` is between two cycles.
pub open spec fn resting(world: World) -> bool {
    world.coherent() && world.supervisor.phase == PhaseView::Sleeping
}

/// While each operation of an install succeeds, the supervisor asks for the
/// operations in their order, the files are those that the operations done
/// so far leave, and nothing is reported.
pub proof fn lemma_install_progress(world: World, job: JobView, artifact: Artifact, done: nat)
    requires
        fetching(world, job),
        done <= 5,
    ensures
        ({
            let paths = world.supervisor.paths;
            let app = world.supervisor.app;
            let now = world.run(install_answers(artifact, done));
            &&& now.coherent()
            &&& now.supervisor == world.supervisor.at(install_phase(job, artifact, done))
            &&& now.files == progress(world.files, paths, artifact, job.latest, done)
            &&& now.issued == world.issued + install_requests(
                app,
                paths,
                artifact,
                job.latest,
                done,
            )
            &&& now.pending() == operation(paths, artifact, job.latest, done)
            &&& now.reported == world.reported
        }),
    decreases done,
{
    let paths = world.supervisor.paths;
    let app = world.supervisor.app;
    if done == 0 {
        let binary = EventView::Fetched(Ok(artifact.binary));
        let config = EventView::Fetched(Ok(artifact.config));
        lemma_run_two(world, binary, config);
        let first = world.next(binary);
        lemma_next_coherent(world, binary);
        let second = first.next(config);
        lemma_next_coherent(first, config);
        assert(second == world.run(install_answers(artifact, 0)));
        assert(second.issued =~= world.issued + install_requests(
            app,
            paths,
            artifact,
            job.latest,
            0,
        ));
    } else {
        let before = (done - 1) as nat;
        lemma_install_progress(world, job, artifact, before);
        let success = EventView::Done { ok: true };
        lemma_run_push(world, install_answers(artifact, before), success);
        let was = world.run(install_answers(artifact, before));
        let now = was.next(success);
        lemma_next_coherent(was, success);
        assert(now == world.run(install_answers(artifact, done)));
        assert(now.issued =~= world.issued + install_requests(
            app,
            paths,
            artifact,
            job.latest,
            done,
        ));
    }
}

/// An install whose every operation succeeds leaves the new binary,
/// executable, under the live path, the new configuration beside it, the new
/// version in the marker and no staging file, and touches nothing else. After
/// a first install the supervisor goes on to poll and tells nobody; after
/// any other it turns to the process-id file.
pub proof fn lemma_install_succeeds(world: World, job: JobView, artifact: Artifact)
    requires
        fetching(world, job),
        trimmed(job.latest) == job.latest,
    ensures
        ({
            let paths = world.supervisor.paths;
            let app = world.supervisor.app;
            let end = world.run(install_answers(artifact, 6));
            &&& end.coherent()
            &&& end.files == progress(world.files, paths, artifact, job.latest, 6)
            &&& end.files.dom().contains(paths.live_binary)
            &&& end.files[paths.live_binary] == FileModel {
                data: artifact.binary,
                mode: Some(EXECUTABLE_MODE),
            }
            &&& end.files.dom().contains(paths.live_config)
            &&& end.files[paths.live_config].data == artifact.config
            &&& installed_version(end.files, paths) == Some(job.latest)
            &&& !end.files.dom().contains(paths.staging_binary)
            &&& !end.files.dom().contains(paths.staging_config)
            &&& same_at(end.files, world.files, paths.pid_file)
            &&& end.reported == world.reported
            &&& end.supervisor == world.supervisor.at(
                if job.bootstrap {
                    PhaseView::Resolving { bootstrap: false }
                } else {
                    PhaseView::ReadingPid
                },
            )
            &&& end.issued == (world.issued + install_requests(
                app,
                paths,
                artifact,
                job.latest,
                5,
            )).push(
                if job.bootstrap {
                    ActionView::FetchPointer { key: latest_key_of(app) }
                } else {
                    ActionView::ReadPid { path: paths.pid_file }
                },
            )
        }),
{
    let paths = world.supervisor.paths;
    lemma_install_progress(world, job, artifact, 5);
    let success = EventView::Done { ok: true };
    lemma_run_push(world, install_answers(artifact, 5), success);
    let was = world.run(install_answers(artifact, 5));
    lemma_next_coherent(was, success);
    lemma_install_outcome(world.files, paths, artifact, job.latest);
    assert(same_at(
        progress(world.files, paths, artifact, job.latest, 6),
        world.files,
        paths.pid_file,
    ));
}

/// Whichever operation of an install fails, the marker is as it was before
/// the install began, the failure is reported as `InstallFailed`, and the
/// supervisor goes to sleep without turning to the process-id file. The
/// failed operation itself counts as having changed nothing.
pub proof fn lemma_install_fails(world: World, job: JobView, artifact: Artifact, done: nat)
    requires
        fetching(world, job),
        done <= 5,
    ensures
        ({
            let paths = world.supervisor.paths;
            let app = world.supervisor.app;
            let end = world.run(
                install_answers(artifact, done).push(EventView::Done { ok: false }),
            );
            &&& end.coherent()
            &&& same_at(end.files, world.files, paths.marker)
            &&& installed_version(end.files, paths) == installed_version(world.files, paths)
            &&& end.files == progress(world.files, paths, artifact, job.latest, done)
            &&& end.reported == world.reported.push(UpdateError::InstallFailed)
            &&& end.supervisor == world.supervisor.at(PhaseView::Sleeping)
            &&& end.issued == (world.issued + install_requests(
                app,
                paths,
                artifact,
                job.latest,
                done,
            )).push(sleep())
        }),
{
    let paths = world.supervisor.paths;
    lemma_install_progress(world, job, artifact, done);
    let failure = EventView::Done { ok: false };
    lemma_run_push(world, install_answers(artifact, done), failure);
    let was = world.run(install_answers(artifact, done));
    lemma_next_coherent(was, failure);
    lemma_progress_keeps_marker(world.files, paths, artifact, job.latest, done);
}

/// A fetch that fails, for the binary or for the configuration, ends the
/// cycle with the store's error and leaves every file as it was: no part of
/// an install is attempted with half an artifact.
pub proof fn lemma_fetch_fails(world: World, failure: StoreFailure)
    requires
        world.coherent(),
        world.supervisor.phase is FetchingBinary || world.supervisor.phase is FetchingConfig,
    ensures
        ({
            let end = world.next(EventView::Fetched(Err(failure)));
            &&& end.files == world.files
            &&& end.reported == world.reported.push(failure.as_error())
            &&& end.supervisor.phase == PhaseView::Sleeping
            &&& end.issued == world.issued.push(sleep())
        }),
{
}

/// A poll that cannot resolve the latest version ends the cycle with the
/// store's error and leaves every file as it was.
pub proof fn lemma_resolve_fails(world: World, failure: StoreFailure)
    requires
        resting(world),
    ensures
        ({
            let end = world.run(seq![EventView::Woke, EventView::Fetched(Err(failure))]);
            &&& end.files == world.files
            &&& end.reported == world.reported.push(failure.as_error())
            &&& end.supervisor == world.supervisor
            &&& end.issued == world.issued.push(
                ActionView::FetchPointer { key: latest_key_of(world.supervisor.app) },
            ).push(sleep())
        }),
{
    lemma_run_two(world, EventView::Woke, EventView::Fetched(Err(failure)));
}

/// A poll that finds a pointer object which is no text reports it as
/// `ObjectMissing` and leaves every file as it was.
pub proof fn lemma_pointer_without_text(world: World, pointer: Seq<u8>)
    requires
        resting(world),
        latest_of(pointer) is None,
    ensures
        ({
            let end = world.run(seq![EventView::Woke, EventView::Fetched(Ok(pointer))]);
            &&& end.files == world.files
            &&& end.reported == world.reported.push(UpdateError::ObjectMissing)
            &&& end.supervisor == world.supervisor
            &&& end.issued == world.issued.push(
                ActionView::FetchPointer { key: latest_key_of(world.supervisor.app) },
            ).push(sleep())
        }),
{
    lemma_run_two(world, EventView::Woke, EventView::Fetched(Ok(pointer)));
}

/// The events of a poll: the interval has passed, the pointer holds
/// `pointer`, and the marker is as `marker` says.
pub open spec fn poll_answers(pointer: Seq<u8>, marker: Option<Seq<u8>>) -> Seq<EventView> {
    seq![EventView::Woke, EventView::Fetched(Ok(pointer)), EventView::Marker(marker)]
}

/// What a supervisor asks for in a poll, before it knows the outcome.
pub open spec fn poll_requests(app: Seq<char>, paths: Paths) -> Seq<ActionView> {
    seq![
        ActionView::FetchPointer { key: latest_key_of(app) },
        ActionView::ReadMarker { path: paths.marker },
    ]
}

proof fn lemma_poll(world: World, pointer: Seq<u8>, marker: Option<Seq<u8>>)
    requires
        resting(world),
        latest_of(pointer) is Some,
    ensures
        ({
            let end = world.run(poll_answers(pointer, marker));
            let latest = latest_of(pointer)->0;
            let requests = poll_requests(world.supervisor.app, world.supervisor.paths);
            &&& end.coherent()
            &&& end.files == world.files
            &&& end.reported == world.reported
            &&& end.supervisor.app == world.supervisor.app
            &&& end.supervisor.paths == world.supervisor.paths
            &&& up_to_date(latest, marker) ==> end.supervisor == world.supervisor && end.issued
                == (world.issued + requests).push(sleep())
            &&& !up_to_date(latest, marker) ==> end.supervisor.phase
                == (PhaseView::FetchingBinary { job: JobView { bootstrap: false, latest } })
                && end.issued == (world.issued + requests).push(
                ActionView::FetchPayload { key: binary_key_of(world.supervisor.app, latest) },
            )
        }),
{
    let woke = EventView::Woke;
    let text = EventView::Fetched(Ok(pointer));
    let read = EventView::Marker(marker);
    lemma_run_three(world, woke, text, read);
    let first = world.next(woke);
    lemma_next_coherent(world, woke);
    let second = first.next(text);
    lemma_next_coherent(first, text);
    let third = second.next(read);
    lemma_next_coherent(second, read);
    assert(third == world.run(poll_answers(pointer, marker)));
    let requests = poll_requests(world.supervisor.app, world.supervisor.paths);
    assert(third.issued =~= (world.issued + requests).push(third.pending()));
}

/// A poll that finds the latest version installed does nothing: it reads the
/// pointer and the marker and goes back to sleep. Nothing is fetched, no
/// file changes, nobody is signalled, nothing is reported.
pub proof fn lemma_same_version_does_nothing(
    world: World,
    pointer: Seq<u8>,
    marker: Option<Seq<u8>>,
)
    requires
        resting(world),
        latest_of(pointer) is Some,
        installed_of(marker) == latest_of(pointer),
    ensures
        ({
            let end = world.run(poll_answers(pointer, marker));
            &&& resting(end)
            &&& end.supervisor == world.supervisor
            &&& end.files == world.files
            &&& end.reported == world.reported
            &&& end.issued == (world.issued + poll_requests(
                world.supervisor.app,
                world.supervisor.paths,
            )).push(sleep())
        }),
{
    lemma_poll(world, pointer, marker);
}

/// A poll that reads, from the files as they are, the version that the
/// pointer names does nothing. So an update that has left that version
/// installed is not repeated.
pub proof fn lemma_installed_version_is_kept(world: World, pointer: Seq<u8>)
    requires
        resting(world),
        latest_of(pointer) is Some,
        installed_version(world.files, world.supervisor.paths) == latest_of(pointer),
    ensures
        ({
            let marker = read(world.files, world.supervisor.paths.marker);
            let end = world.run(poll_answers(pointer, marker));
            &&& resting(end)
            &&& end.supervisor == world.supervisor
            &&& end.files == world.files
            &&& end.reported == world.reported
            &&& end.issued == (world.issued + poll_requests(
                world.supervisor.app,
                world.supervisor.paths,
            )).push(sleep())
        }),
{
    lemma_same_version_does_nothing(
        world,
        pointer,
        read(world.files, world.supervisor.paths.marker),
    );
}

/// The events of `cycles` polls in a row, each with the same pointer and
/// marker.
pub open spec fn steady_answers(pointer: Seq<u8>, marker: Option<Seq<u8>>, cycles: nat) -> Seq<
    EventView,
>
    decreases cycles,
{
    if cycles == 0 {
        Seq::empty()
    } else {
        steady_answers(pointer, marker, (cycles - 1) as nat) + poll_answers(pointer, marker)
    }
}

/// Whether `action` only reads the pointer or the marker, or sleeps.
pub open spec fn is_poll_request(action: ActionView) -> bool {
    action is FetchPointer || action is ReadMarker || action is Sleep
}

/// However many polls find the latest version installed, no payload is
/// fetched, no file is written, made executable or renamed, and nobody is
/// signalled: every request is a read of the pointer, a read of the marker
/// or a sleep, three to a poll.
pub proof fn lemma_steady_state(
    world: World,
    pointer: Seq<u8>,
    marker: Option<Seq<u8>>,
    cycles: nat,
)
    requires
        resting(world),
        latest_of(pointer) is Some,
        installed_of(marker) == latest_of(pointer),
    ensures
        ({
            let end = world.run(steady_answers(pointer, marker, cycles));
            &&& resting(end)
            &&& end.supervisor == world.supervisor
            &&& end.files == world.files
            &&& end.reported == world.reported
            &&& end.issued.len() == world.issued.len() + 3 * cycles
            &&& end.issued.subrange(0, world.issued.len() as int) == world.issued
            &&& forall|i: int|
                world.issued.len() <= i < end.issued.len() ==> is_poll_request(
                    #[trigger] end.issued[i],
                )
        }),
    decreases cycles,
{
    if cycles == 0 {
        assert(world.issued.subrange(0, world.issued.len() as int) =~= world.issued);
    } else {
        let before = (cycles - 1) as nat;
        lemma_steady_state(world, pointer, marker, before);
        let was = world.run(steady_answers(pointer, marker, before));
        lemma_run_concat(
            world,
            steady_answers(pointer, marker, before),
            poll_answers(pointer, marker),
        );
        lemma_same_version_does_nothing(was, pointer, marker);
        let end = was.run(poll_answers(pointer, marker));
        assert(end.issued.subrange(0, world.issued.len() as int) =~= was.issued.subrange(
            0,
            world.issued.len() as int,
        ));
    }
}

/// A poll that finds another version than the installed one, and whose
/// fetches and install succeed, leaves that version installed: the marker
/// names it, the live binary holds the fetched binary and is executable, the
/// live configuration holds the fetched configuration, and no staging file
/// is left. The supervisor then turns to the process-id file.
pub proof fn lemma_update_installs(
    world: World,
    pointer: Seq<u8>,
    marker: Option<Seq<u8>>,
    artifact: Artifact,
)
    requires
        resting(world),
        latest_of(pointer) is Some,
        installed_of(marker) != latest_of(pointer),
    ensures
        ({
            let paths = world.supervisor.paths;
            let end = world.run(poll_answers(pointer, marker) + install_answers(artifact, 6));
            &&& end.coherent()
            &&& installed_version(end.files, paths) == latest_of(pointer)
            &&& end.files.dom().contains(paths.live_binary)
            &&& end.files[paths.live_binary] == FileModel {
                data: artifact.binary,
                mode: Some(EXECUTABLE_MODE),
            }
            &&& end.files.dom().contains(paths.live_config)
            &&& end.files[paths.live_config].data == artifact.config
            &&& !end.files.dom().contains(paths.staging_binary)
            &&& !end.files.dom().contains(paths.staging_config)
            &&& same_at(end.files, world.files, paths.pid_file)
            &&& end.reported == world.reported
            &&& end.supervisor == world.supervisor.at(PhaseView::ReadingPid)
            &&& end.pending() == ActionView::ReadPid { path: paths.pid_file }
        }),
{
    let job = JobView { bootstrap: false, latest: latest_of(pointer)->0 };
    lemma_poll(world, pointer, marker);
    let polled = world.run(poll_answers(pointer, marker));
    lemma_run_concat(world, poll_answers(pointer, marker), install_answers(artifact, 6));
    lemma_trimmed_idempotent(text_of(pointer)->0);
    lemma_install_succeeds(polled, job, artifact);
    lemma_install_progress(polled, job, artifact, 5);
    lemma_run_push(polled, install_answers(artifact, 5), EventView::Done { ok: true });
}

/// A poll that finds another version than the installed one and whose
/// install fails, at whichever operation, leaves the marker as it was before
/// the poll: the installed version does not advance. The failure is
/// reported and nobody is signalled.
pub proof fn lemma_failed_update_keeps_version(
    world: World,
    pointer: Seq<u8>,
    marker: Option<Seq<u8>>,
    artifact: Artifact,
    done: nat,
)
    requires
        resting(world),
        latest_of(pointer) is Some,
        installed_of(marker) != latest_of(pointer),
        done <= 5,
    ensures
        ({
            let paths = world.supervisor.paths;
            let end = world.run(
                poll_answers(pointer, marker) + install_answers(artifact, done).push(
                    EventView::Done { ok: false },
                ),
            );
            &&& resting(end)
            &&& end.supervisor == world.supervisor
            &&& same_at(end.files, world.files, paths.marker)
            &&& installed_version(end.files, paths) == installed_version(world.files, paths)
            &&& end.reported == world.reported.push(UpdateError::InstallFailed)
            &&& forall|i: int|
                world.issued.len() <= i < end.issued.len() ==> !(#[trigger] end.issued[i]
                    is Signal) && !(end.issued[i] is ReadPid)
        }),
{
    let paths = world.supervisor.paths;
    let app = world.supervisor.app;
    let job = JobView { bootstrap: false, latest: latest_of(pointer)->0 };
    let failing = install_answers(artifact, done).push(EventView::Done { ok: false });
    lemma_poll(world, pointer, marker);
    let polled = world.run(poll_answers(pointer, marker));
    lemma_run_concat(world, poll_answers(pointer, marker), failing);
    lemma_install_fails(polled, job, artifact, done);
    let end = polled.run(failing);
    lemma_install_requests_are_operations(app, paths, artifact, job.latest, done);
    let requests = install_requests(app, paths, artifact, job.latest, done);
    let polls = poll_requests(app, paths);
    let start = world.issued.len() as int;
    assert(polled.issued.len() == start + 3);
    assert(end.issued.len() == start + 3 + requests.len() + 1);
    assert forall|i: int| start <= i < end.issued.len() implies !(#[trigger] end.issued[i]
        is Signal) && !(end.issued[i] is ReadPid) by {
        if i < start + 2 {
            assert(end.issued[i] == polls[i - start]);
        } else if i == start + 2 {
            assert(end.issued[i] == polled.issued[i]);
        } else if i < start + 3 + requests.len() {
            assert(end.issued[i] == requests[i - (start + 3)]);
        } else {
            assert(end.issued[i] == sleep());
        }
    }
}

/// The requests of an install are fetches and file operations: none of them
/// reads the process-id file or signals anybody.
pub proof fn lemma_install_requests_are_operations(
    app: Seq<char>,
    paths: Paths,
    artifact: Artifact,
    version: Seq<char>,
    done: nat,
)
    ensures
        install_requests(app, paths, artifact, version, done).len() == done + 2,
        forall|i: int|
            0 <= i < done + 2 ==> !(#[trigger] install_requests(
                app,
                paths,
                artifact,
                version,
                done,
            )[i] is Signal) && !(install_requests(app, paths, artifact, version, done)[i]
                is ReadPid),
    decreases done,
{
    if done > 0 {
        lemma_install_requests_are_operations(app, paths, artifact, version, (done - 1) as nat);
    }
}

/// The events of a successful first install: no live binary is found, the
/// pointer holds `pointer`, both payloads arrive and every operation
/// succeeds.
pub open spec fn bootstrap_answers(pointer: Seq<u8>, artifact: Artifact) -> Seq<EventView> {
    seq![EventView::Probed { exists: false }, EventView::Fetched(Ok(pointer))] + install_answers(
        artifact,
        6,
    )
}

/// Whether the supervisor of `world` is about to learn whether a live binary
/// exists.
pub open spec fn starting(world: World) -> bool {
    world.coherent() && world.supervisor.phase == PhaseView::Probing
}

/// A supervisor that finds no live binary installs the latest version
/// without asking what is installed, and tells nobody: afterwards the live
/// binary holds the fetched binary and is executable, the marker names the
/// latest version, no staging file is left, and the supervisor begins to
/// poll. A supervisor that finds a live binary begins to poll at once.
pub proof fn lemma_bootstrap_installs(world: World, pointer: Seq<u8>, artifact: Artifact)
    requires
        starting(world),
        latest_of(pointer) is Some,
    ensures
        ({
            let paths = world.supervisor.paths;
            let app = world.supervisor.app;
            let end = world.run(bootstrap_answers(pointer, artifact));
            &&& end.coherent()
            &&& installed_version(end.files, paths) == latest_of(pointer)
            &&& end.files.dom().contains(paths.live_binary)
            &&& end.files[paths.live_binary] == FileModel {
                data: artifact.binary,
                mode: Some(EXECUTABLE_MODE),
            }
            &&& end.files.dom().contains(paths.live_config)
            &&& end.files[paths.live_config].data == artifact.config
            &&& !end.files.dom().contains(paths.staging_binary)
            &&& !end.files.dom().contains(paths.staging_config)
            &&& end.reported == world.reported
            &&& end.supervisor == world.supervisor.at(PhaseView::Resolving { bootstrap: false })
            &&& end.pending() == ActionView::FetchPointer { key: latest_key_of(app) }
            &&& forall|i: int|
                world.issued.len() <= i < end.issued.len() ==> !(#[trigger] end.issued[i]
                    is Signal) && !(end.issued[i] is ReadPid)
        }),
        world.next(EventView::Probed { exists: true }).supervisor == world.supervisor.at(
            PhaseView::Resolving { bootstrap: false },
        ),
        world.next(EventView::Probed { exists: true }).files == world.files,
{
    let paths = world.supervisor.paths;
    let app = world.supervisor.app;
    let job = JobView { bootstrap: true, latest: latest_of(pointer)->0 };
    let probed = EventView::Probed { exists: false };
    let text = EventView::Fetched(Ok(pointer));
    let opening = seq![probed, text];
    lemma_run_two(world, probed, text);
    let first = world.next(probed);
    lemma_next_coherent(world, probed);
    let second = first.next(text);
    lemma_next_coherent(first, text);
    assert(second == world.run(opening));
    lemma_run_concat(world, opening, install_answers(artifact, 6));
    lemma_trimmed_idempotent(text_of(pointer)->0);
    lemma_install_succeeds(second, job, artifact);
    let end = second.run(install_answers(artifact, 6));
    lemma_install_requests_are_operations(app, paths, artifact, job.latest, 5);
    let requests = install_requests(app, paths, artifact, job.latest, 5);
    let start = world.issued.len() as int;
    assert(second.issued.len() == start + 2);
    assert(end.issued.len() == start + 2 + requests.len() + 1);
    assert forall|i: int| start <= i < end.issued.len() implies !(#[trigger] end.issued[i]
        is Signal) && !(end.issued[i] is ReadPid) by {
        if i < start + 2 {
            assert(end.issued[i] == second.issued[i]);
        } else if i < start + 2 + requests.len() {
            assert(end.issued[i] == requests[i - (start + 2)]);
        } else {
            assert(end.issued[i] == end.pending());
        }
    }
}

/// Where there is no process-id file, the notification is complete at once:
/// nothing is reported, nobody is signalled, and the supervisor sleeps.
pub proof fn lemma_absent_pid_is_no_error(world: World)
    requires
        world.coherent(),
        world.supervisor.phase == PhaseView::ReadingPid,
    ensures
        ({
            let end = world.next(EventView::Pid(PidFileView::Absent));
            &&& resting(end)
            &&& end.files == world.files
            &&& end.reported == world.reported
            &&& end.issued == world.issued.push(sleep())
        }),
{
}

/// Where the process-id file does not hold a process id, `InvalidPid` is
/// reported and nobody is signalled; the files, and with them the install
/// that came before, stay as they are.
pub proof fn lemma_invalid_pid_keeps_install(world: World, found: PidFileView)
    requires
        world.coherent(),
        world.supervisor.phase == PhaseView::ReadingPid,
        notification_of(found) is Err,
    ensures
        ({
            let end = world.next(EventView::Pid(found));
            &&& resting(end)
            &&& end.files == world.files
            &&& end.reported == world.reported.push(UpdateError::InvalidPid)
            &&& end.issued == world.issued.push(sleep())
        }),
{
}

/// Where the process-id file holds a process id, that process is signalled
/// once; a signal that is not delivered is reported as
/// `SignalDeliveryFailed`. Either way the files stay as they are and the
/// supervisor sleeps.
pub proof fn lemma_valid_pid_is_signalled(world: World, found: PidFileView, pid: i32, ok: bool)
    requires
        world.coherent(),
        world.supervisor.phase == PhaseView::ReadingPid,
        notification_of(found) == Ok::<Option<i32>, UpdateError>(Some(pid)),
    ensures
        ({
            let end = world.run(seq![EventView::Pid(found), EventView::Signalled { ok }]);
            &&& resting(end)
            &&& end.files == world.files
            &&& end.reported == if ok {
                world.reported
            } else {
                world.reported.push(UpdateError::SignalDeliveryFailed)
            }
            &&& end.issued == world.issued.push(ActionView::Signal { pid }).push(sleep())
        }),
{
    let read = EventView::Pid(found);
    lemma_run_two(world, read, EventView::Signalled { ok });
    lemma_next_coherent(world, read);
}

/// Only the last operation of an install, once it has succeeded, changes the
/// marker: whatever else arrives, in whatever phase, the marker stays as it
/// is.
pub proof fn lemma_marker_changes_only_when_recorded(world: World, event: EventView)
    requires
        world.coherent(),
        !(world.supervisor.phase is Recording && event == (EventView::Done { ok: true })),
    ensures
        same_at(world.next(event).files, world.files, world.supervisor.paths.marker),
{
}

} // verus!
