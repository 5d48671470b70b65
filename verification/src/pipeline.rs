//! The pipeline orchestrator as an explicit state machine, the error
//! taxonomy, and the verified plans the bootstrap stage runs from.
//!
//! The orchestrator sequences: prepare the output layout, fetch and place
//! every artifact, optionally archive both trees concurrently, bootstrap
//! the server, report the launch result.  Every component error moves the
//! machine to a failed state from which no further stage executes.  The
//! driver that performs the I/O each action calls for lives outside the
//! library; it feeds each outcome back as an event.
use vstd::prelude::*;

use crate::bytestr::{
    bytes_arg_headless, bytes_arg_jar, bytes_arg_memory, bytes_arg_mode, bytes_client_dir,
    bytes_launch_program, bytes_license_content, bytes_license_name, bytes_loader_jar_name,
    bytes_mods_dir, bytes_server_dir, bytes_staging_dir, join_path, spec_join, spec_loader_url,
};
use crate::plan::{placement_ops, placement_plan_ok, FileOp};
use crate::{ArtifactSpec, BuildInfo, FetchedArtifact};

verus! {

/// Why a fetch failed.
#[derive(Clone, Copy, Debug, PartialEq, Eq, Structural)]
pub enum FetchError {
    /// The request could not be made or the connection broke.
    Network,
    /// The response carried a non-success status.
    HttpStatus(u16),
    /// The fetched bytes could not be written locally.
    LocalWrite,
}

/// Why placing a fetched artifact failed.
#[derive(Clone, Copy, Debug, PartialEq, Eq, Structural)]
pub enum PlacementError {
    CreateDir,
    CopyFile,
    MoveFile,
    RemoveDir,
}

/// Why archiving a tree failed.
#[derive(Clone, Copy, Debug, PartialEq, Eq, Structural)]
pub enum ArchiveError {
    ReadSource,
    WriteContainer,
}

/// Why launching the loader failed.  A non-zero exit status of the launched
/// process is not an error: it is reported in the launch result.
#[derive(Clone, Copy, Debug, PartialEq, Eq, Structural)]
pub enum ProcessLaunchError {
    /// The child process could not be spawned.
    Spawn,
    /// The child ran but its captured output could not be read.
    OutputCapture,
}

/// Every way a pipeline run can fail.  When both concurrent archive tasks
/// fail, both failures are surfaced together.
#[derive(Clone, Copy, Debug, PartialEq, Eq, Structural)]
pub enum PipelineError {
    Fetch(FetchError),
    Placement(PlacementError),
    Archive(ArchiveError),
    ArchiveBoth(ArchiveError, ArchiveError),
    Launch(ProcessLaunchError),
}

/// What the launched loader reported: its exit status and its captured
/// output streams, in full.
pub struct LaunchResult {
    pub exit_status: i32,
    pub stdout: Vec<u8>,
    pub stderr: Vec<u8>,
}

/// The orchestrator's state.
pub enum Stage {
    Init,
    Prepared,
    Organized,
    Archived,
    Bootstrapped(LaunchResult),
    Done(LaunchResult),
    Failed(PipelineError),
}

/// The outcome of one pipeline stage, fed back by the driver.  `None` in an
/// outcome means the stage succeeded.  The archive outcome carries the
/// server task's result and the client task's result, in that order.
pub enum Event {
    PrepareOutcome(Option<PlacementError>),
    OrganizeOutcome(Option<PipelineError>),
    ArchiveOutcome(Option<ArchiveError>, Option<ArchiveError>),
    BootstrapOutcome(Result<LaunchResult, PipelineError>),
    Reported,
}

/// What the driver must do next.
#[derive(Clone, Copy, Debug, PartialEq, Eq, Structural)]
pub enum PipelineAction {
    /// Delete a stale output root, create the trees and the staging area.
    PrepareLayout,
    /// Fetch every artifact and place it per its flags.
    OrganizeArtifacts,
    /// Archive the server and client trees as two concurrent tasks and
    /// join both.
    ArchiveBothTrees,
    /// Fetch the loader, accept the license terms, launch the loader.
    BootstrapServer,
    /// Surface the launch result to the caller.
    Report,
    /// The run is over; nothing further executes.
    Stop,
}

/// The action each state calls for.  Archiving runs only when requested;
/// a failed run executes nothing further.
pub open spec fn spec_next_action(s: Stage, compress: bool) -> PipelineAction {
    match s {
        Stage::Init => PipelineAction::PrepareLayout,
        Stage::Prepared => PipelineAction::OrganizeArtifacts,
        Stage::Organized => if compress {
            PipelineAction::ArchiveBothTrees
        } else {
            PipelineAction::BootstrapServer
        },
        Stage::Archived => PipelineAction::BootstrapServer,
        Stage::Bootstrapped(_) => PipelineAction::Report,
        Stage::Done(_) => PipelineAction::Stop,
        Stage::Failed(_) => PipelineAction::Stop,
    }
}

/// Decide the next action from the current state.
pub fn next_action(s: &Stage, compress: bool) -> (a: PipelineAction)
    ensures
        a == spec_next_action(*s, compress),
{
    match s {
        Stage::Init => PipelineAction::PrepareLayout,
        Stage::Prepared => PipelineAction::OrganizeArtifacts,
        Stage::Organized => if compress {
            PipelineAction::ArchiveBothTrees
        } else {
            PipelineAction::BootstrapServer
        },
        Stage::Archived => PipelineAction::BootstrapServer,
        Stage::Bootstrapped(_) => PipelineAction::Report,
        Stage::Done(_) => PipelineAction::Stop,
        Stage::Failed(_) => PipelineAction::Stop,
    }
}

/// The transition relation.  A successful outcome advances the stage; any
/// error moves to `Failed` with that error; both archive tasks failing
/// surfaces both errors; a successful bootstrap carries the launch result
/// forward whatever its exit status; an event that does not belong to the
/// current state changes nothing.
pub open spec fn spec_step(s: Stage, e: Event) -> Stage {
    match (s, e) {
        (Stage::Init, Event::PrepareOutcome(out)) => match out {
            None => Stage::Prepared,
            Some(err) => Stage::Failed(PipelineError::Placement(err)),
        },
        (Stage::Prepared, Event::OrganizeOutcome(out)) => match out {
            None => Stage::Organized,
            Some(err) => Stage::Failed(err),
        },
        (Stage::Organized, Event::ArchiveOutcome(server_out, client_out)) => match (
            server_out,
            client_out,
        ) {
            (None, None) => Stage::Archived,
            (Some(e1), None) => Stage::Failed(PipelineError::Archive(e1)),
            (None, Some(e2)) => Stage::Failed(PipelineError::Archive(e2)),
            (Some(e1), Some(e2)) => Stage::Failed(PipelineError::ArchiveBoth(e1, e2)),
        },
        (Stage::Organized, Event::BootstrapOutcome(out)) => match out {
            Ok(r) => Stage::Bootstrapped(r),
            Err(err) => Stage::Failed(err),
        },
        (Stage::Archived, Event::BootstrapOutcome(out)) => match out {
            Ok(r) => Stage::Bootstrapped(r),
            Err(err) => Stage::Failed(err),
        },
        (Stage::Bootstrapped(r), Event::Reported) => Stage::Done(r),
        (other, _) => other,
    }
}

/// Advance the state machine by one stage outcome.
pub fn step(s: Stage, e: Event) -> (r: Stage)
    ensures
        r == spec_step(s, e),
{
    match (s, e) {
        (Stage::Init, Event::PrepareOutcome(out)) => match out {
            None => Stage::Prepared,
            Some(err) => Stage::Failed(PipelineError::Placement(err)),
        },
        (Stage::Prepared, Event::OrganizeOutcome(out)) => match out {
            None => Stage::Organized,
            Some(err) => Stage::Failed(err),
        },
        (Stage::Organized, Event::ArchiveOutcome(server_out, client_out)) => match (
            server_out,
            client_out,
        ) {
            (None, None) => Stage::Archived,
            (Some(e1), None) => Stage::Failed(PipelineError::Archive(e1)),
            (None, Some(e2)) => Stage::Failed(PipelineError::Archive(e2)),
            (Some(e1), Some(e2)) => Stage::Failed(PipelineError::ArchiveBoth(e1, e2)),
        },
        (Stage::Organized, Event::BootstrapOutcome(out)) => match out {
            Ok(r) => Stage::Bootstrapped(r),
            Err(err) => Stage::Failed(err),
        },
        (Stage::Archived, Event::BootstrapOutcome(out)) => match out {
            Ok(r) => Stage::Bootstrapped(r),
            Err(err) => Stage::Failed(err),
        },
        (Stage::Bootstrapped(r), Event::Reported) => Stage::Done(r),
        (other, _) => other,
    }
}

/// The process exit code a terminal state calls for: zero exactly on a run
/// that reached `Done` — independent of the launched server's own exit
/// status — and non-zero on any failure.
pub open spec fn spec_exit_code(s: Stage) -> i32 {
    if s is Done {
        0
    } else {
        1
    }
}

/// Report the exit code for a terminal state.
pub fn exit_code(s: &Stage) -> (c: i32)
    ensures
        c == spec_exit_code(*s),
        c == 0 <==> *s is Done,
{
    match s {
        Stage::Done(_) => 0,
        _ => 1,
    }
}

/// Once any component reports an error, no further pipeline stage executes:
/// a failed state absorbs every event, calls for no action, and exits
/// non-zero.
pub proof fn lemma_failure_is_final(err: PipelineError, e: Event, compress: bool)
    ensures
        spec_step(Stage::Failed(err), e) == Stage::Failed(err),
        spec_next_action(Stage::Failed(err), compress) == PipelineAction::Stop,
        spec_exit_code(Stage::Failed(err)) != 0,
{
}

/// A launched server's own exit status is reported, never treated as a
/// pipeline failure: from either state that bootstraps, a captured launch
/// result — whatever its exit status — carries the run to `Done`, and the
/// pipeline's exit code is zero.
pub proof fn lemma_launch_status_not_pipeline_failure(s: Stage, r: LaunchResult)
    requires
        s is Organized || s is Archived,
    ensures
        spec_step(s, Event::BootstrapOutcome(Ok(r))) == Stage::Bootstrapped(r),
        spec_step(spec_step(s, Event::BootstrapOutcome(Ok(r))), Event::Reported) == Stage::Done(r),
        spec_exit_code(spec_step(spec_step(s, Event::BootstrapOutcome(Ok(r))), Event::Reported))
            == 0,
{
}

/// When both concurrent archive tasks fail, both failures are surfaced, in
/// one aggregate error; when one fails, that failure is surfaced; either
/// way the run is failed and the bootstrap stage never executes.
pub proof fn lemma_archive_failures_surface(
    server_out: Option<ArchiveError>,
    client_out: Option<ArchiveError>,
    compress: bool,
)
    requires
        server_out is Some || client_out is Some,
    ensures
        ({
            let s2 = spec_step(Stage::Organized, Event::ArchiveOutcome(server_out, client_out));
            &&& s2 matches Stage::Failed(err) && (match (server_out, client_out) {
                (Some(e1), Some(e2)) => err == PipelineError::ArchiveBoth(e1, e2),
                (Some(e1), None) => err == PipelineError::Archive(e1),
                (None, Some(e2)) => err == PipelineError::Archive(e2),
                (None, None) => false,
            })
            &&& spec_next_action(s2, compress) == PipelineAction::Stop
        }),
{
}

/// The on-disk layout of one run's output, all derived from the manifest's
/// directory and the build name.
pub struct OutputLayout {
    pub out_root: Vec<u8>,
    pub server_tree: Vec<u8>,
    pub client_tree: Vec<u8>,
    pub server_mods: Vec<u8>,
    pub client_mods: Vec<u8>,
    pub staging: Vec<u8>,
}

impl OutputLayout {
    /// Every path of the layout, derived from `manifest_dir` and `name`.
    pub open spec fn wf(&self, manifest_dir: Seq<u8>, name: Seq<u8>) -> bool {
        &&& self.out_root@ == spec_join(manifest_dir, name)
        &&& self.server_tree@ == spec_join(self.out_root@, bytes_server_dir())
        &&& self.client_tree@ == spec_join(self.out_root@, bytes_client_dir())
        &&& self.server_mods@ == spec_join(self.server_tree@, bytes_mods_dir())
        &&& self.client_mods@ == spec_join(self.client_tree@, bytes_mods_dir())
        &&& self.staging@ == spec_join(self.out_root@, bytes_staging_dir())
    }
}

/// Compute the output layout: the root named after the build inside the
/// manifest's directory, the two distribution trees with their artifact
/// directories, and the staging area.
pub fn output_layout(manifest_dir: &Vec<u8>, name: &Vec<u8>) -> (l: OutputLayout)
    ensures
        l.wf(manifest_dir@, name@),
{
    let out_root = join_path(manifest_dir, name);
    let sdir = crate::bytestr::server_dir();
    let cdir = crate::bytestr::client_dir();
    let mdir = crate::bytestr::mods_dir();
    let ddir = crate::bytestr::staging_dir();
    let server_tree = join_path(&out_root, &sdir);
    let client_tree = join_path(&out_root, &cdir);
    let server_mods = join_path(&server_tree, &mdir);
    let client_mods = join_path(&client_tree, &mdir);
    let staging = join_path(&out_root, &ddir);
    OutputLayout { out_root, server_tree, client_tree, server_mods, client_mods, staging }
}

/// Under one output layout, the staged copy of an artifact and its two
/// possible destinations are three pairwise distinct paths: placing into
/// one tree can neither clobber the staged source nor the other tree's
/// copy.  With this, `lemma_placement_fills_both_trees` applies to every
/// artifact the organizer places.
pub proof fn lemma_layout_destinations_distinct(
    l: &OutputLayout,
    manifest_dir: Seq<u8>,
    name: Seq<u8>,
    filename: Seq<u8>,
)
    requires
        l.wf(manifest_dir, name),
    ensures
        spec_join(l.staging@, filename) != spec_join(l.server_mods@, filename),
        spec_join(l.staging@, filename) != spec_join(l.client_mods@, filename),
        spec_join(l.server_mods@, filename) != spec_join(l.client_mods@, filename),
{
    assert(l.staging@.len() == l.out_root@.len() + 9);
    assert(l.server_mods@.len() == l.out_root@.len() + 12);
    assert(l.client_mods@.len() == l.out_root@.len() + 12);
    assert(bytes_server_dir() != bytes_client_dir()) by {
        assert(bytes_server_dir()[0] == 115u8);
        assert(bytes_client_dir()[0] == 99u8);
    }
    crate::plan::lemma_join_keeps_distinct_names(
        l.out_root@,
        bytes_server_dir(),
        bytes_client_dir(),
    );
    crate::plan::lemma_join_keeps_distinct(l.server_tree@, l.client_tree@, bytes_mods_dir());
    crate::plan::lemma_join_keeps_distinct(l.staging@, l.server_mods@, filename);
    crate::plan::lemma_join_keeps_distinct(l.staging@, l.client_mods@, filename);
    crate::plan::lemma_join_keeps_distinct(l.server_mods@, l.client_mods@, filename);
}

/// Two joined paths differ when their directories differ at some index that
/// both hold.
proof fn lemma_join_distinct_by_index(d1: Seq<u8>, d2: Seq<u8>, n1: Seq<u8>, n2: Seq<u8>, i: int)
    requires
        0 <= i < d1.len(),
        i < d2.len(),
        d1[i] != d2[i],
    ensures
        spec_join(d1, n1) != spec_join(d2, n2),
{
    assert(spec_join(d1, n1)[i] == d1[i]);
    assert(spec_join(d2, n2)[i] == d2[i]);
}

/// Artifacts with distinct filenames do not collide: the placement plan of
/// an artifact staged under one filename avoids both destinations of any
/// other filename, so placing one artifact never overwrites or removes what
/// another artifact's placement put into either tree — by
/// `lemma_plan_preserves_avoided_path`, those files survive the rest of the
/// organize stage.
pub proof fn lemma_distinct_artifacts_do_not_collide(
    l: &OutputLayout,
    manifest_dir: Seq<u8>,
    name: Seq<u8>,
    other: Seq<u8>,
    filename: Seq<u8>,
    ops: Seq<FileOp>,
    in_server: bool,
    in_client: bool,
)
    requires
        l.wf(manifest_dir, name),
        other != filename,
        placement_plan_ok(
            ops,
            spec_join(l.staging@, filename),
            spec_join(l.server_mods@, filename),
            spec_join(l.client_mods@, filename),
            in_server,
            in_client,
        ),
    ensures
        forall|i: int|
            0 <= i < ops.len() ==> crate::plan::op_avoids(
                #[trigger] ops[i],
                spec_join(l.server_mods@, other),
            ),
        forall|i: int|
            0 <= i < ops.len() ==> crate::plan::op_avoids(
                #[trigger] ops[i],
                spec_join(l.client_mods@, other),
            ),
{
    let root_len = l.out_root@.len() as int;
    assert(l.server_mods@[root_len + 1] == 115u8) by {
        assert(l.server_tree@[root_len + 1] == bytes_server_dir()[0]);
        assert(l.server_mods@[root_len + 1] == l.server_tree@[root_len + 1]);
    }
    assert(l.client_mods@[root_len + 1] == 99u8) by {
        assert(l.client_tree@[root_len + 1] == bytes_client_dir()[0]);
        assert(l.client_mods@[root_len + 1] == l.client_tree@[root_len + 1]);
    }
    assert(l.staging@[root_len + 1] == 100u8) by {
        assert(l.staging@[root_len + 1] == bytes_staging_dir()[0]);
    }
    crate::plan::lemma_join_keeps_distinct_names(l.server_mods@, filename, other);
    crate::plan::lemma_join_keeps_distinct_names(l.client_mods@, filename, other);
    lemma_join_distinct_by_index(l.staging@, l.server_mods@, filename, other, root_len + 1);
    lemma_join_distinct_by_index(l.staging@, l.client_mods@, filename, other, root_len + 1);
    lemma_join_distinct_by_index(l.client_mods@, l.server_mods@, filename, other, root_len + 1);
    lemma_join_distinct_by_index(l.server_mods@, l.client_mods@, filename, other, root_len + 1);
}

/// Every path an artifact's placement plan touches lies inside the output
/// root: a run writes nowhere else, so `lemma_fresh_run_identical` applies
/// to the whole organize stage.
pub proof fn lemma_artifact_plan_within_root(
    l: &OutputLayout,
    manifest_dir: Seq<u8>,
    name: Seq<u8>,
    filename: Seq<u8>,
)
    requires
        l.wf(manifest_dir, name),
    ensures
        crate::plan::is_under(spec_join(l.staging@, filename), l.out_root@),
        crate::plan::is_under(spec_join(l.server_mods@, filename), l.out_root@),
        crate::plan::is_under(spec_join(l.client_mods@, filename), l.out_root@),
{
    crate::plan::lemma_join_is_under(l.out_root@, bytes_staging_dir(), l.out_root@);
    crate::plan::lemma_join_is_under(l.staging@, filename, l.out_root@);
    crate::plan::lemma_join_is_under(l.out_root@, bytes_server_dir(), l.out_root@);
    crate::plan::lemma_join_is_under(l.server_tree@, bytes_mods_dir(), l.out_root@);
    crate::plan::lemma_join_is_under(l.server_mods@, filename, l.out_root@);
    crate::plan::lemma_join_is_under(l.out_root@, bytes_client_dir(), l.out_root@);
    crate::plan::lemma_join_is_under(l.client_tree@, bytes_mods_dir(), l.out_root@);
    crate::plan::lemma_join_is_under(l.client_mods@, filename, l.out_root@);
}

/// Plan the placement of one artifact once its filename is known: where the
/// fetch staged it, under which manifest name, and the operations that
/// place it into the trees.
pub fn artifact_plan(
    art: &ArtifactSpec,
    layout: &OutputLayout,
    logical_name: &Vec<u8>,
    filename: &Vec<u8>,
) -> (r: (FetchedArtifact, Vec<FileOp>))
    ensures
        r.0.local_path@ == spec_join(layout.staging@, filename@),
        r.0.logical_name@ == logical_name@,
        placement_plan_ok(
            r.1@,
            r.0.local_path@,
            spec_join(layout.server_mods@, filename@),
            spec_join(layout.client_mods@, filename@),
            art.include_in_server,
            art.include_in_client,
        ),
{
    let staged = join_path(&layout.staging, filename);
    let ops = placement_ops(art, &staged, filename, &layout.server_mods, &layout.client_mods);
    let fetched = FetchedArtifact { local_path: staged, logical_name: logical_name.clone() };
    (fetched, ops)
}

/// What the bootstrap stage writes and fetches before launching: the
/// license-acceptance marker with its fixed contents, and the loader
/// download with its fixed local name.
pub struct BootstrapPlan {
    pub license_path: Vec<u8>,
    pub license_contents: Vec<u8>,
    pub loader_url: Vec<u8>,
    pub loader_path: Vec<u8>,
}

/// Compute the bootstrap plan for a server tree: the loader URL is the
/// deterministic function of the build info's runtime version, loader kind
/// and launcher channel.
pub fn bootstrap_plan(info: &BuildInfo, server_tree: &Vec<u8>) -> (p: BootstrapPlan)
    ensures
        p.license_path@ == spec_join(server_tree@, bytes_license_name()),
        p.license_contents@ == bytes_license_content(),
        p.loader_url@ == spec_loader_url(
            info.runtime_version@,
            info.loader_kind@,
            info.launcher_channel@,
        ),
        p.loader_path@ == spec_join(server_tree@, bytes_loader_jar_name()),
{
    let lname = crate::bytestr::license_name();
    let jar = crate::bytestr::loader_jar_name();
    BootstrapPlan {
        license_path: join_path(server_tree, &lname),
        license_contents: crate::bytestr::license_content(),
        loader_url: crate::bytestr::loader_url(
            &info.runtime_version,
            &info.loader_kind,
            &info.launcher_channel,
        ),
        loader_path: join_path(server_tree, &jar),
    }
}

/// The fixed launch invocation: the runtime program, its argument vector —
/// memory limit, jar selection, the loader jar, headless mode, server mode
/// — and the server tree as working directory.
pub struct LaunchInvocation {
    pub program: Vec<u8>,
    pub args: Vec<Vec<u8>>,
    pub workdir: Vec<u8>,
}

/// Build the fixed launch invocation for a server tree.
pub fn launch_invocation(server_tree: &Vec<u8>) -> (inv: LaunchInvocation)
    ensures
        inv.program@ == bytes_launch_program(),
        inv.args@.len() == 5,
        inv.args@[0]@ == bytes_arg_memory(),
        inv.args@[1]@ == bytes_arg_jar(),
        inv.args@[2]@ == bytes_loader_jar_name(),
        inv.args@[3]@ == bytes_arg_headless(),
        inv.args@[4]@ == bytes_arg_mode(),
        inv.workdir@ == server_tree@,
{
    let mut args: Vec<Vec<u8>> = Vec::new();
    args.push(crate::bytestr::arg_memory());
    args.push(crate::bytestr::arg_jar());
    args.push(crate::bytestr::loader_jar_name());
    args.push(crate::bytestr::arg_headless());
    args.push(crate::bytestr::arg_mode());
    LaunchInvocation {
        program: crate::bytestr::launch_program(),
        args,
        workdir: server_tree.clone(),
    }
}

} // verus!
