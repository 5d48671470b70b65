use packbuild::pipeline::{
    bootstrap_plan, exit_code, launch_invocation, next_action, output_layout, step, ArchiveError,
    Event, FetchError, LaunchResult, PipelineAction, PipelineError, PlacementError,
    ProcessLaunchError, Stage,
};
use packbuild::plan::{placement_ops, FileOp};
use packbuild::{ArtifactSpec, BuildInfo, Placement};

fn b(s: &str) -> Vec<u8> {
    s.as_bytes().to_vec()
}

fn artifact(server: bool, client: bool) -> ArtifactSpec {
    ArtifactSpec {
        source_url: b("https://example.test/mod-a.jar"),
        include_in_server: server,
        include_in_client: client,
        depends_on: None,
    }
}

fn info() -> BuildInfo {
    BuildInfo {
        name: b("mypack"),
        runtime_version: b("1.20.1"),
        loader_kind: b("0.15.0"),
        launcher_channel: b("1.0.0"),
    }
}

fn launch(status: i32) -> LaunchResult {
    LaunchResult { exit_status: status, stdout: b("out"), stderr: b("err") }
}

#[test]
fn placement_tag_covers_all_flag_combinations() {
    assert_eq!(artifact(true, false).placement(), Placement::ServerOnly);
    assert_eq!(artifact(false, true).placement(), Placement::ClientOnly);
    assert_eq!(artifact(true, true).placement(), Placement::Both);
    assert_eq!(artifact(false, false).placement(), Placement::Neither);
}

#[test]
fn server_only_artifact_is_copied_into_server_tree_only() {
    let ops = placement_ops(
        &artifact(true, false),
        &b("/out/download/mod-a.jar"),
        &b("mod-a.jar"),
        &b("/out/server/mods"),
        &b("/out/client/mods"),
    );
    assert_eq!(ops.len(), 1);
    match &ops[0] {
        FileOp::Copy { from, to } => {
            assert_eq!(from, &b("/out/download/mod-a.jar"));
            assert_eq!(to, &b("/out/server/mods/mod-a.jar"));
        }
        FileOp::Move { .. } => panic!("expected a copy"),
    }
}

#[test]
fn client_only_artifact_is_moved_into_client_tree_only() {
    let ops = placement_ops(
        &artifact(false, true),
        &b("/out/download/mod-a.jar"),
        &b("mod-a.jar"),
        &b("/out/server/mods"),
        &b("/out/client/mods"),
    );
    assert_eq!(ops.len(), 1);
    match &ops[0] {
        FileOp::Move { from, to } => {
            assert_eq!(from, &b("/out/download/mod-a.jar"));
            assert_eq!(to, &b("/out/client/mods/mod-a.jar"));
        }
        FileOp::Copy { .. } => panic!("expected a move"),
    }
}

#[test]
fn dual_artifact_copies_first_and_moves_last() {
    let ops = placement_ops(
        &artifact(true, true),
        &b("/out/download/mod-a.jar"),
        &b("mod-a.jar"),
        &b("/out/server/mods"),
        &b("/out/client/mods"),
    );
    assert_eq!(ops.len(), 2);
    assert!(matches!(&ops[0], FileOp::Copy { .. }));
    match &ops[1] {
        FileOp::Move { from, to } => {
            assert_eq!(from, &b("/out/download/mod-a.jar"));
            assert_eq!(to, &b("/out/client/mods/mod-a.jar"));
        }
        FileOp::Copy { .. } => panic!("the move must come last"),
    }
}

#[test]
fn unflagged_artifact_is_placed_nowhere() {
    let ops = placement_ops(
        &artifact(false, false),
        &b("/out/download/mod-a.jar"),
        &b("mod-a.jar"),
        &b("/out/server/mods"),
        &b("/out/client/mods"),
    );
    assert!(ops.is_empty());
}

#[test]
fn layout_is_derived_from_manifest_dir_and_build_name() {
    let l = output_layout(&b("/packs"), &b("mypack"));
    assert_eq!(l.out_root, b("/packs/mypack"));
    assert_eq!(l.server_tree, b("/packs/mypack/server"));
    assert_eq!(l.client_tree, b("/packs/mypack/client"));
    assert_eq!(l.server_mods, b("/packs/mypack/server/mods"));
    assert_eq!(l.client_mods, b("/packs/mypack/client/mods"));
    assert_eq!(l.staging, b("/packs/mypack/download"));
}

#[test]
fn artifact_plan_stages_under_the_staging_dir() {
    let layout = output_layout(&b("/packs"), &b("mypack"));
    let (fetched, ops) = packbuild::pipeline::artifact_plan(
        &artifact(true, false),
        &layout,
        &b("mod-a"),
        &b("mod-a.jar"),
    );
    assert_eq!(fetched.local_path, b("/packs/mypack/download/mod-a.jar"));
    assert_eq!(fetched.logical_name, b("mod-a"));
    assert_eq!(ops.len(), 1);
    match &ops[0] {
        packbuild::plan::FileOp::Copy { from, to } => {
            assert_eq!(from, &b("/packs/mypack/download/mod-a.jar"));
            assert_eq!(to, &b("/packs/mypack/server/mods/mod-a.jar"));
        }
        _ => panic!("expected a copy"),
    }
}

#[test]
fn bootstrap_plan_fixes_license_and_loader() {
    let p = bootstrap_plan(&info(), &b("/packs/mypack/server"));
    assert_eq!(p.license_path, b("/packs/mypack/server/eula.txt"));
    assert_eq!(p.license_contents, b("eula=true"));
    assert_eq!(
        p.loader_url,
        b("https://meta.fabricmc.net/v2/versions/loader/1.20.1/0.15.0/1.0.0/server/jar")
    );
    assert_eq!(p.loader_path, b("/packs/mypack/server/fabric.jar"));
}

#[test]
fn launch_invocation_is_fixed() {
    let inv = launch_invocation(&b("/packs/mypack/server"));
    assert_eq!(inv.program, b("java"));
    assert_eq!(
        inv.args,
        vec![b("-Xmx2G"), b("-jar"), b("fabric.jar"), b("nogui"), b("server")]
    );
    assert_eq!(inv.workdir, b("/packs/mypack/server"));
}

#[test]
fn successful_compressed_run_reaches_done() {
    let compress = true;
    let s = Stage::Init;
    assert_eq!(next_action(&s, compress), PipelineAction::PrepareLayout);
    let s = step(s, Event::PrepareOutcome(None));
    assert!(matches!(s, Stage::Prepared));
    assert_eq!(next_action(&s, compress), PipelineAction::OrganizeArtifacts);
    let s = step(s, Event::OrganizeOutcome(None));
    assert!(matches!(s, Stage::Organized));
    assert_eq!(next_action(&s, compress), PipelineAction::ArchiveBothTrees);
    let s = step(s, Event::ArchiveOutcome(None, None));
    assert!(matches!(s, Stage::Archived));
    assert_eq!(next_action(&s, compress), PipelineAction::BootstrapServer);
    let s = step(s, Event::BootstrapOutcome(Ok(launch(0))));
    assert!(matches!(s, Stage::Bootstrapped(_)));
    assert_eq!(next_action(&s, compress), PipelineAction::Report);
    let s = step(s, Event::Reported);
    assert!(matches!(s, Stage::Done(_)));
    assert_eq!(exit_code(&s), 0);
}

#[test]
fn uncompressed_run_skips_archiving() {
    let s = step(Stage::Init, Event::PrepareOutcome(None));
    let s = step(s, Event::OrganizeOutcome(None));
    assert_eq!(next_action(&s, false), PipelineAction::BootstrapServer);
}

#[test]
fn fetch_failure_aborts_the_run() {
    let s = step(Stage::Init, Event::PrepareOutcome(None));
    let s = step(
        s,
        Event::OrganizeOutcome(Some(PipelineError::Fetch(FetchError::HttpStatus(404)))),
    );
    match &s {
        Stage::Failed(err) => {
            assert_eq!(*err, PipelineError::Fetch(FetchError::HttpStatus(404)));
        }
        _ => panic!("a failed fetch must fail the run"),
    }
    assert_eq!(next_action(&s, true), PipelineAction::Stop);
    assert_ne!(exit_code(&s), 0);
}

#[test]
fn prepare_failure_aborts_the_run() {
    let s = step(Stage::Init, Event::PrepareOutcome(Some(PlacementError::CreateDir)));
    assert!(matches!(
        s,
        Stage::Failed(PipelineError::Placement(PlacementError::CreateDir))
    ));
}

#[test]
fn one_archive_failure_is_surfaced() {
    let s = step(Stage::Organized, Event::ArchiveOutcome(Some(ArchiveError::ReadSource), None));
    assert!(matches!(s, Stage::Failed(PipelineError::Archive(ArchiveError::ReadSource))));
    let s = step(
        Stage::Organized,
        Event::ArchiveOutcome(None, Some(ArchiveError::WriteContainer)),
    );
    assert!(matches!(s, Stage::Failed(PipelineError::Archive(ArchiveError::WriteContainer))));
}

#[test]
fn both_archive_failures_are_surfaced_together() {
    let s = step(
        Stage::Organized,
        Event::ArchiveOutcome(Some(ArchiveError::ReadSource), Some(ArchiveError::WriteContainer)),
    );
    assert!(matches!(
        s,
        Stage::Failed(PipelineError::ArchiveBoth(
            ArchiveError::ReadSource,
            ArchiveError::WriteContainer,
        ))
    ));
}

#[test]
fn nonzero_server_exit_is_reported_not_failed() {
    let s = step(Stage::Archived, Event::BootstrapOutcome(Ok(launch(137))));
    let s = step(s, Event::Reported);
    match &s {
        Stage::Done(r) => {
            assert_eq!(r.exit_status, 137);
            assert_eq!(r.stdout, b("out"));
            assert_eq!(r.stderr, b("err"));
        }
        _ => panic!("a captured launch result must reach the done state"),
    }
    assert_eq!(exit_code(&s), 0);
}

#[test]
fn bootstrap_spawn_failure_fails_the_run() {
    let s = step(
        Stage::Archived,
        Event::BootstrapOutcome(Err(PipelineError::Launch(ProcessLaunchError::Spawn))),
    );
    assert!(matches!(
        s,
        Stage::Failed(PipelineError::Launch(ProcessLaunchError::Spawn))
    ));
    assert_ne!(exit_code(&s), 0);
}

#[test]
fn failed_state_absorbs_every_event() {
    let failed = step(Stage::Init, Event::PrepareOutcome(Some(PlacementError::CreateDir)));
    let s = step(failed, Event::BootstrapOutcome(Ok(launch(0))));
    assert!(matches!(s, Stage::Failed(_)));
    let s = step(s, Event::Reported);
    assert!(matches!(s, Stage::Failed(_)));
}

#[test]
fn mismatched_event_changes_nothing() {
    let s = step(Stage::Init, Event::Reported);
    assert!(matches!(s, Stage::Init));
    let s = step(Stage::Prepared, Event::ArchiveOutcome(None, None));
    assert!(matches!(s, Stage::Prepared));
}
