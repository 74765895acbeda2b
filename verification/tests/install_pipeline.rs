use lib::pipeline::{
    after_flip_to_installed, flip_to_installed_target, share_code_override, FlipToInstalled,
    PostInstallResetGate,
};
use std::sync::mpsc::{channel, Receiver};
use std::sync::{Arc, Mutex};

use lib::nav::{DownloadProgress, InstallScreenState, InstallStage, PipelineFlags, PipelineKind};
use lib::pipeline::{
    destination_prep_key, reset_install_pipeline_state, DestinationPrepFlow, DestinationPrepToken,
    Game, InstallPipelineResetSet, InstallWorkflow, PendingInstallDestinationPrep,
};
use lib::state::WizardState;

#[derive(Debug)]
enum DownloadEvent {
    AssetProgress { index: usize, bytes: u64 },
    Finished,
}

#[derive(Debug)]
enum SkipEvent {
    AssetHashStarted { index: usize },
    CandidateEnumerated { total: usize },
}

#[derive(Debug)]
enum ExtractEvent {
    AssetDone { index: usize, ok: bool, label: String },
}

/// Stands in for a destination-preparation worker.
#[derive(Debug, PartialEq)]
struct Worker(u32);

fn dirty_ws() -> WizardState {
    let mut ws = WizardState {
        modlist_auto_build_active: true,
        modlist_auto_build_waiting_for_install: true,
        ..Default::default()
    };
    ws.step2.pending_saved_log_apply = true;
    ws.step2.pending_saved_log_update_preview = true;
    ws.step2.pending_saved_log_download = true;
    ws.step2.update_selected_download_running = true;
    ws.step2.update_selected_extract_running = true;
    ws
}

fn dirty_iss() -> InstallScreenState {
    let mut iss = InstallScreenState {
        stage: InstallStage::Downloading,
        pipeline_kind: PipelineKind::Fork,
        ..Default::default()
    };
    iss.pipeline_flags = PipelineFlags {
        armed: true,
        archives_staged: true,
        archive_skip_completed: true,
        download_phase_started: true,
        archives_verified: true,
    };
    iss.download_progress = DownloadProgress {
        hash_progress: Some((10, 51)),
        extract_progress: Some((5, 51)),
    };
    iss.hashed_indices.push(0);
    iss.hashed_indices.push(3);
    iss
}

#[test]
fn reset_install_pipeline_state_drops_all_receivers_and_clears_wizard_latches() {
    let (s_dl, r_dl) = channel::<DownloadEvent>();
    let (s_sk, r_sk) = channel::<SkipEvent>();
    let (s_ex, r_ex) = channel::<ExtractEvent>();
    let mut stream = Some(r_dl);
    let mut skip = Some(r_sk);
    let mut extract = Some(r_ex);
    let mut background_destination_prep_workers: Vec<Worker> = Vec::new();
    let mut dest_prep = Some(PendingInstallDestinationPrep {
        token: DestinationPrepToken::new(
            1,
            DestinationPrepFlow::InstallPipeline,
            r"D:\target",
            None,
            true,
        ),
        destination: r"D:\target".to_string(),
        game: Game::BGEE,
        workflow: InstallWorkflow::PasteAndInstall,
        code: "BIO-MODLIST-V1:test".to_string(),
        worker: Worker(7),
    });
    let mut ws = dirty_ws();
    let mut iss = dirty_iss();
    let hash = Arc::new(Mutex::new(Some((10usize, 51usize))));
    let extract_lock = Arc::new(Mutex::new(Some((5usize, 51usize))));
    let mut pending = Some("modlist-id".to_string());
    let mut active = Some("modlist-id".to_string());

    {
        let mut hash_guard = hash.lock().unwrap();
        let mut extract_guard = extract_lock.lock().unwrap();
        reset_install_pipeline_state(&mut InstallPipelineResetSet {
            stream_download_rx: &mut stream,
            archive_skip_rx: &mut skip,
            extract_parallel_rx: &mut extract,
            install_destination_prep_rx: &mut dest_prep,
            background_destination_prep_workers: &mut background_destination_prep_workers,
            wizard_state: &mut ws,
            install_screen_state: &mut iss,
            hash_progress: &mut hash_guard,
            extract_progress: &mut extract_guard,
            pending_reinstall_id: &mut pending,
            active_install_modlist_id: &mut active,
        }, false);
    }

    assert!(stream.is_none(), "stream_download_rx dropped");
    assert!(skip.is_none(), "archive_skip_rx dropped");
    assert!(extract.is_none(), "extract_parallel_rx dropped");
    assert!(dest_prep.is_none(), "install_destination_prep_rx dropped");
    assert_eq!(
        background_destination_prep_workers,
        vec![Worker(7)],
        "running destination prep worker retained for shutdown join"
    );

    assert!(s_dl.send(DownloadEvent::Finished).is_err());
    assert!(s_sk.send(SkipEvent::CandidateEnumerated { total: 1 }).is_err());
    assert!(s_ex
        .send(ExtractEvent::AssetDone {
            index: 0,
            ok: true,
            label: "MOD".to_string(),
        })
        .is_err());

    assert!(!ws.modlist_auto_build_active);
    assert!(!ws.modlist_auto_build_waiting_for_install);
    assert!(!ws.step2.pending_saved_log_apply);
    assert!(!ws.step2.pending_saved_log_update_preview);
    assert!(!ws.step2.pending_saved_log_download);
    assert!(!ws.step2.update_selected_download_running);
    assert!(!ws.step2.update_selected_extract_running);

    assert!(pending.is_none());
    assert!(active.is_none());
}

#[test]
fn reset_install_pipeline_state_clears_screen_state_and_shared_progress_mutexes() {
    let mut stream: Option<Receiver<DownloadEvent>> = None;
    let mut skip: Option<Receiver<SkipEvent>> = None;
    let mut extract: Option<Receiver<ExtractEvent>> = None;
    let mut dest_prep: Option<PendingInstallDestinationPrep<Worker>> = None;
    let mut background_destination_prep_workers: Vec<Worker> = Vec::new();
    let mut ws = dirty_ws();
    let mut iss = dirty_iss();
    let hash = Arc::new(Mutex::new(Some((10usize, 51usize))));
    let extract_lock = Arc::new(Mutex::new(Some((5usize, 51usize))));
    let mut pending: Option<String> = None;
    let mut active: Option<String> = None;

    {
        let mut hash_guard = hash.lock().unwrap();
        let mut extract_guard = extract_lock.lock().unwrap();
        reset_install_pipeline_state(&mut InstallPipelineResetSet {
            stream_download_rx: &mut stream,
            archive_skip_rx: &mut skip,
            extract_parallel_rx: &mut extract,
            install_destination_prep_rx: &mut dest_prep,
            background_destination_prep_workers: &mut background_destination_prep_workers,
            wizard_state: &mut ws,
            install_screen_state: &mut iss,
            hash_progress: &mut hash_guard,
            extract_progress: &mut extract_guard,
            pending_reinstall_id: &mut pending,
            active_install_modlist_id: &mut active,
        }, false);
    }

    assert!(!iss.pipeline_flags.armed);
    assert!(!iss.pipeline_flags.archives_staged);
    assert!(!iss.pipeline_flags.archive_skip_completed);
    assert!(!iss.pipeline_flags.download_phase_started);
    assert!(!iss.pipeline_flags.archives_verified);
    assert!(iss.download_progress.hash_progress.is_none());
    assert!(iss.download_progress.extract_progress.is_none());
    assert!(iss.hashed_indices.is_empty());
    assert_eq!(iss.stage, InstallStage::Gallery);
    assert_eq!(
        iss.pipeline_kind,
        PipelineKind::Install,
        "a cancelled or completed run must not leave the screen armed as a fork"
    );

    assert!(hash.lock().unwrap().is_none(), "shared hash mutex blanked");
    assert!(
        extract_lock.lock().unwrap().is_none(),
        "shared extract mutex blanked"
    );
    assert!(background_destination_prep_workers.is_empty());
}

#[test]
fn composed_cancel_drains_all_three_event_streams_after_reset() {
    let (s_dl, r_dl) = channel::<DownloadEvent>();
    let (s_sk, r_sk) = channel::<SkipEvent>();
    let (s_ex, r_ex) = channel::<ExtractEvent>();
    let _ = s_dl.send(DownloadEvent::AssetProgress {
        index: 0,
        bytes: 100,
    });
    let _ = s_sk.send(SkipEvent::AssetHashStarted { index: 0 });
    let _ = s_ex.send(ExtractEvent::AssetDone {
        index: 0,
        ok: true,
        label: "MOD".to_string(),
    });
    let mut stream = Some(r_dl);
    let mut skip = Some(r_sk);
    let mut extract = Some(r_ex);
    let mut dest_prep: Option<PendingInstallDestinationPrep<Worker>> = None;
    let mut background_destination_prep_workers: Vec<Worker> = Vec::new();
    let mut ws = WizardState::default();
    let mut iss = InstallScreenState::default();
    let mut hash: Option<(usize, usize)> = None;
    let mut extract_progress: Option<(usize, usize)> = None;
    let mut pending = None;
    let mut active = None;
    reset_install_pipeline_state(&mut InstallPipelineResetSet {
        stream_download_rx: &mut stream,
        archive_skip_rx: &mut skip,
        extract_parallel_rx: &mut extract,
        install_destination_prep_rx: &mut dest_prep,
        background_destination_prep_workers: &mut background_destination_prep_workers,
        wizard_state: &mut ws,
        install_screen_state: &mut iss,
        hash_progress: &mut hash,
        extract_progress: &mut extract_progress,
        pending_reinstall_id: &mut pending,
        active_install_modlist_id: &mut active,
    }, false);
    assert!(stream.is_none());
    assert!(skip.is_none());
    assert!(extract.is_none());
    assert!(s_dl.send(DownloadEvent::Finished).is_err());
}

#[test]
fn destination_keys_fold_separators_and_trailing_slashes() {
    assert_eq!(destination_prep_key("  D:/Games/BG/ ", false), r"D:\Games\BG");
    assert_eq!(destination_prep_key(r"D:\\\", false), r"D:\");
    assert_eq!(destination_prep_key(r"D:\Games\BG", true), r"d:\games\bg");
    assert_eq!(destination_prep_key(r"D:\Games\BG", false), r"D:\Games\BG");
    assert_eq!(destination_prep_key("", false), "");
    assert_eq!(destination_prep_key("é\\", false), "é\\");
    assert_eq!(destination_prep_key("éa\\\\", false), "éa");
}

#[test]
fn a_token_matches_only_its_own_request() {
    let token = DestinationPrepToken::new(
        3,
        DestinationPrepFlow::WorkspaceStep5,
        "D:/Target/",
        Some("id-1".to_string()),
        true,
    );
    assert!(token.matches_context(3, DestinationPrepFlow::WorkspaceStep5, r"d:\target", Some("id-1"), true));
    assert!(!token.matches_context(4, DestinationPrepFlow::WorkspaceStep5, r"d:\target", Some("id-1"), true));
    assert!(!token.matches_context(3, DestinationPrepFlow::CreateScratch, r"d:\target", Some("id-1"), true));
    assert!(!token.matches_context(3, DestinationPrepFlow::WorkspaceStep5, r"d:\other", Some("id-1"), true));
    assert!(!token.matches_context(3, DestinationPrepFlow::WorkspaceStep5, r"d:\target", None, true));
    assert!(!token.matches_context(3, DestinationPrepFlow::WorkspaceStep5, "D:/Target", Some("id-1"), false));

    let prep = PendingInstallDestinationPrep {
        token: DestinationPrepToken::new(1, DestinationPrepFlow::InstallPipeline, "D:/t", None, false),
        destination: "D:/t".to_string(),
        game: Game::BG2EE,
        workflow: InstallWorkflow::PasteAndInstall,
        code: "CODE".to_string(),
        worker: Worker(1),
    };
    assert!(prep.matches_context(1, DestinationPrepFlow::InstallPipeline, r"D:\t", Game::BG2EE, InstallWorkflow::PasteAndInstall, "  CODE\n", false));
    assert!(!prep.matches_context(1, DestinationPrepFlow::InstallPipeline, r"D:\t", Game::BGEE, InstallWorkflow::PasteAndInstall, "CODE", false));
    assert!(!prep.matches_context(1, DestinationPrepFlow::InstallPipeline, r"D:\t", Game::BG2EE, InstallWorkflow::PasteAndInstall, "CODE2", false));
}

#[test]
fn generations_count_up_and_skip_zero() {
    let mut g: u64 = 0;
    let t = lib::pipeline::next_destination_prep_token(&mut g, DestinationPrepFlow::CreateScratch, "x", None, false);
    assert_eq!((g, t.generation), (1, 1));
    let mut g = u64::MAX;
    let t = lib::pipeline::next_destination_prep_token(&mut g, DestinationPrepFlow::CreateScratch, "x", None, false);
    assert_eq!((g, t.generation), (1, 1));
    assert_eq!(t.destination_key, "x");
}

#[test]
fn repaint_runs_at_frame_rate_for_step5_and_slowly_for_background_work() {
    assert_eq!(lib::pipeline::repaint_delay_ms(true, false, true), Some(16));
    assert_eq!(lib::pipeline::repaint_delay_ms(false, true, false), Some(16));
    assert_eq!(lib::pipeline::repaint_delay_ms(false, false, true), Some(250));
    assert_eq!(lib::pipeline::repaint_delay_ms(false, false, false), None);
}

#[test]
fn a_clean_run_marks_the_workspace_or_the_started_modlist_installed() {
    let mut ws = WizardState::default();
    let workspace = Some("ws-1".to_string());
    let started = Some("ml-2".to_string());
    assert_eq!(flip_to_installed_target(&ws, &workspace, &started), None);

    ws.step5.last_exit_code = Some(0);
    assert_eq!(
        flip_to_installed_target(&ws, &workspace, &started),
        Some(FlipToInstalled { modlist_id: "ws-1".to_string(), from_workspace: true })
    );
    let target = flip_to_installed_target(&ws, &None, &started).unwrap();
    assert_eq!(target, FlipToInstalled { modlist_id: "ml-2".to_string(), from_workspace: false });
    assert_eq!(flip_to_installed_target(&ws, &None, &None), None);
    ws.step5.last_install_failed = true;
    assert_eq!(flip_to_installed_target(&ws, &None, &started), None);

    assert_eq!(share_code_override(&target, Some("BIO-1".to_string())), Some("BIO-1".to_string()));
    assert_eq!(share_code_override(&target, Some("  ".to_string())), None);
    let from_ws = FlipToInstalled { modlist_id: "ws-1".to_string(), from_workspace: true };
    assert_eq!(share_code_override(&from_ws, Some("BIO-1".to_string())), None);

    let mut active = started.clone();
    let mut gate = PostInstallResetGate::Idle;
    after_flip_to_installed(&from_ws, &mut active, &mut gate);
    assert_eq!(active, started);
    assert!(!gate.is_pending());
    after_flip_to_installed(&target, &mut active, &mut gate);
    assert_eq!(active, None);
    assert!(gate.is_pending());
    assert!(lib::pipeline::console_focus_requested(false, true));
    assert!(!lib::pipeline::console_focus_requested(true, true));
}

#[test]
fn a_new_preparation_makes_the_previous_token_stale() {
    let mut generation = u64::MAX - 1;
    let first = lib::pipeline::next_destination_prep_token(
        &mut generation,
        DestinationPrepFlow::InstallPipeline,
        "D:/target",
        None,
        false,
    );
    assert_eq!(generation, u64::MAX);
    assert!(first.matches_context(generation, DestinationPrepFlow::InstallPipeline, "D:/target", None, false));
    let second = lib::pipeline::next_destination_prep_token(
        &mut generation,
        DestinationPrepFlow::InstallPipeline,
        "D:/target",
        None,
        false,
    );
    assert_eq!(generation, 1);
    assert!(!first.matches_context(generation, DestinationPrepFlow::InstallPipeline, "D:/target", None, false));
    assert!(second.matches_context(generation, DestinationPrepFlow::InstallPipeline, "D:/target", None, false));
}

#[test]
fn a_finished_destination_prep_worker_is_handed_back_to_be_joined() {
    let mut stream: Option<Receiver<DownloadEvent>> = None;
    let mut skip: Option<Receiver<SkipEvent>> = None;
    let mut extract: Option<Receiver<ExtractEvent>> = None;
    let mut dest_prep = Some(PendingInstallDestinationPrep {
        token: DestinationPrepToken::new(1, DestinationPrepFlow::InstallPipeline, "D:/t", None, false),
        destination: "D:/t".to_string(),
        game: Game::BGEE,
        workflow: InstallWorkflow::PasteAndInstall,
        code: "CODE".to_string(),
        worker: Worker(9),
    });
    let mut background_destination_prep_workers = vec![Worker(1)];
    let mut ws = WizardState::default();
    let mut iss = InstallScreenState::default();
    let mut hash: Option<(usize, usize)> = None;
    let mut extract_progress: Option<(usize, usize)> = None;
    let mut pending = None;
    let mut active = None;
    let to_join = reset_install_pipeline_state(&mut InstallPipelineResetSet {
        stream_download_rx: &mut stream,
        archive_skip_rx: &mut skip,
        extract_parallel_rx: &mut extract,
        install_destination_prep_rx: &mut dest_prep,
        background_destination_prep_workers: &mut background_destination_prep_workers,
        wizard_state: &mut ws,
        install_screen_state: &mut iss,
        hash_progress: &mut hash,
        extract_progress: &mut extract_progress,
        pending_reinstall_id: &mut pending,
        active_install_modlist_id: &mut active,
    }, true);
    assert_eq!(to_join, Some(Worker(9)));
    assert_eq!(background_destination_prep_workers, vec![Worker(1)]);
    assert!(dest_prep.is_none());
}

#[test]
fn holding_a_worker_keeps_only_a_running_one() {
    let mut workers = vec![Worker(1)];
    assert_eq!(lib::pipeline::hold_destination_prep_worker_for_shutdown(&mut workers, Worker(2), true), Some(Worker(2)));
    assert_eq!(workers, vec![Worker(1)]);
    assert_eq!(lib::pipeline::hold_destination_prep_worker_for_shutdown(&mut workers, Worker(3), false), None);
    assert_eq!(workers, vec![Worker(1), Worker(3)]);
}
