use client_2048::messages::{AtRepoSyncError, StorageError, StorageRequest, StorageResponse};
use client_2048::replay::replay_recording;
use client_2048::store::LocalStore;
use client_2048::sync::{
    handle_game_completed, remote_sync_game, StorageTask, Progress, RemoteCall, RemoteOutcome, Stage,
};
use twothousand_forty_eight::direction::Direction;
use twothousand_forty_eight::unified::game::GameState;
use twothousand_forty_eight::unified::hash::Hashable;
use twothousand_forty_eight::unified::reconstruction::Reconstructable;
use twothousand_forty_eight::v2::recording::SeededRecording;

/// A valid recording of `moves` moves on a 4x4 board, each the first
/// direction that the replay accepts.
fn played(seed: u32, moves: usize) -> String {
    let mut dirs: Vec<Direction> = Vec::new();
    for _ in 0..moves {
        for d in [Direction::UP, Direction::LEFT, Direction::DOWN, Direction::RIGHT] {
            let mut next = dirs.clone();
            next.push(d);
            if SeededRecording::new(seed, 4, 4, next.clone()).reconstruct().is_ok() {
                dirs = next;
                break;
            }
        }
    }
    String::from(&SeededRecording::new(seed, 4, 4, dirs))
}

fn finished(p: &Progress) -> Option<StorageResponse> {
    match p {
        Progress::Finished(r) => Some(r.clone()),
        Progress::Call(_) => None,
    }
}

fn count_hash(store: &LocalStore, hash: &str) -> usize {
    store.games().iter().filter(|g| g.record.sync_status.hash == hash).count()
}

#[test]
fn replay_matches_engine() {
    let rec = played(7, 30);
    let parsed: SeededRecording = rec.parse().unwrap();
    let state = GameState::from_reconstructable_ruleset(&parsed).unwrap();
    let replay = replay_recording(&rec).unwrap();
    assert_eq!(replay.hash, parsed.game_hash());
    assert_ne!(replay.hash, rec);
    assert_eq!(replay.outcome.score, state.score_current as u64);
    assert!(replay.outcome.score > 0);
    assert_eq!(replay.outcome.over, state.over);
    assert_eq!(replay.history.len(), parsed.reconstruct().unwrap().history.len());
    assert_eq!(replay.history[0].len(), 36);
}

#[test]
fn replay_rejects_garbage_and_big_boards() {
    assert!(replay_recording(&"not a recording".to_string()).is_err());
    assert!(replay_recording(&"::2:7:7:1:".to_string()).is_err());
    assert!(replay_recording(&"::2:4:4:1:".to_string()).is_ok());
    // An empty board replays without a panic, valid or not.
    let _ = replay_recording(&"::2:0:0:1:".to_string());
}

#[test]
fn complete_twice_is_idempotent() {
    let rec = played(11, 25);
    let mut store = LocalStore::new();
    let (first, flow) = handle_game_completed(&mut store, rec.clone(), false, "k1".to_string(), "t1".to_string());
    assert_eq!(finished(&first), Some(StorageResponse::Success));
    assert_eq!(flow.unwrap().stage, Stage::Finished);
    let (second, flow2) = handle_game_completed(&mut store, rec.clone(), false, "k2".to_string(), "t2".to_string());
    assert_eq!(finished(&second), Some(StorageResponse::AlreadySynced));
    assert!(flow2.is_none());
    let hash = replay_recording(&rec).unwrap().hash;
    assert_eq!(store.len(), 1);
    assert_eq!(count_hash(&store, &hash), 1);
    let stored = &store.games()[0];
    assert_eq!(stored.rkey, "k1");
    assert!(stored.record.sync_status.synced_with_at_repo);
    assert_eq!(stored.record.seeded_recording, rec);
    let state = GameState::from_reconstructable_ruleset(&rec.parse::<SeededRecording>().unwrap()).unwrap();
    assert_eq!(stored.record.current_score, state.score_current as u64);
    assert_eq!(stored.record.completed, state.over);
    assert_eq!(stored.record.won, state.won);
    assert_eq!(stored.record.sync_status.hash, hash);
    assert_eq!(stored.record.created_at, "t1");
    let stats = store.stats().unwrap();
    assert_eq!(stats.games_played, 1);
    assert_eq!(stats.total_score, stored.record.current_score);
}

#[test]
fn invalid_recording_writes_nothing() {
    let mut store = LocalStore::new();
    let (p, flow) = handle_game_completed(&mut store, "garbage".to_string(), true, "k".to_string(), "t".to_string());
    assert!(matches!(finished(&p), Some(StorageResponse::Error(StorageError::InvalidRecording(_)))));
    assert!(flow.is_none());
    assert_eq!(store.len(), 0);
    assert_eq!(store.stats().unwrap().games_played, 0);
}

#[test]
fn missing_stats_stops_completion() {
    let mut store = LocalStore::from_parts(vec![], None).unwrap();
    let (p, _) = handle_game_completed(&mut store, played(3, 5), false, "k".to_string(), "t".to_string());
    assert_eq!(finished(&p), Some(StorageResponse::Error(StorageError::MissingStats)));
    assert_eq!(store.len(), 0);
}

#[test]
fn relogin_during_refresh_keeps_game() {
    let rec = played(5, 20);
    let mut store = LocalStore::new();
    let (p, flow) = handle_game_completed(&mut store, rec.clone(), true, "k".to_string(), "t".to_string());
    assert!(matches!(p, Progress::Call(RemoteCall::RefreshStats)));
    assert_eq!(store.len(), 0);
    let mut flow = flow.unwrap();
    let next = flow.resume(&mut store, RemoteOutcome::Failed(AtRepoSyncError::AuthErrorNeedToReLogin));
    assert_eq!(finished(&next), Some(StorageResponse::RepoError(AtRepoSyncError::AuthErrorNeedToReLogin)));
    assert!(!flow.is_waiting());
    let hash = replay_recording(&rec).unwrap().hash;
    assert_eq!(count_hash(&store, &hash), 1);
    assert!(!store.games()[0].record.sync_status.synced_with_at_repo);
    assert_eq!(store.stats().unwrap().games_played, 0);
}

#[test]
fn signed_in_completion_happy_path() {
    let rec = played(9, 15);
    let mut store = LocalStore::new();
    let (p, flow) = handle_game_completed(&mut store, rec.clone(), true, "key1".to_string(), "now".to_string());
    assert!(matches!(p, Progress::Call(RemoteCall::RefreshStats)));
    let mut flow = flow.unwrap();
    // A failed refresh that is not about signing in is ignored.
    let p = flow.resume(&mut store, RemoteOutcome::Failed(AtRepoSyncError::Error("offline".to_string())));
    let pushed = match p {
        Progress::Call(RemoteCall::PushStats(s)) => s,
        _ => panic!("expected a statistics push"),
    };
    assert_eq!(pushed.games_played, 1);
    assert_eq!(store.stats(), Some(pushed));
    let p = flow.resume(&mut store, RemoteOutcome::Done);
    match p {
        Progress::Call(RemoteCall::CreateGame(g)) => {
            assert_eq!(g.rkey, "key1");
            assert!(g.record.sync_status.synced_with_at_repo);
        }
        _ => panic!("expected a remote create"),
    }
    assert_eq!(store.len(), 0);
    let p = flow.resume(&mut store, RemoteOutcome::Done);
    assert_eq!(finished(&p), Some(StorageResponse::Success));
    assert_eq!(store.len(), 1);
    assert!(store.games()[0].record.sync_status.synced_with_at_repo);
    assert_eq!(store.games()[0].record.created_at, "now");
}

#[test]
fn failed_stats_push_still_creates_game() {
    let mut store = LocalStore::new();
    let (_, flow) = handle_game_completed(&mut store, played(2, 12), true, "k".to_string(), "t".to_string());
    let mut flow = flow.unwrap();
    flow.resume(&mut store, RemoteOutcome::Done);
    let p = flow.resume(&mut store, RemoteOutcome::Failed(AtRepoSyncError::Error("500".to_string())));
    assert!(matches!(p, Progress::Call(RemoteCall::CreateGame(_))));
    let p = flow.resume(&mut store, RemoteOutcome::AlreadyExists);
    assert_eq!(finished(&p), Some(StorageResponse::RepoError(AtRepoSyncError::Error("500".to_string()))));
    assert!(store.games()[0].record.sync_status.synced_with_at_repo);
}

#[test]
fn failed_remote_create_leaves_game_unsynced() {
    let mut store = LocalStore::new();
    let (_, flow) = handle_game_completed(&mut store, played(4, 12), true, "k".to_string(), "t".to_string());
    let mut flow = flow.unwrap();
    flow.resume(&mut store, RemoteOutcome::Done);
    flow.resume(&mut store, RemoteOutcome::Done);
    let p = flow.resume(&mut store, RemoteOutcome::Failed(AtRepoSyncError::Error("timeout".to_string())));
    assert_eq!(finished(&p), Some(StorageResponse::RepoError(AtRepoSyncError::Error("timeout".to_string()))));
    assert_eq!(store.len(), 1);
    assert!(!store.games()[0].record.sync_status.synced_with_at_repo);
}

#[test]
fn resync_missing_record_is_an_error() {
    let store = LocalStore::new();
    let (p, flow) = remote_sync_game(&store, &"nope".to_string());
    assert_eq!(finished(&p), Some(StorageResponse::Error(StorageError::RecordNotFound)));
    assert!(flow.is_none());
}

#[test]
fn resync_when_remote_already_exists() {
    let mut store = LocalStore::new();
    handle_game_completed(&mut store, played(6, 10), false, "rk".to_string(), "t".to_string());
    let games_before = store.stats().unwrap().games_played;
    let (p, flow) = remote_sync_game(&store, &"rk".to_string());
    match &p {
        Progress::Call(RemoteCall::CreateGame(g)) => assert_eq!(g.rkey, "rk"),
        _ => panic!("expected a remote create"),
    }
    let mut flow = flow.unwrap();
    let p = flow.resume(&mut store, RemoteOutcome::AlreadyExists);
    assert!(matches!(p, Progress::Call(RemoteCall::RefreshStats)));
    assert!(store.get(&"rk".to_string()).unwrap().record.sync_status.synced_with_at_repo);
    let p = flow.resume(&mut store, RemoteOutcome::Done);
    assert!(matches!(p, Progress::Call(RemoteCall::PushStats(_))));
    assert_eq!(store.stats().unwrap().games_played, games_before + 1);
    let p = flow.resume(&mut store, RemoteOutcome::AlreadyExists);
    assert_eq!(finished(&p), Some(StorageResponse::Success));
    assert_eq!(store.len(), 1);
}

#[test]
fn resync_rebuilds_record_from_replay() {
    let rec = played(13, 20);
    let replay = replay_recording(&rec).unwrap();
    let mut stale = LocalStore::new();
    handle_game_completed(&mut stale, rec.clone(), false, "rk".to_string(), "t".to_string());
    let mut game = stale.games()[0].clone();
    game.record.current_score = 1;
    game.record.won = !replay.outcome.won;
    game.record.sync_status.synced_with_at_repo = false;
    let store = LocalStore::from_parts(vec![game], Some(client_2048::stats::PlayerStats::new())).unwrap();
    let (p, _) = remote_sync_game(&store, &"rk".to_string());
    match p {
        Progress::Call(RemoteCall::CreateGame(g)) => {
            assert_eq!(g.rkey, "rk");
            assert_eq!(g.record.seeded_recording, rec);
            assert_eq!(g.record.current_score, replay.outcome.score);
            assert_eq!(g.record.won, replay.outcome.won);
            assert_eq!(g.record.sync_status.hash, replay.hash);
            assert!(g.record.sync_status.synced_with_at_repo);
        }
        _ => panic!("expected a remote create"),
    }
}

#[test]
fn resync_of_unreplayable_record_is_rejected() {
    let mut store = LocalStore::new();
    handle_game_completed(&mut store, played(14, 5), false, "rk".to_string(), "t".to_string());
    let mut game = store.games()[0].clone();
    game.record.seeded_recording = "not a game".to_string();
    let store = LocalStore::from_parts(vec![game], None).unwrap();
    let (p, flow) = remote_sync_game(&store, &"rk".to_string());
    assert!(matches!(finished(&p), Some(StorageResponse::Error(StorageError::InvalidRecording(_)))));
    assert!(flow.is_none());
}

#[test]
fn completion_refuses_a_key_in_use() {
    let mut store = LocalStore::new();
    handle_game_completed(&mut store, played(15, 5), false, "same".to_string(), "t".to_string());
    let before = store.games().clone();
    let (p, flow) = handle_game_completed(&mut store, played(16, 7), false, "same".to_string(), "t".to_string());
    assert_eq!(finished(&p), Some(StorageResponse::Error(StorageError::KeyInUse)));
    assert!(flow.is_none());
    assert_eq!(store.games(), &before);
    assert_eq!(store.stats().unwrap().games_played, 1);
}

#[test]
fn resync_created_then_pushes_stats() {
    let mut store = LocalStore::new();
    handle_game_completed(&mut store, played(8, 10), false, "rk".to_string(), "t".to_string());
    let (_, flow) = remote_sync_game(&store, &"rk".to_string());
    let mut flow = flow.unwrap();
    let p = flow.resume(&mut store, RemoteOutcome::Done);
    assert!(matches!(p, Progress::Call(RemoteCall::RefreshStats)));
    assert!(store.games()[0].record.sync_status.synced_with_at_repo);
    let p = flow.resume(&mut store, RemoteOutcome::Done);
    assert!(matches!(p, Progress::Call(RemoteCall::PushStats(_))));
    assert_eq!(store.stats().unwrap().games_played, 2);
    let p = flow.resume(&mut store, RemoteOutcome::Done);
    assert_eq!(finished(&p), Some(StorageResponse::Success));
}

#[test]
fn resync_relogin_stops_remote_writes() {
    let mut store = LocalStore::new();
    handle_game_completed(&mut store, played(12, 10), false, "rk".to_string(), "t".to_string());
    let (_, flow) = remote_sync_game(&store, &"rk".to_string());
    let mut flow = flow.unwrap();
    let before = store.games().clone();
    let p = flow.resume(&mut store, RemoteOutcome::Failed(AtRepoSyncError::AuthErrorNeedToReLogin));
    assert_eq!(finished(&p), Some(StorageResponse::RepoError(AtRepoSyncError::AuthErrorNeedToReLogin)));
    assert!(!flow.is_waiting());
    assert_eq!(store.games(), &before);
}

#[test]
fn request_without_account_cannot_resync() {
    let mut store = LocalStore::new();
    let (p, flow) = StorageTask(&mut store, StorageRequest::TryToSyncRemotely("rk".to_string(), None));
    assert!(matches!(finished(&p), Some(StorageResponse::RepoError(AtRepoSyncError::Error(_)))));
    assert!(flow.is_none());
}

#[test]
fn request_completes_game_under_fresh_key() {
    let mut store = LocalStore::new();
    let (p, _) = StorageTask(&mut store, StorageRequest::GameCompleted(played(1, 8), None));
    assert_eq!(finished(&p), Some(StorageResponse::Success));
    assert_eq!(store.len(), 1);
    assert_eq!(store.games()[0].rkey.len(), 13);
    assert!(!store.games()[0].record.created_at.is_empty());
}
