use client_2048::history::{game_source, get_local_games, GameSource, PaginationOptions, TabState};
use client_2048::messages::AtRepoSyncError;
use client_2048::store::{GameRecord, LocalStore, StoredGame, SyncStatusData};

fn entry(i: u32) -> StoredGame {
    StoredGame {
        rkey: format!("key{}", i),
        record: GameRecord {
            seeded_recording: String::new(),
            completed: false,
            won: false,
            current_score: i as u64,
            created_at: String::new(),
            sync_status: SyncStatusData {
                created_at: String::new(),
                hash: format!("hash{}", i),
                synced_with_at_repo: false,
                updated_at: String::new(),
            },
        },
    }
}

#[test]
fn tab_labels_round_trip() {
    assert_eq!(TabState::default(), TabState::Local);
    for tab in [TabState::Local, TabState::Remote, TabState::Both] {
        assert_eq!(TabState::from_label(&tab.label()), tab);
    }
    assert_eq!(TabState::Remote.label(), "Remote");
    assert_eq!(TabState::from_label("Elsewhere"), TabState::Local);
}

#[test]
fn pagination_defaults_and_next_page() {
    let first = PaginationOptions::default();
    assert_eq!(first.count, 10);
    assert_eq!(first.skip, 0);
    assert_eq!(first.at_proto_cursor, None);
    assert!(!first.fully_loaded);
    let loaded = first.after_load(10, Some("c1".to_string()));
    assert!(!loaded.fully_loaded);
    let next = loaded.next_page();
    assert_eq!(next.skip, 10);
    assert_eq!(next.at_proto_cursor, Some("c1".to_string()));
    let done = next.after_load(3, None);
    assert!(done.fully_loaded);
    assert_eq!(done.skip, 10);
}

#[test]
fn sources_of_each_tab() {
    let opts = PaginationOptions::default().after_load(10, Some("cur".to_string()));
    assert_eq!(
        game_source(TabState::Local, &opts, None),
        Ok(GameSource::Local { count: 10, skip: 0 })
    );
    assert_eq!(
        game_source(TabState::Remote, &opts, Some("did:plc:abc".to_string())),
        Ok(GameSource::Remote {
            account: "did:plc:abc".to_string(),
            cursor: Some("cur".to_string()),
            limit: 10
        })
    );
    assert_eq!(
        game_source(TabState::Remote, &opts, None),
        Err(AtRepoSyncError::AuthErrorNeedToReLogin)
    );
}

#[test]
fn local_games_by_page() {
    let mut store = LocalStore::new();
    for i in 0..13 {
        store.put(entry(i));
    }
    let first = get_local_games(&store, &PaginationOptions::default());
    assert_eq!(first.len(), 10);
    assert_eq!(first[9], entry(9));
    let second = get_local_games(&store, &PaginationOptions::default().next_page());
    assert_eq!(second, vec![entry(10), entry(11), entry(12)]);
}
