use client_2048::stats::PlayerStats;
use client_2048::store::{GameRecord, LocalStore, StoredGame, SyncStatusData};

fn game(key: &str, hash: &str, score: u64) -> StoredGame {
    StoredGame {
        rkey: key.to_string(),
        record: GameRecord {
            seeded_recording: format!("recording {}", key),
            completed: true,
            won: false,
            current_score: score,
            created_at: "2025-01-01T00:00:00.000000Z".to_string(),
            sync_status: SyncStatusData {
                created_at: "2025-01-01T00:00:00.000000Z".to_string(),
                hash: hash.to_string(),
                synced_with_at_repo: false,
                updated_at: "2025-01-01T00:00:00.000000Z".to_string(),
            },
        },
    }
}

#[test]
fn new_store_has_fresh_stats() {
    let store = LocalStore::new();
    assert_eq!(store.len(), 0);
    assert_eq!(store.stats(), Some(PlayerStats::new()));
}

#[test]
fn put_appends_and_replaces_by_key() {
    let mut store = LocalStore::new();
    store.put(game("a", "h1", 1));
    store.put(game("b", "h2", 2));
    assert_eq!(store.len(), 2);
    store.put(game("a", "h3", 3));
    assert_eq!(store.len(), 2);
    assert_eq!(store.games()[0], game("a", "h3", 3));
    assert_eq!(store.get(&"a".to_string()), Some(game("a", "h3", 3)));
    assert_eq!(store.get(&"c".to_string()), None);
}

#[test]
fn lookup_by_hash() {
    let mut store = LocalStore::new();
    store.put(game("a", "h1", 1));
    store.put(game("b", "h2", 2));
    assert_eq!(store.get_by_hash(&"h2".to_string()), Some(game("b", "h2", 2)));
    assert_eq!(store.get_by_hash(&"zz".to_string()), None);
}

#[test]
fn pages_in_insertion_order() {
    let mut store = LocalStore::new();
    for i in 0..25u64 {
        store.put(game(&format!("k{}", i), &format!("h{}", i), i));
    }
    let first = store.page(10, 0);
    assert_eq!(first.len(), 10);
    assert_eq!(first[0].rkey, "k0");
    let last = store.page(10, 20);
    assert_eq!(last.len(), 5);
    assert_eq!(last[4].rkey, "k24");
    assert!(store.page(10, 30).is_empty());
    assert!(store.page(0, 3).is_empty());
}

#[test]
fn from_parts_rejects_duplicate_keys() {
    assert!(LocalStore::from_parts(vec![game("a", "h1", 1), game("a", "h2", 2)], None).is_none());
    let store = LocalStore::from_parts(vec![game("a", "h1", 1), game("b", "h2", 2)], None).unwrap();
    assert_eq!(store.len(), 2);
    assert_eq!(store.stats(), None);
}
