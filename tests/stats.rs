use client_2048::replay::Tile;
use client_2048::stats::{
    highest_tile, merge_game_into_stats, scan_milestones, PlayerStats, StatsError,
};

fn cell(id: u64, value: u64) -> Option<Tile> {
    Some(Tile { id, value })
}

fn merge(stats: PlayerStats, score: u64, history: &Vec<Vec<Option<Tile>>>) -> PlayerStats {
    merge_game_into_stats(Some(stats), score, history).unwrap()
}

#[test]
fn average_after_three_games() {
    let empty: Vec<Vec<Option<Tile>>> = vec![];
    let mut stats = PlayerStats::new();
    for score in [100u64, 300, 650] {
        stats = merge(stats, score, &empty);
    }
    assert_eq!(stats.total_score, 1050);
    assert_eq!(stats.games_played, 3);
    assert_eq!(stats.average_score, 350);
}

#[test]
fn average_truncates() {
    let empty: Vec<Vec<Option<Tile>>> = vec![];
    let stats = merge(merge(PlayerStats::new(), 10, &empty), 5, &empty);
    assert_eq!(stats.total_score, 15);
    assert_eq!(stats.average_score, 7);
}

#[test]
fn highest_values_are_best_single_game() {
    let games: Vec<(u64, Vec<Vec<Option<Tile>>>)> = vec![
        (120, vec![vec![cell(1, 2), cell(2, 4)], vec![cell(1, 8), None]]),
        (900, vec![vec![cell(3, 64), cell(4, 0)]]),
        (450, vec![vec![cell(5, 128)], vec![cell(5, 32)]]),
    ];
    let mut stats = PlayerStats::new();
    for (score, history) in &games {
        stats = merge(stats, *score, history);
    }
    assert_eq!(stats.highest_score, 900);
    assert_eq!(stats.highest_number_block, 128);
    assert_eq!(stats.games_played, 3);
}

#[test]
fn highest_tile_looks_at_every_board() {
    // The largest tile appears only on an early board.
    let history = vec![vec![cell(1, 2)], vec![cell(1, 512), None], vec![cell(2, 4), cell(3, 0)]];
    assert_eq!(highest_tile(&history), 512);
    let stats = merge(PlayerStats::new(), 40, &history);
    assert_eq!(stats.highest_number_block, 512);
}

#[test]
fn highest_values_never_drop() {
    let mut stats = PlayerStats::new();
    stats.highest_score = 5000;
    stats.highest_number_block = 1024;
    let stats = merge(stats, 20, &vec![vec![cell(1, 16)]]);
    assert_eq!(stats.highest_score, 5000);
    assert_eq!(stats.highest_number_block, 1024);
}

#[test]
fn two_milestone_tiles_count_twice() {
    let history = vec![
        vec![cell(1, 1024), cell(2, 1024), None],
        vec![cell(7, 2048), cell(2, 1024), None],
        vec![cell(7, 2048), cell(9, 2048), None],
        vec![cell(7, 2048), cell(9, 2048), cell(3, 2)],
    ];
    let (ids, first) = scan_milestones(&history);
    assert_eq!(ids, vec![7, 9]);
    assert_eq!(first, Some(1));
    let stats = merge(PlayerStats::new(), 20000, &history);
    assert_eq!(stats.times_twenty_forty_eight_been_found, 2);
    assert_eq!(stats.least_moves_to_find_twenty_forty_eight, 2);
    assert_eq!(stats.highest_number_block, 2048);
}

#[test]
fn milestone_record_keeps_the_fewest() {
    let history = vec![vec![None], vec![None], vec![cell(4, 2048)]];
    let mut better = PlayerStats::new();
    better.least_moves_to_find_twenty_forty_eight = 2;
    better.times_twenty_forty_eight_been_found = 1;
    let kept = merge(better, 1, &history);
    assert_eq!(kept.least_moves_to_find_twenty_forty_eight, 2);
    assert_eq!(kept.times_twenty_forty_eight_been_found, 2);
    let mut worse = PlayerStats::new();
    worse.least_moves_to_find_twenty_forty_eight = 10;
    assert_eq!(merge(worse, 1, &history).least_moves_to_find_twenty_forty_eight, 3);
}

#[test]
fn same_milestone_tile_counts_once() {
    let history = vec![vec![cell(5, 2048)], vec![cell(5, 2048)], vec![None, cell(5, 2048)]];
    let stats = merge(PlayerStats::new(), 1, &history);
    assert_eq!(stats.times_twenty_forty_eight_been_found, 1);
    assert_eq!(stats.least_moves_to_find_twenty_forty_eight, 1);
}

#[test]
fn no_milestone_keeps_counters() {
    let stats = merge(PlayerStats::new(), 8, &vec![vec![cell(1, 4096)]]);
    assert_eq!(stats.times_twenty_forty_eight_been_found, 0);
    assert_eq!(stats.least_moves_to_find_twenty_forty_eight, u64::MAX);
    assert_eq!(stats.highest_number_block, 4096);
}

#[test]
fn fewest_moves_is_the_minimum() {
    let history = vec![vec![None], vec![cell(4, 2048)]];
    assert_eq!(PlayerStats::new().least_moves_to_find_twenty_forty_eight, u64::MAX);
    let mut zero = PlayerStats::new();
    zero.least_moves_to_find_twenty_forty_eight = 0;
    assert_eq!(merge(zero, 1, &history).least_moves_to_find_twenty_forty_eight, 0);
    let mut equal = PlayerStats::new();
    equal.least_moves_to_find_twenty_forty_eight = 2;
    assert_eq!(merge(equal, 1, &history).least_moves_to_find_twenty_forty_eight, 2);
}

#[test]
fn missing_stats_is_an_error() {
    let r = merge_game_into_stats(None, 10, &vec![]);
    assert_eq!(r, Err(StatsError::MissingStats));
}

#[test]
fn counter_overflow_is_an_error() {
    let mut stats = PlayerStats::new();
    stats.total_score = u64::MAX - 5;
    stats.games_played = 1;
    assert_eq!(merge_game_into_stats(Some(stats), 6, &vec![]), Err(StatsError::CounterOverflow));
    assert!(merge_game_into_stats(Some(stats), 5, &vec![]).is_ok());
    let mut full = PlayerStats::new();
    full.games_played = u64::MAX;
    assert_eq!(merge_game_into_stats(Some(full), 0, &vec![]), Err(StatsError::CounterOverflow));
}
