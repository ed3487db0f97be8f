use ttt::stats::decimal;
use ttt::{GameResult, Player, Stats};

#[test]
fn new_tally_is_all_zero() {
    let stats = Stats::new();
    assert_eq!(stats, Stats { oh_wins: 0, ex_wins: 0, draws: 0, total: 0 });
}

#[test]
fn each_result_is_counted_once() {
    let mut stats = Stats::new();
    stats.record(GameResult::Win(Player::Ex));
    assert_eq!(stats, Stats { oh_wins: 0, ex_wins: 1, draws: 0, total: 1 });
    stats.record(GameResult::Win(Player::Oh));
    assert_eq!(stats, Stats { oh_wins: 1, ex_wins: 1, draws: 0, total: 2 });
    stats.record(GameResult::Draw);
    assert_eq!(stats, Stats { oh_wins: 1, ex_wins: 1, draws: 1, total: 3 });
    stats.record(GameResult::Win(Player::Ex));
    assert_eq!(stats, Stats { oh_wins: 1, ex_wins: 2, draws: 1, total: 4 });
}

#[test]
fn tally_adds_up() {
    let mut stats = Stats::new();
    let results = [
        GameResult::Draw,
        GameResult::Win(Player::Oh),
        GameResult::Win(Player::Oh),
        GameResult::Win(Player::Ex),
        GameResult::Draw,
    ];
    for result in results {
        stats.record(result);
        assert_eq!(stats.total, stats.oh_wins + stats.ex_wins + stats.draws);
    }
    assert_eq!(stats.total, 5);
    assert_eq!(stats.oh_wins, 2);
    assert_eq!(stats.ex_wins, 1);
    assert_eq!(stats.draws, 2);
}

#[test]
fn numbers_are_written_in_decimal() {
    assert_eq!(decimal(0), "0");
    assert_eq!(decimal(7), "7");
    assert_eq!(decimal(10), "10");
    assert_eq!(decimal(1234567890), "1234567890");
    assert_eq!(decimal(-5), "-5");
    assert_eq!(decimal(-120), "-120");
    assert_eq!(decimal(i32::MAX), "2147483647");
    assert_eq!(decimal(i32::MIN), "-2147483648");
    for n in [-1001, -100, -99, -10, -9, -1, 1, 9, 11, 99, 100, 101, 1000, 999999, 1000000] {
        assert_eq!(decimal(n), n.to_string());
    }
}

#[test]
fn report_lists_games_wins_and_draws() {
    assert_eq!(
        Stats::new().report(),
        "Games: 0\nX wins: 0\nO wins: 0\nDraws: 0"
    );
    let stats = Stats { oh_wins: 288, ex_wins: 585, draws: 127, total: 1000 };
    assert_eq!(
        stats.report(),
        "Games: 1000\nX wins: 585\nO wins: 288\nDraws: 127"
    );
    assert_eq!(
        stats.report(),
        format!(
            "Games: {}\nX wins: {}\nO wins: {}\nDraws: {}",
            stats.total, stats.ex_wins, stats.oh_wins, stats.draws
        )
    );
}

#[test]
fn a_million_games_are_tallied_without_loss() {
    let mut stats = Stats::new();
    for i in 0..1_000_000 {
        let result = match i % 4 {
            0 => GameResult::Win(Player::Ex),
            1 => GameResult::Win(Player::Oh),
            2 => GameResult::Draw,
            _ => GameResult::Win(Player::Ex),
        };
        stats.record(result);
    }
    assert_eq!(stats, Stats { oh_wins: 250_000, ex_wins: 500_000, draws: 250_000, total: 1_000_000 });
}

#[test]
fn a_tally_has_room_until_it_is_full_or_wrong() {
    assert!(Stats::new().can_record());
    assert!(Stats { oh_wins: 1, ex_wins: 2, draws: 3, total: 6 }.can_record());
    assert!(!Stats { oh_wins: 1, ex_wins: 2, draws: 3, total: 7 }.can_record());
    assert!(!Stats { oh_wins: -1, ex_wins: 2, draws: 3, total: 4 }.can_record());
    assert!(!Stats { oh_wins: 0, ex_wins: i32::MAX, draws: 0, total: i32::MAX }.can_record());
    assert!(Stats { oh_wins: 0, ex_wins: i32::MAX - 1, draws: 0, total: i32::MAX - 1 }.can_record());
    assert!(!Stats { oh_wins: i32::MAX, ex_wins: i32::MAX, draws: 2, total: 0 }.can_record());
    let mut last = Stats { oh_wins: 0, ex_wins: 0, draws: i32::MAX - 1, total: i32::MAX - 1 };
    last.record(GameResult::Draw);
    assert_eq!(last, Stats { oh_wins: 0, ex_wins: 0, draws: i32::MAX, total: i32::MAX });
    assert!(!last.can_record());
}
