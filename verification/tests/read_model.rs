use wallet::read_model::Network;
use wallet::read_model::StatsSnapshot;
use wallet::read_model::Timeframe;
use wallet::read_model::LEADERBOARD_LIMIT;

#[test]
fn missing_statistics_are_zero() {
    let stats = StatsSnapshot::or_zeroed(None, 12, Network::Solana);
    assert_eq!(
        stats,
        StatsSnapshot { account_id: 12, network: Network::Solana, total_matches: 0, total_profit: 0 }
    );
}

#[test]
fn found_statistics_are_handed_on() {
    let found =
        StatsSnapshot { account_id: 3, network: Network::Solana, total_matches: 9, total_profit: -40 };
    assert_eq!(StatsSnapshot::or_zeroed(Some(found), 12, Network::Arbitrum), found);
}

#[test]
fn a_leaderboard_has_two_windows() {
    assert_eq!(Timeframe::parse("24h"), Some(Timeframe::Day));
    assert_eq!(Timeframe::parse("all"), Some(Timeframe::AllTime));
    assert_eq!(Timeframe::parse("7d"), None);
    assert_eq!(Timeframe::parse(""), None);
    assert_eq!(Timeframe::parse("ALL"), None);
    assert_eq!(Timeframe::parse("24h "), None);
    assert_eq!(LEADERBOARD_LIMIT, 100);
}

#[test]
fn networks_have_codes() {
    assert_eq!(Network::Solana.code(), "SOLANA");
    assert_eq!(Network::Arbitrum.code(), "ARBITRUM");
    assert_eq!(Network::from_code("SOLANA"), Some(Network::Solana));
    assert_eq!(Network::from_code("ARBITRUM"), Some(Network::Arbitrum));
    assert_eq!(Network::from_code("solana"), None);
}
