//! Values of the read side: statistics of an account and the windows a
//! leaderboard can be asked for. Nothing here changes the ledger.

use vstd::prelude::*;

verus! {

/// Number of rows a leaderboard shows.
pub const LEADERBOARD_LIMIT: i64 = 100;

/// Settlement network that matches are played on.
#[derive(Clone, Copy, Debug, PartialEq, Eq, Structural)]
pub enum Network {
    Solana,
    Arbitrum,
}

impl Network {
    /// The code of the network.
    pub open spec fn code_text(self) -> Seq<char> {
        match self {
            Network::Solana => "SOLANA"@,
            Network::Arbitrum => "ARBITRUM"@,
        }
    }

    /// The network that `text` is the code of.
    pub open spec fn named(text: Seq<char>) -> Option<Network> {
        if text == "SOLANA"@ {
            Some(Network::Solana)
        } else if text == "ARBITRUM"@ {
            Some(Network::Arbitrum)
        } else {
            None
        }
    }

    /// The code as stored and sent.
    pub fn code(&self) -> (code: &'static str)
        ensures
            code@ == self.code_text(),
    {
        match self {
            Network::Solana => "SOLANA",
            Network::Arbitrum => "ARBITRUM",
        }
    }

    /// Reads a code. `None` for a text that is no code.
    pub fn from_code(text: &str) -> (read: Option<Network>)
        ensures
            read == Network::named(text@),
    {
        let given = text.to_owned();
        if given == "SOLANA".to_owned() {
            Some(Network::Solana)
        } else if given == "ARBITRUM".to_owned() {
            Some(Network::Arbitrum)
        } else {
            None
        }
    }

    /// Every code names the value it was written for.
    pub proof fn law_code_names_itself(self)
        ensures
            Network::named(self.code_text()) == Some(self),
    {
        reveal_strlit("SOLANA");
        reveal_strlit("ARBITRUM");
        assert("SOLANA"@[0] == 'S');
        assert("ARBITRUM"@[0] == 'A');
    }
}

/// What an account has played and won on one network. The profit is in the
/// minor unit of the network's currency and may be a loss.
#[derive(Clone, Copy, Debug, PartialEq, Eq, Structural)]
pub struct StatsSnapshot {
    pub account_id: u64,
    pub network: Network,
    pub total_matches: u64,
    pub total_profit: i64,
}

impl StatsSnapshot {
    /// The statistics of an account that has not played on `network`.
    pub open spec fn zeroed(account_id: u64, network: Network) -> StatsSnapshot {
        StatsSnapshot { account_id, network, total_matches: 0, total_profit: 0 }
    }

    /// The snapshot that was found, or, where there is none, the zeroed
    /// statistics of the account on `network`.
    pub fn or_zeroed(found: Option<StatsSnapshot>, account_id: u64, network: Network) -> (stats:
        StatsSnapshot)
        ensures
            found is Some ==> stats == found.unwrap(),
            found is None ==> stats == StatsSnapshot::zeroed(account_id, network),
    {
        match found {
            Some(stats) => stats,
            None => StatsSnapshot { account_id, network, total_matches: 0, total_profit: 0 },
        }
    }
}

/// Window of a leaderboard.
#[derive(Clone, Copy, Debug, PartialEq, Eq, Structural)]
pub enum Timeframe {
    /// The last twenty-four hours.
    Day,
    /// Since the first match.
    AllTime,
}

impl Timeframe {
    /// The window that `text` names: `24h` or `all`.
    pub open spec fn named(text: Seq<char>) -> Option<Timeframe> {
        if text == "24h"@ {
            Some(Timeframe::Day)
        } else if text == "all"@ {
            Some(Timeframe::AllTime)
        } else {
            None
        }
    }

    /// Reads a window from a request. `None` for any text but `24h` and
    /// `all`.
    pub fn parse(text: &str) -> (window: Option<Timeframe>)
        ensures
            window == Timeframe::named(text@),
    {
        let given = text.to_owned();
        if given == "24h".to_owned() {
            Some(Timeframe::Day)
        } else if given == "all".to_owned() {
            Some(Timeframe::AllTime)
        } else {
            None
        }
    }
}

} // verus!
