//! Rows of the ledger and the values exchanged with its callers.

use vstd::prelude::*;

verus! {

/// Minor units (lamports) in one SOL.
pub const LAMPORTS_PER_SOL: u64 = 1_000_000_000;

/// Currency of a wallet or of a ledger entry.
#[derive(Clone, Copy, Debug, PartialEq, Eq, Structural)]
pub enum Currency {
    Sol,
    Eth,
}

impl Currency {
    /// The currency in which every account gets its first wallet.
    pub open spec fn base() -> Currency {
        Currency::Sol
    }

    /// The code of the currency.
    pub open spec fn code_text(self) -> Seq<char> {
        match self {
            Currency::Sol => "SOL"@,
            Currency::Eth => "ETH"@,
        }
    }

    /// The currency that `text` is the code of.
    pub open spec fn named(text: Seq<char>) -> Option<Currency> {
        if text == "SOL"@ {
            Some(Currency::Sol)
        } else if text == "ETH"@ {
            Some(Currency::Eth)
        } else {
            None
        }
    }

    /// The code as stored and sent.
    pub fn code(&self) -> (code: &'static str)
        ensures
            code@ == self.code_text(),
    {
        match self {
            Currency::Sol => "SOL",
            Currency::Eth => "ETH",
        }
    }

    /// Reads a code. `None` for a text that is no code.
    pub fn from_code(text: &str) -> (read: Option<Currency>)
        ensures
            read == Currency::named(text@),
    {
        let given = text.to_owned();
        if given == "SOL".to_owned() {
            Some(Currency::Sol)
        } else if given == "ETH".to_owned() {
            Some(Currency::Eth)
        } else {
            None
        }
    }

    /// Every code names the value it was written for.
    pub proof fn law_code_names_itself(self)
        ensures
            Currency::named(self.code_text()) == Some(self),
    {
        reveal_strlit("SOL");
        reveal_strlit("ETH");
        assert("SOL"@[0] == 'S');
        assert("ETH"@[0] == 'E');
    }

    /// Executable form of [`Currency::base`].
    pub fn base_currency() -> (c: Currency)
        ensures
            c == Currency::base(),
    {
        Currency::Sol
    }
}

/// How the funds of a wallet reach it.
#[derive(Clone, Copy, Debug, PartialEq, Eq, Structural)]
pub enum WalletKind {
    /// The deposit address was generated by the custodian.
    Custodial,
    /// The wallet is funded from an address the user controls.
    External,
}

impl WalletKind {
    /// The code of the kind.
    pub open spec fn code_text(self) -> Seq<char> {
        match self {
            WalletKind::Custodial => "PDA"@,
            WalletKind::External => "DIRECT"@,
        }
    }

    /// The kind that `text` is the code of.
    pub open spec fn named(text: Seq<char>) -> Option<WalletKind> {
        if text == "PDA"@ {
            Some(WalletKind::Custodial)
        } else if text == "DIRECT"@ {
            Some(WalletKind::External)
        } else {
            None
        }
    }

    /// The code as stored and sent.
    pub fn code(&self) -> (code: &'static str)
        ensures
            code@ == self.code_text(),
    {
        match self {
            WalletKind::Custodial => "PDA",
            WalletKind::External => "DIRECT",
        }
    }

    /// Reads a code. `None` for a text that is no code.
    pub fn from_code(text: &str) -> (read: Option<WalletKind>)
        ensures
            read == WalletKind::named(text@),
    {
        let given = text.to_owned();
        if given == "PDA".to_owned() {
            Some(WalletKind::Custodial)
        } else if given == "DIRECT".to_owned() {
            Some(WalletKind::External)
        } else {
            None
        }
    }

    /// Every code names the value it was written for.
    pub proof fn law_code_names_itself(self)
        ensures
            WalletKind::named(self.code_text()) == Some(self),
    {
        reveal_strlit("PDA");
        reveal_strlit("DIRECT");
        assert("PDA"@[0] == 'P');
        assert("DIRECT"@[0] == 'D');
    }
}

/// Direction of a ledger entry.
#[derive(Clone, Copy, Debug, PartialEq, Eq, Structural)]
pub enum Direction {
    Deposit,
    Withdrawal,
}

impl Direction {
    /// The code of the direction.
    pub open spec fn code_text(self) -> Seq<char> {
        match self {
            Direction::Deposit => "DEPOSIT"@,
            Direction::Withdrawal => "WITHDRAWAL"@,
        }
    }

    /// The direction that `text` is the code of.
    pub open spec fn named(text: Seq<char>) -> Option<Direction> {
        if text == "DEPOSIT"@ {
            Some(Direction::Deposit)
        } else if text == "WITHDRAWAL"@ {
            Some(Direction::Withdrawal)
        } else {
            None
        }
    }

    /// The code as stored and sent.
    pub fn code(&self) -> (code: &'static str)
        ensures
            code@ == self.code_text(),
    {
        match self {
            Direction::Deposit => "DEPOSIT",
            Direction::Withdrawal => "WITHDRAWAL",
        }
    }

    /// Reads a code. `None` for a text that is no code.
    pub fn from_code(text: &str) -> (read: Option<Direction>)
        ensures
            read == Direction::named(text@),
    {
        let given = text.to_owned();
        if given == "DEPOSIT".to_owned() {
            Some(Direction::Deposit)
        } else if given == "WITHDRAWAL".to_owned() {
            Some(Direction::Withdrawal)
        } else {
            None
        }
    }

    /// Every code names the value it was written for.
    pub proof fn law_code_names_itself(self)
        ensures
            Direction::named(self.code_text()) == Some(self),
    {
        reveal_strlit("DEPOSIT");
        reveal_strlit("WITHDRAWAL");
        assert("DEPOSIT"@[0] == 'D');
        assert("WITHDRAWAL"@[0] == 'W');
    }
}

/// Why an operation did not complete.
#[derive(Clone, Copy, Debug, PartialEq, Eq, Structural)]
pub enum LedgerError {
    /// No wallet exists for the account and currency.
    WalletNotFound,
    /// No withdrawal with that identifier was ever begun.
    WithdrawalNotFound,
    /// The wallet holds less than the amount asked for.
    InsufficientBalance,
    /// The wallet's funds would exceed what a balance can represent.
    BalanceOverflow,
    /// The settlement gateway produced no usable deposit address.
    SettlementUnavailable,
    /// The outbound transfer failed cleanly; nothing left custody.
    SettlementTransferFailed,
    /// The outcome of the outbound transfer is not known.
    SettlementAmbiguous,
}

impl LedgerError {
    /// The reason code as a sequence of characters.
    pub open spec fn reason_text(self) -> Seq<char> {
        match self {
            LedgerError::WalletNotFound => "wallet_not_found"@,
            LedgerError::WithdrawalNotFound => "withdrawal_not_found"@,
            LedgerError::InsufficientBalance => "insufficient_balance"@,
            LedgerError::BalanceOverflow => "balance_overflow"@,
            LedgerError::SettlementUnavailable => "settlement_unavailable"@,
            LedgerError::SettlementTransferFailed => "settlement_transfer_failed"@,
            LedgerError::SettlementAmbiguous => "settlement_ambiguous"@,
        }
    }

    /// Whether the caller, rather than the system, is at fault.
    pub open spec fn caused_by_caller(self) -> bool {
        self == LedgerError::InsufficientBalance
    }

    /// Reason code reported to clients.
    pub fn reason(&self) -> (code: &'static str)
        ensures
            code@ == self.reason_text(),
    {
        match self {
            LedgerError::WalletNotFound => "wallet_not_found",
            LedgerError::WithdrawalNotFound => "withdrawal_not_found",
            LedgerError::InsufficientBalance => "insufficient_balance",
            LedgerError::BalanceOverflow => "balance_overflow",
            LedgerError::SettlementUnavailable => "settlement_unavailable",
            LedgerError::SettlementTransferFailed => "settlement_transfer_failed",
            LedgerError::SettlementAmbiguous => "settlement_ambiguous",
        }
    }

    /// True for failures that are the caller's to correct; every other
    /// failure is reported as a server fault.
    pub fn is_user_error(&self) -> (user: bool)
        ensures
            user == self.caused_by_caller(),
    {
        match self {
            LedgerError::InsufficientBalance => true,
            _ => false,
        }
    }
}

/// Balance row of one account in one currency.
///
/// `balance` is what the owner may spend. `reserved` is what has been taken
/// out of `balance` for withdrawals whose outcome is not yet recorded; it
/// still belongs to the wallet until the transfer is known to have happened.
#[derive(Clone, Copy, Debug, PartialEq, Eq, Structural)]
pub struct Wallet {
    pub account_id: u64,
    pub currency: Currency,
    pub balance: u64,
    pub reserved: u64,
    pub kind: WalletKind,
    pub updated_at: u64,
}

/// A [`Wallet`] as contracts see it: its amounts are mathematical integers.
pub struct WalletView {
    pub account_id: int,
    pub currency: Currency,
    pub balance: int,
    pub reserved: int,
    pub kind: WalletKind,
    pub updated_at: u64,
}

impl WalletView {
    /// Everything the wallet holds: spendable and reserved funds together.
    pub open spec fn total(self) -> int {
        self.balance + self.reserved
    }

    /// Whether the amounts are ones a stored row can hold.
    pub open spec fn representable(self) -> bool {
        &&& 0 <= self.balance
        &&& 0 <= self.reserved
        &&& self.total() <= u64::MAX
    }

    /// The wallet an account starts with.
    pub open spec fn fresh(account_id: int, now: u64) -> WalletView {
        WalletView {
            account_id,
            currency: Currency::base(),
            balance: 0,
            reserved: 0,
            kind: WalletKind::Custodial,
            updated_at: now,
        }
    }

    /// The wallet after `amount` was added to its balance.
    pub open spec fn credited(self, amount: u64, now: u64) -> WalletView {
        WalletView { balance: self.balance + amount, updated_at: now, ..self }
    }

    /// The wallet after `amount` was moved from its balance into reserve.
    pub open spec fn held(self, amount: u64, now: u64) -> WalletView {
        WalletView {
            balance: self.balance - amount,
            reserved: self.reserved + amount,
            updated_at: now,
            ..self
        }
    }

    /// The wallet after reserved funds have left custody.
    pub open spec fn settled(self, amount: u64, now: u64) -> WalletView {
        WalletView { reserved: self.reserved - amount, updated_at: now, ..self }
    }

    /// The wallet after reserved funds were handed back to the balance.
    pub open spec fn released(self, amount: u64, now: u64) -> WalletView {
        WalletView {
            balance: self.balance + amount,
            reserved: self.reserved - amount,
            updated_at: now,
            ..self
        }
    }
}

/// The answer of an operation that hands out a wallet, as contracts see it.
pub type WalletAnswer = Result<WalletView, LedgerError>;

impl View for Wallet {
    type V = WalletView;

    open spec fn view(&self) -> WalletView {
        WalletView {
            account_id: self.account_id as int,
            currency: self.currency,
            balance: self.balance as int,
            reserved: self.reserved as int,
            kind: self.kind,
            updated_at: self.updated_at,
        }
    }
}

impl Wallet {
    /// Creates the empty base-currency wallet of a new account.
    pub fn open(account_id: u64, now: u64) -> (w: Wallet)
        ensures
            w@ == WalletView::fresh(account_id as int, now),
    {
        Wallet {
            account_id,
            currency: Currency::Sol,
            balance: 0,
            reserved: 0,
            kind: WalletKind::Custodial,
            updated_at: now,
        }
    }

    /// Adds a deposit of `amount`. Fails, leaving nothing to write, exactly
    /// when the wallet's total would no longer fit in a balance.
    pub fn credit(&self, amount: u64, now: u64) -> (r: Result<Wallet, LedgerError>)
        ensures
            self@.total() + amount > u64::MAX ==> r == Err::<Wallet, LedgerError>(
                LedgerError::BalanceOverflow,
            ),
            self@.total() + amount <= u64::MAX ==> r.is_ok() && r.unwrap()@ == self@.credited(
                amount,
                now,
            ),
    {
        let above_balance: u64 = u64::MAX - self.balance;
        if self.reserved > above_balance || amount > above_balance - self.reserved {
            return Err(LedgerError::BalanceOverflow);
        }
        Ok(Wallet { balance: self.balance + amount, updated_at: now, ..*self })
    }

    /// Takes `amount` out of the balance and keeps it in reserve for an
    /// outbound transfer. Fails with `InsufficientBalance` exactly when the
    /// balance is smaller than `amount`, and otherwise with `BalanceOverflow`
    /// exactly when the reserve cannot take it.
    pub fn reserve(&self, amount: u64, now: u64) -> (r: Result<Wallet, LedgerError>)
        ensures
            amount > self.balance ==> r == Err::<Wallet, LedgerError>(
                LedgerError::InsufficientBalance,
            ),
            amount <= self.balance && self.reserved + amount > u64::MAX ==> r == Err::<
                Wallet,
                LedgerError,
            >(LedgerError::BalanceOverflow),
            amount <= self.balance && self.reserved + amount <= u64::MAX ==> r.is_ok()
                && r.unwrap()@ == self@.held(amount, now),
    {
        if amount > self.balance {
            return Err(LedgerError::InsufficientBalance);
        }
        if amount > u64::MAX - self.reserved {
            return Err(LedgerError::BalanceOverflow);
        }
        Ok(
            Wallet {
                balance: self.balance - amount,
                reserved: self.reserved + amount,
                updated_at: now,
                ..*self
            },
        )
    }

    /// Drops `amount`, of which the reserve holds at least as much, from
    /// the reserve once the transfer has happened.
    pub fn settle(&self, amount: u64, now: u64) -> (w: Wallet)
        requires
            amount <= self.reserved,
        ensures
            w@ == self@.settled(amount, now),
    {
        Wallet { reserved: self.reserved - amount, updated_at: now, ..*self }
    }

    /// Hands `amount` back from the reserve to the balance after a transfer
    /// that did not happen. The reserve holds at least `amount` and the
    /// balance can take it.
    pub fn release(&self, amount: u64, now: u64) -> (w: Wallet)
        requires
            amount <= self.reserved,
            self.balance + amount <= u64::MAX,
        ensures
            w@ == self@.released(amount, now),
    {
        Wallet {
            balance: self.balance + amount,
            reserved: self.reserved - amount,
            updated_at: now,
            ..*self
        }
    }
}

/// Identity record of a user.
#[derive(Clone, Debug)]
pub struct Account {
    pub id: u64,
    /// What the user is known by outside the ledger (an e-mail address, an
    /// authentication subject).
    pub identity_ref: String,
    pub display_name: String,
    /// The custodial address assigned when the account was created.
    pub deposit_address: String,
}

/// An [`Account`] as contracts see it.
pub struct AccountView {
    pub id: int,
    pub identity_ref: Seq<char>,
    pub display_name: Seq<char>,
    pub deposit_address: Seq<char>,
}

impl View for Account {
    type V = AccountView;

    open spec fn view(&self) -> AccountView {
        AccountView {
            id: self.id as int,
            identity_ref: self.identity_ref@,
            display_name: self.display_name@,
            deposit_address: self.deposit_address@,
        }
    }
}

impl Account {
    /// A copy of the record.
    pub fn duplicate(&self) -> (copy: Account)
        ensures
            copy@ == self@,
    {
        Account {
            id: self.id,
            identity_ref: self.identity_ref.clone(),
            display_name: self.display_name.clone(),
            deposit_address: self.deposit_address.clone(),
        }
    }
}

/// An account with its base-currency wallet, as handed out by the ledger.
#[derive(Clone, Debug)]
pub struct Enrollment {
    pub account: Account,
    pub wallet: Wallet,
    /// Whether the request created the account.
    pub created: bool,
}

/// An [`Enrollment`] as contracts see it.
pub struct EnrollmentView {
    pub account: AccountView,
    pub wallet: WalletView,
    pub created: bool,
}

impl View for Enrollment {
    type V = EnrollmentView;

    open spec fn view(&self) -> EnrollmentView {
        EnrollmentView { account: self.account@, wallet: self.wallet@, created: self.created }
    }
}

/// One immutable entry of the transaction log.
#[derive(Clone, Debug)]
pub struct LedgerTransaction {
    pub account_id: u64,
    /// Magnitude of the change; `direction` gives its sign.
    pub amount: u64,
    pub currency: Currency,
    pub direction: Direction,
    /// Identifier of the transfer on the settlement network.
    pub external_reference: String,
    pub created_at: u64,
}

/// A [`LedgerTransaction`] as contracts see it.
pub struct LedgerTransactionView {
    pub account_id: int,
    pub amount: u64,
    pub currency: Currency,
    pub direction: Direction,
    pub external_reference: Seq<char>,
    pub created_at: u64,
}

impl LedgerTransactionView {
    /// The change the entry made to its wallet: positive for a deposit,
    /// negative for a withdrawal.
    pub open spec fn signed_amount(self) -> int {
        match self.direction {
            Direction::Deposit => self.amount as int,
            Direction::Withdrawal => -(self.amount as int),
        }
    }
}

impl View for LedgerTransaction {
    type V = LedgerTransactionView;

    open spec fn view(&self) -> LedgerTransactionView {
        LedgerTransactionView {
            account_id: self.account_id as int,
            amount: self.amount,
            currency: self.currency,
            direction: self.direction,
            external_reference: self.external_reference@,
            created_at: self.created_at,
        }
    }
}

impl LedgerTransaction {
    /// The signed amount of the entry.
    pub fn signed_amount(&self) -> (delta: i128)
        ensures
            delta == self@.signed_amount(),
    {
        match self.direction {
            Direction::Deposit => self.amount as i128,
            Direction::Withdrawal => -(self.amount as i128),
        }
    }

    /// A copy of the entry.
    pub fn duplicate(&self) -> (copy: LedgerTransaction)
        ensures
            copy@ == self@,
    {
        LedgerTransaction {
            account_id: self.account_id,
            amount: self.amount,
            currency: self.currency,
            direction: self.direction,
            external_reference: self.external_reference.clone(),
            created_at: self.created_at,
        }
    }
}

/// Where a withdrawal stands.
#[derive(Clone, Copy, Debug, PartialEq, Eq, Structural)]
pub enum WithdrawalState {
    /// Funds are reserved and the transfer has been handed to the gateway.
    InFlight,
    /// The gateway gave no answer that can be trusted; only reconciliation
    /// may resolve the withdrawal.
    Ambiguous,
    /// The transfer happened and the log holds its entry.
    Settled,
    /// The transfer did not happen and the funds are back in the balance.
    Failed,
}

impl WithdrawalState {
    /// Whether funds are still reserved for the withdrawal.
    pub open spec fn is_open(self) -> bool {
        self == WithdrawalState::InFlight || self == WithdrawalState::Ambiguous
    }

    /// The code of the state.
    pub open spec fn code_text(self) -> Seq<char> {
        match self {
            WithdrawalState::InFlight => "IN_FLIGHT"@,
            WithdrawalState::Ambiguous => "AMBIGUOUS"@,
            WithdrawalState::Settled => "SETTLED"@,
            WithdrawalState::Failed => "FAILED"@,
        }
    }

    /// The state that `text` is the code of.
    pub open spec fn named(text: Seq<char>) -> Option<WithdrawalState> {
        if text == "IN_FLIGHT"@ {
            Some(WithdrawalState::InFlight)
        } else if text == "AMBIGUOUS"@ {
            Some(WithdrawalState::Ambiguous)
        } else if text == "SETTLED"@ {
            Some(WithdrawalState::Settled)
        } else if text == "FAILED"@ {
            Some(WithdrawalState::Failed)
        } else {
            None
        }
    }

    /// The code as stored and sent.
    pub fn code(&self) -> (code: &'static str)
        ensures
            code@ == self.code_text(),
    {
        match self {
            WithdrawalState::InFlight => "IN_FLIGHT",
            WithdrawalState::Ambiguous => "AMBIGUOUS",
            WithdrawalState::Settled => "SETTLED",
            WithdrawalState::Failed => "FAILED",
        }
    }

    /// Reads a code. `None` for a text that is no code.
    pub fn from_code(text: &str) -> (read: Option<WithdrawalState>)
        ensures
            read == WithdrawalState::named(text@),
    {
        let given = text.to_owned();
        if given == "IN_FLIGHT".to_owned() {
            Some(WithdrawalState::InFlight)
        } else if given == "AMBIGUOUS".to_owned() {
            Some(WithdrawalState::Ambiguous)
        } else if given == "SETTLED".to_owned() {
            Some(WithdrawalState::Settled)
        } else if given == "FAILED".to_owned() {
            Some(WithdrawalState::Failed)
        } else {
            None
        }
    }

    /// Every code names the value it was written for.
    pub proof fn law_code_names_itself(self)
        ensures
            WithdrawalState::named(self.code_text()) == Some(self),
    {
        reveal_strlit("IN_FLIGHT");
        reveal_strlit("AMBIGUOUS");
        reveal_strlit("SETTLED");
        reveal_strlit("FAILED");
        assert("IN_FLIGHT"@[0] == 'I');
        assert("AMBIGUOUS"@[0] == 'A');
        assert("SETTLED"@[0] == 'S');
        assert("FAILED"@[0] == 'F');
    }

    /// Executable form of [`WithdrawalState::is_open`].
    pub fn open(&self) -> (open: bool)
        ensures
            open == self.is_open(),
    {
        match self {
            WithdrawalState::InFlight => true,
            WithdrawalState::Ambiguous => true,
            _ => false,
        }
    }
}

/// Durable note of one withdrawal request, written before the gateway is
/// called so that a crash cannot lose it.
#[derive(Clone, Debug)]
pub struct Withdrawal {
    pub id: u64,
    pub account_id: u64,
    pub currency: Currency,
    pub amount: u64,
    pub destination: String,
    pub state: WithdrawalState,
    pub requested_at: u64,
}

/// A [`Withdrawal`] as contracts see it.
pub struct WithdrawalView {
    pub id: int,
    pub account_id: int,
    pub currency: Currency,
    pub amount: u64,
    pub destination: Seq<char>,
    pub state: WithdrawalState,
    pub requested_at: u64,
}

impl View for Withdrawal {
    type V = WithdrawalView;

    open spec fn view(&self) -> WithdrawalView {
        WithdrawalView {
            id: self.id as int,
            account_id: self.account_id as int,
            currency: self.currency,
            amount: self.amount,
            destination: self.destination@,
            state: self.state,
            requested_at: self.requested_at,
        }
    }
}

impl Withdrawal {
    /// A copy of the note.
    pub fn duplicate(&self) -> (copy: Withdrawal)
        ensures
            copy@ == self@,
    {
        Withdrawal {
            id: self.id,
            account_id: self.account_id,
            currency: self.currency,
            amount: self.amount,
            destination: self.destination.clone(),
            state: self.state,
            requested_at: self.requested_at,
        }
    }
}

/// What the settlement gateway said about an outbound transfer.
#[derive(Clone, Debug)]
pub enum TransferOutcome {
    /// The transfer happened; the gateway's reference for it.
    Confirmed(String),
    /// The transfer failed cleanly: nothing left custody.
    Rejected,
    /// No answer, or none that can be trusted (a timeout, a disconnect).
    Unknown,
}

/// A [`TransferOutcome`] as contracts see it.
pub enum TransferOutcomeView {
    Confirmed(Seq<char>),
    Rejected,
    Unknown,
}

impl View for TransferOutcome {
    type V = TransferOutcomeView;

    open spec fn view(&self) -> TransferOutcomeView {
        match self {
            TransferOutcome::Confirmed(reference) => TransferOutcomeView::Confirmed(reference@),
            TransferOutcome::Rejected => TransferOutcomeView::Rejected,
            TransferOutcome::Unknown => TransferOutcomeView::Unknown,
        }
    }
}

} // verus!
