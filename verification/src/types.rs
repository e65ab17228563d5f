//! The records of the protocol, as plain values, with their views.

use vstd::prelude::*;

verus! {

/// An account or a contract, by its number in the caller's address book. Two
/// addresses are the same exactly if their numbers are equal.
pub type Address = u64;

/// One whole in basis points.
pub const BPS_DENOMINATOR: i128 = 10_000;

/// The health score from which the protocol counts as healthy: 80%.
pub const HEALTH_THRESHOLD_BPS: i128 = 8_000;

/// The slash penalty of a protocol in full health: 25%.
pub const MIN_DYNAMIC_SLASH_BPS: i128 = 2_500;

/// The slash penalty of a protocol without any health: 75%.
pub const MAX_DYNAMIC_SLASH_BPS: i128 = 7_500;

/// The balance, in stroops, from which the reserve earns half its weight.
pub const MIN_RESERVE: i128 = 100_000_000;

/// The balance, in stroops, from which the reserve earns its full weight.
pub const EXCELLENT_RESERVE: i128 = 1_000_000_000;

/// The weight of initialization in the health score: 30%.
pub const INITIALIZATION_WEIGHT_BPS: i128 = 3_000;

/// The weight of not being paused in the health score: 30%.
pub const UNPAUSED_WEIGHT_BPS: i128 = 3_000;

/// Half the weight of the reserve in the health score, which is 40%.
pub const HALF_RESERVE_WEIGHT_BPS: i128 = 2_000;

/// The largest referral bonus.
pub const MAX_REFERRAL_BONUS_BPS: u32 = 10_000;

/// What a loan of a pool names as its purpose.
pub open spec fn pool_purpose() -> Seq<char> {
    "pool"@
}

/// The parameters that a deployment starts with.
#[derive(Clone, Copy, PartialEq, Eq, Debug, Structural)]
pub struct Defaults {
    pub yield_bps: i128,
    pub slash_bps: i128,
    pub max_vouchers: u32,
    pub min_loan_amount: i128,
    pub loan_duration: u64,
    pub max_loan_to_stake_ratio: u32,
    pub referral_bonus_bps: u32,
}

/// The protocol's configuration.
#[derive(Debug)]
pub struct Config {
    pub admins: Vec<Address>,
    pub admin_threshold: u32,
    pub token: Address,
    pub allowed_tokens: Vec<Address>,
    pub yield_bps: i128,
    pub slash_bps: i128,
    pub max_vouchers: u32,
    pub min_loan_amount: i128,
    pub loan_duration: u64,
    pub max_loan_to_stake_ratio: u32,
    pub grace_period: u64,
    pub dynamic_slash_threshold: bool,
}

#[verifier::ext_equal]
pub struct ConfigView {
    pub admins: Seq<Address>,
    pub admin_threshold: u32,
    pub token: Address,
    pub allowed_tokens: Seq<Address>,
    pub yield_bps: i128,
    pub slash_bps: i128,
    pub max_vouchers: u32,
    pub min_loan_amount: i128,
    pub loan_duration: u64,
    pub max_loan_to_stake_ratio: u32,
    pub grace_period: u64,
    pub dynamic_slash_threshold: bool,
}

impl View for Config {
    type V = ConfigView;

    open spec fn view(&self) -> ConfigView {
        ConfigView {
            admins: self.admins@,
            admin_threshold: self.admin_threshold,
            token: self.token,
            allowed_tokens: self.allowed_tokens@,
            yield_bps: self.yield_bps,
            slash_bps: self.slash_bps,
            max_vouchers: self.max_vouchers,
            min_loan_amount: self.min_loan_amount,
            loan_duration: self.loan_duration,
            max_loan_to_stake_ratio: self.max_loan_to_stake_ratio,
            grace_period: self.grace_period,
            dynamic_slash_threshold: self.dynamic_slash_threshold,
        }
    }
}

/// One voucher's stake behind a borrower.
#[derive(Clone, Copy, PartialEq, Eq, Debug, Structural)]
pub struct VouchRecord {
    pub voucher: Address,
    pub stake: i128,
}

/// Where a loan stands.
#[derive(Clone, Copy, PartialEq, Eq, Debug, Structural)]
pub enum LoanStatus {
    Active,
    Repaid,
    Defaulted,
}

/// A loan.
#[derive(Debug)]
pub struct LoanRecord {
    pub id: u64,
    pub borrower: Address,
    pub co_borrowers: Vec<Address>,
    pub amount: i128,
    pub amount_repaid: i128,
    pub total_yield: i128,
    pub repaid: bool,
    pub defaulted: bool,
    pub created_at: u64,
    pub disbursement_timestamp: u64,
    pub repayment_timestamp: Option<u64>,
    pub deadline: u64,
    pub loan_purpose: String,
    pub token_address: Address,
}

#[verifier::ext_equal]
pub struct LoanView {
    pub id: u64,
    pub borrower: Address,
    pub co_borrowers: Seq<Address>,
    pub amount: i128,
    pub amount_repaid: i128,
    pub total_yield: i128,
    pub repaid: bool,
    pub defaulted: bool,
    pub created_at: u64,
    pub disbursement_timestamp: u64,
    pub repayment_timestamp: Option<u64>,
    pub deadline: u64,
    pub loan_purpose: Seq<char>,
    pub token_address: Address,
}

impl LoanView {
    /// Whether the loan is neither repaid nor defaulted.
    pub open spec fn is_open(self) -> bool {
        !self.repaid && !self.defaulted
    }

    pub open spec fn status(self) -> LoanStatus {
        if self.defaulted {
            LoanStatus::Defaulted
        } else if self.repaid {
            LoanStatus::Repaid
        } else {
            LoanStatus::Active
        }
    }
}

impl View for LoanRecord {
    type V = LoanView;

    open spec fn view(&self) -> LoanView {
        LoanView {
            id: self.id,
            borrower: self.borrower,
            co_borrowers: self.co_borrowers@,
            amount: self.amount,
            amount_repaid: self.amount_repaid,
            total_yield: self.total_yield,
            repaid: self.repaid,
            defaulted: self.defaulted,
            created_at: self.created_at,
            disbursement_timestamp: self.disbursement_timestamp,
            repayment_timestamp: self.repayment_timestamp,
            deadline: self.deadline,
            loan_purpose: self.loan_purpose@,
            token_address: self.token_address,
        }
    }
}

impl LoanRecord {
    /// Where the loan stands.
    pub fn status(&self) -> (status: LoanStatus)
        ensures
            status == self@.status(),
    {
        if self.defaulted {
            LoanStatus::Defaulted
        } else if self.repaid {
            LoanStatus::Repaid
        } else {
            LoanStatus::Active
        }
    }
}

impl Clone for LoanRecord {
    fn clone(&self) -> (copy: Self)
        ensures
            copy@ == self@,
    {
        let co_borrowers = self.co_borrowers.clone();
        assert(co_borrowers@ =~= self.co_borrowers@);
        LoanRecord {
            id: self.id,
            borrower: self.borrower,
            co_borrowers,
            amount: self.amount,
            amount_repaid: self.amount_repaid,
            total_yield: self.total_yield,
            repaid: self.repaid,
            defaulted: self.defaulted,
            created_at: self.created_at,
            disbursement_timestamp: self.disbursement_timestamp,
            repayment_timestamp: self.repayment_timestamp,
            deadline: self.deadline,
            loan_purpose: self.loan_purpose.clone(),
            token_address: self.token_address,
        }
    }
}

/// A batch of loans that were disbursed together.
#[derive(Debug)]
pub struct LoanPoolRecord {
    pub pool_id: u64,
    pub borrowers: Vec<Address>,
    pub amounts: Vec<i128>,
    pub created_at: u64,
    pub total_disbursed: i128,
}

#[verifier::ext_equal]
pub struct LoanPoolView {
    pub pool_id: u64,
    pub borrowers: Seq<Address>,
    pub amounts: Seq<i128>,
    pub created_at: u64,
    pub total_disbursed: i128,
}

impl View for LoanPoolRecord {
    type V = LoanPoolView;

    open spec fn view(&self) -> LoanPoolView {
        LoanPoolView {
            pool_id: self.pool_id,
            borrowers: self.borrowers@,
            amounts: self.amounts@,
            created_at: self.created_at,
            total_disbursed: self.total_disbursed,
        }
    }
}

impl Clone for LoanPoolRecord {
    fn clone(&self) -> (copy: Self)
        ensures
            copy@ == self@,
    {
        let borrowers = self.borrowers.clone();
        let amounts = self.amounts.clone();
        assert(borrowers@ =~= self.borrowers@);
        assert(amounts@ =~= self.amounts@);
        LoanPoolRecord {
            pool_id: self.pool_id,
            borrowers,
            amounts,
            created_at: self.created_at,
            total_disbursed: self.total_disbursed,
        }
    }
}

/// What the contract announces.
#[derive(Debug)]
pub enum Event {
    Initialized { deployer: Address, admins: Vec<Address>, admin_threshold: u32, token: Address },
    LoanSlashed { borrower: Address, amount: i128, total_slashed: i128 },
    PoolLoan { pool_id: u64, borrower: Address, amount: i128, deadline: u64 },
    PoolCreated { pool_id: u64, loans: u32, total_amount: i128 },
}

#[verifier::ext_equal]
pub enum EventView {
    Initialized { deployer: Address, admins: Seq<Address>, admin_threshold: u32, token: Address },
    LoanSlashed { borrower: Address, amount: i128, total_slashed: i128 },
    PoolLoan { pool_id: u64, borrower: Address, amount: i128, deadline: u64 },
    PoolCreated { pool_id: u64, loans: u32, total_amount: i128 },
}

impl View for Event {
    type V = EventView;

    open spec fn view(&self) -> EventView {
        match *self {
            Event::Initialized { deployer, admins, admin_threshold, token } => {
                EventView::Initialized { deployer, admins: admins@, admin_threshold, token }
            },
            Event::LoanSlashed { borrower, amount, total_slashed } => {
                EventView::LoanSlashed { borrower, amount, total_slashed }
            },
            Event::PoolLoan { pool_id, borrower, amount, deadline } => {
                EventView::PoolLoan { pool_id, borrower, amount, deadline }
            },
            Event::PoolCreated { pool_id, loans, total_amount } => {
                EventView::PoolCreated { pool_id, loans, total_amount }
            },
        }
    }
}

/// What the contract asks its host to do, besides storing.
#[derive(Debug)]
pub enum Effect {
    /// Pay `amount` of `token` from the contract to `to`.
    Transfer { token: Address, to: Address, amount: i128 },
    /// Burn the holder's reputation at the contract `nft`.
    Burn { nft: Address, holder: Address },
    /// Publish an event.
    Publish(Event),
}

#[verifier::ext_equal]
pub enum EffectView {
    Transfer { token: Address, to: Address, amount: i128 },
    Burn { nft: Address, holder: Address },
    Publish(EventView),
}

impl View for Effect {
    type V = EffectView;

    open spec fn view(&self) -> EffectView {
        match *self {
            Effect::Transfer { token, to, amount } => EffectView::Transfer { token, to, amount },
            Effect::Burn { nft, holder } => EffectView::Burn { nft, holder },
            Effect::Publish(event) => EffectView::Publish(event@),
        }
    }
}

} // verus!
