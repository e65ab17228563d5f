//! What the contract knows of its surroundings during one invocation: the
//! stored records, the ledger's time, the contract's balance, and the effects
//! that it has asked for so far.

use std::collections::BTreeMap;

use vstd::prelude::*;

use crate::types::{
    Address, Config, ConfigView, Defaults, Effect, EffectView, LoanPoolRecord, LoanPoolView,
    LoanRecord, LoanView, VouchRecord,
};

verus! {

/// The surroundings of one invocation.
#[derive(Debug)]
pub struct Env {
    /// The parameters that a deployment starts with.
    pub defaults: Defaults,
    /// The ledger's time, in seconds.
    pub timestamp: u64,
    /// What the contract holds of the primary token.
    pub contract_balance: i128,
    pub config: Option<Config>,
    pub deployer: Option<Address>,
    pub paused: Option<bool>,
    pub slash_treasury: Option<i128>,
    pub reputation_nft: Option<Address>,
    pub referral_bonus_bps: Option<u32>,
    pub loan_counter: Option<u64>,
    pub loan_pool_counter: Option<u64>,
    /// Loans by their ids.
    pub loans: BTreeMap<u64, LoanRecord>,
    /// The id of each borrower's active loan.
    pub active_loans: BTreeMap<Address, u64>,
    /// The id of each borrower's latest loan.
    pub latest_loans: BTreeMap<Address, u64>,
    /// The vouches for each borrower.
    pub vouches: BTreeMap<Address, Vec<VouchRecord>>,
    /// How often each borrower has defaulted.
    pub default_counts: BTreeMap<Address, u32>,
    /// Loan pools by their ids.
    pub loan_pools: BTreeMap<u64, LoanPoolRecord>,
    /// The effects asked for, in order.
    pub outbox: Vec<Effect>,
}

#[verifier::ext_equal]
pub struct EnvView {
    pub defaults: Defaults,
    pub timestamp: u64,
    pub contract_balance: i128,
    pub config: Option<ConfigView>,
    pub deployer: Option<Address>,
    pub paused: Option<bool>,
    pub slash_treasury: Option<i128>,
    pub reputation_nft: Option<Address>,
    pub referral_bonus_bps: Option<u32>,
    pub loan_counter: Option<u64>,
    pub loan_pool_counter: Option<u64>,
    pub loans: Map<u64, LoanView>,
    pub active_loans: Map<Address, u64>,
    pub latest_loans: Map<Address, u64>,
    pub vouches: Map<Address, Seq<VouchRecord>>,
    pub default_counts: Map<Address, u32>,
    pub loan_pools: Map<u64, LoanPoolView>,
    pub outbox: Seq<EffectView>,
}

impl View for Env {
    type V = EnvView;

    open spec fn view(&self) -> EnvView {
        EnvView {
            defaults: self.defaults,
            timestamp: self.timestamp,
            contract_balance: self.contract_balance,
            config: config_view(self.config),
            deployer: self.deployer,
            paused: self.paused,
            slash_treasury: self.slash_treasury,
            reputation_nft: self.reputation_nft,
            referral_bonus_bps: self.referral_bonus_bps,
            loan_counter: self.loan_counter,
            loan_pool_counter: self.loan_pool_counter,
            loans: self.loans@.map_values(|loan: LoanRecord| loan@),
            active_loans: self.active_loans@,
            latest_loans: self.latest_loans@,
            vouches: self.vouches@.map_values(|vouches: Vec<VouchRecord>| vouches@),
            default_counts: self.default_counts@,
            loan_pools: self.loan_pools@.map_values(|pool: LoanPoolRecord| pool@),
            outbox: self.outbox@.map_values(|effect: Effect| effect@),
        }
    }
}

pub open spec fn config_view(config: Option<Config>) -> Option<ConfigView> {
    match config {
        Some(config) => Some(config@),
        None => None,
    }
}

impl EnvView {
    /// The surroundings of a contract for which nothing is stored.
    pub open spec fn fresh(defaults: Defaults, timestamp: u64, contract_balance: i128) -> EnvView {
        EnvView {
            defaults,
            timestamp,
            contract_balance,
            config: None,
            deployer: None,
            paused: None,
            slash_treasury: None,
            reputation_nft: None,
            referral_bonus_bps: None,
            loan_counter: None,
            loan_pool_counter: None,
            loans: Map::empty(),
            active_loans: Map::empty(),
            latest_loans: Map::empty(),
            vouches: Map::empty(),
            default_counts: Map::empty(),
            loan_pools: Map::empty(),
            outbox: Seq::empty(),
        }
    }

    /// Whether the contract is paused; it is not unless it was told to be.
    pub open spec fn is_paused(self) -> bool {
        self.paused == Some(true)
    }

    /// The borrower's active loan record: the record of the id that is noted
    /// as active for the borrower.
    pub open spec fn active_loan(self, borrower: Address) -> Option<LoanView> {
        if self.active_loans.contains_key(borrower) && self.loans.contains_key(
            self.active_loans[borrower],
        ) {
            Some(self.loans[self.active_loans[borrower]])
        } else {
            None
        }
    }

    /// Whether the borrower has a loan that is neither repaid nor defaulted.
    pub open spec fn has_active_loan(self, borrower: Address) -> bool {
        self.active_loan(borrower) matches Some(loan) && loan.is_open()
    }

    /// The vouches for the borrower.
    pub open spec fn vouches_for(self, borrower: Address) -> Seq<VouchRecord> {
        if self.vouches.contains_key(borrower) {
            self.vouches[borrower]
        } else {
            Seq::empty()
        }
    }

    /// The slashed funds that have not been withdrawn.
    pub open spec fn treasury(self) -> i128 {
        match self.slash_treasury {
            Some(amount) => amount,
            None => 0,
        }
    }

    /// How often the borrower has defaulted.
    pub open spec fn defaults_of(self, borrower: Address) -> u32 {
        if self.default_counts.contains_key(borrower) {
            self.default_counts[borrower]
        } else {
            0
        }
    }

    /// The referral bonus: the one that was set, or the default.
    pub open spec fn referral_bonus(self) -> u32 {
        match self.referral_bonus_bps {
            Some(bps) => bps,
            None => self.defaults.referral_bonus_bps,
        }
    }

    /// The id of the loan made last.
    pub open spec fn last_loan_id(self) -> u64 {
        match self.loan_counter {
            Some(id) => id,
            None => 0,
        }
    }

    /// The id of the pool made last.
    pub open spec fn last_pool_id(self) -> u64 {
        match self.loan_pool_counter {
            Some(id) => id,
            None => 0,
        }
    }

    /// The same surroundings with these effects asked for last.
    pub open spec fn asking(self, effects: Seq<EffectView>) -> EnvView {
        EnvView { outbox: self.outbox + effects, ..self }
    }
}

impl Env {
    /// The surroundings of a contract for which nothing is stored.
    pub fn new(defaults: Defaults, timestamp: u64, contract_balance: i128) -> (env: Env)
        ensures
            env@ == EnvView::fresh(defaults, timestamp, contract_balance),
    {
        let env = Env {
            defaults,
            timestamp,
            contract_balance,
            config: None,
            deployer: None,
            paused: None,
            slash_treasury: None,
            reputation_nft: None,
            referral_bonus_bps: None,
            loan_counter: None,
            loan_pool_counter: None,
            loans: BTreeMap::new(),
            active_loans: BTreeMap::new(),
            latest_loans: BTreeMap::new(),
            vouches: BTreeMap::new(),
            default_counts: BTreeMap::new(),
            loan_pools: BTreeMap::new(),
            outbox: Vec::new(),
        };
        assert(env@ =~= EnvView::fresh(defaults, timestamp, contract_balance));
        env
    }

    /// Asks for an effect.
    pub(crate) fn ask(&mut self, effect: Effect)
        ensures
            final(self)@ == old(self)@.asking(seq![effect@]),
    {
        let ghost before = self@;
        self.outbox.push(effect);
        assert(self@ =~= before.asking(seq![effect@]));
    }

    /// Stores a loan under its id.
    pub(crate) fn set_loan(&mut self, loan: LoanRecord)
        ensures
            final(self)@ == (EnvView { loans: old(self)@.loans.insert(loan.id, loan@), ..old(self)@ }),
    {
        let ghost before = self@;
        let id: u64 = loan.id;
        self.loans.insert(id, loan);
        assert(self@ =~= (EnvView { loans: before.loans.insert(id, loan@), ..before }));
    }

    /// Stores a loan pool under its id.
    pub(crate) fn set_loan_pool(&mut self, pool: LoanPoolRecord)
        ensures
            final(self)@ == (EnvView {
                loan_pools: old(self)@.loan_pools.insert(pool.pool_id, pool@),
                ..old(self)@
            }),
    {
        let ghost before = self@;
        let id: u64 = pool.pool_id;
        self.loan_pools.insert(id, pool);
        assert(self@ =~= (EnvView { loan_pools: before.loan_pools.insert(id, pool@), ..before }));
    }

    /// Notes the id of the borrower's active loan.
    pub(crate) fn set_active_loan(&mut self, borrower: Address, id: u64)
        ensures
            final(self)@ == (EnvView {
                active_loans: old(self)@.active_loans.insert(borrower, id),
                ..old(self)@
            }),
    {
        self.active_loans.insert(borrower, id);
    }

    /// Notes the id of the borrower's latest loan.
    pub(crate) fn set_latest_loan(&mut self, borrower: Address, id: u64)
        ensures
            final(self)@ == (EnvView {
                latest_loans: old(self)@.latest_loans.insert(borrower, id),
                ..old(self)@
            }),
    {
        self.latest_loans.insert(borrower, id);
    }

    /// Forgets the borrower's active loan and vouches.
    pub(crate) fn close_borrower(&mut self, borrower: Address)
        ensures
            final(self)@ == (EnvView {
                active_loans: old(self)@.active_loans.remove(borrower),
                vouches: old(self)@.vouches.remove(borrower),
                ..old(self)@
            }),
    {
        let ghost before = self@;
        self.active_loans.remove(&borrower);
        self.vouches.remove(&borrower);
        assert(self@.vouches =~= before.vouches.remove(borrower));
    }

    /// The vouches for the borrower.
    pub(crate) fn vouches_for(&self, borrower: Address) -> (vouches: Vec<VouchRecord>)
        ensures
            vouches@ == self@.vouches_for(borrower),
    {
        match self.vouches.get(&borrower) {
            Some(stored) => {
                let vouches = stored.clone();
                assert(vouches@ =~= stored@);
                vouches
            },
            None => Vec::new(),
        }
    }

    /// How often the borrower has defaulted.
    pub(crate) fn defaults_of(&self, borrower: Address) -> (count: u32)
        ensures
            count == self@.defaults_of(borrower),
    {
        match self.default_counts.get(&borrower) {
            Some(count) => *count,
            None => 0,
        }
    }
}

} // verus!
