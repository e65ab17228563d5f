//! Loan pools whose amounts come in a vector of the host.
//!
//! The host does not check the items of a vector that a caller passes in, so
//! an item of a vector of amounts may turn out not to be an amount.

use vstd::prelude::*;

use crate::contract::QuorumCreditContract;
use crate::env::{Env, EnvView};
use crate::errors::{ContractError, Trap};
use crate::pool::{pool_scan, pool_shape_stop, PoolStop};
use crate::types::Address;

verus! {

/// The host's vector, a handle to items that the host keeps and never changes.
#[verifier::external_type_specification]
#[verifier::external_body]
#[verifier::reject_recursive_types(T)]
pub struct ExHostVec<T>(soroban_sdk::Vec<T>);

/// The items of a host vector of amounts: for each, the amount that it is, or
/// `None` where it is no amount.
pub uninterp spec fn host_items(amounts: soroban_sdk::Vec<i128>) -> Seq<Option<i128>>;

/// Calls `soroban_sdk::Vec::len`, which is claimed to return the number of
/// items. Not claimed is that the host has the resources left to answer: it
/// aborts the invocation where it has not.
#[verifier::external_body]
fn host_len(amounts: &soroban_sdk::Vec<i128>) -> (n: u32)
    ensures
        n == host_items(*amounts).len(),
{
    amounts.len()
}

/// Calls `soroban_sdk::Vec::try_get`, which is claimed to return the item at an
/// index in bounds, or an error where the item cannot be converted to an
/// `i128`. Here too the host may lack the resources to answer.
#[verifier::external_body]
fn host_item(amounts: &soroban_sdk::Vec<i128>, i: u32) -> (item: Option<i128>)
    requires
        i < host_items(*amounts).len(),
    ensures
        item == host_items(*amounts)[i as int],
{
    match amounts.try_get(i) {
        Ok(item) => item,
        Err(_) => None,
    }
}

/// The amounts up to the first item that is no amount.
pub open spec fn readable(items: Seq<Option<i128>>) -> Seq<i128>
    decreases items.len(),
{
    if items.len() == 0 {
        Seq::empty()
    } else {
        let earlier = readable(items.drop_last());
        if earlier.len() == items.len() - 1 && items.last() is Some {
            earlier.push(items.last()->0)
        } else {
            earlier
        }
    }
}

impl EnvView {
    /// Why no pool is made of these items, if none is. An item that is no
    /// amount matters only once every loan before it has passed.
    pub open spec fn host_pool_stop(
        self,
        borrowers: Seq<Address>,
        items: Seq<Option<i128>>,
    ) -> Option<PoolStop> {
        let amounts = readable(items);
        if self.pool_shape_stop(borrowers.len(), items.len()) is Some {
            self.pool_shape_stop(borrowers.len(), items.len())
        } else if self.pool_scan(borrowers, amounts, amounts.len()) is Some {
            self.pool_scan(borrowers, amounts, amounts.len())
        } else if amounts.len() < items.len() {
            Some(PoolStop::Trap(Trap::UnreadableAmount))
        } else {
            self.pool_payout_stop(amounts)
        }
    }
}

/// What is readable of more items starts with what is readable of fewer, and
/// ends with it where the next item is no amount.
proof fn lemma_readable_stays(items: Seq<Option<i128>>, m: int, n: int)
    requires
        0 <= m < n <= items.len(),
        readable(items.take(m)).len() == m,
        items[m] is None,
    ensures
        readable(items.take(n)) == readable(items.take(m)),
    decreases n,
{
    assert(items.take(n).drop_last() =~= items.take(n - 1));
    if m < n - 1 {
        lemma_readable_stays(items, m, n - 1);
    }
}

/// Reads the amounts up to the first item that is no amount.
pub fn read_amounts(amounts: &soroban_sdk::Vec<i128>) -> (read: Vec<i128>)
    ensures
        read@ == readable(host_items(*amounts)),
{
    let n: u32 = host_len(amounts);
    let ghost items = host_items(*amounts);
    let mut read: Vec<i128> = Vec::new();
    let mut i: u32 = 0;
    assert(items.take(n as int) =~= items);
    while i < n
        invariant
            i <= n,
            n == items.len(),
            items == host_items(*amounts),
            items.take(n as int) == items,
            read.len() == i,
            read@ == readable(items.take(i as int)),
        decreases n - i,
    {
        assert(items.take(i + 1).drop_last() =~= items.take(i as int));
        match host_item(amounts, i) {
            Some(amount) => {
                read.push(amount);
            },
            None => {
                proof {
                    lemma_readable_stays(items, i as int, n as int);
                }
                return read;
            },
        }
        i += 1;
    }
    read
}

impl QuorumCreditContract {
    /// Makes a loan pool of a host vector of amounts, after admin approval: as
    /// `create_loan_pool` does, with the trap returned where it aborts.
    pub fn create_loan_pool_from_host(
        env: &mut Env,
        borrowers: Vec<Address>,
        amounts: &soroban_sdk::Vec<i128>,
    ) -> (result: Result<Result<u64, ContractError>, Trap>)
        ensures
            match old(env)@.host_pool_stop(borrowers@, host_items(*amounts)) {
                Some(PoolStop::Trap(trap)) => {
                    &&& result == Err::<Result<u64, ContractError>, Trap>(trap)
                    &&& final(env)@ == old(env)@
                },
                Some(PoolStop::Error(error)) => {
                    &&& result == Ok::<Result<u64, ContractError>, Trap>(Err(error))
                    &&& final(env)@ == old(env)@
                },
                None => {
                    &&& result == Ok::<Result<u64, ContractError>, Trap>(
                        Ok(old(env)@.next_pool_id()),
                    )
                    &&& final(env)@ == old(env)@.with_pool(
                        borrowers@,
                        readable(host_items(*amounts)),
                    )
                },
            },
    {
        let n: u32 = host_len(amounts);
        match pool_shape_stop(env, borrowers.len(), n as usize) {
            Some(PoolStop::Error(error)) => return Ok(Err(error)),
            Some(PoolStop::Trap(trap)) => return Err(trap),
            None => {},
        }
        let read = read_amounts(amounts);
        proof {
            lemma_readable_len(host_items(*amounts));
        }
        match pool_scan(env, &borrowers, &read, read.len()) {
            Err(PoolStop::Error(error)) => return Ok(Err(error)),
            Err(PoolStop::Trap(trap)) => return Err(trap),
            Ok(_) => {},
        }
        if read.len() < n as usize {
            return Err(Trap::UnreadableAmount);
        }
        match Self::create_loan_pool_trap(env, &borrowers, &read) {
            Some(trap) => Err(trap),
            None => Ok(Self::create_loan_pool(env, borrowers, read)),
        }
    }
}

/// No more amounts are readable than there are items.
proof fn lemma_readable_len(items: Seq<Option<i128>>)
    ensures
        readable(items).len() <= items.len(),
    decreases items.len(),
{
    if items.len() > 0 {
        lemma_readable_len(items.drop_last());
    }
}

} // verus!
