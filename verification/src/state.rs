//! What the module keeps: its configuration, the whitelist of assets that may
//! be pledged, and each borrower's pledged guardians.

use vstd::prelude::*;

verus! {

/// The module's configuration.
#[derive(Debug, PartialEq, Eq)]
pub struct Config {
    /// Who may change the configuration and the whitelist.
    pub owner: String,
    /// The lending market, which holds the loans and takes repayments.
    pub anchor_market_contract: String,
    /// The risk overseer, which holds collateral and borrow limits.
    pub anchor_overseer_contract: String,
    /// The service that sizes a liquidation per collateral.
    pub anchor_liquidation_contract: String,
    /// The price oracle.
    pub anchor_oracle_contract: String,
    /// The liquidator's incentive as a ratio, in units of 10^-18.
    pub liquidator_fee: u128,
}

/// The assets that may be pledged as guardians.
#[derive(Clone, Debug, PartialEq, Eq)]
pub struct State {
    /// The whitelisted assets, in the order in which they were added.
    pub whitelisted_cw20s: Vec<String>,
}

/// An asset pledged to be sold when the borrower's loan must be covered.
#[derive(Debug, PartialEq, Eq)]
pub struct Guardian {
    /// The pledged asset.
    pub address: String,
    /// The quantity pledged: the most that a swap of this asset may offer.
    pub amount: u128,
    /// The market on which the asset is swapped for the settlement currency.
    pub pair_address: String,
}

/// A borrower's guardians, in liquidation priority: the first is sold first.
#[derive(Clone, Debug, PartialEq, Eq)]
pub struct Borrower {
    /// The guardians, earliest pledge first.
    pub guardians: Vec<Guardian>,
}

impl Clone for Config {
    fn clone(&self) -> (copy: Config)
        ensures
            copy == *self,
    {
        Config {
            owner: self.owner.clone(),
            anchor_market_contract: self.anchor_market_contract.clone(),
            anchor_overseer_contract: self.anchor_overseer_contract.clone(),
            anchor_liquidation_contract: self.anchor_liquidation_contract.clone(),
            anchor_oracle_contract: self.anchor_oracle_contract.clone(),
            liquidator_fee: self.liquidator_fee,
        }
    }
}

impl Clone for Guardian {
    fn clone(&self) -> (copy: Guardian)
        ensures
            copy == *self,
    {
        Guardian {
            address: self.address.clone(),
            amount: self.amount,
            pair_address: self.pair_address.clone(),
        }
    }
}

/// The place of the first guardian, from `from` on, that holds the asset;
/// the length of the sequence where there is none.
pub open spec fn holder(guardians: Seq<Guardian>, asset: Seq<char>, from: int) -> int
    decreases guardians.len() - from,
{
    if from < 0 || from >= guardians.len() {
        guardians.len() as int
    } else if guardians[from].address@ == asset {
        from
    } else {
        holder(guardians, asset, from + 1)
    }
}

/// No asset is pledged twice.
pub open spec fn distinct(guardians: Seq<Guardian>) -> bool {
    forall|i: int, j: int|
        0 <= i < j < guardians.len() ==> guardians[i].address@ != guardians[j].address@
}

/// The guardians after a pledge: an earlier pledge of the same asset is
/// taken out, and the new one is put last.
pub open spec fn pledged(guardians: Seq<Guardian>, guardian: Guardian) -> Seq<Guardian> {
    let at = holder(guardians, guardian.address@, 0);
    if at < guardians.len() {
        guardians.remove(at).push(guardian)
    } else {
        guardians.push(guardian)
    }
}

/// Whether the asset is on the list.
pub open spec fn listed(assets: Seq<String>, asset: Seq<char>) -> bool {
    exists|i: int| 0 <= i < assets.len() && assets[i]@ == asset
}

/// `holder` gives the first place at or after `from` where the asset is held.
pub proof fn lemma_holder(guardians: Seq<Guardian>, asset: Seq<char>, from: int)
    requires
        0 <= from <= guardians.len(),
    ensures
        from <= holder(guardians, asset, from) <= guardians.len(),
        holder(guardians, asset, from) < guardians.len() ==> guardians[holder(
            guardians,
            asset,
            from,
        )].address@ == asset,
        forall|k: int|
            from <= k < holder(guardians, asset, from) ==> guardians[k].address@ != asset,
    decreases guardians.len() - from,
{
    if from < guardians.len() && guardians[from].address@ != asset {
        lemma_holder(guardians, asset, from + 1);
    }
}

/// A pledge keeps the assets distinct, puts the new guardian last, and
/// leaves no other entry for its asset.
pub proof fn lemma_pledged(guardians: Seq<Guardian>, guardian: Guardian)
    requires
        distinct(guardians),
    ensures
        distinct(pledged(guardians, guardian)),
        pledged(guardians, guardian).len() > 0,
        pledged(guardians, guardian).last() == guardian,
        forall|i: int|
            0 <= i < pledged(guardians, guardian).len() - 1 ==> pledged(
                guardians,
                guardian,
            )[i].address@ != guardian.address@,
{
    lemma_holder(guardians, guardian.address@, 0);
    let at = holder(guardians, guardian.address@, 0);
    let after = pledged(guardians, guardian);
    if at < guardians.len() {
        let rest = guardians.remove(at);
        assert forall|i: int| 0 <= i < rest.len() implies rest[i].address@
            != guardian.address@ && rest[i] == guardians[if i < at {
            i
        } else {
            i + 1
        }] by {
            if i < at {
                assert(rest[i] == guardians[i]);
            } else {
                assert(rest[i] == guardians[i + 1]);
            }
        }
        assert(distinct(after)) by {
            assert forall|i: int, j: int| 0 <= i < j < after.len() implies after[i].address@
                != after[j].address@ by {
                if j < rest.len() {
                    assert(after[i] == rest[i]);
                    assert(after[j] == rest[j]);
                } else {
                    assert(after[i] == rest[i]);
                }
            }
        }
    } else {
        assert(distinct(after)) by {
            assert forall|i: int, j: int| 0 <= i < j < after.len() implies after[i].address@
                != after[j].address@ by {
                assert(after[i] == guardians[i]);
                if j < guardians.len() {
                    assert(after[j] == guardians[j]);
                }
            }
        }
    }
}

/// Pledging an asset twice, whatever the amounts and venues, leaves exactly
/// one guardian for it: the second pledge, in the last place.
pub proof fn law_repledge_keeps_one(guardians: Seq<Guardian>, first: Guardian, second: Guardian)
    requires
        distinct(guardians),
        first.address@ == second.address@,
    ensures
        distinct(pledged(pledged(guardians, first), second)),
        pledged(pledged(guardians, first), second).len() > 0,
        pledged(pledged(guardians, first), second).last() == second,
        forall|i: int|
            0 <= i < pledged(pledged(guardians, first), second).len() - 1 ==> pledged(
                pledged(guardians, first),
                second,
            )[i].address@ != second.address@,
{
    lemma_pledged(guardians, first);
    lemma_pledged(pledged(guardians, first), second);
}

/// Pledging an asset that is already pledged moves it to the last place and
/// keeps the others in their order.
pub proof fn law_repledge_moves_last(guardians: Seq<Guardian>, guardian: Guardian)
    requires
        distinct(guardians),
        holder(guardians, guardian.address@, 0) < guardians.len(),
    ensures
        pledged(guardians, guardian).len() == guardians.len(),
        pledged(guardians, guardian).last() == guardian,
        pledged(guardians, guardian).drop_last() == guardians.remove(
            holder(guardians, guardian.address@, 0),
        ),
{
    lemma_holder(guardians, guardian.address@, 0);
    let at = holder(guardians, guardian.address@, 0);
    assert(guardians.remove(at).push(guardian).drop_last() == guardians.remove(at));
}

impl State {
    /// A whitelist with no asset on it.
    pub fn new() -> (r: State)
        ensures
            r.whitelisted_cw20s@.len() == 0,
    {
        State { whitelisted_cw20s: Vec::new() }
    }

    /// Whether the asset is whitelisted.
    pub fn is_whitelisted(&self, asset: &String) -> (r: bool)
        ensures
            r == listed(self.whitelisted_cw20s@, asset@),
    {
        let mut i: usize = 0;
        while i < self.whitelisted_cw20s.len()
            invariant
                i <= self.whitelisted_cw20s.len(),
                forall|k: int| 0 <= k < i ==> self.whitelisted_cw20s[k]@ != asset@,
            decreases self.whitelisted_cw20s.len() - i,
        {
            if self.whitelisted_cw20s[i] == *asset {
                return true;
            }
            i = i + 1;
        }
        false
    }
}

impl Borrower {
    /// A borrower who has pledged nothing.
    pub fn new() -> (r: Borrower)
        ensures
            r.guardians@.len() == 0,
            r.wf(),
    {
        Borrower { guardians: Vec::new() }
    }

    /// No asset is pledged twice.
    pub open spec fn wf(&self) -> bool {
        distinct(self.guardians@)
    }

    /// The place of the guardian that holds the asset.
    pub fn position(&self, asset: &String) -> (r: Option<usize>)
        ensures
            r is Some <==> holder(self.guardians@, asset@, 0) < self.guardians.len(),
            r matches Some(at) ==> at == holder(self.guardians@, asset@, 0),
    {
        let mut i: usize = 0;
        while i < self.guardians.len()
            invariant
                i <= self.guardians.len(),
                holder(self.guardians@, asset@, 0) == holder(self.guardians@, asset@, i as int),
            decreases self.guardians.len() - i,
        {
            if self.guardians[i].address == *asset {
                return Some(i);
            }
            i = i + 1;
        }
        None
    }

    /// Pledges a guardian: an earlier pledge of the same asset is replaced,
    /// and the new pledge takes the last place in the priority order.
    pub fn pledge(&mut self, guardian: Guardian)
        ensures
            final(self).guardians@ == pledged(old(self).guardians@, guardian),
            old(self).wf() ==> final(self).wf(),
    {
        proof {
            if self.wf() {
                lemma_pledged(self.guardians@, guardian);
            }
        }
        match self.position(&guardian.address) {
            Some(at) => {
                self.guardians.remove(at);
            },
            None => {},
        }
        self.guardians.push(guardian);
    }

    /// Whether no asset is pledged twice.
    pub fn is_well_formed(&self) -> (r: bool)
        ensures
            r == self.wf(),
    {
        let mut j: usize = 0;
        while j < self.guardians.len()
            invariant
                j <= self.guardians.len(),
                forall|a: int, b: int|
                    0 <= a < b < j ==> self.guardians[a].address@ != self.guardians[b].address@,
            decreases self.guardians.len() - j,
        {
            let mut i: usize = 0;
            while i < j
                invariant
                    i <= j < self.guardians.len(),
                    forall|a: int|
                        0 <= a < i ==> self.guardians[a].address@ != self.guardians[j as int].address@,
                decreases j - i,
            {
                if self.guardians[i].address == self.guardians[j].address {
                    return false;
                }
                i = i + 1;
            }
            j = j + 1;
        }
        true
    }
}

} // verus!
