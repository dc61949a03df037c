use vstd::prelude::*;

use crate::guard::{guarded_transfer, transfer_allowed, GuardedTransfer, TransferOrder};
use crate::key::Key;
use crate::policy::{
    fresh_config, graduated_by, init_config, is_authorized, set_graduated, Config, CustomError,
    InitConfig, SetGraduated,
};

verus! {

/// The policies after creating one for `asset`: a new record when the asset
/// has none, and no change when it has one.
pub open spec fn created(
    policies: Map<Key, Config>,
    asset: Key,
    authority: Key,
    max_percent: u8,
) -> Map<Key, Config> {
    if policies.contains_key(asset) {
        policies
    } else {
        policies.insert(asset, fresh_config(authority, max_percent))
    }
}

/// The policies after `signer` asks to set the graduation flag of `asset`.
pub open spec fn graduation_set(
    policies: Map<Key, Config>,
    asset: Key,
    signer: Key,
    graduated: bool,
) -> Map<Key, Config> {
    if policies.contains_key(asset) {
        policies.insert(asset, graduated_by(policies[asset], signer, graduated))
    } else {
        policies
    }
}

/// An operation that callers can ask of a store of policies.
pub enum PolicyOp {
    Create { asset: Key, authority: Key, max_percent: u8 },
    SetGraduated { asset: Key, signer: Key, graduated: bool },
    Transfer { asset: Key, supply: u64, decimals: u8, destination_balance: u64, amount: u64 },
}

/// The policies after one operation, whether it succeeds or fails. A transfer
/// only reads the store.
pub open spec fn apply_op(policies: Map<Key, Config>, op: PolicyOp) -> Map<Key, Config> {
    match op {
        PolicyOp::Create { asset, authority, max_percent } => created(
            policies,
            asset,
            authority,
            max_percent,
        ),
        PolicyOp::SetGraduated { asset, signer, graduated } => graduation_set(
            policies,
            asset,
            signer,
            graduated,
        ),
        PolicyOp::Transfer { .. } => policies,
    }
}

/// The policies after a sequence of operations, in order.
pub open spec fn apply_ops(policies: Map<Key, Config>, ops: Seq<PolicyOp>) -> Map<Key, Config>
    decreases ops.len(),
{
    if ops.len() == 0 {
        policies
    } else {
        apply_ops(apply_op(policies, ops[0]), ops.drop_first())
    }
}

/// Once a policy exists, no sequence of operations removes it or changes its
/// authority.
pub proof fn authority_never_changes(policies: Map<Key, Config>, ops: Seq<PolicyOp>, asset: Key)
    requires
        policies.contains_key(asset),
    ensures
        apply_ops(policies, ops).contains_key(asset),
        apply_ops(policies, ops)[asset].authority == policies[asset].authority,
    decreases ops.len(),
{
    if ops.len() > 0 {
        authority_never_changes(apply_op(policies, ops[0]), ops.drop_first(), asset);
    }
}

struct PolicyEntry {
    asset: Key,
    config: Config,
}

/// The policy records of all governed assets, at most one per asset.
pub struct PolicyStore {
    entries: Vec<PolicyEntry>,
}

impl View for PolicyStore {
    type V = Map<Key, Config>;

    closed spec fn view(&self) -> Map<Key, Config> {
        Map::new(
            |k: Key| exists|i: int| 0 <= i < self.entries.len() && self.entries[i].asset == k,
            |k: Key|
                self.entries[choose|i: int|
                    0 <= i < self.entries.len() && self.entries[i].asset == k].config,
        )
    }
}

impl PolicyStore {
    /// No two records govern the same asset.
    pub closed spec fn wf(&self) -> bool {
        forall|i: int, j: int|
            0 <= i < j < self.entries.len() ==> self.entries[i].asset != self.entries[j].asset
    }

    proof fn lemma_entry_in_view(&self, i: int)
        requires
            self.wf(),
            0 <= i < self.entries.len(),
        ensures
            self@.contains_key(self.entries[i].asset),
            self@[self.entries[i].asset] == self.entries[i].config,
    {
        let k = self.entries[i].asset;
        let j = choose|j: int| 0 <= j < self.entries.len() && self.entries[j].asset == k;
        assert(0 <= j < self.entries.len() && self.entries[j].asset == k);
        if j < i {
            assert(self.entries[j].asset != self.entries[i].asset);
        } else if i < j {
            assert(self.entries[i].asset != self.entries[j].asset);
        }
    }

    /// A store with no policies.
    pub fn new() -> (r: PolicyStore)
        ensures
            r.wf(),
            r@ == Map::<Key, Config>::empty(),
    {
        let r = PolicyStore { entries: Vec::new() };
        assert(r@ =~= Map::<Key, Config>::empty());
        r
    }

    fn find(&self, asset: &Key) -> (r: Option<usize>)
        requires
            self.wf(),
        ensures
            r is None ==> !self@.contains_key(*asset),
            r matches Some(i) ==> i < self.entries.len() && self.entries[i as int].asset
                == *asset,
    {
        let mut i: usize = 0;
        while i < self.entries.len()
            invariant
                self.wf(),
                0 <= i <= self.entries.len(),
                forall|j: int| 0 <= j < i ==> self.entries[j].asset != *asset,
            decreases self.entries.len() - i,
        {
            if self.entries[i].asset.same_as(asset) {
                return Some(i);
            }
            i = i + 1;
        }
        None
    }

    /// The policy of `asset`, if it has one.
    pub fn get(&self, asset: &Key) -> (r: Option<Config>)
        requires
            self.wf(),
        ensures
            r == (if self@.contains_key(*asset) {
                Some(self@[*asset])
            } else {
                None::<Config>
            }),
    {
        match self.find(asset) {
            Some(i) => {
                proof {
                    self.lemma_entry_in_view(i as int);
                }
                Some(self.entries[i].config)
            },
            None => None,
        }
    }

    /// Creates the policy of `asset`, with `authority` as its authority and a
    /// cap of `max_percent`. Fails with `AlreadyInitialized`, changing
    /// nothing, when the asset already has a policy.
    pub fn create_policy(&mut self, asset: Key, authority: Key, max_percent: u8) -> (r: Result<
        (),
        CustomError,
    >)
        requires
            old(self).wf(),
        ensures
            final(self).wf(),
            final(self)@ == created(old(self)@, asset, authority, max_percent),
            r is Ok <==> !old(self)@.contains_key(asset),
            r is Err ==> r == Err::<(), CustomError>(CustomError::AlreadyInitialized),
    {
        let existing = self.get(&asset);
        let mut ctx = InitConfig { config: existing, authority };
        let r = init_config(&mut ctx, max_percent);
        if let Some(config) = ctx.config {
            if r.is_ok() {
                let ghost before = self.entries@;
                let entry = PolicyEntry { asset, config };
                self.entries.push(entry);
                proof {
                    assert forall|i: int, j: int|
                        0 <= i < j < self.entries.len() implies self.entries[i].asset
                        != self.entries[j].asset by {
                        if j == before.len() {
                            assert(before[i] == self.entries[i]);
                            assert(old(self)@.contains_key(before[i].asset));
                        }
                    }
                    self.lemma_entry_in_view(before.len() as int);
                    let grown = old(self)@.insert(asset, config);
                    assert forall|k: Key| #[trigger]
                        grown.contains_key(k) implies self@.contains_key(k) && self@[k] == grown[k] by {
                        if k != asset {
                            let j = choose|j: int| 0 <= j < before.len() && before[j].asset == k;
                            old(self).lemma_entry_in_view(j);
                            assert(self.entries[j] == before[j]);
                            self.lemma_entry_in_view(j);
                        }
                    }
                    assert forall|k: Key| #[trigger]
                        self@.contains_key(k) implies grown.contains_key(k) by {
                        let j = choose|j: int|
                            0 <= j < self.entries.len() && self.entries[j].asset == k;
                        if j < before.len() {
                            assert(self.entries[j] == before[j]);
                        }
                    }
                    assert(self@ =~= grown);
                }
            }
        }
        r
    }

    /// Sets the graduation flag of `asset` on behalf of `signer`. Fails with
    /// `NotInitialized` when the asset has no policy, and with `Unauthorized`
    /// when the signer is not its authority; a failure changes nothing.
    pub fn set_graduated(&mut self, asset: &Key, signer: &Key, graduated: bool) -> (r: Result<
        (),
        CustomError,
    >)
        requires
            old(self).wf(),
        ensures
            final(self).wf(),
            final(self)@ == graduation_set(old(self)@, *asset, *signer, graduated),
            !old(self)@.contains_key(*asset) ==> r == Err::<(), CustomError>(
                CustomError::NotInitialized,
            ),
            old(self)@.contains_key(*asset) ==> (r is Ok <==> is_authorized(
                old(self)@[*asset],
                *signer,
            )),
            old(self)@.contains_key(*asset) && r is Err ==> r == Err::<(), CustomError>(
                CustomError::Unauthorized,
            ),
    {
        let i = match self.find(asset) {
            Some(i) => i,
            None => {
                return Err(CustomError::NotInitialized);
            },
        };
        proof {
            self.lemma_entry_in_view(i as int);
        }
        let mut ctx = SetGraduated { config: self.entries[i].config, authority: *signer };
        let r = set_graduated(&mut ctx, graduated);
        let ghost before = self.entries@;
        self.entries.set(i, PolicyEntry { asset: *asset, config: ctx.config });
        proof {
            assert forall|a: int, b: int|
                0 <= a < b < self.entries.len() implies self.entries[a].asset
                != self.entries[b].asset by {
                assert(self.entries[a].asset == before[a].asset);
                assert(self.entries[b].asset == before[b].asset);
            }
            self.lemma_entry_in_view(i as int);
            let changed = old(self)@.insert(*asset, ctx.config);
            assert forall|k: Key| #[trigger]
                changed.contains_key(k) implies self@.contains_key(k) && self@[k] == changed[k] by {
                if k != *asset {
                    let j = choose|j: int| 0 <= j < before.len() && before[j].asset == k;
                    old(self).lemma_entry_in_view(j);
                    assert(self.entries[j] == before[j]);
                    self.lemma_entry_in_view(j);
                }
            }
            assert forall|k: Key| #[trigger]
                self@.contains_key(k) implies changed.contains_key(k) by {
                let j = choose|j: int| 0 <= j < self.entries.len() && self.entries[j].asset == k;
                if j != i {
                    assert(self.entries[j] == before[j]);
                }
            }
            assert(self@ =~= changed);
        }
        r
    }

    /// Checks a transfer of `amount` of `asset` to a recipient holding
    /// `destination_balance`, with `supply` units issued, against the asset's
    /// policy. On success hands back the transfer to carry out. Fails with
    /// `NotInitialized` when the asset has no policy and with `OverCap` when
    /// the policy refuses the transfer.
    pub fn guarded_transfer(
        &self,
        asset: &Key,
        supply: u64,
        decimals: u8,
        destination_balance: u64,
        amount: u64,
    ) -> (r: Result<TransferOrder, CustomError>)
        requires
            self.wf(),
        ensures
            !self@.contains_key(*asset) ==> r == Err::<TransferOrder, CustomError>(
                CustomError::NotInitialized,
            ),
            self@.contains_key(*asset) ==> (r is Ok <==> transfer_allowed(
                self@[*asset],
                supply,
                destination_balance,
                amount,
            )),
            self@.contains_key(*asset) && r is Err ==> r == Err::<TransferOrder, CustomError>(
                CustomError::OverCap,
            ),
            r is Ok ==> r == Ok::<TransferOrder, CustomError>(TransferOrder { amount, decimals }),
    {
        match self.get(asset) {
            Some(config) => {
                let ctx = GuardedTransfer { config, supply, decimals, destination_balance };
                guarded_transfer(&ctx, amount)
            },
            None => Err(CustomError::NotInitialized),
        }
    }
}

} // verus!
