use vstd::prelude::*;

use crate::calculator::spec_unlocked;
use crate::calculator::spec_withdrawable;
use crate::calculator::withdrawable_amount;
use crate::errors::VestingError;
use crate::records::CompanyVestingConfig;
use crate::records::ConfigId;
use crate::records::EmployeeGrant;
use crate::records::GrantId;
use crate::records::MAX_COMPANY_NAME_LEN;
use crate::records::config_wf;
use crate::records::grant_key;
use crate::records::grant_wf;
use crate::records::name_ok;
use crate::records::same_but_withdrawn;
use crate::records::schedule_ok;

verus! {

/// Durable storage for vesting configs and grants, with identity-gated
/// creation and an atomic check-then-increment on withdrawals.
///
/// Configs are keyed by company name, grants by the (config, beneficiary)
/// pair; both keys are unique, so the records are name-addressable.
pub struct VestingLedger {
    /// One record per registered company name.
    pub configs: Vec<CompanyVestingConfig>,
    /// One record per (config, beneficiary) pair.
    pub grants: Vec<EmployeeGrant>,
}

/// Whether some config is registered under `name`.
pub open spec fn has_config(l: VestingLedger, name: Seq<u8>) -> bool {
    exists|i: int| 0 <= i < l.configs@.len() && #[trigger] l.configs@[i].company_name@ == name
}

/// The index of the config registered under `name`.
pub open spec fn config_index(l: VestingLedger, name: Seq<u8>) -> int
    recommends
        has_config(l, name),
{
    choose|i: int| 0 <= i < l.configs@.len() && #[trigger] l.configs@[i].company_name@ == name
}

/// The config registered under `name`.
pub open spec fn config_at(l: VestingLedger, name: Seq<u8>) -> CompanyVestingConfig
    recommends
        has_config(l, name),
{
    l.configs@[config_index(l, name)]
}

/// Whether some grant exists for `beneficiary` under the config named `name`.
pub open spec fn has_grant(l: VestingLedger, name: Seq<u8>, beneficiary: u64) -> bool {
    exists|i: int|
        0 <= i < l.grants@.len() && #[trigger] grant_key(l.grants@[i]) == (name, beneficiary)
}

/// The index of the grant for `beneficiary` under the config named `name`.
pub open spec fn grant_index(l: VestingLedger, name: Seq<u8>, beneficiary: u64) -> int
    recommends
        has_grant(l, name, beneficiary),
{
    choose|i: int|
        0 <= i < l.grants@.len() && #[trigger] grant_key(l.grants@[i]) == (name, beneficiary)
}

/// The grant for `beneficiary` under the config named `name`.
pub open spec fn grant_at(l: VestingLedger, name: Seq<u8>, beneficiary: u64) -> EmployeeGrant
    recommends
        has_grant(l, name, beneficiary),
{
    l.grants@[grant_index(l, name, beneficiary)]
}

/// The ledger's invariant: every record is well-formed, both keys are
/// unique, and every grant refers to a registered config.
pub open spec fn ledger_wf(l: VestingLedger) -> bool {
    &&& forall|i: int, j: int|
        0 <= i < j < l.configs@.len() ==> #[trigger] l.configs@[i].company_name@
            != #[trigger] l.configs@[j].company_name@
    &&& forall|i: int| 0 <= i < l.configs@.len() ==> config_wf(#[trigger] l.configs@[i])
    &&& forall|i: int, j: int|
        0 <= i < j < l.grants@.len() ==> #[trigger] grant_key(l.grants@[i]) != #[trigger] grant_key(
            l.grants@[j],
        )
    &&& forall|i: int|
        0 <= i < l.grants@.len() ==> grant_wf(#[trigger] l.grants@[i]) && has_config(
            l,
            l.grants@[i].config_name@,
        )
}

/// In a well-formed ledger the config under a name sits at the one index
/// that carries that name.
pub proof fn lemma_config_at_index(l: VestingLedger, name: Seq<u8>, i: int)
    requires
        ledger_wf(l),
        0 <= i < l.configs@.len(),
        l.configs@[i].company_name@ == name,
    ensures
        has_config(l, name),
        config_index(l, name) == i,
        config_at(l, name) == l.configs@[i],
{
    assert(has_config(l, name));
    let j = config_index(l, name);
    if i < j {
        assert(l.configs@[i].company_name@ != l.configs@[j].company_name@);
    } else if j < i {
        assert(l.configs@[j].company_name@ != l.configs@[i].company_name@);
    }
}

/// In a well-formed ledger the grant under a key sits at the one index that
/// carries that key.
pub proof fn lemma_grant_at_index(l: VestingLedger, name: Seq<u8>, beneficiary: u64, i: int)
    requires
        ledger_wf(l),
        0 <= i < l.grants@.len(),
        grant_key(l.grants@[i]) == (name, beneficiary),
    ensures
        has_grant(l, name, beneficiary),
        grant_index(l, name, beneficiary) == i,
        grant_at(l, name, beneficiary) == l.grants@[i],
{
    assert(has_grant(l, name, beneficiary));
    let j = grant_index(l, name, beneficiary);
    if i < j {
        assert(grant_key(l.grants@[i]) != grant_key(l.grants@[j]));
    } else if j < i {
        assert(grant_key(l.grants@[j]) != grant_key(l.grants@[i]));
    }
}

/// Byte-for-byte equality of two byte strings.
fn bytes_eq(a: &Vec<u8>, b: &Vec<u8>) -> (r: bool)
    ensures
        r == (a@ == b@),
{
    if a.len() != b.len() {
        return false;
    }
    let n = a.len();
    let mut i: usize = 0;
    while i < n
        invariant
            i <= n,
            n == a@.len(),
            n == b@.len(),
            forall|j: int| 0 <= j < i ==> a@[j] == b@[j],
        decreases n - i,
    {
        if a[i] != b[i] {
            return false;
        }
        i += 1;
    }
    proof {
        assert(a@ =~= b@);
    }
    true
}

/// A fresh copy of a byte string.
fn copy_bytes(a: &Vec<u8>) -> (r: Vec<u8>)
    ensures
        r@ == a@,
{
    let n = a.len();
    let mut r: Vec<u8> = Vec::new();
    let mut i: usize = 0;
    while i < n
        invariant
            i <= n,
            n == a@.len(),
            r@ =~= a@.subrange(0, i as int),
        decreases n - i,
    {
        r.push(a[i]);
        i += 1;
    }
    proof {
        assert(r@ =~= a@);
    }
    r
}

impl VestingLedger {
    /// An empty ledger.
    pub fn new() -> (r: VestingLedger)
        ensures
            ledger_wf(r),
            r.configs@.len() == 0,
            r.grants@.len() == 0,
    {
        VestingLedger { configs: Vec::new(), grants: Vec::new() }
    }

    /// The index of the config registered under `name`, if any.
    fn find_config(&self, name: &Vec<u8>) -> (r: Option<usize>)
        ensures
            r is Some <==> has_config(*self, name@),
            r matches Some(i) ==> 0 <= i < self.configs@.len()
                && self.configs@[i as int].company_name@ == name@,
    {
        let n = self.configs.len();
        let mut i: usize = 0;
        while i < n
            invariant
                i <= n,
                n == self.configs@.len(),
                forall|j: int| 0 <= j < i ==> #[trigger] self.configs@[j].company_name@ != name@,
            decreases n - i,
        {
            if bytes_eq(&self.configs[i].company_name, name) {
                return Some(i);
            }
            i += 1;
        }
        None
    }

    /// The index of the grant for `beneficiary` under the config named
    /// `name`, if any.
    fn find_grant(&self, name: &Vec<u8>, beneficiary: u64) -> (r: Option<usize>)
        ensures
            r is Some <==> has_grant(*self, name@, beneficiary),
            r matches Some(i) ==> 0 <= i < self.grants@.len() && grant_key(self.grants@[i as int])
                == (name@, beneficiary),
    {
        let n = self.grants.len();
        let mut i: usize = 0;
        while i < n
            invariant
                i <= n,
                n == self.grants@.len(),
                forall|j: int| 0 <= j < i ==> #[trigger] grant_key(self.grants@[j]) != (
                    name@,
                    beneficiary,
                ),
            decreases n - i,
        {
            if self.grants[i].beneficiary == beneficiary && bytes_eq(
                &self.grants[i].config_name,
                name,
            ) {
                proof {
                    assert(grant_key(self.grants@[i as int]) == (name@, beneficiary));
                }
                return Some(i);
            }
            i += 1;
        }
        None
    }

    /// Registers a new company vesting config under `company_name`.
    ///
    /// Fails with `InvalidInput` when the name is empty or longer than
    /// `MAX_COMPANY_NAME_LEN` bytes, and with `DuplicateConfig` when the name
    /// is already registered; a failed call leaves the ledger unchanged. On
    /// success the config is appended and its name-derived identifier is
    /// returned.
    pub fn create_config(
        &mut self,
        owner: u64,
        token_mint: u64,
        treasury_account: u64,
        company_name: Vec<u8>,
    ) -> (r: Result<ConfigId, VestingError>)
        requires
            ledger_wf(*old(self)),
        ensures
            ledger_wf(*final(self)),
            final(self).grants@ == old(self).grants@,
            r is Ok <==> name_ok(company_name@) && !has_config(*old(self), company_name@),
            !name_ok(company_name@) ==> r == Err::<ConfigId, VestingError>(
                VestingError::InvalidInput,
            ) && *final(self) == *old(self),
            name_ok(company_name@) && has_config(*old(self), company_name@) ==> r == Err::<
                ConfigId,
                VestingError,
            >(VestingError::DuplicateConfig) && *final(self) == *old(self),
            r matches Ok(id) ==> {
                &&& id.name@ == company_name@
                &&& final(self).configs@.len() == old(self).configs@.len() + 1
                &&& (forall|i: int|
                    0 <= i < old(self).configs@.len() ==> final(self).configs@[i] == old(
                        self,
                    ).configs@[i])
                &&& has_config(*final(self), company_name@)
                &&& config_at(*final(self), company_name@) == final(self).configs@.last()
                &&& final(self).configs@.last().owner == owner
                &&& final(self).configs@.last().token_mint == token_mint
                &&& final(self).configs@.last().treasury_account == treasury_account
                &&& final(self).configs@.last().company_name@ == company_name@
            },
    {
        if company_name.len() == 0 || company_name.len() > MAX_COMPANY_NAME_LEN {
            return Err(VestingError::InvalidInput);
        }
        if self.find_config(&company_name).is_some() {
            return Err(VestingError::DuplicateConfig);
        }
        let id_name = copy_bytes(&company_name);
        let cfg = CompanyVestingConfig { owner, token_mint, treasury_account, company_name };
        self.grow_configs(cfg);
        Ok(ConfigId { name: id_name })
    }

    /// Appends a config whose name is not yet registered, preserving the
    /// ledger invariant.
    fn grow_configs(&mut self, cfg: CompanyVestingConfig)
        requires
            ledger_wf(*old(self)),
            config_wf(cfg),
            !has_config(*old(self), cfg.company_name@),
        ensures
            ledger_wf(*final(self)),
            final(self).grants@ == old(self).grants@,
            final(self).configs@ == old(self).configs@.push(cfg),
            has_config(*final(self), cfg.company_name@),
            config_at(*final(self), cfg.company_name@) == cfg,
    {
        let ghost old_l = *self;
        self.configs.push(cfg);
        proof {
            let l = *self;
            let n = old_l.configs@.len() as int;
            assert forall|i: int|
                0 <= i < n implies #[trigger] l.configs@[i].company_name@
                != cfg.company_name@ by {
                if l.configs@[i].company_name@ == cfg.company_name@ {
                    assert(old_l.configs@[i].company_name@ == cfg.company_name@);
                    assert(has_config(old_l, cfg.company_name@));
                }
            }
            assert(l.configs@[n].company_name@ == cfg.company_name@);
            assert(has_config(l, cfg.company_name@));
            assert forall|i: int|
                0 <= i < l.grants@.len() implies grant_wf(#[trigger] l.grants@[i]) && has_config(
                l,
                l.grants@[i].config_name@,
            ) by {
                assert(grant_wf(old_l.grants@[i]));
                assert(has_config(old_l, l.grants@[i].config_name@));
                let j = config_index(old_l, l.grants@[i].config_name@);
                assert(l.configs@[j].company_name@ == l.grants@[i].config_name@);
            }
            assert(ledger_wf(l));
            lemma_config_at_index(l, cfg.company_name@, n);
        }
    }

    /// Creates a vesting grant for `beneficiary` under the config identified
    /// by `config_id`.
    ///
    /// Fails with `NotFound` when no such config exists, `Unauthorized`
    /// unless `requester` is the config's owner, `InvalidSchedule` unless
    /// `start_time <= cliff_time <= end_time`, `InvalidInput` when
    /// `total_amount` is negative, and `DuplicateGrant` when the
    /// (config, beneficiary) pair already has a grant; a failed call leaves
    /// the ledger unchanged. On success the grant is appended with nothing
    /// withdrawn yet and its pair-derived identifier is returned.
    pub fn create_grant(
        &mut self,
        requester: u64,
        config_id: &ConfigId,
        beneficiary: u64,
        start_time: i64,
        cliff_time: i64,
        end_time: i64,
        total_amount: i64,
    ) -> (r: Result<GrantId, VestingError>)
        requires
            ledger_wf(*old(self)),
        ensures
            ledger_wf(*final(self)),
            final(self).configs@ == old(self).configs@,
            r is Ok <==> {
                &&& has_config(*old(self), config_id.name@)
                &&& config_at(*old(self), config_id.name@).owner == requester
                &&& schedule_ok(start_time as int, cliff_time as int, end_time as int)
                &&& total_amount >= 0
                &&& !has_grant(*old(self), config_id.name@, beneficiary)
            },
            r is Err ==> *final(self) == *old(self),
            !has_config(*old(self), config_id.name@) ==> r == Err::<GrantId, VestingError>(
                VestingError::NotFound,
            ),
            has_config(*old(self), config_id.name@) && config_at(*old(self), config_id.name@).owner
                != requester ==> r == Err::<GrantId, VestingError>(VestingError::Unauthorized),
            has_config(*old(self), config_id.name@) && config_at(*old(self), config_id.name@).owner
                == requester && !schedule_ok(start_time as int, cliff_time as int, end_time as int)
                ==> r == Err::<GrantId, VestingError>(VestingError::InvalidSchedule),
            has_config(*old(self), config_id.name@) && config_at(*old(self), config_id.name@).owner
                == requester && schedule_ok(start_time as int, cliff_time as int, end_time as int)
                && total_amount < 0 ==> r == Err::<GrantId, VestingError>(
                VestingError::InvalidInput,
            ),
            has_config(*old(self), config_id.name@) && config_at(*old(self), config_id.name@).owner
                == requester && schedule_ok(start_time as int, cliff_time as int, end_time as int)
                && total_amount >= 0 && has_grant(*old(self), config_id.name@, beneficiary) ==> r
                == Err::<GrantId, VestingError>(VestingError::DuplicateGrant),
            r matches Ok(id) ==> {
                &&& id.config_name@ == config_id.name@
                &&& id.beneficiary == beneficiary
                &&& final(self).grants@.len() == old(self).grants@.len() + 1
                &&& (forall|i: int|
                    0 <= i < old(self).grants@.len() ==> final(self).grants@[i] == old(
                        self,
                    ).grants@[i])
                &&& has_grant(*final(self), config_id.name@, beneficiary)
                &&& grant_at(*final(self), config_id.name@, beneficiary)
                    == final(self).grants@.last()
                &&& final(self).grants@.last().beneficiary == beneficiary
                &&& final(self).grants@.last().start_time == start_time
                &&& final(self).grants@.last().cliff_time == cliff_time
                &&& final(self).grants@.last().end_time == end_time
                &&& final(self).grants@.last().total_amount == total_amount
                &&& final(self).grants@.last().withdrawn_amount == 0
                &&& final(self).grants@.last().config_name@ == config_id.name@
            },
    {
        let idx = match self.find_config(&config_id.name) {
            Some(i) => i,
            None => { return Err(VestingError::NotFound) },
        };
        proof {
            lemma_config_at_index(*self, config_id.name@, idx as int);
        }
        if self.configs[idx].owner != requester {
            return Err(VestingError::Unauthorized);
        }
        if !(start_time <= cliff_time && cliff_time <= end_time) {
            return Err(VestingError::InvalidSchedule);
        }
        if total_amount < 0 {
            return Err(VestingError::InvalidInput);
        }
        if self.find_grant(&config_id.name, beneficiary).is_some() {
            return Err(VestingError::DuplicateGrant);
        }
        let id_name = copy_bytes(&config_id.name);
        let grant = EmployeeGrant {
            beneficiary,
            start_time,
            cliff_time,
            end_time,
            total_amount,
            withdrawn_amount: 0,
            config_name: copy_bytes(&config_id.name),
        };
        self.grow_grants(grant);
        Ok(GrantId { config_name: id_name, beneficiary })
    }

    /// Appends a grant whose key is not yet taken and whose config is
    /// registered, preserving the ledger invariant.
    fn grow_grants(&mut self, grant: EmployeeGrant)
        requires
            ledger_wf(*old(self)),
            grant_wf(grant),
            has_config(*old(self), grant.config_name@),
            !has_grant(*old(self), grant.config_name@, grant.beneficiary),
        ensures
            ledger_wf(*final(self)),
            final(self).configs@ == old(self).configs@,
            final(self).grants@ == old(self).grants@.push(grant),
            has_grant(*final(self), grant.config_name@, grant.beneficiary),
            grant_at(*final(self), grant.config_name@, grant.beneficiary) == grant,
    {
        let ghost old_l = *self;
        self.grants.push(grant);
        proof {
            let l = *self;
            let n = old_l.grants@.len() as int;
            assert forall|i: int|
                0 <= i < n implies #[trigger] grant_key(l.grants@[i]) != grant_key(
                grant,
            ) by {
                if grant_key(l.grants@[i]) == grant_key(grant) {
                    assert(grant_key(old_l.grants@[i]) == (
                        grant.config_name@,
                        grant.beneficiary,
                    ));
                    assert(has_grant(old_l, grant.config_name@, grant.beneficiary));
                }
            }
            assert(grant_key(l.grants@[n]) == (grant.config_name@, grant.beneficiary));
            assert(has_grant(l, grant.config_name@, grant.beneficiary));
            assert forall|i: int|
                0 <= i < l.grants@.len() implies grant_wf(#[trigger] l.grants@[i]) && has_config(
                l,
                l.grants@[i].config_name@,
            ) by {
                let name = l.grants@[i].config_name@;
                if i < n {
                    assert(grant_wf(old_l.grants@[i]));
                    assert(has_config(old_l, name));
                } else {
                    assert(has_config(old_l, name));
                }
                let j = config_index(old_l, name);
                assert(l.configs@[j].company_name@ == name);
            }
            assert(ledger_wf(l));
            lemma_grant_at_index(l, grant.config_name@, grant.beneficiary, n);
        }
    }

    /// Records a withdrawal of `amount` against the grant identified by
    /// `grant_id`, checked against the amount unlocked at time `now`.
    ///
    /// Fails with `NotFound` when no such grant exists, `InvalidInput` when
    /// `amount` is negative, and `InsufficientUnlocked` when `amount`
    /// exceeds the currently withdrawable amount; a failed call leaves the
    /// ledger unchanged. On success the grant's withdrawn amount grows by
    /// `amount` and nothing else changes: the permission check and the
    /// increment form one critical section, so no two withdrawals can both
    /// draw on the same unlocked balance.
    pub fn record_withdrawal(&mut self, grant_id: &GrantId, now: i64, amount: i64) -> (r: Result<
        (),
        VestingError,
    >)
        requires
            ledger_wf(*old(self)),
        ensures
            ledger_wf(*final(self)),
            final(self).configs@ == old(self).configs@,
            final(self).grants@.len() == old(self).grants@.len(),
            r is Ok <==> has_grant(*old(self), grant_id.config_name@, grant_id.beneficiary) && 0
                <= amount as int <= spec_withdrawable(
                grant_at(*old(self), grant_id.config_name@, grant_id.beneficiary),
                now as int,
            ),
            r is Err ==> *final(self) == *old(self),
            !has_grant(*old(self), grant_id.config_name@, grant_id.beneficiary) ==> r == Err::<
                (),
                VestingError,
            >(VestingError::NotFound),
            has_grant(*old(self), grant_id.config_name@, grant_id.beneficiary) && amount < 0 ==> r
                == Err::<(), VestingError>(VestingError::InvalidInput),
            has_grant(*old(self), grant_id.config_name@, grant_id.beneficiary) && amount >= 0
                && amount as int > spec_withdrawable(
                grant_at(*old(self), grant_id.config_name@, grant_id.beneficiary),
                now as int,
            ) ==> r == Err::<(), VestingError>(VestingError::InsufficientUnlocked),
            r is Ok ==> {
                &&& (forall|i: int|
                    0 <= i < old(self).grants@.len() && i != grant_index(
                        *old(self),
                        grant_id.config_name@,
                        grant_id.beneficiary,
                    ) ==> final(self).grants@[i] == old(self).grants@[i])
                &&& has_grant(*final(self), grant_id.config_name@, grant_id.beneficiary)
                &&& grant_index(*final(self), grant_id.config_name@, grant_id.beneficiary)
                    == grant_index(*old(self), grant_id.config_name@, grant_id.beneficiary)
                &&& same_but_withdrawn(
                    grant_at(*old(self), grant_id.config_name@, grant_id.beneficiary),
                    grant_at(*final(self), grant_id.config_name@, grant_id.beneficiary),
                )
                &&& grant_at(
                    *final(self),
                    grant_id.config_name@,
                    grant_id.beneficiary,
                ).withdrawn_amount as int == grant_at(
                    *old(self),
                    grant_id.config_name@,
                    grant_id.beneficiary,
                ).withdrawn_amount as int + amount as int
                &&& amount > 0 ==> grant_at(
                    *final(self),
                    grant_id.config_name@,
                    grant_id.beneficiary,
                ).withdrawn_amount as int <= spec_unlocked(
                    grant_at(*final(self), grant_id.config_name@, grant_id.beneficiary),
                    now as int,
                )
            },
    {
        let ghost name = grant_id.config_name@;
        let ghost b = grant_id.beneficiary;
        let idx = match self.find_grant(&grant_id.config_name, grant_id.beneficiary) {
            Some(i) => i,
            None => { return Err(VestingError::NotFound) },
        };
        proof {
            lemma_grant_at_index(*self, name, b, idx as int);
        }
        if amount < 0 {
            return Err(VestingError::InvalidInput);
        }
        let available = withdrawable_amount(&self.grants[idx], now);
        if amount > available {
            return Err(VestingError::InsufficientUnlocked);
        }
        proof {
            crate::calculator::lemma_unlocked_bounds(self.grants@[idx as int], now as int);
        }
        let prior = &self.grants[idx];
        let updated = EmployeeGrant {
            beneficiary: prior.beneficiary,
            start_time: prior.start_time,
            cliff_time: prior.cliff_time,
            end_time: prior.end_time,
            total_amount: prior.total_amount,
            withdrawn_amount: prior.withdrawn_amount + amount,
            config_name: copy_bytes(&prior.config_name),
        };
        let ghost old_l = *self;
        self.grants.set(idx, updated);
        proof {
            let l = *self;
            let n = l.grants@.len() as int;
            assert(grant_key(updated) == grant_key(old_l.grants@[idx as int]));
            assert forall|i: int, j: int|
                0 <= i < j < n implies #[trigger] grant_key(l.grants@[i]) != #[trigger] grant_key(
                l.grants@[j],
            ) by {
                assert(grant_key(l.grants@[i]) == grant_key(old_l.grants@[i]));
                assert(grant_key(l.grants@[j]) == grant_key(old_l.grants@[j]));
            }
            assert forall|i: int|
                0 <= i < n implies grant_wf(#[trigger] l.grants@[i]) && has_config(
                l,
                l.grants@[i].config_name@,
            ) by {
                assert(grant_wf(old_l.grants@[i]));
                assert(has_config(old_l, old_l.grants@[i].config_name@));
                assert(l.grants@[i].config_name@ == old_l.grants@[i].config_name@);
                let j = config_index(old_l, old_l.grants@[i].config_name@);
                assert(l.configs@[j].company_name@ == l.grants@[i].config_name@);
            }
            assert(ledger_wf(l));
            lemma_grant_at_index(l, name, b, idx as int);
        }
        Ok(())
    }

    /// Withdraws `requested_amount` from the grant identified by `grant_id`
    /// at time `now` and returns the amount actually paid, which is always
    /// the full requested amount: no partial auto-clamping, so nothing less
    /// than what was asked for is ever silently paid.
    ///
    /// Fails exactly as `record_withdrawal` does, leaving the ledger
    /// unchanged.
    pub fn withdraw(&mut self, grant_id: &GrantId, now: i64, requested_amount: i64) -> (r: Result<
        i64,
        VestingError,
    >)
        requires
            ledger_wf(*old(self)),
        ensures
            ledger_wf(*final(self)),
            final(self).configs@ == old(self).configs@,
            final(self).grants@.len() == old(self).grants@.len(),
            r is Ok <==> has_grant(*old(self), grant_id.config_name@, grant_id.beneficiary) && 0
                <= requested_amount as int <= spec_withdrawable(
                grant_at(*old(self), grant_id.config_name@, grant_id.beneficiary),
                now as int,
            ),
            r is Err ==> *final(self) == *old(self),
            !has_grant(*old(self), grant_id.config_name@, grant_id.beneficiary) ==> r == Err::<
                i64,
                VestingError,
            >(VestingError::NotFound),
            has_grant(*old(self), grant_id.config_name@, grant_id.beneficiary)
                && requested_amount < 0 ==> r == Err::<i64, VestingError>(
                VestingError::InvalidInput,
            ),
            has_grant(*old(self), grant_id.config_name@, grant_id.beneficiary)
                && requested_amount >= 0 && requested_amount as int > spec_withdrawable(
                grant_at(*old(self), grant_id.config_name@, grant_id.beneficiary),
                now as int,
            ) ==> r == Err::<i64, VestingError>(VestingError::InsufficientUnlocked),
            r matches Ok(paid) ==> {
                &&& paid == requested_amount
                &&& (forall|i: int|
                    0 <= i < old(self).grants@.len() && i != grant_index(
                        *old(self),
                        grant_id.config_name@,
                        grant_id.beneficiary,
                    ) ==> final(self).grants@[i] == old(self).grants@[i])
                &&& has_grant(*final(self), grant_id.config_name@, grant_id.beneficiary)
                &&& grant_index(*final(self), grant_id.config_name@, grant_id.beneficiary)
                    == grant_index(*old(self), grant_id.config_name@, grant_id.beneficiary)
                &&& same_but_withdrawn(
                    grant_at(*old(self), grant_id.config_name@, grant_id.beneficiary),
                    grant_at(*final(self), grant_id.config_name@, grant_id.beneficiary),
                )
                &&& grant_at(
                    *final(self),
                    grant_id.config_name@,
                    grant_id.beneficiary,
                ).withdrawn_amount as int == grant_at(
                    *old(self),
                    grant_id.config_name@,
                    grant_id.beneficiary,
                ).withdrawn_amount as int + requested_amount as int
            },
    {
        match self.record_withdrawal(grant_id, now, requested_amount) {
            Ok(_) => Ok(requested_amount),
            Err(e) => Err(e),
        }
    }

    /// The config registered under the given identifier, if any.
    pub fn get_config(&self, config_id: &ConfigId) -> (r: Option<&CompanyVestingConfig>)
        requires
            ledger_wf(*self),
        ensures
            r is Some <==> has_config(*self, config_id.name@),
            r matches Some(c) ==> *c == config_at(*self, config_id.name@),
    {
        match self.find_config(&config_id.name) {
            Some(i) => {
                proof {
                    lemma_config_at_index(*self, config_id.name@, i as int);
                }
                Some(&self.configs[i])
            },
            None => None,
        }
    }

    /// The grant registered under the given identifier, if any.
    pub fn get_grant(&self, grant_id: &GrantId) -> (r: Option<&EmployeeGrant>)
        requires
            ledger_wf(*self),
        ensures
            r is Some <==> has_grant(*self, grant_id.config_name@, grant_id.beneficiary),
            r matches Some(g) ==> *g == grant_at(
                *self,
                grant_id.config_name@,
                grant_id.beneficiary,
            ),
    {
        match self.find_grant(&grant_id.config_name, grant_id.beneficiary) {
            Some(i) => {
                proof {
                    lemma_grant_at_index(
                        *self,
                        grant_id.config_name@,
                        grant_id.beneficiary,
                        i as int,
                    );
                }
                Some(&self.grants[i])
            },
            None => None,
        }
    }
}

} // verus!
