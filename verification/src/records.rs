use vstd::prelude::*;

verus! {

/// The longest company name accepted, in bytes.
pub const MAX_COMPANY_NAME_LEN: usize = 30;

/// Identifies one company-level vesting program.
///
/// Identities (`owner`, `token_mint`, `treasury_account`) are opaque values
/// supplied by the host's authorization layer; the core only compares them
/// for equality.
#[derive(Clone, Debug)]
pub struct CompanyVestingConfig {
    /// The identity authorized to create grants under this config.
    pub owner: u64,
    /// Identifies which fungible asset is vested.
    pub token_mint: u64,
    /// The pooled-funds location grants are paid from.
    pub treasury_account: u64,
    /// Human label, non-empty and at most `MAX_COMPANY_NAME_LEN` bytes;
    /// unique per config and part of the config's addressing key.
    pub company_name: Vec<u8>,
}

/// One vesting schedule for one beneficiary under one config.
#[derive(Clone, Debug)]
pub struct EmployeeGrant {
    /// The identity entitled to withdraw.
    pub beneficiary: u64,
    /// Schedule start, in seconds.
    pub start_time: i64,
    /// No tokens are unlocked strictly before this time.
    pub cliff_time: i64,
    /// The schedule is fully vested from this time on.
    pub end_time: i64,
    /// Total tokens granted over the schedule; never negative.
    pub total_amount: i64,
    /// Cumulative amount already paid out; starts at 0 and never exceeds
    /// `total_amount`.
    pub withdrawn_amount: i64,
    /// The company name of the config this grant belongs under.
    pub config_name: Vec<u8>,
}

/// The stable identifier of a config, derived deterministically from the
/// company name, so lookups are name-addressable.
#[derive(Clone, Debug)]
pub struct ConfigId {
    /// The company name the config was registered under.
    pub name: Vec<u8>,
}

/// The stable identifier of a grant, derived deterministically from the
/// (config, beneficiary) pair, so the pair cannot be granted twice.
#[derive(Clone, Debug)]
pub struct GrantId {
    /// The company name of the config the grant belongs under.
    pub config_name: Vec<u8>,
    /// The beneficiary of the grant.
    pub beneficiary: u64,
}

/// A company name is acceptable when it is non-empty and at most
/// `MAX_COMPANY_NAME_LEN` bytes.
pub open spec fn name_ok(name: Seq<u8>) -> bool {
    0 < name.len() <= MAX_COMPANY_NAME_LEN
}

/// Well-formedness of a config record.
pub open spec fn config_wf(c: CompanyVestingConfig) -> bool {
    name_ok(c.company_name@)
}

/// The schedule ordering every grant must satisfy.
pub open spec fn schedule_ok(start_time: int, cliff_time: int, end_time: int) -> bool {
    start_time <= cliff_time <= end_time
}

/// Well-formedness of a grant record: the schedule is ordered, the total is
/// non-negative, and the withdrawn amount stays within `[0, total_amount]`.
pub open spec fn grant_wf(g: EmployeeGrant) -> bool {
    &&& schedule_ok(g.start_time as int, g.cliff_time as int, g.end_time as int)
    &&& 0 <= g.total_amount
    &&& 0 <= g.withdrawn_amount <= g.total_amount
    &&& name_ok(g.config_name@)
}

/// The addressing key of a grant: its config's company name together with
/// its beneficiary.
pub open spec fn grant_key(g: EmployeeGrant) -> (Seq<u8>, u64) {
    (g.config_name@, g.beneficiary)
}

/// `b` agrees with `a` on every field but the withdrawn amount: a withdrawal
/// changes nothing else of a grant.
pub open spec fn same_but_withdrawn(a: EmployeeGrant, b: EmployeeGrant) -> bool {
    &&& b.beneficiary == a.beneficiary
    &&& b.start_time == a.start_time
    &&& b.cliff_time == a.cliff_time
    &&& b.end_time == a.end_time
    &&& b.total_amount == a.total_amount
    &&& b.config_name@ == a.config_name@
}

} // verus!
