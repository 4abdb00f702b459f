//! The owner: who may change the fee schedule and the treasury, and how
//! ownership passes on.

use vstd::prelude::*;
use crate::constants::MAX_FEE_BIPS;
use crate::error::{AccessControlError, LbpError, PoolError};
use crate::state::{
    percentage_sum, percentages_valid, AccountId, FeeMapping, OwnerConfig, Treasury,
};

verus! {

/// Who sets the owner up: the signer, and the authority that may upgrade
/// the program, if it has one.
#[derive(Clone, Copy, Debug, PartialEq, Eq)]
pub struct InitializeOwner {
    pub authority: AccountId,
    pub upgrade_authority: Option<AccountId>,
}

/// Whether one of the percentages is above one whole.
pub open spec fn any_above_whole(percentages: Seq<u16>) -> bool {
    exists|i: int| 0 <= i < percentages.len() && #[trigger] percentages[i] > MAX_FEE_BIPS
}

/// The recipients paired with their percentages, in their order.
pub open spec fn fee_mappings_spec(
    recipients: Seq<AccountId>,
    percentages: Seq<u16>,
) -> Seq<FeeMapping> {
    Seq::new(
        recipients.len(),
        |i: int| FeeMapping { user: recipients[i], percentage: percentages[i] },
    )
}

/// Whether one of the percentages is above one whole.
pub fn exceeds_whole(percentages: &Vec<u16>) -> (r: bool)
    ensures
        r == any_above_whole(percentages@),
{
    let mut i: usize = 0;
    while i < percentages.len()
        invariant
            i <= percentages@.len(),
            forall|j: int| 0 <= j < i ==> #[trigger] percentages@[j] <= MAX_FEE_BIPS,
        decreases percentages@.len() - i,
    {
        if percentages[i] > MAX_FEE_BIPS {
            return true;
        }
        i = i + 1;
    }
    false
}

/// The sum of the percentages.
pub fn sum_percentages(percentages: &Vec<u16>) -> (sum: u128)
    ensures
        sum == percentage_sum(percentages@, percentages@.len() as int),
{
    let mut sum: u128 = 0;
    let mut i: usize = 0;
    while i < percentages.len()
        invariant
            i <= percentages@.len(),
            sum == percentage_sum(percentages@, i as int),
            sum <= i * u16::MAX,
        decreases percentages@.len() - i,
    {
        assert(i * u16::MAX <= usize::MAX * u16::MAX) by (nonlinear_arith)
            requires
                i <= usize::MAX,
        ;
        sum = sum + percentages[i] as u128;
        i = i + 1;
    }
    sum
}

/// Pairs the recipients with their percentages.
pub fn fee_mappings(
    recipients: &Vec<AccountId>,
    percentages: &Vec<u16>,
) -> (mappings: Vec<FeeMapping>)
    requires
        recipients@.len() == percentages@.len(),
    ensures
        mappings@ == fee_mappings_spec(recipients@, percentages@),
{
    let mut mappings: Vec<FeeMapping> = Vec::new();
    let mut i: usize = 0;
    while i < recipients.len()
        invariant
            i <= recipients@.len(),
            recipients@.len() == percentages@.len(),
            mappings@.len() == i,
            forall|j: int|
                0 <= j < i ==> mappings@[j] == (FeeMapping {
                    user: recipients@[j],
                    percentage: percentages@[j],
                }),
        decreases recipients@.len() - i,
    {
        mappings.push(FeeMapping { user: recipients[i], percentage: percentages[i] });
        i = i + 1;
    }
    assert(mappings@ =~= fee_mappings_spec(recipients@, percentages@));
    mappings
}

/// The first fault of a list of recipients with their percentages for
/// [`set_fee_recipients`], if it has one: lists of different lengths, a
/// percentage above one whole, or percentages that are not one whole in all.
pub open spec fn fee_split_fault(
    recipients: Seq<AccountId>,
    percentages: Seq<u16>,
) -> Option<PoolError> {
    if percentages.len() != recipients.len() {
        Some(PoolError::InvalidFeeRecipients)
    } else if any_above_whole(percentages) {
        Some(PoolError::MaxFeeExceeded)
    } else if percentage_sum(percentages, percentages.len() as int) != MAX_FEE_BIPS {
        Some(PoolError::InvalidPercentageSum)
    } else {
        None
    }
}

/// Result of [`set_fee_recipients`]: the lists are held against each
/// other, then the caller against the owner, then the percentages against
/// one whole.
pub open spec fn set_fee_recipients_fault(
    config: OwnerConfig,
    caller: AccountId,
    recipients: Seq<AccountId>,
    percentages: Seq<u16>,
) -> Option<LbpError> {
    if percentages.len() != recipients.len() {
        Some(LbpError::Pool(PoolError::InvalidFeeRecipients))
    } else if caller@ != config.owner@ {
        Some(LbpError::Access(AccessControlError::Unauthorized))
    } else {
        match fee_split_fault(recipients, percentages) {
            Some(err) => Some(LbpError::Pool(err)),
            None => None,
        }
    }
}

/// The percentages of paired recipients are the percentages they were
/// paired with.
pub proof fn lemma_mapped_percentages(recipients: Seq<AccountId>, percentages: Seq<u16>)
    requires
        recipients.len() == percentages.len(),
    ensures
        Seq::new(
            fee_mappings_spec(recipients, percentages).len(),
            |i: int| fee_mappings_spec(recipients, percentages)[i].percentage,
        ) == percentages,
{
    assert(Seq::new(
        fee_mappings_spec(recipients, percentages).len(),
        |i: int| fee_mappings_spec(recipients, percentages)[i].percentage,
    ) =~= percentages);
}

/// Replaces the recipients of the platform fee, and with
/// `swap_fee_recipient` the recipient of the swap fees. Only the owner may
/// do so, and only with percentages that are one whole in all; else nothing
/// changes.
pub fn set_fee_recipients(
    treasury: &mut Treasury,
    config: &OwnerConfig,
    caller: &AccountId,
    swap_fee_recipient: Option<AccountId>,
    fee_recipients: Vec<AccountId>,
    fee_percentages: Vec<u16>,
) -> (r: Result<(), LbpError>)
    ensures
        match set_fee_recipients_fault(*config, *caller, fee_recipients@, fee_percentages@) {
            Some(err) => r == Err::<(), LbpError>(err) && *final(treasury) == *old(treasury),
            None => {
                &&& r == Ok::<(), LbpError>(())
                &&& final(treasury).swap_fee_recipient == (match swap_fee_recipient {
                    Some(recipient) => recipient,
                    None => old(treasury).swap_fee_recipient,
                })
                &&& final(treasury).fee_recipients@ == fee_mappings_spec(
                    fee_recipients@,
                    fee_percentages@,
                )
                &&& final(treasury).wf()
            },
        },
        percentage_sum(fee_percentages@, fee_percentages@.len() as int) != MAX_FEE_BIPS
            ==> r.is_err() && *final(treasury) == *old(treasury),
        caller@ == config.owner@ && fee_percentages@.len() == fee_recipients@.len()
            && !any_above_whole(fee_percentages@) && percentage_sum(
            fee_percentages@,
            fee_percentages@.len() as int,
        ) != MAX_FEE_BIPS ==> r == Err::<(), LbpError>(
            LbpError::Pool(PoolError::InvalidPercentageSum),
        ),
{
    if fee_percentages.len() != fee_recipients.len() {
        return Err(LbpError::Pool(PoolError::InvalidFeeRecipients));
    }
    if !config.owner.same(caller) {
        return Err(LbpError::Access(AccessControlError::Unauthorized));
    }
    if exceeds_whole(&fee_percentages) {
        return Err(LbpError::Pool(PoolError::MaxFeeExceeded));
    }
    let total_percentage = sum_percentages(&fee_percentages);
    if total_percentage != MAX_FEE_BIPS as u128 {
        return Err(LbpError::Pool(PoolError::InvalidPercentageSum));
    }
    match swap_fee_recipient {
        Some(recipient) => {
            treasury.swap_fee_recipient = recipient;
        },
        None => {},
    }
    treasury.fee_recipients = fee_mappings(&fee_recipients, &fee_percentages);
    proof {
        lemma_mapped_percentages(fee_recipients@, fee_percentages@);
        assert(treasury.percentages() =~= fee_percentages@);
    }
    Ok(())
}

/// The value that a setting takes: the new one where one is given.
pub open spec fn updated(current: u16, new: Option<u16>) -> u16 {
    match new {
        Some(v) => v,
        None => current,
    }
}

/// Whether a new fee is given and is above one whole.
pub open spec fn fee_above_whole(fee: Option<u16>) -> bool {
    fee matches Some(v) && v > MAX_FEE_BIPS
}

/// Changes the fees that are given and keeps the others. Only the owner
/// may do so, and no fee may be above one whole; else nothing changes.
pub fn set_fees(
    config: &mut OwnerConfig,
    caller: &AccountId,
    platform_fee: Option<u16>,
    referral_fee: Option<u16>,
    swap_fee: Option<u16>,
) -> (r: Result<(), LbpError>)
    ensures
        caller@ != old(config).owner@ ==> r == Err::<(), LbpError>(
            LbpError::Access(AccessControlError::Unauthorized),
        ) && *final(config) == *old(config),
        caller@ == old(config).owner@ && (fee_above_whole(platform_fee) || fee_above_whole(
            referral_fee,
        ) || fee_above_whole(swap_fee)) ==> r == Err::<(), LbpError>(
            LbpError::Pool(PoolError::MaxFeeExceeded),
        ) && *final(config) == *old(config),
        caller@ == old(config).owner@ && !fee_above_whole(platform_fee) && !fee_above_whole(
            referral_fee,
        ) && !fee_above_whole(swap_fee) ==> r == Ok::<(), LbpError>(()) && *final(config) == (
        OwnerConfig {
            platform_fee: updated(old(config).platform_fee, platform_fee),
            referral_fee: updated(old(config).referral_fee, referral_fee),
            swap_fee: updated(old(config).swap_fee, swap_fee),
            ..*old(config)
        }),
        old(config).wf() ==> final(config).wf(),
{
    if !config.owner.same(caller) {
        return Err(LbpError::Access(AccessControlError::Unauthorized));
    }
    if above_whole(platform_fee) || above_whole(referral_fee) || above_whole(swap_fee) {
        return Err(LbpError::Pool(PoolError::MaxFeeExceeded));
    }
    config.platform_fee = or_current(platform_fee, config.platform_fee);
    config.referral_fee = or_current(referral_fee, config.referral_fee);
    config.swap_fee = or_current(swap_fee, config.swap_fee);
    Ok(())
}

/// Whether a new fee is given and is above one whole.
pub fn above_whole(fee: Option<u16>) -> (r: bool)
    ensures
        r == fee_above_whole(fee),
{
    match fee {
        Some(v) => v > MAX_FEE_BIPS,
        None => false,
    }
}

/// The new value where one is given, else the current one.
pub fn or_current(new: Option<u16>, current: u16) -> (r: u16)
    ensures
        r == updated(current, new),
{
    match new {
        Some(v) => v,
        None => current,
    }
}

/// The first fault of the settings for [`initialize_owner_config`], if
/// they have one.
pub open spec fn initialize_owner_fault(
    ctx: InitializeOwner,
    recipients: Seq<AccountId>,
    percentages: Seq<u16>,
    platform_fee: u16,
    referral_fee: u16,
    swap_fee: u16,
) -> Option<LbpError> {
    if percentages.len() != recipients.len() {
        Some(LbpError::Pool(PoolError::InvalidFeeRecipients))
    } else if !(ctx.upgrade_authority matches Some(a) && a@ == ctx.authority@) {
        Some(LbpError::Access(AccessControlError::NotUpgradeAuthority))
    } else if platform_fee > MAX_FEE_BIPS || referral_fee > MAX_FEE_BIPS || swap_fee
        > MAX_FEE_BIPS {
        Some(LbpError::Pool(PoolError::MaxFeeExceeded))
    } else if any_above_whole(percentages) {
        Some(LbpError::Pool(PoolError::MaxFeeExceeded))
    } else if recipients.len() == 0 {
        Some(LbpError::Pool(PoolError::InvalidFeeRecipients))
    } else if percentage_sum(percentages, percentages.len() as int) != MAX_FEE_BIPS {
        Some(LbpError::Pool(PoolError::InvalidPercentageSum))
    } else {
        None
    }
}

/// Sets up the owner with the fee schedule, and the treasury. Only the
/// authority that may upgrade the program may do so. No fee and no
/// percentage may be above one whole, there must be a recipient, and the
/// percentages must be one whole in all.
pub fn initialize_owner_config(
    ctx: &InitializeOwner,
    owner_key: AccountId,
    swap_fee_recipient: AccountId,
    fee_recipients: Vec<AccountId>,
    fee_percentages: Vec<u16>,
    platform_fee: u16,
    referral_fee: u16,
    swap_fee: u16,
) -> (r: Result<(OwnerConfig, Treasury), LbpError>)
    ensures
        match initialize_owner_fault(
            *ctx,
            fee_recipients@,
            fee_percentages@,
            platform_fee,
            referral_fee,
            swap_fee,
        ) {
            Some(err) => r == Err::<(OwnerConfig, Treasury), LbpError>(err),
            None => {
                &&& r.is_ok()
                &&& r.unwrap().0 == (OwnerConfig {
                    owner: owner_key,
                    pending_owner: None,
                    platform_fee,
                    referral_fee,
                    swap_fee,
                })
                &&& r.unwrap().1.swap_fee_recipient == swap_fee_recipient
                &&& r.unwrap().1.fee_recipients@ == fee_mappings_spec(
                    fee_recipients@,
                    fee_percentages@,
                )
                &&& r.unwrap().0.wf()
                &&& r.unwrap().1.wf()
            },
        },
        percentage_sum(fee_percentages@, fee_percentages@.len() as int) != MAX_FEE_BIPS
            ==> r.is_err(),
        (ctx.upgrade_authority matches Some(a) && a@ == ctx.authority@) && fee_percentages@.len()
            == fee_recipients@.len() && fee_recipients@.len() > 0 && platform_fee <= MAX_FEE_BIPS
            && referral_fee <= MAX_FEE_BIPS && swap_fee <= MAX_FEE_BIPS && !any_above_whole(
            fee_percentages@,
        ) && percentage_sum(fee_percentages@, fee_percentages@.len() as int) != MAX_FEE_BIPS ==> r
            == Err::<(OwnerConfig, Treasury), LbpError>(
            LbpError::Pool(PoolError::InvalidPercentageSum),
        ),
{
    if fee_percentages.len() != fee_recipients.len() {
        return Err(LbpError::Pool(PoolError::InvalidFeeRecipients));
    }
    let authorized = match ctx.upgrade_authority {
        Some(a) => a.same(&ctx.authority),
        None => false,
    };
    if !authorized {
        return Err(LbpError::Access(AccessControlError::NotUpgradeAuthority));
    }
    if platform_fee > MAX_FEE_BIPS || referral_fee > MAX_FEE_BIPS || swap_fee > MAX_FEE_BIPS {
        return Err(LbpError::Pool(PoolError::MaxFeeExceeded));
    }
    if exceeds_whole(&fee_percentages) {
        return Err(LbpError::Pool(PoolError::MaxFeeExceeded));
    }
    if fee_recipients.len() == 0 {
        return Err(LbpError::Pool(PoolError::InvalidFeeRecipients));
    }
    let total_percentage = sum_percentages(&fee_percentages);
    if total_percentage != MAX_FEE_BIPS as u128 {
        return Err(LbpError::Pool(PoolError::InvalidPercentageSum));
    }
    let config = OwnerConfig {
        owner: owner_key,
        pending_owner: None,
        platform_fee,
        referral_fee,
        swap_fee,
    };
    let treasury = Treasury {
        swap_fee_recipient,
        fee_recipients: fee_mappings(&fee_recipients, &fee_percentages),
    };
    proof {
        lemma_mapped_percentages(fee_recipients@, fee_percentages@);
        assert(treasury.percentages() =~= fee_percentages@);
    }
    Ok((config, treasury))
}

/// Nominates a new owner, who becomes the owner by accepting. Only the
/// owner may do so.
pub fn nominate_new_owner(
    config: &mut OwnerConfig,
    caller: &AccountId,
    new_owner: AccountId,
) -> (r: Result<(), AccessControlError>)
    ensures
        caller@ != old(config).owner@ ==> r == Err::<(), AccessControlError>(
            AccessControlError::Unauthorized,
        ) && *final(config) == *old(config),
        caller@ == old(config).owner@ ==> r == Ok::<(), AccessControlError>(()) && *final(config)
            == (OwnerConfig { pending_owner: Some(new_owner), ..*old(config) }),
        old(config).wf() ==> final(config).wf(),
{
    if !config.owner.same(caller) {
        return Err(AccessControlError::Unauthorized);
    }
    config.pending_owner = Some(new_owner);
    Ok(())
}

/// Whether `new_owner` is the owner who has been nominated.
pub open spec fn is_nominated(config: OwnerConfig, new_owner: AccountId) -> bool {
    config.pending_owner matches Some(pending) && pending@ == new_owner@
}

/// Makes the nominated owner the owner. Only the nominated owner may do so.
pub fn accept_owner(
    config: &mut OwnerConfig,
    new_owner: &AccountId,
) -> (r: Result<(), AccessControlError>)
    ensures
        !is_nominated(*old(config), *new_owner) ==> r == Err::<(), AccessControlError>(
            AccessControlError::Unauthorized,
        ) && *final(config) == *old(config),
        is_nominated(*old(config), *new_owner) ==> r == Ok::<(), AccessControlError>(())
            && *final(config) == (OwnerConfig {
            owner: *new_owner,
            pending_owner: None,
            ..*old(config)
        }),
        old(config).wf() ==> final(config).wf(),
{
    let nominated = match config.pending_owner {
        Some(pending) => pending.same(new_owner),
        None => false,
    };
    if !nominated {
        return Err(AccessControlError::Unauthorized);
    }
    config.owner = *new_owner;
    config.pending_owner = None;
    Ok(())
}

} // verus!
