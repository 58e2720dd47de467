//! Single checks on the inputs of group operations. Each accepts or names the
//! one error that it stands for.

use vstd::prelude::*;
use crate::identity::Identity;
use crate::squad::SonicRushError;

verus! {

/// The outcome of a check that fails with `e` exactly when `refused` holds.
pub open spec fn verdict(refused: bool, e: SonicRushError) -> Result<(), SonicRushError> {
    if refused {
        Err(e)
    } else {
        Ok(())
    }
}

/// Accepts exactly when the main signing authority on record is the one given.
pub fn check_main_signing_authority(
    main_signing_authority_from_account: Identity,
    main_signing_authority_from_input_accounts: Identity,
) -> (r: Result<(), SonicRushError>)
    ensures
        r == verdict(
            main_signing_authority_from_account != main_signing_authority_from_input_accounts,
            SonicRushError::InvalidMainSigningAuthority,
        ),
{
    if !main_signing_authority_from_account.same(&main_signing_authority_from_input_accounts) {
        return Err(SonicRushError::InvalidMainSigningAuthority);
    }
    Ok(())
}

/// Accepts exactly when the signing authority on record is the one given.
pub fn check_signing_authority(
    signing_authority_from_account: Identity,
    signing_authority_from_input_accounts: Identity,
) -> (r: Result<(), SonicRushError>)
    ensures
        r == verdict(
            signing_authority_from_account != signing_authority_from_input_accounts,
            SonicRushError::InvalidSigningAuthority,
        ),
{
    if !signing_authority_from_account.same(&signing_authority_from_input_accounts) {
        return Err(SonicRushError::InvalidSigningAuthority);
    }
    Ok(())
}

/// Accepts exactly when the back authority on record is the one given.
pub fn check_back_authority(
    back_authority_from_account: Identity,
    back_authority_from_input_accounts: Identity,
) -> (r: Result<(), SonicRushError>)
    ensures
        r == verdict(
            back_authority_from_account != back_authority_from_input_accounts,
            SonicRushError::InvalidBackAuthority,
        ),
{
    if !back_authority_from_account.same(&back_authority_from_input_accounts) {
        return Err(SonicRushError::InvalidBackAuthority);
    }
    Ok(())
}

/// Accepts exactly when the value is not zero.
pub fn check_value_is_zero(value: usize) -> (r: Result<(), SonicRushError>)
    ensures
        r == verdict(value == 0, SonicRushError::ValueIsZero),
{
    if value == 0 {
        return Err(SonicRushError::ValueIsZero);
    }
    Ok(())
}

/// Accepts exactly when the two lengths are equal.
pub fn check_length(value_a: usize, value_b: usize) -> (r: Result<(), SonicRushError>)
    ensures
        r == verdict(value_a != value_b, SonicRushError::InvalidLength),
{
    if value_a != value_b {
        return Err(SonicRushError::InvalidLength);
    }
    Ok(())
}

/// Accepts exactly when the value is the whole, 10000 hundredths of a percent.
pub fn check_percentage(value: u16) -> (r: Result<(), SonicRushError>)
    ensures
        r == verdict(value != 10000, SonicRushError::InvalidPercentage),
{
    if value != 10000 {
        return Err(SonicRushError::InvalidPercentage);
    }
    Ok(())
}

/// Accepts exactly when the requested supply does not exceed the one on record.
pub fn check_payment_supply(from_account: u64, from_param: u64) -> (r: Result<(), SonicRushError>)
    ensures
        r == verdict(from_param > from_account, SonicRushError::InvalidPaymentSupply),
{
    if from_param > from_account {
        return Err(SonicRushError::InvalidPaymentSupply);
    }
    Ok(())
}

/// Accepts exactly when the group token is enabled.
pub fn check_is_group_token_enable(value: bool) -> (r: Result<(), SonicRushError>)
    ensures
        r == verdict(!value, SonicRushError::GroupTokenDisable),
{
    if !value {
        return Err(SonicRushError::GroupTokenDisable);
    }
    Ok(())
}

/// Accepts exactly when the user account is enabled.
pub fn check_is_user_account_enable(value: bool) -> (r: Result<(), SonicRushError>)
    ensures
        r == verdict(!value, SonicRushError::UserAccountDisable),
{
    if !value {
        return Err(SonicRushError::UserAccountDisable);
    }
    Ok(())
}

/// Accepts exactly when the user index account is enabled.
pub fn check_is_user_index_account_enable(value: bool) -> (r: Result<(), SonicRushError>)
    ensures
        r == verdict(!value, SonicRushError::UserIndexAccountDisable),
{
    if !value {
        return Err(SonicRushError::UserIndexAccountDisable);
    }
    Ok(())
}

/// Accepts exactly when the two user indices are equal.
pub fn check_user_index(value_a: u16, value_b: u16) -> (r: Result<(), SonicRushError>)
    ensures
        r == verdict(value_a != value_b, SonicRushError::InvalidUserIndex),
{
    if value_a != value_b {
        return Err(SonicRushError::InvalidUserIndex);
    }
    Ok(())
}

/// Accepts exactly when the amount on record does not exceed the one given.
pub fn check_convert_amount(from_account: u64, from_param: u64) -> (r: Result<(), SonicRushError>)
    ensures
        r == verdict(from_account > from_param, SonicRushError::InvalidConvertAmount),
{
    if from_account > from_param {
        return Err(SonicRushError::InvalidConvertAmount);
    }
    Ok(())
}

/// Accepts exactly when the amount on record does not exceed the one given.
pub fn check_generate_amount(from_account: u64, from_param: u64) -> (r: Result<(), SonicRushError>)
    ensures
        r == verdict(from_account > from_param, SonicRushError::InvalidGenerateAmount),
{
    if from_account > from_param {
        return Err(SonicRushError::InvalidGenerateAmount);
    }
    Ok(())
}

/// Accepts exactly when there is something to claim.
pub fn check_can_claim(value: u64) -> (r: Result<(), SonicRushError>)
    ensures
        r == verdict(value == 0, SonicRushError::CannotClaim),
{
    if value == 0 {
        return Err(SonicRushError::CannotClaim);
    }
    Ok(())
}

/// Accepts exactly when the token account's authority on record is the one given.
pub fn check_token_account_authority(
    value_from_account: Identity,
    value_from_input_account: Identity,
) -> (r: Result<(), SonicRushError>)
    ensures
        r == verdict(
            value_from_account != value_from_input_account,
            SonicRushError::InvalidTokenAccountAuthority,
        ),
{
    if !value_from_account.same(&value_from_input_account) {
        return Err(SonicRushError::InvalidTokenAccountAuthority);
    }
    Ok(())
}

/// Accepts exactly when the requested amount does not exceed what remains.
pub fn check_amount_for_claim_request(requested_amount: u64, reamining_amount: u64) -> (r: Result<
    (),
    SonicRushError,
>)
    ensures
        r == verdict(
            requested_amount > reamining_amount,
            SonicRushError::InvalidTokenAmountForClaimRequest,
        ),
{
    if requested_amount > reamining_amount {
        return Err(SonicRushError::InvalidTokenAmountForClaimRequest);
    }
    Ok(())
}

/// Accepts exactly when nothing has been claimed yet.
pub fn check_already_claimed(value: bool) -> (r: Result<(), SonicRushError>)
    ensures
        r == verdict(value, SonicRushError::AlreadyClaimed),
{
    if value {
        return Err(SonicRushError::AlreadyClaimed);
    }
    Ok(())
}

} // verus!
