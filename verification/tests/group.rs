use task_escrow::identity::Identity;
use task_escrow::squad::{
    contains_identity, handle_claim_token, handle_initialize, GroupConfigAccount, SonicRushError,
    GROUP_CONFIG_ACCOUNT_PREFIX,
};
use task_escrow::utils::{
    check_already_claimed, check_amount_for_claim_request, check_back_authority, check_can_claim,
    check_convert_amount, check_generate_amount, check_is_group_token_enable,
    check_is_user_account_enable, check_is_user_index_account_enable, check_length,
    check_main_signing_authority, check_payment_supply, check_percentage, check_signing_authority,
    check_token_account_authority, check_user_index, check_value_is_zero,
};

fn id(n: u8) -> Identity {
    Identity::new([n; 32])
}

#[test]
fn group_record_has_its_reserved_size() {
    assert_eq!(GroupConfigAccount::space(), 6748);
    assert_eq!(GROUP_CONFIG_ACCOUNT_PREFIX, "CONFIG");
}

#[test]
fn group_starts_with_no_claims() {
    let (g, ev) = handle_initialize(id(1), id(2), 1700, "crew".to_string(), vec![id(3), id(4)]);
    assert_eq!(g.main_signing_authority, id(1));
    assert_eq!(g.group_token_mint, id(2));
    assert_eq!(g.last_block_timestamp, 1700);
    assert_eq!(g.name, "crew");
    assert_eq!(g.members, vec![id(3), id(4)]);
    assert!(g.claimed_members.is_empty());
    assert_eq!(ev.timestamp, 1700);
    assert_eq!(ev.name, "crew");
    assert_eq!(ev.members, vec![id(3), id(4)]);
    assert_eq!(ev.group_token_mint, id(2));
}

#[test]
fn member_claims_one_unit_once() {
    let (mut g, _) = handle_initialize(id(1), id(2), 5, "crew".to_string(), vec![id(3), id(4)]);
    assert_eq!(handle_claim_token(&mut g, id(9), 6), Err(SonicRushError::NotAGroupMember));
    assert_eq!(g.last_block_timestamp, 5);
    assert_eq!(handle_claim_token(&mut g, id(4), 7), Ok(()));
    assert_eq!(g.claimed_members, vec![id(4)]);
    assert_eq!(g.last_block_timestamp, 7);
    assert_eq!(handle_claim_token(&mut g, id(4), 8), Err(SonicRushError::AlreadyClaimed));
    assert_eq!(g.claimed_members, vec![id(4)]);
    assert_eq!(g.last_block_timestamp, 7);
    assert_eq!(handle_claim_token(&mut g, id(3), 9), Ok(()));
    assert_eq!(g.claimed_members, vec![id(4), id(3)]);
    assert!(contains_identity(&g.claimed_members, &id(3)));
    assert!(!contains_identity(&g.claimed_members, &id(1)));
}

#[test]
fn authority_checks_compare_identities() {
    assert_eq!(check_main_signing_authority(id(1), id(1)), Ok(()));
    assert_eq!(
        check_main_signing_authority(id(1), id(2)),
        Err(SonicRushError::InvalidMainSigningAuthority)
    );
    assert_eq!(check_signing_authority(id(1), id(1)), Ok(()));
    assert_eq!(check_signing_authority(id(1), id(2)), Err(SonicRushError::InvalidSigningAuthority));
    assert_eq!(check_back_authority(id(1), id(1)), Ok(()));
    assert_eq!(check_back_authority(id(2), id(1)), Err(SonicRushError::InvalidBackAuthority));
    assert_eq!(check_token_account_authority(id(3), id(3)), Ok(()));
    assert_eq!(
        check_token_account_authority(id(3), id(4)),
        Err(SonicRushError::InvalidTokenAccountAuthority)
    );
}

#[test]
fn value_checks_accept_and_refuse_at_their_bounds() {
    assert_eq!(check_value_is_zero(0), Err(SonicRushError::ValueIsZero));
    assert_eq!(check_value_is_zero(1), Ok(()));
    assert_eq!(check_length(3, 3), Ok(()));
    assert_eq!(check_length(3, 4), Err(SonicRushError::InvalidLength));
    assert_eq!(check_percentage(10000), Ok(()));
    assert_eq!(check_percentage(9999), Err(SonicRushError::InvalidPercentage));
    assert_eq!(check_percentage(10001), Err(SonicRushError::InvalidPercentage));
    assert_eq!(check_payment_supply(5, 5), Ok(()));
    assert_eq!(check_payment_supply(5, 6), Err(SonicRushError::InvalidPaymentSupply));
    assert_eq!(check_user_index(2, 2), Ok(()));
    assert_eq!(check_user_index(2, 3), Err(SonicRushError::InvalidUserIndex));
    assert_eq!(check_convert_amount(5, 5), Ok(()));
    assert_eq!(check_convert_amount(6, 5), Err(SonicRushError::InvalidConvertAmount));
    assert_eq!(check_generate_amount(4, 5), Ok(()));
    assert_eq!(check_generate_amount(6, 5), Err(SonicRushError::InvalidGenerateAmount));
    assert_eq!(check_can_claim(1), Ok(()));
    assert_eq!(check_can_claim(0), Err(SonicRushError::CannotClaim));
    assert_eq!(check_amount_for_claim_request(5, 5), Ok(()));
    assert_eq!(
        check_amount_for_claim_request(6, 5),
        Err(SonicRushError::InvalidTokenAmountForClaimRequest)
    );
}

#[test]
fn flag_checks_follow_the_flag() {
    assert_eq!(check_is_group_token_enable(true), Ok(()));
    assert_eq!(check_is_group_token_enable(false), Err(SonicRushError::GroupTokenDisable));
    assert_eq!(check_is_user_account_enable(true), Ok(()));
    assert_eq!(check_is_user_account_enable(false), Err(SonicRushError::UserAccountDisable));
    assert_eq!(check_is_user_index_account_enable(true), Ok(()));
    assert_eq!(
        check_is_user_index_account_enable(false),
        Err(SonicRushError::UserIndexAccountDisable)
    );
    assert_eq!(check_already_claimed(false), Ok(()));
    assert_eq!(check_already_claimed(true), Err(SonicRushError::AlreadyClaimed));
}

#[test]
fn group_refusals_have_their_messages() {
    assert_eq!(SonicRushError::NotAGroupMember.message(), "Not a group member");
    assert_eq!(SonicRushError::AlreadyClaimed.message(), "Already claimed");
    assert_eq!(SonicRushError::ValueIsZero.message(), "Value is zero");
    assert_eq!(
        SonicRushError::InvalidTokenAmountForClaimRequest.message(),
        "Invalid token amount for claim request"
    );
}
