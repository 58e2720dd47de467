//! Groups whose members each receive one unit of the group's token, once.

use vstd::prelude::*;
use crate::identity::Identity;
use crate::instructions::copy_identities;

verus! {

/// Why an operation on a group was refused.
#[derive(Clone, Copy, Debug, PartialEq, Eq, Structural)]
pub enum SonicRushError {
    InvalidMainSigningAuthority,
    InvalidSigningAuthority,
    InvalidBackAuthority,
    ValueIsZero,
    InvalidLength,
    InvalidPercentage,
    InvalidPaymentSupply,
    GroupTokenDisable,
    UserAccountDisable,
    UserIndexAccountDisable,
    InvalidUserIndex,
    InvalidConvertAmount,
    InvalidGenerateAmount,
    CannotClaim,
    InvalidTokenAccountAuthority,
    InvalidTokenAmountForClaimRequest,
    AlreadyClaimed,
    NotAGroupMember,
}

impl SonicRushError {
    /// The text shown to a caller for each refusal.
    pub open spec fn text(self) -> Seq<char> {
        match self {
            SonicRushError::InvalidMainSigningAuthority => "Invalid main signing authority"@,
            SonicRushError::InvalidSigningAuthority => "Invalid signing authority"@,
            SonicRushError::InvalidBackAuthority => "Invalid back authority"@,
            SonicRushError::ValueIsZero => "Value is zero"@,
            SonicRushError::InvalidLength => "Invalid length"@,
            SonicRushError::InvalidPercentage => "Invalid percentage"@,
            SonicRushError::InvalidPaymentSupply => "Invalid payment supply"@,
            SonicRushError::GroupTokenDisable => "Group token disable"@,
            SonicRushError::UserAccountDisable => "User account disable"@,
            SonicRushError::UserIndexAccountDisable => "User index account disable"@,
            SonicRushError::InvalidUserIndex => "Invalid user index"@,
            SonicRushError::InvalidConvertAmount => "Invalid convert amount"@,
            SonicRushError::InvalidGenerateAmount => "Invalid generate amount"@,
            SonicRushError::CannotClaim => "Cannot claim"@,
            SonicRushError::InvalidTokenAccountAuthority => "Invalid token account authority"@,
            SonicRushError::InvalidTokenAmountForClaimRequest => "Invalid token amount for claim request"@,
            SonicRushError::AlreadyClaimed => "Already claimed"@,
            SonicRushError::NotAGroupMember => "Not a group member"@,
        }
    }

    /// Returns the message of this refusal.
    pub fn message(&self) -> (s: &'static str)
        ensures
            s@ == self.text(),
    {
        match self {
            SonicRushError::InvalidMainSigningAuthority => "Invalid main signing authority",
            SonicRushError::InvalidSigningAuthority => "Invalid signing authority",
            SonicRushError::InvalidBackAuthority => "Invalid back authority",
            SonicRushError::ValueIsZero => "Value is zero",
            SonicRushError::InvalidLength => "Invalid length",
            SonicRushError::InvalidPercentage => "Invalid percentage",
            SonicRushError::InvalidPaymentSupply => "Invalid payment supply",
            SonicRushError::GroupTokenDisable => "Group token disable",
            SonicRushError::UserAccountDisable => "User account disable",
            SonicRushError::UserIndexAccountDisable => "User index account disable",
            SonicRushError::InvalidUserIndex => "Invalid user index",
            SonicRushError::InvalidConvertAmount => "Invalid convert amount",
            SonicRushError::InvalidGenerateAmount => "Invalid generate amount",
            SonicRushError::CannotClaim => "Cannot claim",
            SonicRushError::InvalidTokenAccountAuthority => "Invalid token account authority",
            SonicRushError::InvalidTokenAmountForClaimRequest => "Invalid token amount for claim request",
            SonicRushError::AlreadyClaimed => "Already claimed",
            SonicRushError::NotAGroupMember => "Not a group member",
        }
    }
}

/// The seed under which a group's record is addressed.
pub const GROUP_CONFIG_ACCOUNT_PREFIX: &'static str = "CONFIG";

/// The state of a group as the rules see it.
pub struct GroupState {
    /// When the record was last written, in seconds.
    pub last_block_timestamp: i64,
    /// The group's name.
    pub name: Seq<char>,
    /// The authority that signed the group's creation.
    pub main_signing_authority: Identity,
    /// The members of the group.
    pub members: Seq<Identity>,
    /// The address of the group's token.
    pub group_token_mint: Identity,
    /// The members that have received their unit, in the order in which they claimed.
    pub claimed_members: Seq<Identity>,
}

impl GroupState {
    /// Nobody holds more than one claim, and whoever holds one is a member.
    pub open spec fn wf(self) -> bool {
        &&& self.claimed_members.no_duplicates()
        &&& forall|i: int|
            0 <= i < self.claimed_members.len() ==> self.members.contains(
                #[trigger] self.claimed_members[i],
            )
    }

    /// The state of a group right after its creation: nobody has claimed.
    pub open spec fn create(
        main_signing_authority: Identity,
        group_token_mint: Identity,
        timestamp: i64,
        name: Seq<char>,
        members: Seq<Identity>,
    ) -> Self {
        GroupState {
            last_block_timestamp: timestamp,
            name,
            main_signing_authority,
            members,
            group_token_mint,
            claimed_members: Seq::empty(),
        }
    }

    /// Why a claim of `who` is refused, if it is: `who` is no member, or has
    /// claimed before.
    pub open spec fn claim_refusal(self, who: Identity) -> Option<SonicRushError> {
        if !self.members.contains(who) {
            Some(SonicRushError::NotAGroupMember)
        } else if self.claimed_members.contains(who) {
            Some(SonicRushError::AlreadyClaimed)
        } else {
            None
        }
    }

    /// The state after a claim of `who` at time `timestamp`: the claimer is
    /// appended to those that have claimed and the time is noted when nothing
    /// refuses the claim, and otherwise the state is as before.
    pub open spec fn claim(self, who: Identity, timestamp: i64) -> Self {
        if self.claim_refusal(who) is None {
            GroupState {
                claimed_members: self.claimed_members.push(who),
                last_block_timestamp: timestamp,
                ..self
            }
        } else {
            self
        }
    }
}

/// The record of one group.
#[derive(Debug)]
pub struct GroupConfigAccount {
    pub last_block_timestamp: i64,
    pub name: String,
    pub main_signing_authority: Identity,
    pub members: Vec<Identity>,
    pub group_token_mint: Identity,
    pub claimed_members: Vec<Identity>,
}

impl View for GroupConfigAccount {
    type V = GroupState;

    open spec fn view(&self) -> GroupState {
        GroupState {
            last_block_timestamp: self.last_block_timestamp,
            name: self.name@,
            main_signing_authority: self.main_signing_authority,
            members: self.members@,
            group_token_mint: self.group_token_mint,
            claimed_members: self.claimed_members@,
        }
    }
}

impl GroupConfigAccount {
    /// Bytes reserved for a stored record: names up to 256 bytes, up to 100
    /// members and as many claims.
    pub fn space() -> (n: usize)
        ensures
            n == 6748,
    {
        8 + 8 + 4 + 256 + 32 + 4 + 32 * 100 + 32 + 4 + 32 * 100
    }
}

/// A group was created.
#[derive(Debug)]
pub struct InitializeGroupEvent {
    pub timestamp: i64,
    pub name: String,
    pub members: Vec<Identity>,
    pub group_token_mint: Identity,
}

/// Tells whether `who` occurs in `list`.
pub fn contains_identity(list: &Vec<Identity>, who: &Identity) -> (r: bool)
    ensures
        r == list@.contains(*who),
{
    let mut i: usize = 0;
    while i < list.len()
        invariant
            i <= list.len(),
            forall|j: int| 0 <= j < i ==> list@[j] != *who,
        decreases list.len() - i,
    {
        if list[i].same(who) {
            return true;
        }
        i += 1;
    }
    false
}

/// Creates the record of a group at time `timestamp`, with nobody having
/// claimed; the event repeats what was recorded.
pub fn handle_initialize(
    main_signing_authority: Identity,
    group_token_mint: Identity,
    timestamp: i64,
    name: String,
    members: Vec<Identity>,
) -> (r: (GroupConfigAccount, InitializeGroupEvent))
    ensures
        r.0@ == GroupState::create(
            main_signing_authority,
            group_token_mint,
            timestamp,
            name@,
            members@,
        ),
        r.1.timestamp == timestamp,
        r.1.name@ == name@,
        r.1.members@ == members@,
        r.1.group_token_mint == group_token_mint,
{
    let listed = copy_identities(&members);
    let config = GroupConfigAccount {
        last_block_timestamp: timestamp,
        name: name.clone(),
        main_signing_authority,
        members: listed,
        group_token_mint,
        claimed_members: Vec::new(),
    };
    assert(config@.claimed_members =~= Seq::<Identity>::empty());
    let event = InitializeGroupEvent { timestamp, name, members, group_token_mint };
    (config, event)
}

/// Records that `claimer` receives its one unit of the group's token, at time
/// `timestamp`. It is accepted exactly when the state's `claim_refusal` names no
/// error; the caller then issues the unit. A refusal leaves the record as it was.
pub fn handle_claim_token(group: &mut GroupConfigAccount, claimer: Identity, timestamp: i64) -> (r:
    Result<(), SonicRushError>)
    ensures
        final(group)@ == old(group)@.claim(claimer, timestamp),
        match r {
            Ok(_) => old(group)@.claim_refusal(claimer) is None,
            Err(e) => old(group)@.claim_refusal(claimer) == Some(e),
        },
{
    if !contains_identity(&group.members, &claimer) {
        return Err(SonicRushError::NotAGroupMember);
    }
    if contains_identity(&group.claimed_members, &claimer) {
        return Err(SonicRushError::AlreadyClaimed);
    }
    group.claimed_members.push(claimer);
    group.last_block_timestamp = timestamp;
    Ok(())
}

/// A group starts well formed, and a claim, accepted or refused, keeps it so
/// and leaves its members as they were.
pub proof fn law_claims_keep_group(group: GroupState, who: Identity, timestamp: i64)
    requires
        group.wf(),
    ensures
        GroupState::create(
            group.main_signing_authority,
            group.group_token_mint,
            timestamp,
            group.name,
            group.members,
        ).wf(),
        group.claim(who, timestamp).wf(),
        group.claim(who, timestamp).members == group.members,
{
    let after = group.claim(who, timestamp);
    if group.claim_refusal(who) is None {
        assert forall|i: int| 0 <= i < after.claimed_members.len() implies after.members.contains(
            #[trigger] after.claimed_members[i],
        ) by {
            if i < group.claimed_members.len() {
                assert(group.members.contains(group.claimed_members[i]));
            }
        }
    }
}

/// Nobody receives a second unit: right after an accepted claim, the same
/// claimer is refused as having claimed, at any later time, and the state stays
/// as it was.
pub proof fn law_one_unit_each(group: GroupState, who: Identity, timestamp: i64, later: i64)
    requires
        group.claim_refusal(who) is None,
    ensures
        group.claim(who, timestamp).claim_refusal(who) == Some(SonicRushError::AlreadyClaimed),
        group.claim(who, timestamp).claim(who, later) == group.claim(who, timestamp),
{
    let after = group.claim(who, timestamp);
    assert(after.claimed_members[group.claimed_members.len() as int] == who);
}

} // verus!
