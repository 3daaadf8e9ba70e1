use vstd::prelude::*;

use crate::errors::ErrorCode;
use crate::pubkey::Pubkey;
use crate::state::{
    Alliance, AllianceMember, Player, Tribe, TribeMember, ALLIANCE_MAX_MEMBERS, TRIBE_MAX_MEMBERS,
};

verus! {

/// Founds the tribe at `tribe_key`, led by `leader`, with the leader as its
/// one member; its id is the founding time read as an unsigned number. The
/// tribe account keeps only its bump, and the leader's player record names
/// the tribe.
///
/// Refused with `AlreadyMember`, changing nothing, when the leader is
/// already in a tribe: a wallet is in at most one tribe.
pub fn create_tribe(
    tribe: &mut Tribe,
    leader_player: &mut Player,
    tribe_key: Pubkey,
    leader: Pubkey,
    name: [u8; 32],
    tag: [u8; 4],
    home_plot: Pubkey,
    invite_code: [u8; 8],
    now: i64,
) -> (r: Result<(), ErrorCode>)
    ensures
        old(leader_player).tribe is Some ==> {
            &&& r == Err::<(), ErrorCode>(ErrorCode::AlreadyMember)
            &&& *final(tribe) == *old(tribe)
            &&& *final(leader_player) == *old(leader_player)
        },
        old(leader_player).tribe is None ==> {
            &&& r == Ok::<(), ErrorCode>(())
            &&& *final(tribe) == (Tribe {
                id: now as u64,
                name,
                tag,
                leader,
                home_plot,
                member_count: 1,
                invite_code,
                created_at: now,
                bump: old(tribe).bump,
            })
            &&& *final(leader_player) == (Player { tribe: Some(tribe_key), ..*old(leader_player) })
        },
{
    if leader_player.tribe.is_some() {
        return Err(ErrorCode::AlreadyMember);
    }
    tribe.id = now as u64;
    tribe.name = name;
    tribe.tag = tag;
    tribe.leader = leader;
    tribe.home_plot = home_plot;
    tribe.member_count = 1;
    tribe.invite_code = invite_code;
    tribe.created_at = now;
    leader_player.tribe = Some(tribe_key);
    Ok(())
}

/// Adds `wallet`, whose player record is `player`, to the tribe at
/// `tribe_key` as a plain member; the record then names the tribe.
///
/// Refused, changing nothing, with `TribeFull` when the tribe already has
/// the most members a tribe may, then with `AlreadyMember` when the wallet
/// is already in a tribe.
pub fn join_tribe(
    tribe: &mut Tribe,
    member: &mut TribeMember,
    player: &mut Player,
    tribe_key: Pubkey,
    wallet: Pubkey,
    now: i64,
) -> (r: Result<(), ErrorCode>)
    ensures
        old(tribe).member_count <= TRIBE_MAX_MEMBERS ==> final(tribe).member_count <= TRIBE_MAX_MEMBERS,
        old(tribe).member_count >= TRIBE_MAX_MEMBERS || old(player).tribe is Some ==> {
            &&& r == Err::<(), ErrorCode>(
                if old(tribe).member_count >= TRIBE_MAX_MEMBERS {
                    ErrorCode::TribeFull
                } else {
                    ErrorCode::AlreadyMember
                },
            )
            &&& *final(tribe) == *old(tribe)
            &&& *final(member) == *old(member)
            &&& *final(player) == *old(player)
        },
        old(tribe).member_count < TRIBE_MAX_MEMBERS && old(player).tribe is None ==> {
            &&& r == Ok::<(), ErrorCode>(())
            &&& *final(tribe) == (Tribe { member_count: (old(tribe).member_count + 1) as u8, ..*old(tribe) })
            &&& *final(member) == (TribeMember {
                tribe: tribe_key,
                wallet,
                joined_at: now,
                is_leader: false,
                bump: old(member).bump,
            })
            &&& *final(player) == (Player { tribe: Some(tribe_key), ..*old(player) })
        },
{
    if tribe.member_count >= TRIBE_MAX_MEMBERS {
        return Err(ErrorCode::TribeFull);
    }
    if player.tribe.is_some() {
        return Err(ErrorCode::AlreadyMember);
    }
    member.tribe = tribe_key;
    member.wallet = wallet;
    member.joined_at = now;
    member.is_leader = false;
    tribe.member_count = tribe.member_count + 1;
    player.tribe = Some(tribe_key);
    Ok(())
}

/// Founds the alliance at `alliance_key` with its founder as the one
/// member; its id is the founding time read as an unsigned number. The
/// alliance account keeps only its bump, and the founder's player record
/// names the alliance.
///
/// Refused with `AlreadyMember`, changing nothing, when the founder is
/// already in an alliance: a wallet is in at most one alliance.
pub fn create_alliance(
    alliance: &mut Alliance,
    founder_player: &mut Player,
    alliance_key: Pubkey,
    name: [u8; 32],
    now: i64,
) -> (r: Result<(), ErrorCode>)
    ensures
        old(founder_player).alliance is Some ==> {
            &&& r == Err::<(), ErrorCode>(ErrorCode::AlreadyMember)
            &&& *final(alliance) == *old(alliance)
            &&& *final(founder_player) == *old(founder_player)
        },
        old(founder_player).alliance is None ==> {
            &&& r == Ok::<(), ErrorCode>(())
            &&& *final(alliance) == (Alliance {
                id: now as u64,
                name,
                member_count: 1,
                created_at: now,
                bump: old(alliance).bump,
            })
            &&& *final(founder_player) == (Player { alliance: Some(alliance_key), ..*old(founder_player) })
        },
{
    if founder_player.alliance.is_some() {
        return Err(ErrorCode::AlreadyMember);
    }
    alliance.id = now as u64;
    alliance.name = name;
    alliance.member_count = 1;
    alliance.created_at = now;
    founder_player.alliance = Some(alliance_key);
    Ok(())
}

/// Adds `wallet`, whose player record is `player`, to the alliance at
/// `alliance_key`; the record then names the alliance.
///
/// Refused, changing nothing, with `AllianceFull` when the alliance already
/// has the most members an alliance may, then with `AlreadyMember` when the
/// wallet is already in an alliance.
pub fn join_alliance(
    alliance: &mut Alliance,
    member: &mut AllianceMember,
    player: &mut Player,
    alliance_key: Pubkey,
    wallet: Pubkey,
    now: i64,
) -> (r: Result<(), ErrorCode>)
    ensures
        old(alliance).member_count <= ALLIANCE_MAX_MEMBERS ==> final(alliance).member_count
            <= ALLIANCE_MAX_MEMBERS,
        old(alliance).member_count >= ALLIANCE_MAX_MEMBERS || old(player).alliance is Some ==> {
            &&& r == Err::<(), ErrorCode>(
                if old(alliance).member_count >= ALLIANCE_MAX_MEMBERS {
                    ErrorCode::AllianceFull
                } else {
                    ErrorCode::AlreadyMember
                },
            )
            &&& *final(alliance) == *old(alliance)
            &&& *final(member) == *old(member)
            &&& *final(player) == *old(player)
        },
        old(alliance).member_count < ALLIANCE_MAX_MEMBERS && old(player).alliance is None ==> {
            &&& r == Ok::<(), ErrorCode>(())
            &&& *final(alliance) == (Alliance {
                member_count: (old(alliance).member_count + 1) as u8,
                ..*old(alliance)
            })
            &&& *final(member) == (AllianceMember {
                alliance: alliance_key,
                wallet,
                joined_at: now,
                bump: old(member).bump,
            })
            &&& *final(player) == (Player { alliance: Some(alliance_key), ..*old(player) })
        },
{
    if alliance.member_count >= ALLIANCE_MAX_MEMBERS {
        return Err(ErrorCode::AllianceFull);
    }
    if player.alliance.is_some() {
        return Err(ErrorCode::AlreadyMember);
    }
    member.alliance = alliance_key;
    member.wallet = wallet;
    member.joined_at = now;
    alliance.member_count = alliance.member_count + 1;
    player.alliance = Some(alliance_key);
    Ok(())
}

} // verus!
