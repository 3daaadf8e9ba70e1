use wheatgame::state::{ALLIANCE_MAX_MEMBERS, TRIBE_MAX_MEMBERS};
use wheatgame::{
    create_alliance, create_tribe, join_alliance, join_tribe, Alliance, AllianceMember, ErrorCode,
    Player, Pubkey, Tribe, TribeMember,
};

fn member_key(n: u8) -> Pubkey {
    let mut bytes = [1u8; 32];
    bytes[2] = n;
    Pubkey::new_from_array(bytes)
}

fn fresh_player(n: u8) -> Player {
    Player { wallet: member_key(n), plot_count: 0, tribe: None, alliance: None, created_at: 0, bump: 8 }
}

fn blank_tribe() -> Tribe {
    Tribe {
        id: 0,
        name: [0u8; 32],
        tag: [0u8; 4],
        leader: Pubkey::default(),
        home_plot: Pubkey::default(),
        member_count: 0,
        invite_code: [0u8; 8],
        created_at: 0,
        bump: 3,
    }
}

fn blank_tribe_member() -> TribeMember {
    TribeMember { tribe: Pubkey::default(), wallet: Pubkey::default(), joined_at: 0, is_leader: true, bump: 4 }
}

fn blank_alliance() -> Alliance {
    Alliance { id: 0, name: [0u8; 32], member_count: 0, created_at: 0, bump: 5 }
}

fn blank_alliance_member() -> AllianceMember {
    AllianceMember { alliance: Pubkey::default(), wallet: Pubkey::default(), joined_at: 0, bump: 6 }
}

#[test]
fn create_tribe_records_the_founding() {
    let mut t = blank_tribe();
    let mut leader = fresh_player(1);
    let mut name = [0u8; 32];
    name[0] = b'W';
    create_tribe(&mut t, &mut leader, member_key(90), member_key(1), name, *b"WHT!", member_key(50), *b"INVITE01", 1_700_000_123)
        .unwrap();
    assert_eq!(t.id, 1_700_000_123);
    assert_eq!(t.name, name);
    assert_eq!(&t.tag, b"WHT!");
    assert!(t.leader.same_as(&member_key(1)));
    assert!(t.home_plot.same_as(&member_key(50)));
    assert_eq!(t.member_count, 1);
    assert_eq!(&t.invite_code, b"INVITE01");
    assert_eq!(t.created_at, 1_700_000_123);
    assert_eq!(t.bump, 3);
    assert!(leader.tribe.unwrap().same_as(&member_key(90)));
}

#[test]
fn create_tribe_before_epoch_wraps_the_id() {
    let mut t = blank_tribe();
    let mut leader = fresh_player(1);
    create_tribe(&mut t, &mut leader, member_key(90), member_key(1), [0u8; 32], [0u8; 4], member_key(2), [0u8; 8], -1).unwrap();
    assert_eq!(t.id, u64::MAX);
    assert_eq!(t.created_at, -1);
}

#[test]
fn tribe_fills_up_at_ten() {
    let mut t = blank_tribe();
    let mut leader = fresh_player(1);
    create_tribe(&mut t, &mut leader, member_key(90), member_key(1), [0u8; 32], [0u8; 4], member_key(2), [0u8; 8], 10).unwrap();
    for i in 2..=TRIBE_MAX_MEMBERS {
        let mut m = blank_tribe_member();
        let mut p = fresh_player(i);
        join_tribe(&mut t, &mut m, &mut p, member_key(90), member_key(i), 20 + i as i64).unwrap();
        assert!(m.tribe.same_as(&member_key(90)));
        assert!(m.wallet.same_as(&member_key(i)));
        assert_eq!(m.joined_at, 20 + i as i64);
        assert!(!m.is_leader);
        assert_eq!(m.bump, 4);
        assert_eq!(t.member_count, i);
        assert!(p.tribe.unwrap().same_as(&member_key(90)));
    }
    let mut late = blank_tribe_member();
    let mut p = fresh_player(11);
    let r = join_tribe(&mut t, &mut late, &mut p, member_key(90), member_key(11), 99);
    assert_eq!(r.unwrap_err(), ErrorCode::TribeFull);
    assert_eq!(t.member_count, 10);
    assert!(late.wallet.same_as(&Pubkey::default()));
    assert!(late.is_leader);
    assert!(p.tribe.is_none());
}

#[test]
fn a_wallet_is_in_one_tribe_at_most() {
    let mut first = blank_tribe();
    let mut second = blank_tribe();
    let mut leader = fresh_player(1);
    create_tribe(&mut first, &mut leader, member_key(90), member_key(1), [0u8; 32], [0u8; 4], member_key(2), [0u8; 8], 10).unwrap();
    let r = create_tribe(&mut second, &mut leader, member_key(91), member_key(1), [0u8; 32], [0u8; 4], member_key(2), [0u8; 8], 11);
    assert_eq!(r.unwrap_err(), ErrorCode::AlreadyMember);
    assert_eq!(second.member_count, 0);
    let mut wanderer = fresh_player(5);
    let mut m1 = blank_tribe_member();
    join_tribe(&mut first, &mut m1, &mut wanderer, member_key(90), member_key(5), 12).unwrap();
    let mut other = blank_tribe();
    other.member_count = 1;
    let mut m2 = blank_tribe_member();
    let r = join_tribe(&mut other, &mut m2, &mut wanderer, member_key(92), member_key(5), 13);
    assert_eq!(r.unwrap_err(), ErrorCode::AlreadyMember);
    assert_eq!(other.member_count, 1);
    assert!(wanderer.tribe.unwrap().same_as(&member_key(90)));
}

#[test]
fn alliance_fills_up_at_five() {
    let mut a = blank_alliance();
    let mut founder = fresh_player(1);
    let mut name = [0u8; 32];
    name[1] = 7;
    create_alliance(&mut a, &mut founder, member_key(80), name, 77).unwrap();
    assert_eq!(a.id, 77);
    assert_eq!(a.name, name);
    assert_eq!(a.member_count, 1);
    assert_eq!(a.created_at, 77);
    assert_eq!(a.bump, 5);
    assert!(founder.alliance.unwrap().same_as(&member_key(80)));
    for i in 2..=ALLIANCE_MAX_MEMBERS {
        let mut m = blank_alliance_member();
        let mut p = fresh_player(i);
        join_alliance(&mut a, &mut m, &mut p, member_key(80), member_key(i), 100).unwrap();
        assert!(m.alliance.same_as(&member_key(80)));
        assert!(m.wallet.same_as(&member_key(i)));
        assert_eq!(m.joined_at, 100);
        assert_eq!(m.bump, 6);
    }
    assert_eq!(a.member_count, 5);
    let mut late = blank_alliance_member();
    let mut p = fresh_player(6);
    let r = join_alliance(&mut a, &mut late, &mut p, member_key(80), member_key(6), 101);
    assert_eq!(r.unwrap_err(), ErrorCode::AllianceFull);
    assert_eq!(a.member_count, 5);
    assert_eq!(late.joined_at, 0);
}

#[test]
fn a_wallet_is_in_one_alliance_at_most() {
    let mut a1 = blank_alliance();
    let mut a2 = blank_alliance();
    let mut founder = fresh_player(1);
    create_alliance(&mut a1, &mut founder, member_key(80), [0u8; 32], 1).unwrap();
    let r = create_alliance(&mut a2, &mut founder, member_key(81), [0u8; 32], 2);
    assert_eq!(r.unwrap_err(), ErrorCode::AlreadyMember);
    assert_eq!(a2.member_count, 0);
    a2.member_count = 1;
    let mut m = blank_alliance_member();
    let r = join_alliance(&mut a2, &mut m, &mut founder, member_key(81), member_key(1), 3);
    assert_eq!(r.unwrap_err(), ErrorCode::AlreadyMember);
    assert_eq!(a2.member_count, 1);
    assert!(founder.alliance.unwrap().same_as(&member_key(80)));
}
