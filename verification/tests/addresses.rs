use solana_quadratic_funding::{
    contribution_pda, id, project_pda, project_pdas, round_pda, Pubkey, Round,
};

type Outside = anchor_lang::prelude::Pubkey;

fn key(n: u8) -> Pubkey {
    Pubkey { bytes: [n; 32] }
}

fn outside(k: &Pubkey) -> Outside {
    Outside::new_from_array(k.bytes)
}

fn program() -> Outside {
    "MUkfDWcaTyHdYCVNnnhDnSiYmwRhAvXNmgAeCex6szC".parse::<Outside>().unwrap()
}

#[test]
fn program_has_its_published_address() {
    assert_eq!(outside(&id()), program());
}

#[test]
fn round_lives_under_creator_and_number() {
    for number in [0u64, 1, 258, 0x0102_0304_0506_0708, u64::MAX] {
        let found = round_pda(&key(7), number).unwrap();
        let expected = Outside::find_program_address(
            &[b"round", outside(&key(7)).as_ref(), &number.to_le_bytes()],
            &program(),
        )
        .0;
        assert_eq!(outside(&found), expected);
        assert!(found != key(7));
    }
}

#[test]
fn project_lives_under_round_and_owner() {
    let found = project_pda(&key(1), &key(2)).unwrap();
    let expected = Outside::find_program_address(
        &[b"project", outside(&key(1)).as_ref(), outside(&key(2)).as_ref()],
        &program(),
    )
    .0;
    assert_eq!(outside(&found), expected);
    assert!(found != key(1));
    assert!(found != key(2));
    assert!(Some(found) != project_pda(&key(2), &key(1)));
}

#[test]
fn contribution_lives_under_project_and_donor() {
    let found = contribution_pda(&key(1), &key(2)).unwrap();
    let expected = Outside::find_program_address(
        &[b"contribution", outside(&key(1)).as_ref(), outside(&key(2)).as_ref()],
        &program(),
    )
    .0;
    assert_eq!(outside(&found), expected);
    assert!(Some(found) != project_pda(&key(1), &key(2)));
}

#[test]
fn round_numbers_have_their_own_addresses() {
    assert!(round_pda(&key(7), 1) != round_pda(&key(7), 256));
    assert!(round_pda(&key(7), 1) != round_pda(&key(8), 1));
}

#[test]
fn projects_are_listed_in_order_of_registration() {
    let mut owners = [key(0); 10];
    owners[0] = key(5);
    owners[1] = key(3);
    owners[2] = key(9);
    let round = Round {
        creator: key(1),
        round_id: 1,
        deadline_unix: 10,
        project_owners: owners,
        project_count: 2,
        matching_pool_total: 0,
        total_qf_score: 0,
        finalized: false,
        bump: 255,
    };
    assert_eq!(round.registered_owners(), vec![key(5), key(3)]);
    let listed = project_pdas(&key(4), &round).unwrap();
    assert_eq!(
        listed,
        vec![
            project_pda(&key(4), &key(5)).unwrap(),
            project_pda(&key(4), &key(3)).unwrap(),
        ]
    );
}

#[test]
fn zero_address_is_the_default() {
    assert_eq!(Pubkey::default().bytes, [0u8; 32]);
    assert_eq!(outside(&Pubkey::default()), Outside::default());
    assert!(Pubkey::default() == key(0));
    let mut last = [0u8; 32];
    last[31] = 1;
    assert!(Pubkey::default() != Pubkey { bytes: last });
}
