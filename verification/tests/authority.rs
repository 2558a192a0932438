use anchor_lang::prelude::Pubkey as ChainKey;
use escrow::authority::derive_authority;
use escrow::{AuthorityToken, Offer, Pubkey};

fn key(byte: u8) -> Pubkey {
    Pubkey::new([byte; 32])
}

fn chain(key: &Pubkey) -> ChainKey {
    ChainKey::new_from_array(key.bytes)
}

#[test]
fn signer_token_stands_for_the_signer() {
    assert_eq!(AuthorityToken::signer(key(4)).address(), key(4));
}

#[test]
fn derived_authority_is_the_program_address() {
    let program = key(9);
    let (address, bump) = ChainKey::find_program_address(&[b"vault"], &chain(&program));
    let seeds = vec![b"vault".to_vec(), vec![bump]];
    let token = derive_authority(&seeds, &program).expect("the found bump derives an address");
    assert_eq!(token.address().bytes, address.to_bytes());
    assert!(token.address() != program);
}

#[test]
fn derived_authority_of_an_offer() {
    let program = key(9);
    let id: u64 = 7;
    let (address, bump) =
        ChainKey::find_program_address(&[b"offer", &id.to_le_bytes()], &chain(&program));
    let offer = Offer {
        id,
        maker: key(1),
        token_mint_a: key(2),
        token_mint_b: key(3),
        token_b_wanted_amount: 500,
        bump,
    };
    let token = derive_authority(&offer.signer_seeds(), &program).expect("a valid bump");
    assert_eq!(token.address(), Pubkey::new(address.to_bytes()));
}

#[test]
fn derived_authority_depends_on_the_program() {
    let seeds = vec![b"offer".to_vec(), 7u64.to_le_bytes().to_vec()];
    let mut found = 0;
    for bump in 0..=255u8 {
        let mut with_bump = seeds.clone();
        with_bump.push(vec![bump]);
        let one = derive_authority(&with_bump, &key(9));
        let other = derive_authority(&with_bump, &key(10));
        if let (Some(one), Some(other)) = (one, other) {
            assert!(one.address() != other.address());
            found += 1;
        }
    }
    assert!(found > 0);
}

#[test]
fn derived_authority_depends_on_the_seeds() {
    let program = key(9);
    let mut seen: Vec<Pubkey> = Vec::new();
    for id in 0..20u64 {
        let (address, bump) =
            ChainKey::find_program_address(&[b"offer", &id.to_le_bytes()], &chain(&program));
        let seeds = vec![b"offer".to_vec(), id.to_le_bytes().to_vec(), vec![bump]];
        let token = derive_authority(&seeds, &program).expect("a valid bump");
        assert_eq!(token.address().bytes, address.to_bytes());
        assert!(!seen.contains(&token.address()));
        seen.push(token.address());
    }
}

#[test]
fn seeds_that_derive_no_address_give_none() {
    let program = key(9);
    let mut rejected = 0;
    for bump in 0..=255u8 {
        let expected = ChainKey::create_program_address(&[b"offer", &[bump]], &chain(&program));
        let token = derive_authority(&vec![b"offer".to_vec(), vec![bump]], &program);
        match expected {
            Ok(address) => assert_eq!(token.map(|t| t.address().bytes), Some(address.to_bytes())),
            Err(_) => {
                assert!(token.is_none());
                rejected += 1;
            }
        }
    }
    assert!(rejected > 0);
}

#[test]
fn too_many_seeds_give_none() {
    let seeds: Vec<Vec<u8>> = (0..17u8).map(|i| vec![i]).collect();
    assert!(derive_authority(&seeds, &key(9)).is_none());
}

#[test]
fn a_seed_that_is_too_long_gives_none() {
    let seeds = vec![vec![0u8; 33]];
    assert!(derive_authority(&seeds, &key(9)).is_none());
}

#[test]
fn no_seeds_are_seeds_too() {
    let program = key(9);
    let expected = ChainKey::create_program_address(&[], &chain(&program));
    let token = derive_authority(&Vec::new(), &program);
    assert_eq!(token.map(|t| t.address().bytes), expected.ok().map(|a| a.to_bytes()));
}
