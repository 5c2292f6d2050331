use std::hash::{Hash, Hasher};
use std::collections::hash_map::DefaultHasher;
use schnorrkel::{ExpansionMode, MiniSecretKey};
use vrf_poker::commitment::{commit_to, to_be_bytes};
use vrf_poker::croupier::Croupier;
use vrf_poker::player::Player;
use vrf_poker::vrf::label;

fn key_bytes(fill: u8) -> [u8; 96] {
    MiniSecretKey::from_bytes(&[fill; 32])
        .unwrap()
        .expand_to_keypair(ExpansionMode::Uniform)
        .to_bytes()
}

fn expected_hash(n: u64) -> String {
    let mut hasher = DefaultHasher::new();
    n.hash(&mut hasher);
    hex::encode(hasher.finish().to_be_bytes())
}

fn card(p: &Player) -> u8 {
    p.reveal_vrf_output().unwrap()[0] % 52
}

#[test]
fn fresh_player_commitment_holds() {
    for _ in 0..5 {
        let p = Player::new();
        assert_eq!(p.number_hash, expected_hash(p.number));
        assert!(Croupier::verify_hash(&p));
        assert!(p.reveal_vrf_output().is_none());
        assert!(!p.vrf_verify(b"anything"));
    }
}

#[test]
fn commitment_is_hex_of_digest() {
    for n in [0u64, 1, 42, u64::MAX] {
        let c = commit_to(n);
        assert_eq!(c, expected_hash(n));
        assert_eq!(c.len(), 16);
        assert!(c.chars().all(|ch| ch.is_ascii_digit() || ('a'..='f').contains(&ch)));
    }
    assert_ne!(commit_to(1), commit_to(2));
}

#[test]
fn big_endian_bytes() {
    assert_eq!(to_be_bytes(0x0102030405060708), [1, 2, 3, 4, 5, 6, 7, 8]);
    assert_eq!(to_be_bytes(0), [0; 8]);
    assert_eq!(to_be_bytes(u64::MAX), [255; 8]);
}

#[test]
fn label_is_protocol_name() {
    assert_eq!(label(), b"VRF Poker".to_vec());
}

#[test]
fn tampered_secret_fails_check() {
    let mut p = Player::from_parts(key_bytes(1), 1234);
    assert!(Croupier::verify_hash(&p));
    p.number = 1235;
    assert!(!Croupier::verify_hash(&p));
}

#[test]
fn public_key_is_keypair_tail() {
    let bytes = key_bytes(3);
    let p = Player::from_parts(bytes, 9);
    assert_eq!(p.public_key(), bytes[64..].to_vec());
}

#[test]
fn evaluation_is_deterministic() {
    let mut p = Player::from_parts(key_bytes(4), 77);
    p.commit(b"seed");
    let first = p.reveal_vrf_output().unwrap();
    assert!(p.vrf_verify(b"seed"));
    p.commit(b"seed");
    assert_eq!(p.reveal_vrf_output().unwrap(), first);
    assert!(p.vrf_verify(b"seed"));
    let mut q = Player::from_parts(key_bytes(4), 5);
    q.commit(b"seed");
    assert_eq!(q.reveal_vrf_output().unwrap(), first);
}

#[test]
fn output_matches_schnorrkel() {
    let mut p = Player::from_parts(key_bytes(5), 1);
    p.commit(b"abc");
    let kp = schnorrkel::Keypair::from_bytes(&key_bytes(5)).unwrap();
    let ctx = schnorrkel::signing_context(b"VRF Poker");
    let (io, _, _) = kp.vrf_sign(ctx.bytes(b"abc"));
    assert_eq!(p.reveal_vrf_output().unwrap(), io.to_preout().to_bytes());
}

#[test]
fn proof_for_other_seed_rejected() {
    let mut p = Player::from_parts(key_bytes(6), 1);
    p.commit(b"first seed");
    assert!(p.vrf_verify(b"first seed"));
    assert!(!p.vrf_verify(b"second seed"));
}

#[test]
fn forged_output_rejected() {
    let mut p = Player::from_parts(key_bytes(7), 1);
    p.commit(b"seed");
    let mut out = p.vrf_output.unwrap();
    out[0] ^= 1;
    p.vrf_output = Some(out);
    assert!(!p.vrf_verify(b"seed"));
}

#[test]
fn sum_seed_exact_values() {
    assert_eq!(Croupier::sum_seed(&vec![]), [0; 8]);
    assert_eq!(Croupier::sum_seed(&vec![1, 2, 3]), [0, 0, 0, 0, 0, 0, 0, 6]);
    assert_eq!(Croupier::sum_seed(&vec![u64::MAX, 2]), [0, 0, 0, 0, 0, 0, 0, 1]);
    assert_eq!(Croupier::sum_seed(&vec![256]), [0, 0, 0, 0, 0, 0, 1, 0]);
}

#[test]
fn sum_seed_order_independent() {
    let a = vec![10u64, u64::MAX, 7, 99];
    let b = vec![99u64, 7, 10, u64::MAX];
    assert_eq!(Croupier::sum_seed(&a), Croupier::sum_seed(&b));
}

#[test]
fn concat_seed_joins_in_order() {
    let hashes = vec!["ab".to_string(), "cd".to_string(), "ef".to_string()];
    assert_eq!(Croupier::concat_seed(&hashes), "abcdef");
    assert_eq!(Croupier::concat_seed(&vec![]), "");
}

#[test]
fn collect_skips_bad_commitments() {
    let a = Player::from_parts(key_bytes(1), 10);
    let mut b = Player::from_parts(key_bytes(2), 20);
    let c = Player::from_parts(key_bytes(3), 30);
    b.number = 21;
    let players = vec![a, b, c];
    assert_eq!(
        Croupier::collect_hashes(&players),
        vec![expected_hash(10), expected_hash(30)]
    );
    assert_eq!(Croupier::collect_numbers(&players), vec![10, 30]);
    assert_eq!(
        Croupier::shared_seed(&players),
        format!("{}{}", expected_hash(10), expected_hash(30))
    );
}

#[test]
fn select_winner_cases() {
    assert_eq!(Croupier::select_winner(&vec![]), None);
    assert_eq!(Croupier::select_winner(&vec![None, None]), None);
    assert_eq!(Croupier::select_winner(&vec![Some(3), Some(7)]), Some(1));
    assert_eq!(Croupier::select_winner(&vec![Some(7), Some(3)]), Some(0));
    assert_eq!(Croupier::select_winner(&vec![None, Some(0)]), Some(1));
}

#[test]
fn select_winner_tie_goes_to_earlier() {
    assert_eq!(Croupier::select_winner(&vec![Some(5), None, Some(5)]), Some(0));
    assert_eq!(Croupier::select_winner(&vec![None, Some(5), Some(2), Some(5)]), Some(1));
}

#[test]
fn card_values_exact() {
    let mut p = Player::from_parts(key_bytes(8), 1);
    let q = Player::from_parts(key_bytes(9), 2);
    p.commit(b"s");
    let players = vec![p, q];
    let cards = Croupier::card_values(&players, b"s");
    assert_eq!(cards, vec![Some(players[0].reveal_vrf_output().unwrap()[0] % 52), None]);
    assert_eq!(Croupier::card_values(&players, b"t"), vec![None, None]);
}

#[test]
fn round_two_valid_players() {
    for fill in 1u8..8 {
        let mut players = vec![
            Player::from_parts(key_bytes(fill), 100 + fill as u64),
            Player::from_parts(key_bytes(fill + 20), 200 + fill as u64),
        ];
        let seed = Croupier::shared_seed(&players);
        let winner = Croupier::run_round(&mut players);
        assert!(players[0].vrf_verify(seed.as_bytes()));
        assert!(players[1].vrf_verify(seed.as_bytes()));
        let expected = if card(&players[1]) > card(&players[0]) { 1 } else { 0 };
        assert_eq!(winner, Some(expected));
    }
}

#[test]
fn round_with_tampered_player() {
    let mut players = vec![
        Player::from_parts(key_bytes(11), 5),
        Player::from_parts(key_bytes(12), 6),
    ];
    players[1].number = 60;
    assert_eq!(Croupier::collect_numbers(&players), vec![5]);
    let seed = Croupier::shared_seed(&players);
    assert_eq!(seed, expected_hash(5));
    let winner = Croupier::run_round(&mut players);
    assert!(players[0].vrf_verify(seed.as_bytes()));
    assert!(players[1].vrf_verify(seed.as_bytes()));
    let expected = if card(&players[1]) > card(&players[0]) { 1 } else { 0 };
    assert_eq!(winner, Some(expected));
}

#[test]
fn round_without_verified_players() {
    let mut players = vec![
        Player::from_parts(key_bytes(13), 1),
        Player::from_parts(key_bytes(14), 2),
    ];
    assert_eq!(Croupier::determine_winner(&players, b"seed"), None);
    Croupier::distribute_input(&mut players, &"one seed".to_string());
    assert_eq!(Croupier::determine_winner(&players, b"another seed"), None);
    assert!(Croupier::determine_winner(&players, b"one seed").is_some());
}

#[test]
fn distribute_evaluates_every_player() {
    let mut players = vec![
        Player::from_parts(key_bytes(15), 1),
        Player::from_parts(key_bytes(16), 2),
    ];
    players[0].number = 3;
    Croupier::distribute_input(&mut players, &"s".to_string());
    assert_eq!(players.len(), 2);
    assert_eq!(players[0].number, 3);
    assert!(players[0].vrf_verify(b"s"));
    assert!(players[1].vrf_verify(b"s"));
}

#[test]
fn random_players_round_has_winner() {
    let mut players = vec![Player::new(), Player::new(), Player::new()];
    let winner = Croupier::run_round(&mut players);
    assert!(winner.is_some());
}
