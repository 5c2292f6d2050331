//! The coordinator: checks commitments, aggregates the validated values into
//! a shared seed, hands the seed to every player and picks the winner among
//! the players whose proofs verify.
use vstd::prelude::*;
use vstd::seq_lib::group_to_multiset_ensures;
use vstd::arithmetic::div_mod::{lemma_add_mod_noop, lemma_small_mod};
use crate::commitment::{be_bytes, commit_to, commitment_of, to_be_bytes};
use crate::player::Player;

verus! {

/// 2 to the 64th: the modulus of the sum-based seed.
pub open spec fn word_modulus() -> int {
    0x1_0000_0000_0000_0000
}

/// Whether a player's published commitment matches its secret value.
pub open spec fn commitment_holds(p: Player) -> bool {
    p.number_hash@ == commitment_of(p.number)
}

/// The commitments of the players whose commitment holds, in order.
pub open spec fn validated_hashes(ps: Seq<Player>) -> Seq<Seq<char>>
    decreases ps.len(),
{
    if ps.len() == 0 {
        Seq::empty()
    } else if commitment_holds(ps.last()) {
        validated_hashes(ps.drop_last()).push(ps.last().number_hash@)
    } else {
        validated_hashes(ps.drop_last())
    }
}

/// The secret values of the players whose commitment holds, in order.
pub open spec fn validated_numbers(ps: Seq<Player>) -> Seq<u64>
    decreases ps.len(),
{
    if ps.len() == 0 {
        Seq::empty()
    } else if commitment_holds(ps.last()) {
        validated_numbers(ps.drop_last()).push(ps.last().number)
    } else {
        validated_numbers(ps.drop_last())
    }
}

/// The strings one after the other.
pub open spec fn concat_all(s: Seq<Seq<char>>) -> Seq<char>
    decreases s.len(),
{
    if s.len() == 0 {
        Seq::empty()
    } else {
        concat_all(s.drop_last()) + s.last()
    }
}

/// The sum of the values, as an unbounded integer.
pub open spec fn sum_of(s: Seq<u64>) -> int
    decreases s.len(),
{
    if s.len() == 0 {
        0
    } else {
        sum_of(s.drop_last()) + s.last()
    }
}

/// The sum-based shared seed: the sum modulo 2^64, big-endian.
pub open spec fn sum_seed_of(s: Seq<u64>) -> Seq<u8> {
    be_bytes((sum_of(s) % word_modulus()) as u64)
}

/// The bytes of a seed given as text: its UTF-8 encoding.
pub open spec fn seed_bytes(s: Seq<char>) -> Seq<u8> {
    vstd::utf8::encode_utf8(s)
}

/// `after` is `before` once it has evaluated its VRF over `seed`.
pub open spec fn evaluated(before: Player, after: Player, seed: Seq<u8>) -> bool {
    &&& after.wf()
    &&& after.keypair@ == before.keypair@
    &&& after.number == before.number
    &&& after.number_hash == before.number_hash
    &&& after.output() == Some(before.output_for(seed))
}

/// The card a player draws over `seed`: the first byte of its output modulo
/// 52 when its proof verifies, none when it is disqualified.
pub open spec fn card_of(p: Player, seed: Seq<u8>) -> Option<u8> {
    if p.proof_holds(seed) {
        Some((p.vrf_output.unwrap()@[0] % 52) as u8)
    } else {
        None
    }
}

/// The cards of the players over `seed`, in order.
pub open spec fn cards_of(ps: Seq<Player>, seed: Seq<u8>) -> Seq<Option<u8>> {
    ps.map_values(|p: Player| card_of(p, seed))
}

/// Entry `i` holds the highest card, and no earlier entry holds as high a one.
pub open spec fn is_winner(c: Seq<Option<u8>>, i: int) -> bool {
    &&& 0 <= i < c.len()
    &&& c[i] is Some
    &&& forall|j: int| 0 <= j < c.len() && (#[trigger] c[j]) is Some ==> c[j].unwrap() <= c[i].unwrap()
    &&& forall|j: int| 0 <= j < i && (#[trigger] c[j]) is Some ==> c[j].unwrap() < c[i].unwrap()
}

/// No entry holds a card.
pub open spec fn no_cards(c: Seq<Option<u8>>) -> bool {
    forall|j: int| 0 <= j < c.len() ==> (#[trigger] c[j]) is None
}

pub struct Croupier;

impl Croupier {
    /// Whether the player's commitment matches the digest of its secret value.
    pub fn verify_hash(player: &Player) -> (r: bool)
        ensures
            r == commitment_holds(*player),
    {
        let expected = commit_to(player.number);
        expected == player.number_hash
    }

    /// The commitments of the players whose commitment holds, in input order.
    pub fn collect_hashes(players: &[Player]) -> (r: Vec<String>)
        ensures
            r@.map_values(|s: String| s@) == validated_hashes(players@),
    {
        let mut r: Vec<String> = Vec::new();
        let mut i: usize = 0;
        while i < players.len()
            invariant
                i <= players@.len(),
                r@.map_values(|s: String| s@) == validated_hashes(players@.subrange(0, i as int)),
            decreases players@.len() - i,
        {
            assert(players@.subrange(0, i + 1).drop_last() =~= players@.subrange(0, i as int));
            let p = &players[i];
            if Croupier::verify_hash(p) {
                r.push(p.number_hash.clone());
            }
            i = i + 1;
            assert(r@.map_values(|s: String| s@) =~= validated_hashes(players@.subrange(0, i as int)));
        }
        assert(players@.subrange(0, players@.len() as int) =~= players@);
        r
    }

    /// The secret values of the players whose commitment holds, in input order.
    pub fn collect_numbers(players: &[Player]) -> (r: Vec<u64>)
        ensures
            r@ == validated_numbers(players@),
    {
        let mut r: Vec<u64> = Vec::new();
        let mut i: usize = 0;
        while i < players.len()
            invariant
                i <= players@.len(),
                r@ == validated_numbers(players@.subrange(0, i as int)),
            decreases players@.len() - i,
        {
            assert(players@.subrange(0, i + 1).drop_last() =~= players@.subrange(0, i as int));
            let p = &players[i];
            if Croupier::verify_hash(p) {
                r.push(p.number);
            }
            i = i + 1;
        }
        assert(players@.subrange(0, players@.len() as int) =~= players@);
        r
    }

    /// The concatenation-based shared seed: the commitments one after the other.
    pub fn concat_seed(hashes: &Vec<String>) -> (r: String)
        ensures
            r@ == concat_all(hashes@.map_values(|s: String| s@)),
    {
        let ghost views = hashes@.map_values(|s: String| s@);
        let mut r = String::new();
        let mut i: usize = 0;
        while i < hashes.len()
            invariant
                i <= hashes@.len(),
                views == hashes@.map_values(|s: String| s@),
                r@ == concat_all(views.subrange(0, i as int)),
            decreases hashes@.len() - i,
        {
            assert(views.subrange(0, i + 1).drop_last() =~= views.subrange(0, i as int));
            r.append(hashes[i].as_str());
            i = i + 1;
        }
        assert(views.subrange(0, hashes@.len() as int) =~= views);
        r
    }

    /// The sum-based shared seed: the sum of the values modulo 2^64,
    /// big-endian.
    pub fn sum_seed(values: &Vec<u64>) -> (r: [u8; 8])
        ensures
            r@ == sum_seed_of(values@),
    {
        let mut acc: u64 = 0;
        let mut i: usize = 0;
        while i < values.len()
            invariant
                i <= values@.len(),
                acc as int == sum_of(values@.subrange(0, i as int)) % word_modulus(),
            decreases values@.len() - i,
        {
            let ghost s = sum_of(values@.subrange(0, i as int));
            assert(values@.subrange(0, i + 1).drop_last() =~= values@.subrange(0, i as int));
            assert(sum_of(values@.subrange(0, i + 1)) == s + values@[i as int]);
            proof {
                lemma_add_mod_noop(s, values@[i as int] as int, word_modulus());
                lemma_small_mod(values@[i as int] as nat, word_modulus() as nat);
                lemma_small_mod(acc as nat, word_modulus() as nat);
                assert(s >= 0) by { lemma_sum_nonneg(values@.subrange(0, i as int)); }
            }
            acc = acc.wrapping_add(values[i]);
            i = i + 1;
        }
        assert(values@.subrange(0, values@.len() as int) =~= values@);
        to_be_bytes(acc)
    }
    /// The concatenation-based shared seed of a round: the commitments of the
    /// players whose commitment holds, one after the other.
    pub fn shared_seed(players: &[Player]) -> (r: String)
        ensures
            r@ == concat_all(validated_hashes(players@)),
    {
        let hashes = Croupier::collect_hashes(players);
        Croupier::concat_seed(&hashes)
    }

    /// Plays one round: builds the shared seed from the validated
    /// commitments, has every player evaluate over it, and picks the winner.
    pub fn run_round(players: &mut Vec<Player>) -> (r: Option<usize>)
        requires
            forall|i: int| 0 <= i < old(players)@.len() ==> (#[trigger] old(players)@[i]).wf(),
        ensures
            final(players)@.len() == old(players)@.len(),
            forall|i: int|
                0 <= i < old(players)@.len() ==> evaluated(
                    #[trigger] old(players)@[i],
                    final(players)@[i],
                    seed_bytes(concat_all(validated_hashes(old(players)@))),
                ),
            r is None <==> no_cards(
                cards_of(final(players)@, seed_bytes(concat_all(validated_hashes(old(players)@)))),
            ),
            r matches Some(i) ==> is_winner(
                cards_of(final(players)@, seed_bytes(concat_all(validated_hashes(old(players)@)))),
                i as int,
            ),
    {
        let ghost before = players@;
        let seed = Croupier::shared_seed(players.as_slice());
        Croupier::distribute_input(players, &seed);
        assert forall|i: int| 0 <= i < players@.len() implies (#[trigger] players@[i]).wf() by {
            assert(evaluated(before[i], players@[i], seed_bytes(seed@)));
        }
        Croupier::determine_winner(players, seed.as_str().as_bytes())
    }

    /// Has every player evaluate its VRF over the seed, whether or not its
    /// commitment held.
    pub fn distribute_input(players: &mut Vec<Player>, input: &String)
        requires
            forall|i: int| 0 <= i < old(players)@.len() ==> (#[trigger] old(players)@[i]).wf(),
        ensures
            final(players)@.len() == old(players)@.len(),
            forall|i: int|
                0 <= i < old(players)@.len() ==> evaluated(
                    #[trigger] old(players)@[i],
                    final(players)@[i],
                    seed_bytes(input@),
                ),
    {
        let input_bytes = input.as_str().as_bytes();
        let ghost orig = players@;
        let ghost n = players@.len();
        let mut done: Vec<Player> = Vec::new();
        while players.len() > 0
            invariant
                orig.len() == n,
                done@.len() + players@.len() == n,
                players@ == orig.subrange(done@.len() as int, n as int),
                input_bytes@ == seed_bytes(input@),
                forall|i: int| 0 <= i < n ==> (#[trigger] orig[i]).wf(),
                forall|j: int| 0 <= j < done@.len() ==> evaluated(#[trigger] orig[j], done@[j], input_bytes@),
            decreases players@.len(),
        {
            let ghost k = done@.len() as int;
            assert(players@[0] == orig[k]);
            let mut p = players.remove(0);
            p.commit(input_bytes);
            done.push(p);
            assert(players@ =~= orig.subrange(done@.len() as int, n as int));
        }
        *players = done;
    }

    /// The card of each player over the seed: none for a player whose proof
    /// does not verify.
    pub fn card_values(players: &Vec<Player>, seed: &[u8]) -> (r: Vec<Option<u8>>)
        requires
            forall|i: int| 0 <= i < players@.len() ==> (#[trigger] players@[i]).wf(),
        ensures
            r@ == cards_of(players@, seed@),
    {
        let mut r: Vec<Option<u8>> = Vec::new();
        let mut i: usize = 0;
        while i < players.len()
            invariant
                i <= players@.len(),
                forall|k: int| 0 <= k < players@.len() ==> (#[trigger] players@[k]).wf(),
                r@ =~= cards_of(players@, seed@).subrange(0, i as int),
            decreases players@.len() - i,
        {
            let p = &players[i];
            let card = if p.vrf_verify(seed) {
                match p.reveal_vrf_output() {
                    Some(out) => Some(out[0] % 52),
                    None => None,
                }
            } else {
                None
            };
            r.push(card);
            i = i + 1;
            assert(r@ =~= cards_of(players@, seed@).subrange(0, i as int));
        }
        r
    }

    /// The index of the highest card; on equal cards the earliest one.
    pub fn select_winner(cards: &Vec<Option<u8>>) -> (r: Option<usize>)
        ensures
            r is None <==> no_cards(cards@),
            r matches Some(i) ==> is_winner(cards@, i as int),
    {
        let mut best: Option<usize> = None;
        let mut best_card: u8 = 0;
        let mut i: usize = 0;
        while i < cards.len()
            invariant
                i <= cards@.len(),
                best is None <==> no_cards(cards@.subrange(0, i as int)),
                best matches Some(b) ==> {
                    &&& b < i
                    &&& cards@[b as int] == Some(best_card)
                    &&& forall|j: int| 0 <= j < i && (#[trigger] cards@[j]) is Some ==> cards@[j].unwrap() <= best_card
                    &&& forall|j: int| 0 <= j < b && (#[trigger] cards@[j]) is Some ==> cards@[j].unwrap() < best_card
                },
            decreases cards@.len() - i,
        {
            match cards[i] {
                Some(c) => {
                    if best.is_none() || c > best_card {
                        best = Some(i);
                        best_card = c;
                    }
                },
                None => {},
            }
            i = i + 1;
            assert(forall|j: int| 0 <= j < i ==> cards@.subrange(0, i as int)[j] == cards@[j]);
            assert(forall|j: int| 0 <= j < i - 1 ==> cards@.subrange(0, i - 1)[j] == cards@[j]);
        }
        assert(cards@.subrange(0, cards@.len() as int) =~= cards@);
        best
    }

    /// The index of the winner over the seed: the player with the highest
    /// card among those whose proof verifies, the earliest on equal cards;
    /// none when no proof verifies.
    pub fn determine_winner(players: &Vec<Player>, seed: &[u8]) -> (r: Option<usize>)
        requires
            forall|i: int| 0 <= i < players@.len() ==> (#[trigger] players@[i]).wf(),
        ensures
            r is None <==> no_cards(cards_of(players@, seed@)),
            r matches Some(i) ==> is_winner(cards_of(players@, seed@), i as int),
    {
        let cards = Croupier::card_values(players, seed);
        Croupier::select_winner(&cards)
    }
}

proof fn lemma_sum_remove(s: Seq<u64>, i: int)
    requires
        0 <= i < s.len(),
    ensures
        sum_of(s) == sum_of(s.remove(i)) + s[i],
    decreases s.len(),
{
    if i == s.len() - 1 {
        assert(s.remove(i) =~= s.drop_last());
    } else {
        assert(s.remove(i).drop_last() =~= s.drop_last().remove(i));
        lemma_sum_remove(s.drop_last(), i);
    }
}

/// The sum of a collection of values does not depend on their order: two
/// sequences that hold the same values, as many times each, have one sum.
pub proof fn lemma_sum_order_independent(a: Seq<u64>, b: Seq<u64>)
    requires
        a.to_multiset() == b.to_multiset(),
    ensures
        sum_of(a) == sum_of(b),
    decreases a.len(),
{
    broadcast use group_to_multiset_ensures;

    if a.len() == 0 {
        assert(b.to_multiset().len() == 0);
    } else {
        let x = a.last();
        assert(a =~= a.drop_last().push(x));
        assert(a.to_multiset().count(x) > 0);
        assert(b.contains(x));
        let j = choose|j: int| 0 <= j < b.len() && b[j] == x;
        assert(a.drop_last().to_multiset() =~= b.remove(j).to_multiset());
        lemma_sum_order_independent(a.drop_last(), b.remove(j));
        lemma_sum_remove(b, j);
    }
}

/// Permuting the validated values leaves the sum-based shared seed unchanged.
pub proof fn lemma_sum_seed_order_independent(a: Seq<u64>, b: Seq<u64>)
    requires
        a.to_multiset() == b.to_multiset(),
    ensures
        sum_seed_of(a) == sum_seed_of(b),
{
    lemma_sum_order_independent(a, b);
}

/// A player whose secret value is changed after it committed no longer passes
/// the commitment check, unless the new value has the same commitment.
pub proof fn lemma_tampering_detected(p: Player, n: u64)
    requires
        commitment_holds(p),
        commitment_of(n) != commitment_of(p.number),
    ensures
        !commitment_holds(Player { number: n, ..p }),
{
}

/// Evaluating twice over the same seed gives the same output.
pub proof fn lemma_evaluation_deterministic(p: Player, a: Player, b: Player, seed: Seq<u8>)
    requires
        evaluated(p, a, seed),
        evaluated(a, b, seed),
    ensures
        b.output() == a.output(),
{
}

/// On equal cards the later of two entries does not win.
pub proof fn lemma_tie_goes_to_earlier(c: Seq<Option<u8>>, w: int, i: int, j: int)
    requires
        is_winner(c, w),
        0 <= i < j < c.len(),
        c[i] is Some,
        c[i] == c[j],
    ensures
        w != j,
{
    if w == j {
        assert(c[i].unwrap() < c[j].unwrap());
    }
}

proof fn lemma_sum_nonneg(s: Seq<u64>)
    ensures
        sum_of(s) >= 0,
    decreases s.len(),
{
    if s.len() > 0 {
        lemma_sum_nonneg(s.drop_last());
    }
}

} // verus!
