//! A participant: keypair, secret value, published commitment, and the VRF
//! output and proof once the shared seed has been evaluated.
use vstd::prelude::*;
use crate::commitment::{commit_to, commitment_of};
use crate::vrf::{
    context_label, generate_keypair, keypair_valid, label, public_of, random_u64, vrf_accepts,
    vrf_output_of, vrf_sign, vrf_verify,
};

verus! {

/// One participant of a round. The keypair is held serialised (secret key,
/// then public key); `number_hash` is the commitment published for `number`;
/// the output and the proof are set together when the player evaluates.
pub struct Player {
    pub keypair: [u8; 96],
    pub number: u64,
    pub number_hash: String,
    pub vrf_output: Option<[u8; 32]>,
    pub vrf_proof: Option<[u8; 64]>,
}

impl Player {
    /// The keypair is one that schnorrkel accepts, and the output and the
    /// proof are present together or absent together.
    pub open spec fn wf(&self) -> bool {
        &&& keypair_valid(self.keypair@)
        &&& self.vrf_output.is_some() == self.vrf_proof.is_some()
    }

    /// The serialised keypair.
    pub open spec fn key(&self) -> Seq<u8> {
        self.keypair@
    }

    /// The public key, as bytes.
    pub open spec fn public_key_spec(&self) -> Seq<u8> {
        public_of(self.key())
    }

    /// The VRF output, once evaluated.
    pub open spec fn output(&self) -> Option<Seq<u8>> {
        match self.vrf_output {
            Some(o) => Some(o@),
            None => None,
        }
    }

    /// Whether the stored output and proof verify, under the player's own
    /// public key, over `seed`.
    pub open spec fn proof_holds(&self, seed: Seq<u8>) -> bool {
        match (self.vrf_output, self.vrf_proof) {
            (Some(o), Some(p)) => vrf_accepts(self.public_key_spec(), context_label(), seed, o@, p@),
            _ => false,
        }
    }

    /// The output that evaluating this player's VRF over `seed` gives.
    pub open spec fn output_for(&self, seed: Seq<u8>) -> Seq<u8> {
        vrf_output_of(self.key(), context_label(), seed)
    }

    /// A fresh player around a drawn keypair and secret value.
    pub fn new() -> (r: Player)
        ensures
            r.wf(),
            r.number_hash@ == commitment_of(r.number),
            r.output() is None,
    {
        let keypair = generate_keypair();
        let number = random_u64();
        Player::from_parts(keypair, number)
    }

    /// A player with the given serialised keypair and secret value, committed
    /// to that value and not yet evaluated.
    pub fn from_parts(keypair: [u8; 96], number: u64) -> (r: Player)
        requires
            keypair_valid(keypair@),
        ensures
            r.wf(),
            r.key() == keypair@,
            r.number == number,
            r.number_hash@ == commitment_of(number),
            r.output() is None,
    {
        let number_hash = commit_to(number);
        Player { keypair, number, number_hash, vrf_output: None, vrf_proof: None }
    }

    /// Evaluates the VRF over `input` under the label, and stores the output
    /// and the proof.
    pub fn commit(&mut self, input: &[u8])
        requires
            old(self).wf(),
        ensures
            final(self).wf(),
            final(self).key() == old(self).key(),
            final(self).number == old(self).number,
            final(self).number_hash == old(self).number_hash,
            final(self).output() == Some(old(self).output_for(input@)),
    {
        let l = label();
        let r = vrf_sign(&self.keypair, l.as_slice(), input);
        match r {
            Some((out, proof)) => {
                self.vrf_output = Some(out);
                self.vrf_proof = Some(proof);
            },
            None => {},
        }
    }

    /// The stored VRF output, if the player has evaluated.
    pub fn reveal_vrf_output(&self) -> (r: Option<[u8; 32]>)
        ensures
            r == self.vrf_output,
            match r {
                Some(o) => self.output() == Some(o@),
                None => self.output() is None,
            },
    {
        self.vrf_output
    }

    /// The public key, as bytes.
    pub fn public_key(&self) -> (r: Vec<u8>)
        requires
            self.wf(),
        ensures
            r@ == self.public_key_spec(),
    {
        let mut r: Vec<u8> = Vec::new();
        let mut i: usize = 64;
        while i < 96
            invariant
                64 <= i <= 96,
                r@ == self.keypair@.subrange(64, i as int),
            decreases 96 - i,
        {
            r.push(self.keypair[i]);
            i = i + 1;
            assert(r@ =~= self.keypair@.subrange(64, i as int));
        }
        r
    }

    /// Whether the stored output and proof verify over `input` under the
    /// player's public key; false before the player has evaluated.
    pub fn vrf_verify(&self, input: &[u8]) -> (r: bool)
        requires
            self.wf(),
        ensures
            r == self.proof_holds(input@),
    {
        match (&self.vrf_output, &self.vrf_proof) {
            (Some(out), Some(proof)) => {
                let public = self.public_key();
                let l = label();
                vrf_verify(public.as_slice(), l.as_slice(), input, out, proof)
            },
            _ => false,
        }
    }
}

} // verus!
