//! Keys, secret values and the verifiable random function, held as plain
//! bytes: a keypair as its 96-byte serialisation (secret key, then public
//! key), an output as 32 bytes and a proof as 64.
use vstd::prelude::*;

verus! {

/// The label bound into every evaluation and verification.
pub open spec fn context_label() -> Seq<u8> {
    seq![86u8, 82u8, 70u8, 32u8, 80u8, 111u8, 107u8, 101u8, 114u8]
}

/// The label bound into every evaluation and verification: "VRF Poker".
pub fn label() -> (r: Vec<u8>)
    ensures
        r@ == context_label(),
{
    let r: Vec<u8> = vec![86u8, 82u8, 70u8, 32u8, 80u8, 111u8, 107u8, 101u8, 114u8];
    assert(r@ =~= context_label());
    r
}

/// Whether the bytes are a keypair that schnorrkel accepts.
pub uninterp spec fn keypair_valid(key: Seq<u8>) -> bool;

/// The VRF output of a keypair over a labelled seed.
pub uninterp spec fn vrf_output_of(key: Seq<u8>, label: Seq<u8>, seed: Seq<u8>) -> Seq<u8>;

/// Whether a proof shows that `out` is the VRF output of the holder of
/// `public` over a labelled seed.
pub uninterp spec fn vrf_accepts(
    public: Seq<u8>,
    label: Seq<u8>,
    seed: Seq<u8>,
    out: Seq<u8>,
    proof: Seq<u8>,
) -> bool;

/// The public key inside a serialised keypair.
pub open spec fn public_of(key: Seq<u8>) -> Seq<u8> {
    key.subrange(64, 96)
}

/// Relies on `schnorrkel::Keypair::generate_with` over the operating system's
/// random source, and on `Keypair::to_bytes`, whose output
/// `Keypair::from_bytes` takes back.
#[verifier::external_body]
pub(crate) fn generate_keypair() -> (r: [u8; 96])
    ensures
        keypair_valid(r@),
{
    schnorrkel::Keypair::generate_with(&mut rand::rngs::OsRng).to_bytes()
}

/// Relies on `rand::random`: a uniformly drawn integer, of which nothing is
/// known in advance.
#[verifier::external_body]
pub(crate) fn random_u64() -> (r: u64) {
    rand::random::<u64>()
}

/// Relies on `schnorrkel::Keypair::from_bytes` and `Keypair::vrf_sign` over
/// the transcript `SigningContext::new(label).bytes(seed)`: the output
/// (`VRFInOut::to_preout`) depends on the keypair and the transcript alone;
/// the proof is serialised with `VRFProof::to_bytes`.
#[verifier::external_body]
pub(crate) fn vrf_sign(key: &[u8; 96], label: &[u8], seed: &[u8]) -> (r: Option<([u8; 32], [u8; 64])>)
    ensures
        r is Some <==> keypair_valid(key@),
        r matches Some(p) ==> p.0@ == vrf_output_of(key@, label@, seed@),
{
    match schnorrkel::Keypair::from_bytes(key) {
        Ok(kp) => {
            let (io, proof, _) = kp.vrf_sign(schnorrkel::context::SigningContext::new(label).bytes(seed));
            Some((io.to_preout().to_bytes(), proof.to_bytes()))
        },
        Err(_) => None,
    }
}

/// Relies on `schnorrkel::PublicKey::vrf_verify` over the transcript
/// `SigningContext::new(label).bytes(seed)`, after `PublicKey::from_bytes` and
/// `VRFProof::from_bytes`; bytes that do not parse are refused. The answer
/// depends on the bytes alone.
#[verifier::external_body]
pub(crate) fn vrf_verify(
    public: &[u8],
    label: &[u8],
    seed: &[u8],
    out: &[u8; 32],
    proof: &[u8; 64],
) -> (r: bool)
    ensures
        r == vrf_accepts(public@, label@, seed@, out@, proof@),
{
    match (schnorrkel::PublicKey::from_bytes(public), schnorrkel::vrf::VRFProof::from_bytes(proof)) {
        (Ok(pk), Ok(pr)) => {
            let t = schnorrkel::context::SigningContext::new(label).bytes(seed);
            pk.vrf_verify(t, &schnorrkel::vrf::VRFPreOut(*out), &pr).is_ok()
        },
        _ => false,
    }
}

} // verus!
