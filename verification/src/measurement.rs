//! Enclave measurement: the deterministic identity digest ("mrenclave") of
//! an ordered sequence of binary memory segments together with the enclave's
//! name and signer.
//!
//! The hash input is the plain concatenation of the segments, then the
//! name's bytes, then the signer's bytes, with no framing between them; a
//! different split of the same concatenated bytes therefore measures the
//! same. This is kept as the model demands it, a known anti-pattern in real
//! cryptographic protocols.

use crate::hexcode::hex_encode;
use crate::hexcode::hex_encode_spec;
use crate::sha256::sha256;
use crate::sha256::sha256_of;
use vstd::prelude::*;
use vstd::string::StrSliceExecFns;
use vstd::utf8::encode_utf8;

verus! {

/// The concatenation of a sequence of byte segments, in order.
pub open spec fn concat_of(segments: Seq<Seq<u8>>) -> Seq<u8>
    decreases segments.len(),
{
    if segments.len() == 0 {
        Seq::empty()
    } else {
        concat_of(segments.drop_last()) + segments.last()
    }
}

/// The byte stream fed to the measurement hash: each segment in order, then
/// the name's bytes, then the signer's bytes.
pub open spec fn measured_input(
    segments: Seq<Seq<u8>>,
    name: Seq<char>,
    signer: Seq<char>,
) -> Seq<u8> {
    concat_of(segments) + encode_utf8(name) + encode_utf8(signer)
}

/// The measurement: the SHA-256 digest of the measured input, rendered as
/// lowercase hexadecimal.
pub open spec fn measurement_of(
    segments: Seq<Seq<u8>>,
    name: Seq<char>,
    signer: Seq<char>,
) -> Seq<char> {
    hex_encode_spec(sha256_of(measured_input(segments, name, signer)))
}

/// Extending a segment sequence by one segment appends that segment to the
/// concatenation.
proof fn lemma_concat_of_step(segments: Seq<Seq<u8>>, i: int)
    requires
        0 <= i < segments.len(),
    ensures
        concat_of(segments.take(i + 1)) == concat_of(segments.take(i)) + segments[i],
{
    assert(segments.take(i + 1).drop_last() =~= segments.take(i));
    assert(segments.take(i + 1).last() == segments[i]);
}

/// A byte vector's deep view is its view.
pub proof fn lemma_bytes_deep_view(v: Vec<u8>)
    ensures
        v.deep_view() == v@,
{
    assert(v.deep_view() =~= v@);
}

/// Determinism: the measurement is a function of the segments, the name and
/// the signer alone, so any two results that `measure`'s contract admits for
/// the same inputs are equal — across calls, processes and machines.
pub proof fn lemma_measure_deterministic(
    segments: Seq<Seq<u8>>,
    name: Seq<char>,
    signer: Seq<char>,
    r1: Seq<char>,
    r2: Seq<char>,
)
    requires
        r1 == measurement_of(segments, name, signer),
        r2 == measurement_of(segments, name, signer),
    ensures
        r1 == r2,
{
}

/// The concatenation of a two-segment sequence is the one segment followed
/// by the other.
proof fn lemma_concat_of_pair(a: Seq<u8>, b: Seq<u8>)
    ensures
        concat_of(seq![a, b]) == a + b,
{
    let s = seq![a, b];
    assert(s.last() == b);
    assert(s.drop_last() =~= seq![a]);
    assert(concat_of(s) == concat_of(seq![a]) + b);
    assert(seq![a].last() == a);
    assert(seq![a].drop_last() =~= Seq::<Seq<u8>>::empty());
    assert(concat_of(seq![a]) == concat_of(Seq::<Seq<u8>>::empty()) + a);
    assert(concat_of(seq![a]) =~= a);
    assert(concat_of(s) =~= a + b);
}

/// Order sensitivity, as far as it can be stated of the digest: swapping two
/// distinct segments of equal length changes the byte stream fed to the
/// hash. That a changed stream changes the digest itself is the hash's
/// collision resistance, which is not stated of `sha256_of` and is checked
/// only by test.
pub proof fn lemma_swap_changes_measured_input(
    a: Seq<u8>,
    b: Seq<u8>,
    name: Seq<char>,
    signer: Seq<char>,
)
    requires
        a.len() == b.len(),
        a != b,
    ensures
        measured_input(seq![a, b], name, signer) != measured_input(seq![b, a], name, signer),
{
    lemma_concat_of_pair(a, b);
    lemma_concat_of_pair(b, a);
    assert(exists|k: int| 0 <= k < a.len() && a[k] != b[k]) by {
        if forall|k: int| 0 <= k < a.len() ==> a[k] == b[k] {
            assert(a =~= b);
        }
    }
    let k = choose|k: int| 0 <= k < a.len() && a[k] != b[k];
    let x1 = measured_input(seq![a, b], name, signer);
    let x2 = measured_input(seq![b, a], name, signer);
    assert(x1[k] == a[k]);
    assert(x2[k] == b[k]);
    assert(x1[k] != x2[k]);
}

/// Computes the measurement of the given segments, name and signer.
pub fn measure(segments: &Vec<Vec<u8>>, name: &str, signer: &str) -> (r: String)
    ensures
        r@ == measurement_of(segments.deep_view(), name@, signer@),
{
    let ghost segs = segments.deep_view();
    let mut input: Vec<u8> = Vec::new();
    let mut i: usize = 0;
    while i < segments.len()
        invariant
            i <= segments.len(),
            segs == segments.deep_view(),
            segs.len() == segments.len(),
            input@ == concat_of(segs.take(i as int)),
        decreases segments.len() - i,
    {
        let seg = &segments[i];
        proof {
            lemma_bytes_deep_view(*seg);
        }
        let mut j: usize = 0;
        while j < seg.len()
            invariant
                j <= seg.len(),
                seg@ == segs[i as int],
                0 <= i < segs.len(),
                input@ == concat_of(segs.take(i as int)) + seg@.take(j as int),
            decreases seg.len() - j,
        {
            input.push(seg[j]);
            proof {
                assert(input@ =~= concat_of(segs.take(i as int)) + seg@.take(j as int + 1));
            }
            j += 1;
        }
        proof {
            assert(seg@.take(seg@.len() as int) =~= seg@);
            lemma_concat_of_step(segs, i as int);
        }
        i += 1;
    }
    proof {
        assert(segs.take(segments@.len() as int) =~= segs);
    }
    let mut name_bytes = name.as_bytes_vec();
    let mut signer_bytes = signer.as_bytes_vec();
    input.append(&mut name_bytes);
    input.append(&mut signer_bytes);
    let hash = sha256(input.as_slice());
    hex_encode(&hash)
}

} // verus!
