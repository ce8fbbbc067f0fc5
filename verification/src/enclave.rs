//! A loaded enclave: its name, its signer, the memory segments it was
//! measured over, and the measured identity ("mrenclave") computed once at
//! construction and immutable thereafter. ECALL/OCALL are simulated
//! boundary-crossing calls that only return a descriptive string.

use crate::measurement::lemma_bytes_deep_view;
use crate::measurement::measure;
use crate::measurement::measurement_of;
use vstd::prelude::*;
use vstd::string::StringExecFns;

verus! {

/// A loaded enclave instance.
pub struct Enclave {
    pub name: String,
    pub signer: String,
    pub mrenclave: String,
    pages: Vec<Vec<u8>>,
}

/// The mathematical content of an `Enclave`: its identity strings as
/// character sequences and its memory segments as byte sequences.
pub struct EnclaveView {
    pub name: Seq<char>,
    pub signer: Seq<char>,
    pub mrenclave: Seq<char>,
    pub pages: Seq<Seq<u8>>,
}

impl View for Enclave {
    type V = EnclaveView;

    closed spec fn view(&self) -> EnclaveView {
        EnclaveView {
            name: self.name@,
            signer: self.signer@,
            mrenclave: self.mrenclave@,
            pages: self.pages.deep_view(),
        }
    }
}

/// A verified copy of a byte vector.
fn copy_bytes(src: &Vec<u8>) -> (r: Vec<u8>)
    ensures
        r@ == src@,
{
    let mut out: Vec<u8> = Vec::new();
    let mut i: usize = 0;
    while i < src.len()
        invariant
            i <= src.len(),
            out@ == src@.take(i as int),
        decreases src.len() - i,
    {
        out.push(src[i]);
        proof {
            assert(out@ =~= src@.take(i as int + 1));
        }
        i += 1;
    }
    proof {
        assert(src@.take(src@.len() as int) =~= src@);
    }
    out
}

/// A verified copy of a sequence of byte segments, order preserved.
fn copy_segments(segments: &Vec<Vec<u8>>) -> (r: Vec<Vec<u8>>)
    ensures
        r.deep_view() == segments.deep_view(),
{
    let ghost segs = segments.deep_view();
    let mut out: Vec<Vec<u8>> = Vec::new();
    let mut i: usize = 0;
    while i < segments.len()
        invariant
            i <= segments.len(),
            segs == segments.deep_view(),
            segs.len() == segments.len(),
            out.deep_view() == segs.take(i as int),
        decreases segments.len() - i,
    {
        let c = copy_bytes(&segments[i]);
        proof {
            lemma_bytes_deep_view(c);
            lemma_bytes_deep_view(segments@[i as int]);
            assert(c.deep_view() == segs[i as int]);
        }
        let ghost dv_before = out.deep_view();
        let ghost elems_before = out@;
        out.push(c);
        proof {
            assert(dv_before.len() == elems_before.len());
            assert(dv_before.len() == i);
            assert(out@ == elems_before.push(c));
            assert forall|k: int| 0 <= k < i + 1 implies #[trigger] out.deep_view()[k] == segs[k] by {
                if k < i {
                    assert(out@[k] == elems_before[k]);
                    assert(dv_before[k] == elems_before[k].deep_view());
                    assert(dv_before[k] == segs.take(i as int)[k]);
                } else {
                    assert(out@[k] == c);
                }
            }
            assert(out.deep_view() =~= segs.take(i as int + 1));
        }
        i += 1;
    }
    proof {
        assert(segs.take(segments@.len() as int) =~= segs);
    }
    out
}

impl Enclave {
    /// The enclave's identity is exactly the measurement of its pages, name
    /// and signer.
    pub open spec fn wf(self) -> bool {
        self@.mrenclave == measurement_of(self@.pages, self@.name, self@.signer)
    }

    /// Creates a new enclave, measuring the given memory segments together
    /// with the name and signer; a copy of the segments is stored, in the
    /// order supplied.
    pub fn new(name: &str, signer: &str, segments: &Vec<Vec<u8>>) -> (r: Enclave)
        ensures
            r@.name == name@,
            r@.signer == signer@,
            r@.pages == segments.deep_view(),
            r@.mrenclave == measurement_of(segments.deep_view(), name@, signer@),
            r.wf(),
    {
        let mrenclave = measure(segments, name, signer);
        Enclave {
            name: String::from_str(name),
            signer: String::from_str(signer),
            mrenclave,
            pages: copy_segments(segments),
        }
    }

    /// Simulates an ECALL into the enclave: returns the acknowledgment
    /// string and nothing more.
    pub fn ecall(&self, name: &str) -> (r: String)
        ensures
            r@ == "ECALL "@ + name@ + " executed inside "@ + self@.name,
    {
        let mut out = String::from_str("ECALL ");
        out.append(name);
        out.append(" executed inside ");
        out.append(self.name.as_str());
        out
    }

    /// Simulates an OCALL to the untrusted host, symmetric to `ecall`.
    pub fn ocall(&self, name: &str) -> (r: String)
        ensures
            r@ == "OCALL "@ + name@ + " invoked by "@ + self@.name,
    {
        let mut out = String::from_str("OCALL ");
        out.append(name);
        out.append(" invoked by ");
        out.append(self.name.as_str());
        out
    }
}

} // verus!
