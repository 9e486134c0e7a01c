//! The attestation report protocol: the hash-bound request, the fixed
//! page-sized response envelope, and verification of the signing evidence.

use vstd::prelude::*;

use crate::crypto::{hmac_sm3, hmac_sm3_of, sm3_bytes, sm3_of, tag_matches};
use crate::error::Error;
use crate::util::{push_bytes, read_array, zero_array, zeros};

verus! {

/// Size in bytes of one memory page, the exact size of a report response.
pub const PAGE_SIZE: usize = 4096;

/// Wire size of a report request: 64 data + 16 mnonce + 32 hash bytes.
pub const REPORT_REQ_SIZE: usize = 112;

/// Data provided by the guest owner when requesting an attestation report
/// from the secure processor.
#[derive(Debug)]
pub struct ReportReq {
    /// Guest-provided data echoed into the attestation report.
    pub data: [u8; 64],
    /// Guest-chosen anti-replay value echoed into the report.
    pub mnonce: [u8; 16],
    /// Platform digest of `data || mnonce`, binding both into the request.
    pub hash: [u8; 32],
}

impl ReportReq {
    /// The byte-exact wire form of the request: `data | mnonce | hash`.
    pub open spec fn wire_bytes(self) -> Seq<u8> {
        self.data@ + self.mnonce@ + self.hash@
    }

    /// The request invariant: `hash` is the platform digest of the current
    /// `data` and `mnonce`.
    pub open spec fn hash_bound(self) -> bool {
        self.hash@ == sm3_of(self.data@ + self.mnonce@)
    }

    /// The data field a request is built from: the caller's buffer, or
    /// all-zero if the caller supplied none.
    pub open spec fn spec_data_or_zero(data: Option<[u8; 64]>) -> Seq<u8> {
        match data {
            Some(d) => d@,
            None => zeros(64),
        }
    }

    /// Builds a request bound to `data` (all-zero if omitted) and `mnonce`
    /// by the platform digest.
    pub fn new(data: Option<[u8; 64]>, mnonce: [u8; 16]) -> (r: Result<Self, Error>)
        ensures
            r matches Ok(req) ==> {
                &&& req.data@ == Self::spec_data_or_zero(data)
                &&& req.mnonce@ == mnonce@
                &&& req.hash@ == sm3_of(Self::spec_data_or_zero(data) + mnonce@)
                &&& req.hash_bound()
            },
            r matches Err(e) ==> e == Error::CryptoFailure,
    {
        let mut request = Self::default();

        if let Some(data) = data {
            request.data = data;
        }

        request.mnonce = mnonce;
        match request.calculate_hash() {
            Ok(_) => Ok(request),
            Err(e) => Err(e),
        }
    }

    /// Lays the request out in its exact wire form, `data | mnonce | hash`,
    /// 112 bytes long.
    pub fn to_bytes(&self) -> (r: Vec<u8>)
        ensures
            r@ == self.wire_bytes(),
            r@.len() == REPORT_REQ_SIZE,
    {
        let mut out: Vec<u8> = Vec::new();
        push_bytes(&mut out, self.data.as_slice());
        push_bytes(&mut out, self.mnonce.as_slice());
        push_bytes(&mut out, self.hash.as_slice());
        out
    }

    /// Recomputes `hash` as the platform digest of the current `data` and
    /// `mnonce`; on failure of the digest primitive the request is
    /// unchanged.
    fn calculate_hash(&mut self) -> (r: Result<(), Error>)
        ensures
            final(self).data == old(self).data,
            final(self).mnonce == old(self).mnonce,
            r matches Ok(_) ==> final(self).hash_bound(),
            r matches Err(e) ==> e == Error::CryptoFailure && final(self).hash == old(self).hash,
    {
        let mut msg: Vec<u8> = Vec::new();
        push_bytes(&mut msg, self.data.as_slice());
        push_bytes(&mut msg, self.mnonce.as_slice());
        proof {
            assert(msg@ == self.data@ + self.mnonce@);
        }
        match sm3_bytes(msg.as_slice()) {
            Some(h) => {
                self.hash = h;
                Ok(())
            },
            None => Err(Error::CryptoFailure),
        }
    }
}

impl Default for ReportReq {
    /// The all-zero request; its hash is not yet bound.
    fn default() -> (r: Self)
        ensures
            r.data@ == zeros(64),
            r.mnonce@ == zeros(16),
            r.hash@ == zeros(32),
    {
        Self { data: zero_array(), mnonce: zero_array(), hash: zero_array() }
    }
}

impl PartialEq for ReportReq {
    fn eq(&self, other: &Self) -> (r: bool) {
        crate::util::bytes_eq(self.data.as_slice(), other.data.as_slice())
            && crate::util::bytes_eq(self.mnonce.as_slice(), other.mnonce.as_slice())
            && crate::util::bytes_eq(self.hash.as_slice(), other.hash.as_slice())
    }
}

impl vstd::std_specs::cmp::PartialEqSpecImpl for ReportReq {
    open spec fn obeys_eq_spec() -> bool {
        true
    }

    open spec fn eq_spec(&self, other: &Self) -> bool {
        self.data@ == other.data@ && self.mnonce@ == other.mnonce@ && self.hash@ == other.hash@
    }
}

/// Wire size of the attestation report inside the response envelope.
pub const ATTESTATION_REPORT_SIZE: usize = 336;

/// Wire size of the signing evidence inside the response envelope.
pub const REPORT_SIGNER_SIZE: usize = 2212;

/// Bytes of padding that bring the response envelope to one page.
pub const RSP_PADDING_SIZE: usize = PAGE_SIZE - ATTESTATION_REPORT_SIZE - REPORT_SIGNER_SIZE;

/// The attestation report produced by the firmware; every field is
/// fixed-width.
#[derive(Debug)]
pub struct AttestationReport {
    pub user_pubkey_digest: [u8; 32],
    pub vm_id: [u8; 16],
    pub vm_version: [u8; 16],
    pub report_data: [u8; 64],
    pub mnonce: [u8; 16],
    pub measure: [u8; 32],
    pub policy: u32,
    pub sig_usage: u32,
    pub sig_algo: u32,
    pub anonce: u32,
    pub sig: [u8; 144],
}

impl AttestationReport {
    /// The byte-exact wire form of the report, little-endian in the 32-bit
    /// fields.
    pub open spec fn wire_bytes(self) -> Seq<u8> {
        self.user_pubkey_digest@ + self.vm_id@ + self.vm_version@ + self.report_data@
            + self.mnonce@ + self.measure@ + vstd::bytes::spec_u32_to_le_bytes(self.policy)
            + vstd::bytes::spec_u32_to_le_bytes(self.sig_usage)
            + vstd::bytes::spec_u32_to_le_bytes(self.sig_algo)
            + vstd::bytes::spec_u32_to_le_bytes(self.anonce) + self.sig@
    }
}

impl Default for AttestationReport {
    /// The all-zero report.
    fn default() -> (r: Self)
        ensures
            r.user_pubkey_digest@ == zeros(32),
            r.vm_id@ == zeros(16),
            r.vm_version@ == zeros(16),
            r.report_data@ == zeros(64),
            r.mnonce@ == zeros(16),
            r.measure@ == zeros(32),
            r.policy == 0 && r.sig_usage == 0 && r.sig_algo == 0 && r.anonce == 0,
            r.sig@ == zeros(144),
    {
        Self {
            user_pubkey_digest: zero_array(),
            vm_id: zero_array(),
            vm_version: zero_array(),
            report_data: zero_array(),
            mnonce: zero_array(),
            measure: zero_array(),
            policy: 0,
            sig_usage: 0,
            sig_algo: 0,
            anonce: 0,
            sig: zero_array(),
        }
    }
}

/// The evidence accompanying a report: an embedded certificate, a serial
/// number, a reserved region that is itself keyed-digest input, and the
/// authentication tag.
#[derive(Debug)]
pub struct ReportSigner {
    pub pek_cert: [u8; 2084],
    pub sn: [u8; 64],
    pub reserved: [u8; 32],
    pub mac: [u8; 32],
}

impl ReportSigner {
    /// The byte-exact wire form of the evidence:
    /// `pek_cert | sn | reserved | mac`.
    pub open spec fn wire_bytes(self) -> Seq<u8> {
        self.pek_cert@ + self.sn@ + self.reserved@ + self.mac@
    }

    /// The bytes the authentication tag is computed over.
    pub open spec fn mac_input(self) -> Seq<u8> {
        self.pek_cert@ + self.sn@ + self.reserved@
    }

    /// The little-endian 4-byte form of an anonce.
    pub open spec fn anonce_le(anonce: u32) -> Seq<u8> {
        seq![
            (anonce & 0xff) as u8,
            ((anonce >> 8) & 0xff) as u8,
            ((anonce >> 16) & 0xff) as u8,
            ((anonce >> 24) & 0xff) as u8,
        ]
    }

    /// The true mnonce the firmware keyed the evidence with: each caller
    /// byte XORed with the anonce's little-endian bytes, the 4-byte pattern
    /// cycling across the buffer.
    pub open spec fn recover_spec(mnonce: Seq<u8>, anonce: u32) -> Seq<u8> {
        Seq::new(mnonce.len(), |i: int| mnonce[i] ^ Self::anonce_le(anonce)[i % 4])
    }

    /// Undoes the firmware's one-time XOR mask on `mnonce` using `anonce`.
    pub fn recover_mnonce(&self, mnonce: &[u8], anonce: &u32) -> (r: Vec<u8>)
        ensures
            r@ == Self::recover_spec(mnonce@, *anonce),
    {
        let mut real_mnonce: Vec<u8> = Vec::new();
        let a = *anonce;

        let mut anonce_array: [u8; 4] = zero_array();
        anonce_array[0] = (a & 0xff) as u8;
        anonce_array[1] = ((a >> 8) & 0xff) as u8;
        anonce_array[2] = ((a >> 16) & 0xff) as u8;
        anonce_array[3] = ((a >> 24) & 0xff) as u8;
        proof {
            assert(anonce_array@ =~= Self::anonce_le(a));
        }

        let mut i: usize = 0;
        while i < mnonce.len()
            invariant
                0 <= i <= mnonce@.len(),
                anonce_array@ == Self::anonce_le(a),
                real_mnonce@.len() == i,
                forall|k: int|
                    0 <= k < i ==> real_mnonce@[k] == (mnonce@[k] ^ Self::anonce_le(a)[k % 4]),
            decreases mnonce@.len() - i,
        {
            real_mnonce.push(mnonce[i] ^ anonce_array[i % 4]);
            i += 1;
        }
        proof {
            assert(real_mnonce@ =~= Self::recover_spec(mnonce@, a));
        }
        real_mnonce
    }

    /// Checks the evidence's authentication tag: the keyed digest over
    /// `pek_cert | sn | reserved` under the recovered mnonce must equal
    /// `mac`.  On success the reserved region is zeroed in place; on any
    /// failure the evidence is left untouched.  The recovered mnonce is
    /// the keyed-digest key, so the caller's buffer is bounded by the
    /// provider's 32-bit key-length limit.
    pub fn verify(&mut self, mnonce: &[u8], anonce: &u32) -> (r: Result<(), Error>)
        requires
            mnonce@.len() <= 0x7fff_ffff,
        ensures
            r matches Ok(_) ==> {
                &&& hmac_sm3_of(
                    Self::recover_spec(mnonce@, *anonce),
                    old(self).mac_input(),
                ) == old(self).mac@
                &&& final(self).reserved@ == zeros(32)
                &&& final(self).pek_cert == old(self).pek_cert
                &&& final(self).sn == old(self).sn
                &&& final(self).mac == old(self).mac
            },
            r matches Err(e) ==> {
                &&& *final(self) == *old(self)
                &&& (e == Error::BadSignature || e == Error::CryptoFailure)
            },
            r == Err::<(), Error>(Error::BadSignature) ==> hmac_sm3_of(
                Self::recover_spec(mnonce@, *anonce),
                old(self).mac_input(),
            ) != old(self).mac@,
    {
        let real_mnonce = self.recover_mnonce(mnonce, anonce);

        let mut msg: Vec<u8> = Vec::new();
        push_bytes(&mut msg, self.pek_cert.as_slice());
        push_bytes(&mut msg, self.sn.as_slice());
        push_bytes(&mut msg, self.reserved.as_slice());
        proof {
            assert(msg@ == self.mac_input());
        }

        match hmac_sm3(real_mnonce.as_slice(), msg.as_slice()) {
            None => Err(Error::CryptoFailure),
            Some(tag) => {
                if tag_matches(tag.as_slice(), &self.mac) {
                    self.reserved = zero_array();
                    Ok(())
                } else {
                    Err(Error::BadSignature)
                }
            },
        }
    }
}

impl Default for ReportSigner {
    /// The all-zero evidence record.
    fn default() -> (r: Self)
        ensures
            r.pek_cert@ == zeros(2084),
            r.sn@ == zeros(64),
            r.reserved@ == zeros(32),
            r.mac@ == zeros(32),
    {
        Self { pek_cert: zero_array(), sn: zero_array(), reserved: zero_array(), mac: zero_array() }
    }
}

/// The page-sized response envelope: report, evidence, then padding that
/// brings the total to exactly one page.
#[derive(Debug)]
pub struct ReportRsp {
    /// The attestation report generated by the firmware.
    pub report: AttestationReport,
    /// The evidence to verify the attestation report's signature.
    pub signer: ReportSigner,
    /// Padding bytes that bring the envelope to the page size.
    pub reserved: [u8; RSP_PADDING_SIZE],
}

impl ReportRsp {
    /// The byte-exact wire form of the envelope, exactly one page long.
    pub open spec fn wire_bytes(self) -> Seq<u8> {
        self.report.wire_bytes() + self.signer.wire_bytes() + self.reserved@
    }

    /// Reads a response envelope out of raw exchange bytes; accepts exactly
    /// page-sized buffers and nothing else, and the parsed envelope lays
    /// back out to the very bytes that were read.
    pub fn parse(bytes: &[u8]) -> (r: Result<Self, Error>)
        ensures
            r is Ok <==> bytes@.len() == PAGE_SIZE,
            r matches Ok(rsp) ==> {
                &&& rsp.wire_bytes() == bytes@
                &&& rsp.report.user_pubkey_digest@ == bytes@.subrange(0, 32)
                &&& rsp.report.vm_id@ == bytes@.subrange(32, 48)
                &&& rsp.report.vm_version@ == bytes@.subrange(48, 64)
                &&& rsp.report.report_data@ == bytes@.subrange(64, 128)
                &&& rsp.report.mnonce@ == bytes@.subrange(128, 144)
                &&& rsp.report.measure@ == bytes@.subrange(144, 176)
                &&& rsp.report.policy == vstd::bytes::spec_u32_from_le_bytes(
                    bytes@.subrange(176, 180),
                )
                &&& rsp.report.sig_usage == vstd::bytes::spec_u32_from_le_bytes(
                    bytes@.subrange(180, 184),
                )
                &&& rsp.report.sig_algo == vstd::bytes::spec_u32_from_le_bytes(
                    bytes@.subrange(184, 188),
                )
                &&& rsp.report.anonce == vstd::bytes::spec_u32_from_le_bytes(
                    bytes@.subrange(188, 192),
                )
                &&& rsp.report.sig@ == bytes@.subrange(192, 336)
                &&& rsp.signer.pek_cert@ == bytes@.subrange(336, 2420)
                &&& rsp.signer.sn@ == bytes@.subrange(2420, 2484)
                &&& rsp.signer.reserved@ == bytes@.subrange(2484, 2516)
                &&& rsp.signer.mac@ == bytes@.subrange(2516, 2548)
                &&& rsp.reserved@ == bytes@.subrange(2548, 4096)
            },
            r matches Err(e) ==> e == Error::MalformedResponse,
    {
        if bytes.len() != PAGE_SIZE {
            return Err(Error::MalformedResponse);
        }
        let report = AttestationReport {
            user_pubkey_digest: read_array(bytes, 0),
            vm_id: read_array(bytes, 32),
            vm_version: read_array(bytes, 48),
            report_data: read_array(bytes, 64),
            mnonce: read_array(bytes, 128),
            measure: read_array(bytes, 144),
            policy: vstd::bytes::u32_from_le_bytes(vstd::slice::slice_subrange(bytes, 176, 180)),
            sig_usage: vstd::bytes::u32_from_le_bytes(vstd::slice::slice_subrange(bytes, 180, 184)),
            sig_algo: vstd::bytes::u32_from_le_bytes(vstd::slice::slice_subrange(bytes, 184, 188)),
            anonce: vstd::bytes::u32_from_le_bytes(vstd::slice::slice_subrange(bytes, 188, 192)),
            sig: read_array(bytes, 192),
        };
        let signer = ReportSigner {
            pek_cert: read_array(bytes, 336),
            sn: read_array(bytes, 2420),
            reserved: read_array(bytes, 2484),
            mac: read_array(bytes, 2516),
        };
        let rsp = ReportRsp { report, signer, reserved: read_array(bytes, 2548) };
        proof {
            vstd::bytes::lemma_auto_spec_u32_to_from_le_bytes();
            assert(rsp.wire_bytes() =~= bytes@);
        }
        Ok(rsp)
    }
}

impl Default for ReportRsp {
    /// The all-zero envelope: default report, default evidence, zero
    /// padding.
    fn default() -> (r: Self)
        ensures
            r.report.user_pubkey_digest@ == zeros(32),
            r.report.vm_id@ == zeros(16),
            r.report.vm_version@ == zeros(16),
            r.report.report_data@ == zeros(64),
            r.report.mnonce@ == zeros(16),
            r.report.measure@ == zeros(32),
            r.report.policy == 0 && r.report.sig_usage == 0 && r.report.sig_algo == 0,
            r.report.anonce == 0,
            r.report.sig@ == zeros(144),
            r.signer.pek_cert@ == zeros(2084),
            r.signer.sn@ == zeros(64),
            r.signer.reserved@ == zeros(32),
            r.signer.mac@ == zeros(32),
            r.reserved@ == zeros(RSP_PADDING_SIZE as nat),
    {
        Self {
            report: Default::default(),
            signer: Default::default(),
            reserved: zero_array(),
        }
    }
}

/// Undoing the one-time XOR mask twice with the same anonce gives back the
/// original mnonce, whatever its length and whatever the anonce.
pub proof fn lemma_recover_self_inverse(mnonce: Seq<u8>, anonce: u32)
    ensures
        ReportSigner::recover_spec(ReportSigner::recover_spec(mnonce, anonce), anonce) == mnonce,
{
    assert(forall|x: u8, y: u8| ((x ^ y) ^ y) == x) by (bit_vector);
    assert(ReportSigner::recover_spec(ReportSigner::recover_spec(mnonce, anonce), anonce)
        =~= mnonce);
}

/// Altering the stored tag of verifying evidence is always caught: if the
/// keyed digest over the evidence body equals the original tag, it cannot
/// also equal a different one, so the altered evidence fails the check.
pub proof fn lemma_mac_tamper_rejected(
    s0: ReportSigner,
    s1: ReportSigner,
    mnonce: Seq<u8>,
    anonce: u32,
)
    requires
        hmac_sm3_of(ReportSigner::recover_spec(mnonce, anonce), s0.mac_input()) == s0.mac@,
        s1.mac_input() == s0.mac_input(),
        s1.mac@ != s0.mac@,
    ensures
        hmac_sm3_of(ReportSigner::recover_spec(mnonce, anonce), s1.mac_input()) != s1.mac@,
{
}

/// Altering any byte of `pek_cert`, `sn` or `reserved` in verifying
/// evidence is caught whenever the keyed digest tells the two bodies
/// apart; evidence whose altered body collides with the original under
/// the same key is the one case left out.
pub proof fn lemma_body_tamper_rejected(
    s0: ReportSigner,
    s1: ReportSigner,
    mnonce: Seq<u8>,
    anonce: u32,
)
    requires
        hmac_sm3_of(ReportSigner::recover_spec(mnonce, anonce), s0.mac_input()) == s0.mac@,
        s1.mac@ == s0.mac@,
        hmac_sm3_of(ReportSigner::recover_spec(mnonce, anonce), s1.mac_input()) != hmac_sm3_of(
            ReportSigner::recover_spec(mnonce, anonce),
            s0.mac_input(),
        ),
    ensures
        hmac_sm3_of(ReportSigner::recover_spec(mnonce, anonce), s1.mac_input()) != s1.mac@,
{
}

/// Flipping the low bit of the anonce changes the recovered key whenever
/// the mnonce is non-empty: the first key byte is unmasked with a
/// different anonce byte.  A zero-length mnonce is left out, since
/// recovering nothing is unaffected by the mask.
pub proof fn lemma_flipped_anonce_changes_key(mnonce: Seq<u8>, anonce: u32)
    requires
        mnonce.len() > 0,
    ensures
        ReportSigner::recover_spec(mnonce, anonce) != ReportSigner::recover_spec(
            mnonce,
            anonce ^ 1,
        ),
{
    let k0 = ReportSigner::recover_spec(mnonce, anonce);
    let k1 = ReportSigner::recover_spec(mnonce, anonce ^ 1);
    let x = mnonce[0];
    let b = ReportSigner::anonce_le(anonce)[0];
    let c = ReportSigner::anonce_le(anonce ^ 1)[0];
    assert(b == (anonce & 0xff) as u8);
    assert(c == ((anonce ^ 1) & 0xff) as u8);
    assert((anonce & 0xff) as u8 != ((anonce ^ 1) & 0xff) as u8) by (bit_vector);
    assert((x ^ b) != (x ^ c)) by (bit_vector)
        requires
            b != c,
    ;
    assert(k0[0] == (x ^ b) && k1[0] == (x ^ c));
}

/// A verifying (evidence, mnonce, anonce) triple is rejected when the
/// anonce's low bit is flipped before recovery, whenever the keyed digest
/// tells the two recovered keys apart on the evidence body; with a
/// non-empty mnonce the keys really differ
/// (`lemma_flipped_anonce_changes_key`), so only a cross-key collision of
/// the keyed digest is left out.
pub proof fn lemma_flipped_anonce_rejected(s: ReportSigner, mnonce: Seq<u8>, anonce: u32)
    requires
        hmac_sm3_of(ReportSigner::recover_spec(mnonce, anonce), s.mac_input()) == s.mac@,
        hmac_sm3_of(ReportSigner::recover_spec(mnonce, anonce ^ 1), s.mac_input()) != hmac_sm3_of(
            ReportSigner::recover_spec(mnonce, anonce),
            s.mac_input(),
        ),
    ensures
        hmac_sm3_of(ReportSigner::recover_spec(mnonce, anonce ^ 1), s.mac_input()) != s.mac@,
{
}

/// The wire forms have the firmware-mandated sizes: a request is 112 bytes
/// and a response envelope is exactly one page, for every value of either.
pub proof fn lemma_wire_sizes(req: ReportReq, rsp: ReportRsp)
    ensures
        req.wire_bytes().len() == REPORT_REQ_SIZE,
        rsp.wire_bytes().len() == PAGE_SIZE,
{
    vstd::bytes::lemma_auto_spec_u32_to_from_le_bytes();
}

} // verus!
