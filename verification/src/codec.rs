//! Deterministic binary envelope codec.
//!
//! The three wire envelopes — key-exchange packet, user blob and instance
//! blob — are length-prefixed documents: a little-endian `u32` holding the
//! total document length (header included), followed by the schema's fields
//! in fixed order.  Each field is `u32` name length, the field name, `u32`
//! payload length, the payload.  Decoding checks every length and every
//! field name and rejects trailing bytes, so a document decodes to exactly
//! the fields it was encoded from.

use vstd::prelude::*;
use vstd::bytes::{lemma_auto_spec_u32_to_from_le_bytes, spec_u32_from_le_bytes,
    spec_u32_to_le_bytes, u32_from_le_bytes, u32_to_le_bytes};
use vstd::slice::{slice_subrange, slice_to_vec};

use crate::errors::CodecError;

verus! {

pub open spec fn spec_name_public_key() -> Seq<u8> {
    seq![112u8, 117u8, 98u8, 108u8, 105u8, 99u8, 95u8, 107u8, 101u8, 121u8]
}

pub open spec fn spec_name_sig() -> Seq<u8> {
    seq![115u8, 105u8, 103u8]
}

pub open spec fn spec_name_verifying_key() -> Seq<u8> {
    seq![118u8, 101u8, 114u8, 105u8, 102u8, 121u8, 105u8, 110u8, 103u8, 95u8, 107u8, 101u8, 121u8]
}

pub open spec fn spec_name_signing_key_sig() -> Seq<u8> {
    seq![115u8, 105u8, 103u8, 110u8, 105u8, 110u8, 103u8, 95u8, 107u8, 101u8, 121u8, 95u8, 115u8, 105u8, 103u8]
}

pub open spec fn spec_name_signing_key() -> Seq<u8> {
    seq![115u8, 105u8, 103u8, 110u8, 105u8, 110u8, 103u8, 95u8, 107u8, 101u8, 121u8]
}

pub open spec fn spec_name_ca_key() -> Seq<u8> {
    seq![99u8, 97u8, 95u8, 107u8, 101u8, 121u8]
}

pub open spec fn spec_name_ca_verifying_key() -> Seq<u8> {
    seq![99u8, 97u8, 95u8, 118u8, 101u8, 114u8, 105u8, 102u8, 121u8, 105u8, 110u8, 103u8, 95u8, 107u8, 101u8,
        121u8]
}

/// One encoded field: name length, name, payload length, payload.
pub open spec fn spec_field(name: Seq<u8>, payload: Seq<u8>) -> Seq<u8> {
    spec_u32_to_le_bytes(name.len() as u32) + name + spec_u32_to_le_bytes(payload.len() as u32)
        + payload
}

/// The encoded user blob: `signing_key`, `ca_key`.
pub open spec fn spec_user_blob(signing_key: Seq<u8>, ca_key: Seq<u8>) -> Seq<u8> {
    let body = spec_field(spec_name_signing_key(), signing_key) + spec_field(
        spec_name_ca_key(),
        ca_key,
    );
    spec_u32_to_le_bytes((4 + body.len()) as u32) + body
}

/// The encoded instance blob: `signing_key`, `sig`, `ca_verifying_key`.
pub open spec fn spec_instance_blob(signing_key: Seq<u8>, sig: Seq<u8>, ca_vk: Seq<u8>) -> Seq<
    u8,
> {
    let body = spec_field(spec_name_signing_key(), signing_key) + spec_field(
        spec_name_sig(),
        sig,
    ) + spec_field(spec_name_ca_verifying_key(), ca_vk);
    spec_u32_to_le_bytes((4 + body.len()) as u32) + body
}

/// The encoded key-exchange packet: `public_key`, `sig`, `verifying_key`,
/// `signing_key_sig`.
pub open spec fn spec_kex_packet(
    public_key: Seq<u8>,
    sig: Seq<u8>,
    verifying_key: Seq<u8>,
    signing_key_sig: Seq<u8>,
) -> Seq<u8> {
    let body = spec_field(spec_name_public_key(), public_key) + spec_field(spec_name_sig(), sig)
        + spec_field(spec_name_verifying_key(), verifying_key) + spec_field(
        spec_name_signing_key_sig(),
        signing_key_sig,
    );
    spec_u32_to_le_bytes((4 + body.len()) as u32) + body
}

/// Whether a document of the given field payloads stays within the `u32`
/// length prefixes (the names are fixed and short).
pub open spec fn fields_encodable(payloads: Seq<Seq<u8>>, names_len: int) -> bool {
    &&& forall|i: int| 0 <= i < payloads.len() ==> (#[trigger] payloads[i]).len() <= 0xFFFF_FFFF
    &&& 4 + 8 * payloads.len() + names_len + payloads_len(payloads) <= 0xFFFF_FFFF
}

pub open spec fn payloads_len(payloads: Seq<Seq<u8>>) -> int
    decreases payloads.len(),
{
    if payloads.len() == 0 {
        0
    } else {
        payloads_len(payloads.drop_last()) + payloads.last().len()
    }
}

proof fn lemma_field_len(name: Seq<u8>, payload: Seq<u8>)
    ensures
        spec_field(name, payload).len() == 8 + name.len() + payload.len(),
{
    lemma_auto_spec_u32_to_from_le_bytes();
}

proof fn lemma_payloads_len_2(a: Seq<u8>, b: Seq<u8>)
    ensures
        payloads_len(seq![a, b]) == a.len() + b.len(),
{
    reveal_with_fuel(payloads_len, 4);
    assert(seq![a, b].drop_last() =~= seq![a]);
    assert(seq![a].drop_last() =~= Seq::<Seq<u8>>::empty());
}

proof fn lemma_payloads_len_3(a: Seq<u8>, b: Seq<u8>, c: Seq<u8>)
    ensures
        payloads_len(seq![a, b, c]) == a.len() + b.len() + c.len(),
{
    reveal_with_fuel(payloads_len, 5);
    assert(seq![a, b, c].drop_last() =~= seq![a, b]);
    assert(seq![a, b].drop_last() =~= seq![a]);
    assert(seq![a].drop_last() =~= Seq::<Seq<u8>>::empty());
}

proof fn lemma_payloads_len_4(a: Seq<u8>, b: Seq<u8>, c: Seq<u8>, d: Seq<u8>)
    ensures
        payloads_len(seq![a, b, c, d]) == a.len() + b.len() + c.len() + d.len(),
{
    reveal_with_fuel(payloads_len, 6);
    assert(seq![a, b, c, d].drop_last() =~= seq![a, b, c]);
    assert(seq![a, b, c].drop_last() =~= seq![a, b]);
    assert(seq![a, b].drop_last() =~= seq![a]);
    assert(seq![a].drop_last() =~= Seq::<Seq<u8>>::empty());
}

pub open spec fn user_blob_encodable(signing_key: Seq<u8>, ca_key: Seq<u8>) -> bool {
    fields_encodable(seq![signing_key, ca_key], 17)
}

/// Payloads of ordinary key sizes always fit the user schema.
pub proof fn lemma_user_blob_small_encodable(signing_key: Seq<u8>, ca_key: Seq<u8>)
    requires
        signing_key.len() <= 4096,
        ca_key.len() <= 4096,
    ensures
        user_blob_encodable(signing_key, ca_key),
{
    lemma_payloads_len_2(signing_key, ca_key);
    assert(seq![signing_key, ca_key][0] == signing_key);
    assert(seq![signing_key, ca_key][1] == ca_key);
}

/// Payloads of ordinary key sizes always fit the instance schema.
pub proof fn lemma_instance_blob_small_encodable(signing_key: Seq<u8>, sig: Seq<u8>, ca_vk: Seq<u8>)
    requires
        signing_key.len() <= 4096,
        sig.len() <= 4096,
        ca_vk.len() <= 4096,
    ensures
        instance_blob_encodable(signing_key, sig, ca_vk),
{
    lemma_payloads_len_3(signing_key, sig, ca_vk);
    assert(seq![signing_key, sig, ca_vk][0] == signing_key);
    assert(seq![signing_key, sig, ca_vk][1] == sig);
    assert(seq![signing_key, sig, ca_vk][2] == ca_vk);
}

/// Payloads of ordinary key sizes always fit the packet schema.
pub proof fn lemma_kex_packet_small_encodable(
    public_key: Seq<u8>,
    sig: Seq<u8>,
    verifying_key: Seq<u8>,
    signing_key_sig: Seq<u8>,
)
    requires
        public_key.len() <= 4096,
        sig.len() <= 4096,
        verifying_key.len() <= 4096,
        signing_key_sig.len() <= 4096,
    ensures
        kex_packet_encodable(public_key, sig, verifying_key, signing_key_sig),
{
    lemma_payloads_len_4(public_key, sig, verifying_key, signing_key_sig);
    assert(seq![public_key, sig, verifying_key, signing_key_sig][0] == public_key);
    assert(seq![public_key, sig, verifying_key, signing_key_sig][1] == sig);
    assert(seq![public_key, sig, verifying_key, signing_key_sig][2] == verifying_key);
    assert(seq![public_key, sig, verifying_key, signing_key_sig][3] == signing_key_sig);
}

pub open spec fn instance_blob_encodable(signing_key: Seq<u8>, sig: Seq<u8>, ca_vk: Seq<u8>) -> bool {
    fields_encodable(seq![signing_key, sig, ca_vk], 30)
}

pub open spec fn kex_packet_encodable(
    public_key: Seq<u8>,
    sig: Seq<u8>,
    verifying_key: Seq<u8>,
    signing_key_sig: Seq<u8>,
) -> bool {
    fields_encodable(seq![public_key, sig, verifying_key, signing_key_sig], 41)
}

/// Parses one field with the expected name at offset `off`; on success hands
/// back the payload and the offset just past it.
pub open spec fn parse_field(data: Seq<u8>, off: int, name: Seq<u8>) -> Result<
    (Seq<u8>, int),
    CodecError,
> {
    if off + 4 > data.len() {
        Err(CodecError::TooShort)
    } else {
        let nlen = spec_u32_from_le_bytes(data.subrange(off, off + 4)) as int;
        if off + 4 + nlen > data.len() {
            Err(CodecError::TooShort)
        } else if data.subrange(off + 4, off + 4 + nlen) != name {
            Err(CodecError::UnexpectedField)
        } else {
            let o2 = off + 4 + nlen;
            if o2 + 4 > data.len() {
                Err(CodecError::TooShort)
            } else {
                let plen = spec_u32_from_le_bytes(data.subrange(o2, o2 + 4)) as int;
                if o2 + 4 + plen > data.len() {
                    Err(CodecError::TooShort)
                } else {
                    Ok((data.subrange(o2 + 4, o2 + 4 + plen), o2 + 4 + plen))
                }
            }
        }
    }
}

pub open spec fn spec_decode_user_blob(data: Seq<u8>) -> Result<(Seq<u8>, Seq<u8>), CodecError> {
    if data.len() < 4 {
        Err(CodecError::TooShort)
    } else if spec_u32_from_le_bytes(data.subrange(0, 4)) as int != data.len() {
        Err(CodecError::WrongLength)
    } else {
        match parse_field(data, 4, spec_name_signing_key()) {
            Err(e) => Err(e),
            Ok((p1, o1)) => match parse_field(data, o1, spec_name_ca_key()) {
                Err(e) => Err(e),
                Ok((p2, o2)) => if o2 != data.len() {
                    Err(CodecError::WrongLength)
                } else {
                    Ok((p1, p2))
                },
            },
        }
    }
}

pub open spec fn spec_decode_instance_blob(data: Seq<u8>) -> Result<
    (Seq<u8>, Seq<u8>, Seq<u8>),
    CodecError,
> {
    if data.len() < 4 {
        Err(CodecError::TooShort)
    } else if spec_u32_from_le_bytes(data.subrange(0, 4)) as int != data.len() {
        Err(CodecError::WrongLength)
    } else {
        match parse_field(data, 4, spec_name_signing_key()) {
            Err(e) => Err(e),
            Ok((p1, o1)) => match parse_field(data, o1, spec_name_sig()) {
                Err(e) => Err(e),
                Ok((p2, o2)) => match parse_field(data, o2, spec_name_ca_verifying_key()) {
                    Err(e) => Err(e),
                    Ok((p3, o3)) => if o3 != data.len() {
                        Err(CodecError::WrongLength)
                    } else {
                        Ok((p1, p2, p3))
                    },
                },
            },
        }
    }
}

pub open spec fn spec_decode_kex_packet(data: Seq<u8>) -> Result<
    (Seq<u8>, Seq<u8>, Seq<u8>, Seq<u8>),
    CodecError,
> {
    if data.len() < 4 {
        Err(CodecError::TooShort)
    } else if spec_u32_from_le_bytes(data.subrange(0, 4)) as int != data.len() {
        Err(CodecError::WrongLength)
    } else {
        match parse_field(data, 4, spec_name_public_key()) {
            Err(e) => Err(e),
            Ok((p1, o1)) => match parse_field(data, o1, spec_name_sig()) {
                Err(e) => Err(e),
                Ok((p2, o2)) => match parse_field(data, o2, spec_name_verifying_key()) {
                    Err(e) => Err(e),
                    Ok((p3, o3)) => match parse_field(data, o3, spec_name_signing_key_sig()) {
                        Err(e) => Err(e),
                        Ok((p4, o4)) => if o4 != data.len() {
                            Err(CodecError::WrongLength)
                        } else if p1.len() != 32 {
                            Err(CodecError::WrongLength)
                        } else {
                            Ok((p1, p2, p3, p4))
                        },
                    },
                },
            },
        }
    }
}

proof fn lemma_subrange_of_subrange(data: Seq<u8>, off: int, len: int, a: int, b: int)
    requires
        0 <= off,
        off + len <= data.len(),
        0 <= a <= b <= len,
    ensures
        data.subrange(off + a, off + b) == data.subrange(off, off + len).subrange(a, b),
{
    assert(data.subrange(off + a, off + b) =~= data.subrange(off, off + len).subrange(a, b));
}

/// Parsing a well-formed field at its offset recovers exactly the payload.
proof fn lemma_parse_field_ok(data: Seq<u8>, off: int, name: Seq<u8>, payload: Seq<u8>)
    requires
        0 <= off,
        name.len() <= 0xFFFF_FFFF,
        payload.len() <= 0xFFFF_FFFF,
        off + spec_field(name, payload).len() <= data.len(),
        data.subrange(off, off + spec_field(name, payload).len()) == spec_field(name, payload),
    ensures
        parse_field(data, off, name) == Ok::<(Seq<u8>, int), CodecError>(
            (payload, off + spec_field(name, payload).len()),
        ),
{
    lemma_auto_spec_u32_to_from_le_bytes();
    let f = spec_field(name, payload);
    let nb = spec_u32_to_le_bytes(name.len() as u32);
    let pb = spec_u32_to_le_bytes(payload.len() as u32);
    let nl = name.len() as int;
    let pl = payload.len() as int;
    assert(f.len() == 8 + nl + pl);
    lemma_subrange_of_subrange(data, off, f.len() as int, 0, 4);
    assert(f.subrange(0, 4) =~= nb);
    assert(spec_u32_from_le_bytes(data.subrange(off, off + 4)) as int == nl);
    lemma_subrange_of_subrange(data, off, f.len() as int, 4, 4 + nl);
    assert(f.subrange(4, 4 + nl) =~= name);
    let o2 = off + 4 + nl;
    lemma_subrange_of_subrange(data, off, f.len() as int, 4 + nl, 8 + nl);
    assert(f.subrange(4 + nl, 8 + nl) =~= pb);
    assert(spec_u32_from_le_bytes(data.subrange(o2, o2 + 4)) as int == pl);
    lemma_subrange_of_subrange(data, off, f.len() as int, 8 + nl, 8 + nl + pl);
    assert(f.subrange(8 + nl, 8 + nl + pl) =~= payload);
    assert(data.subrange(o2 + 4, o2 + 4 + pl) == payload);
}

/// Decoding inverts encoding for the user blob.
#[verifier::rlimit(60)]
pub proof fn lemma_user_blob_round_trip(signing_key: Seq<u8>, ca_key: Seq<u8>)
    requires
        user_blob_encodable(signing_key, ca_key),
    ensures
        spec_decode_user_blob(spec_user_blob(signing_key, ca_key)) == Ok::<
            (Seq<u8>, Seq<u8>),
            CodecError,
        >((signing_key, ca_key)),
{
    lemma_auto_spec_u32_to_from_le_bytes();
    let f1 = spec_field(spec_name_signing_key(), signing_key);
    let f2 = spec_field(spec_name_ca_key(), ca_key);
    let body = f1 + f2;
    let data = spec_user_blob(signing_key, ca_key);
    let ps = seq![signing_key, ca_key];
    lemma_payloads_len_2(signing_key, ca_key);
    assert(f1.len() == 19 + signing_key.len());
    assert(f2.len() == 14 + ca_key.len());
    assert(data.len() == 4 + body.len());
    assert(data.subrange(0, 4) =~= spec_u32_to_le_bytes((4 + body.len()) as u32));
    assert(spec_u32_from_le_bytes(data.subrange(0, 4)) as int == data.len());
    assert(data.subrange(4, 4 + f1.len() as int) =~= f1);
    lemma_parse_field_ok(data, 4, spec_name_signing_key(), signing_key);
    let o1 = 4 + f1.len() as int;
    assert(data.subrange(o1, o1 + f2.len() as int) =~= f2);
    lemma_parse_field_ok(data, o1, spec_name_ca_key(), ca_key);
}

/// Decoding inverts encoding for the instance blob.
#[verifier::rlimit(60)]
pub proof fn lemma_instance_blob_round_trip(signing_key: Seq<u8>, sig: Seq<u8>, ca_vk: Seq<u8>)
    requires
        instance_blob_encodable(signing_key, sig, ca_vk),
    ensures
        spec_decode_instance_blob(spec_instance_blob(signing_key, sig, ca_vk)) == Ok::<
            (Seq<u8>, Seq<u8>, Seq<u8>),
            CodecError,
        >((signing_key, sig, ca_vk)),
{
    lemma_auto_spec_u32_to_from_le_bytes();
    let f1 = spec_field(spec_name_signing_key(), signing_key);
    let f2 = spec_field(spec_name_sig(), sig);
    let f3 = spec_field(spec_name_ca_verifying_key(), ca_vk);
    let body = f1 + f2 + f3;
    let data = spec_instance_blob(signing_key, sig, ca_vk);
    let ps = seq![signing_key, sig, ca_vk];
    lemma_payloads_len_3(signing_key, sig, ca_vk);
    assert(f1.len() == 19 + signing_key.len());
    assert(f2.len() == 11 + sig.len());
    assert(f3.len() == 24 + ca_vk.len());
    assert(data.len() == 4 + body.len());
    assert(data.subrange(0, 4) =~= spec_u32_to_le_bytes((4 + body.len()) as u32));
    assert(spec_u32_from_le_bytes(data.subrange(0, 4)) as int == data.len());
    assert(data.subrange(4, 4 + f1.len() as int) =~= f1);
    lemma_parse_field_ok(data, 4, spec_name_signing_key(), signing_key);
    let o1 = 4 + f1.len() as int;
    assert(data.subrange(o1, o1 + f2.len() as int) =~= f2);
    lemma_parse_field_ok(data, o1, spec_name_sig(), sig);
    let o2 = o1 + f2.len() as int;
    assert(data.subrange(o2, o2 + f3.len() as int) =~= f3);
    lemma_parse_field_ok(data, o2, spec_name_ca_verifying_key(), ca_vk);
}

/// Decoding inverts encoding for the key-exchange packet.
#[verifier::rlimit(100)]
pub proof fn lemma_kex_packet_round_trip(
    public_key: Seq<u8>,
    sig: Seq<u8>,
    verifying_key: Seq<u8>,
    signing_key_sig: Seq<u8>,
)
    requires
        kex_packet_encodable(public_key, sig, verifying_key, signing_key_sig),
        public_key.len() == 32,
    ensures
        spec_decode_kex_packet(spec_kex_packet(public_key, sig, verifying_key, signing_key_sig))
            == Ok::<(Seq<u8>, Seq<u8>, Seq<u8>, Seq<u8>), CodecError>(
            (public_key, sig, verifying_key, signing_key_sig),
        ),
{
    lemma_auto_spec_u32_to_from_le_bytes();
    let f1 = spec_field(spec_name_public_key(), public_key);
    let f2 = spec_field(spec_name_sig(), sig);
    let f3 = spec_field(spec_name_verifying_key(), verifying_key);
    let f4 = spec_field(spec_name_signing_key_sig(), signing_key_sig);
    let body = f1 + f2 + f3 + f4;
    let data = spec_kex_packet(public_key, sig, verifying_key, signing_key_sig);
    let ps = seq![public_key, sig, verifying_key, signing_key_sig];
    lemma_payloads_len_4(public_key, sig, verifying_key, signing_key_sig);
    assert(f1.len() == 18 + public_key.len());
    assert(f2.len() == 11 + sig.len());
    assert(f3.len() == 21 + verifying_key.len());
    assert(f4.len() == 23 + signing_key_sig.len());
    assert(data.len() == 4 + body.len());
    assert(data.subrange(0, 4) =~= spec_u32_to_le_bytes((4 + body.len()) as u32));
    assert(spec_u32_from_le_bytes(data.subrange(0, 4)) as int == data.len());
    assert(data.subrange(4, 4 + f1.len() as int) =~= f1);
    lemma_parse_field_ok(data, 4, spec_name_public_key(), public_key);
    let o1 = 4 + f1.len() as int;
    assert(data.subrange(o1, o1 + f2.len() as int) =~= f2);
    lemma_parse_field_ok(data, o1, spec_name_sig(), sig);
    let o2 = o1 + f2.len() as int;
    assert(data.subrange(o2, o2 + f3.len() as int) =~= f3);
    lemma_parse_field_ok(data, o2, spec_name_verifying_key(), verifying_key);
    let o3 = o2 + f3.len() as int;
    assert(data.subrange(o3, o3 + f4.len() as int) =~= f4);
    lemma_parse_field_ok(data, o3, spec_name_signing_key_sig(), signing_key_sig);
}

fn name_public_key() -> (r: Vec<u8>)
    ensures
        r@ == spec_name_public_key(),
{
    let mut v: Vec<u8> = Vec::new();
    v.push(112u8);
    v.push(117u8);
    v.push(98u8);
    v.push(108u8);
    v.push(105u8);
    v.push(99u8);
    v.push(95u8);
    v.push(107u8);
    v.push(101u8);
    v.push(121u8);
    proof {
        assert(v@ =~= spec_name_public_key());
    }
    v
}

fn name_sig() -> (r: Vec<u8>)
    ensures
        r@ == spec_name_sig(),
{
    let mut v: Vec<u8> = Vec::new();
    v.push(115u8);
    v.push(105u8);
    v.push(103u8);
    proof {
        assert(v@ =~= spec_name_sig());
    }
    v
}

fn name_verifying_key() -> (r: Vec<u8>)
    ensures
        r@ == spec_name_verifying_key(),
{
    let mut v: Vec<u8> = Vec::new();
    v.push(118u8);
    v.push(101u8);
    v.push(114u8);
    v.push(105u8);
    v.push(102u8);
    v.push(121u8);
    v.push(105u8);
    v.push(110u8);
    v.push(103u8);
    v.push(95u8);
    v.push(107u8);
    v.push(101u8);
    v.push(121u8);
    proof {
        assert(v@ =~= spec_name_verifying_key());
    }
    v
}

fn name_signing_key_sig() -> (r: Vec<u8>)
    ensures
        r@ == spec_name_signing_key_sig(),
{
    let mut v = name_signing_key();
    v.push(95u8);
    v.push(115u8);
    v.push(105u8);
    v.push(103u8);
    proof {
        assert(v@ =~= spec_name_signing_key_sig());
    }
    v
}

fn name_signing_key() -> (r: Vec<u8>)
    ensures
        r@ == spec_name_signing_key(),
{
    let mut v: Vec<u8> = Vec::new();
    v.push(115u8);
    v.push(105u8);
    v.push(103u8);
    v.push(110u8);
    v.push(105u8);
    v.push(110u8);
    v.push(103u8);
    v.push(95u8);
    v.push(107u8);
    v.push(101u8);
    v.push(121u8);
    proof {
        assert(v@ =~= spec_name_signing_key());
    }
    v
}

fn name_ca_key() -> (r: Vec<u8>)
    ensures
        r@ == spec_name_ca_key(),
{
    let mut v: Vec<u8> = Vec::new();
    v.push(99u8);
    v.push(97u8);
    v.push(95u8);
    v.push(107u8);
    v.push(101u8);
    v.push(121u8);
    proof {
        assert(v@ =~= spec_name_ca_key());
    }
    v
}

fn name_ca_verifying_key() -> (r: Vec<u8>)
    ensures
        r@ == spec_name_ca_verifying_key(),
{
    let mut v: Vec<u8> = Vec::new();
    v.push(99u8);
    v.push(97u8);
    v.push(95u8);
    let mut w = name_verifying_key();
    v.append(&mut w);
    proof {
        assert(v@ =~= spec_name_ca_verifying_key());
    }
    v
}

/// Compares two byte strings.
pub(crate) fn bytes_eq(a: &[u8], b: &[u8]) -> (r: bool)
    ensures
        r == (a@ == b@),
{
    if a.len() != b.len() {
        return false;
    }
    let n = a.len();
    let mut i: usize = 0;
    while i < n
        invariant
            n == a@.len(),
            n == b@.len(),
            i <= n,
            forall|j: int| 0 <= j < i ==> a@[j] == b@[j],
        decreases n - i,
    {
        if a[i] != b[i] {
            return false;
        }
        i = i + 1;
    }
    proof {
        assert(a@ =~= b@);
    }
    true
}

/// Appends one encoded field; fails (leaving `out` unchanged) when a length
/// does not fit its `u32` prefix.
fn write_field(out: &mut Vec<u8>, name: &[u8], payload: &[u8]) -> (ok: bool)
    ensures
        ok == (name@.len() <= 0xFFFF_FFFF && payload@.len() <= 0xFFFF_FFFF),
        ok ==> final(out)@ == old(out)@ + spec_field(name@, payload@),
        !ok ==> final(out)@ == old(out)@,
{
    if name.len() > 0xFFFF_FFFF || payload.len() > 0xFFFF_FFFF {
        return false;
    }
    let mut nb = u32_to_le_bytes(name.len() as u32);
    out.append(&mut nb);
    out.extend_from_slice(name);
    let mut pb = u32_to_le_bytes(payload.len() as u32);
    out.append(&mut pb);
    out.extend_from_slice(payload);
    proof {
        assert(out@ =~= old(out)@ + spec_field(name@, payload@));
    }
    true
}

/// Prefixes a document body with its total length; fails when the total
/// does not fit the `u32` header.
fn finish_doc(body: Vec<u8>) -> (r: Option<Vec<u8>>)
    ensures
        match r {
            Some(d) => body@.len() + 4 <= 0xFFFF_FFFF && d@ == spec_u32_to_le_bytes(
                (4 + body@.len()) as u32,
            ) + body@,
            None => body@.len() + 4 > 0xFFFF_FFFF,
        },
{
    if body.len() > 0xFFFF_FFFF - 4 {
        return None;
    }
    let mut out = u32_to_le_bytes((body.len() + 4) as u32);
    let mut b = body;
    out.append(&mut b);
    Some(out)
}

/// Encodes a user blob.  Fails only when a payload overflows the format's
/// `u32` length prefixes.
pub fn encode_user_blob(signing_key: &[u8], ca_key: &[u8]) -> (r: Result<Vec<u8>, CodecError>)
    ensures
        match r {
            Ok(b) => user_blob_encodable(signing_key@, ca_key@) && b@.len() <= 0xFFFF_FFFF && b@
                == spec_user_blob(signing_key@, ca_key@),
            Err(e) => e == CodecError::WrongLength && !user_blob_encodable(signing_key@, ca_key@),
        },
{
    let ghost ps = seq![signing_key@, ca_key@];
    proof {
        lemma_payloads_len_2(signing_key@, ca_key@);
    }
    let mut body: Vec<u8> = Vec::new();
    let n1 = name_signing_key();
    if !write_field(&mut body, n1.as_slice(), signing_key) {
        proof {
            assert(ps[0] == signing_key@);
        }
        return Err(CodecError::WrongLength);
    }
    let n2 = name_ca_key();
    if !write_field(&mut body, n2.as_slice(), ca_key) {
        proof {
            assert(ps[1] == ca_key@);
        }
        return Err(CodecError::WrongLength);
    }
    proof {
        assert(ps[0] == signing_key@ && ps[1] == ca_key@);
        lemma_field_len(spec_name_signing_key(), signing_key@);
        lemma_field_len(spec_name_ca_key(), ca_key@);
        assert(body@ =~= spec_field(spec_name_signing_key(), signing_key@) + spec_field(
            spec_name_ca_key(),
            ca_key@,
        ));
        assert(body@.len() == 33 + signing_key@.len() + ca_key@.len());
    }
    match finish_doc(body) {
        Some(d) => {
            proof {
                lemma_auto_spec_u32_to_from_le_bytes();
            }
            Ok(d)
        },
        None => Err(CodecError::WrongLength),
    }
}

/// Encodes an instance blob.  Fails only when a payload overflows the
/// format's `u32` length prefixes.
pub fn encode_instance_blob(signing_key: &[u8], sig: &[u8], ca_vk: &[u8]) -> (r: Result<
    Vec<u8>,
    CodecError,
>)
    ensures
        match r {
            Ok(b) => instance_blob_encodable(signing_key@, sig@, ca_vk@) && b@.len()
                <= 0xFFFF_FFFF && b@ == spec_instance_blob(signing_key@, sig@, ca_vk@),
            Err(e) => e == CodecError::WrongLength && !instance_blob_encodable(
                signing_key@,
                sig@,
                ca_vk@,
            ),
        },
{
    let ghost ps = seq![signing_key@, sig@, ca_vk@];
    proof {
        lemma_payloads_len_3(signing_key@, sig@, ca_vk@);
    }
    let mut body: Vec<u8> = Vec::new();
    let n1 = name_signing_key();
    if !write_field(&mut body, n1.as_slice(), signing_key) {
        proof {
            assert(ps[0] == signing_key@);
        }
        return Err(CodecError::WrongLength);
    }
    let n2 = name_sig();
    if !write_field(&mut body, n2.as_slice(), sig) {
        proof {
            assert(ps[1] == sig@);
        }
        return Err(CodecError::WrongLength);
    }
    let n3 = name_ca_verifying_key();
    if !write_field(&mut body, n3.as_slice(), ca_vk) {
        proof {
            assert(ps[2] == ca_vk@);
        }
        return Err(CodecError::WrongLength);
    }
    proof {
        assert(ps[0] == signing_key@ && ps[1] == sig@ && ps[2] == ca_vk@);
        lemma_field_len(spec_name_signing_key(), signing_key@);
        lemma_field_len(spec_name_sig(), sig@);
        lemma_field_len(spec_name_ca_verifying_key(), ca_vk@);
        assert(body@ =~= spec_field(spec_name_signing_key(), signing_key@) + spec_field(
            spec_name_sig(),
            sig@,
        ) + spec_field(spec_name_ca_verifying_key(), ca_vk@));
        assert(body@.len() == 54 + signing_key@.len() + sig@.len() + ca_vk@.len());
    }
    match finish_doc(body) {
        Some(d) => {
            proof {
                lemma_auto_spec_u32_to_from_le_bytes();
            }
            Ok(d)
        },
        None => Err(CodecError::WrongLength),
    }
}

/// Encodes a key-exchange packet.  Fails only when a payload overflows the
/// format's `u32` length prefixes.
pub fn encode_kex_packet(
    public_key: &[u8],
    sig: &[u8],
    verifying_key: &[u8],
    signing_key_sig: &[u8],
) -> (r: Result<Vec<u8>, CodecError>)
    ensures
        match r {
            Ok(b) => kex_packet_encodable(public_key@, sig@, verifying_key@, signing_key_sig@)
                && b@.len() <= 0xFFFF_FFFF && b@ == spec_kex_packet(
                public_key@,
                sig@,
                verifying_key@,
                signing_key_sig@,
            ),
            Err(e) => e == CodecError::WrongLength && !kex_packet_encodable(
                public_key@,
                sig@,
                verifying_key@,
                signing_key_sig@,
            ),
        },
{
    let ghost ps = seq![public_key@, sig@, verifying_key@, signing_key_sig@];
    proof {
        lemma_payloads_len_4(public_key@, sig@, verifying_key@, signing_key_sig@);
    }
    let mut body: Vec<u8> = Vec::new();
    let n1 = name_public_key();
    if !write_field(&mut body, n1.as_slice(), public_key) {
        proof {
            assert(ps[0] == public_key@);
        }
        return Err(CodecError::WrongLength);
    }
    let n2 = name_sig();
    if !write_field(&mut body, n2.as_slice(), sig) {
        proof {
            assert(ps[1] == sig@);
        }
        return Err(CodecError::WrongLength);
    }
    let n3 = name_verifying_key();
    if !write_field(&mut body, n3.as_slice(), verifying_key) {
        proof {
            assert(ps[2] == verifying_key@);
        }
        return Err(CodecError::WrongLength);
    }
    let n4 = name_signing_key_sig();
    if !write_field(&mut body, n4.as_slice(), signing_key_sig) {
        proof {
            assert(ps[3] == signing_key_sig@);
        }
        return Err(CodecError::WrongLength);
    }
    proof {
        assert(ps[0] == public_key@ && ps[1] == sig@ && ps[2] == verifying_key@ && ps[3]
            == signing_key_sig@);
        lemma_field_len(spec_name_public_key(), public_key@);
        lemma_field_len(spec_name_sig(), sig@);
        lemma_field_len(spec_name_verifying_key(), verifying_key@);
        lemma_field_len(spec_name_signing_key_sig(), signing_key_sig@);
        assert(body@ =~= spec_field(spec_name_public_key(), public_key@) + spec_field(
            spec_name_sig(),
            sig@,
        ) + spec_field(spec_name_verifying_key(), verifying_key@) + spec_field(
            spec_name_signing_key_sig(),
            signing_key_sig@,
        ));
        assert(body@.len() == 73 + public_key@.len() + sig@.len() + verifying_key@.len()
            + signing_key_sig@.len());
    }
    match finish_doc(body) {
        Some(d) => {
            proof {
                lemma_auto_spec_u32_to_from_le_bytes();
            }
            Ok(d)
        },
        None => Err(CodecError::WrongLength),
    }
}

/// Reads one field with the expected name at offset `off`.
fn read_field(data: &[u8], off: usize, name: &[u8]) -> (r: Result<(Vec<u8>, usize), CodecError>)
    requires
        off <= data@.len(),
    ensures
        match r {
            Ok(p) => parse_field(data@, off as int, name@) == Ok::<(Seq<u8>, int), CodecError>(
                (p.0@, p.1 as int),
            ) && off < p.1 <= data@.len(),
            Err(e) => parse_field(data@, off as int, name@) == Err::<(Seq<u8>, int), CodecError>(
                e,
            ),
        },
{
    let n = data.len();
    if n - off < 4 {
        return Err(CodecError::TooShort);
    }
    let nlen = u32_from_le_bytes(slice_subrange(data, off, off + 4)) as usize;
    if n - (off + 4) < nlen {
        return Err(CodecError::TooShort);
    }
    let nm = slice_subrange(data, off + 4, off + 4 + nlen);
    if !bytes_eq(nm, name) {
        return Err(CodecError::UnexpectedField);
    }
    let o2 = off + 4 + nlen;
    if n - o2 < 4 {
        return Err(CodecError::TooShort);
    }
    let plen = u32_from_le_bytes(slice_subrange(data, o2, o2 + 4)) as usize;
    if n - (o2 + 4) < plen {
        return Err(CodecError::TooShort);
    }
    let payload = slice_to_vec(slice_subrange(data, o2 + 4, o2 + 4 + plen));
    Ok((payload, o2 + 4 + plen))
}

/// Decodes a user blob; the result is exactly what [`spec_decode_user_blob`]
/// says.
pub fn decode_user_blob(data: &[u8]) -> (r: Result<(Vec<u8>, Vec<u8>), CodecError>)
    ensures
        match r {
            Ok(p) => spec_decode_user_blob(data@) == Ok::<(Seq<u8>, Seq<u8>), CodecError>(
                (p.0@, p.1@),
            ),
            Err(e) => spec_decode_user_blob(data@) == Err::<(Seq<u8>, Seq<u8>), CodecError>(e),
        },
{
    let n = data.len();
    if n < 4 {
        return Err(CodecError::TooShort);
    }
    let total = u32_from_le_bytes(slice_subrange(data, 0, 4)) as usize;
    if total != n {
        return Err(CodecError::WrongLength);
    }
    let n1 = name_signing_key();
    let (p1, o1) = match read_field(data, 4, n1.as_slice()) {
        Ok(v) => v,
        Err(e) => {
            return Err(e);
        },
    };
    let n2 = name_ca_key();
    let (p2, o2) = match read_field(data, o1, n2.as_slice()) {
        Ok(v) => v,
        Err(e) => {
            return Err(e);
        },
    };
    if o2 != n {
        return Err(CodecError::WrongLength);
    }
    Ok((p1, p2))
}

/// Decodes an instance blob; the result is exactly what
/// [`spec_decode_instance_blob`] says.
pub fn decode_instance_blob(data: &[u8]) -> (r: Result<(Vec<u8>, Vec<u8>, Vec<u8>), CodecError>)
    ensures
        match r {
            Ok(p) => spec_decode_instance_blob(data@) == Ok::<
                (Seq<u8>, Seq<u8>, Seq<u8>),
                CodecError,
            >((p.0@, p.1@, p.2@)),
            Err(e) => spec_decode_instance_blob(data@) == Err::<
                (Seq<u8>, Seq<u8>, Seq<u8>),
                CodecError,
            >(e),
        },
{
    let n = data.len();
    if n < 4 {
        return Err(CodecError::TooShort);
    }
    let total = u32_from_le_bytes(slice_subrange(data, 0, 4)) as usize;
    if total != n {
        return Err(CodecError::WrongLength);
    }
    let n1 = name_signing_key();
    let (p1, o1) = match read_field(data, 4, n1.as_slice()) {
        Ok(v) => v,
        Err(e) => {
            return Err(e);
        },
    };
    let n2 = name_sig();
    let (p2, o2) = match read_field(data, o1, n2.as_slice()) {
        Ok(v) => v,
        Err(e) => {
            return Err(e);
        },
    };
    let n3 = name_ca_verifying_key();
    let (p3, o3) = match read_field(data, o2, n3.as_slice()) {
        Ok(v) => v,
        Err(e) => {
            return Err(e);
        },
    };
    if o3 != n {
        return Err(CodecError::WrongLength);
    }
    Ok((p1, p2, p3))
}

/// Decodes a key-exchange packet; the result is exactly what
/// [`spec_decode_kex_packet`] says.
pub fn decode_kex_packet(data: &[u8]) -> (r: Result<
    (Vec<u8>, Vec<u8>, Vec<u8>, Vec<u8>),
    CodecError,
>)
    ensures
        match r {
            Ok(p) => spec_decode_kex_packet(data@) == Ok::<
                (Seq<u8>, Seq<u8>, Seq<u8>, Seq<u8>),
                CodecError,
            >((p.0@, p.1@, p.2@, p.3@)) && p.0@.len() == 32,
            Err(e) => spec_decode_kex_packet(data@) == Err::<
                (Seq<u8>, Seq<u8>, Seq<u8>, Seq<u8>),
                CodecError,
            >(e),
        },
{
    let n = data.len();
    if n < 4 {
        return Err(CodecError::TooShort);
    }
    let total = u32_from_le_bytes(slice_subrange(data, 0, 4)) as usize;
    if total != n {
        return Err(CodecError::WrongLength);
    }
    let n1 = name_public_key();
    let (p1, o1) = match read_field(data, 4, n1.as_slice()) {
        Ok(v) => v,
        Err(e) => {
            return Err(e);
        },
    };
    let n2 = name_sig();
    let (p2, o2) = match read_field(data, o1, n2.as_slice()) {
        Ok(v) => v,
        Err(e) => {
            return Err(e);
        },
    };
    let n3 = name_verifying_key();
    let (p3, o3) = match read_field(data, o2, n3.as_slice()) {
        Ok(v) => v,
        Err(e) => {
            return Err(e);
        },
    };
    let n4 = name_signing_key_sig();
    let (p4, o4) = match read_field(data, o3, n4.as_slice()) {
        Ok(v) => v,
        Err(e) => {
            return Err(e);
        },
    };
    if o4 != n {
        return Err(CodecError::WrongLength);
    }
    if p1.len() != 32 {
        return Err(CodecError::WrongLength);
    }
    Ok((p1, p2, p3, p4))
}

} // verus!
