//! Entitlements: executable-segment flag derivation and the DER blob.
//!
//! An entitlements plist is modeled as a list of key/value pairs with
//! UTF-8 byte-string keys. A fixed translation table maps well-known
//! boolean entitlements to executable-segment flags; the DER payload
//! is a deterministic encoding of the pairs as a DER SEQUENCE of
//! key/value SEQUENCEs.

use vstd::prelude::*;

use crate::bytes::push_bytes;
use vstd::string::StringSliceAdditionalSpecFns;

verus! {

pub const EXEC_SEG_MAIN_BINARY: u64 = 0x1;

pub const EXEC_SEG_ALLOW_UNSIGNED: u64 = 0x10;

pub const EXEC_SEG_DEBUGGER: u64 = 0x20;

pub const EXEC_SEG_JIT: u64 = 0x40;

pub const EXEC_SEG_SKIP_LIBRARY_VALIDATION: u64 = 0x80;

pub const EXEC_SEG_CAN_LOAD_CD_HASH: u64 = 0x100;

pub const EXEC_SEG_CAN_EXEC_CD_HASH: u64 = 0x200;

/// A value in an entitlements plist.
#[derive(Clone, Debug)]
pub enum EntitlementValue {
    Boolean(bool),
    Text(Vec<u8>),
}

/// One entitlements dictionary: keys with their values.
pub type EntitlementsDict = Vec<(Vec<u8>, EntitlementValue)>;

/// Equality of entitlement values up to byte-string views.
pub open spec fn spec_ent_val_eq(a: EntitlementValue, b: EntitlementValue) -> bool {
    match (a, b) {
        (EntitlementValue::Boolean(x), EntitlementValue::Boolean(y)) => x == y,
        (EntitlementValue::Text(x), EntitlementValue::Text(y)) => x@ == y@,
        _ => false,
    }
}

/// Whether some entry holds `true` under `key`.
pub open spec fn spec_has_bool_true(ents: Seq<(Vec<u8>, EntitlementValue)>, key: Seq<u8>) -> bool {
    exists|i: int|
        0 <= i < ents.len() && (#[trigger] ents[i]).0@ == key && ents[i].1 == EntitlementValue::Boolean(
            true,
        )
}

/// The executable-segment flags implied by an entitlements plist.
pub open spec fn spec_plist_exec_seg_flags(ents: Seq<(Vec<u8>, EntitlementValue)>) -> u64 {
    (if spec_has_bool_true(ents, "get-task-allow".spec_bytes()) {
        EXEC_SEG_ALLOW_UNSIGNED
    } else {
        0
    }) | (if spec_has_bool_true(ents, "run-unsigned-code".spec_bytes()) {
        EXEC_SEG_ALLOW_UNSIGNED
    } else {
        0
    }) | (if spec_has_bool_true(ents, "com.apple.private.cs.debugger".spec_bytes()) {
        EXEC_SEG_DEBUGGER
    } else {
        0
    }) | (if spec_has_bool_true(ents, "dynamic-codesigning".spec_bytes()) {
        EXEC_SEG_JIT
    } else {
        0
    }) | (if spec_has_bool_true(
        ents,
        "com.apple.private.skip-library-validation".spec_bytes(),
    ) {
        EXEC_SEG_SKIP_LIBRARY_VALIDATION
    } else {
        0
    }) | (if spec_has_bool_true(
        ents,
        "com.apple.private.amfi.can-load-cdhash".spec_bytes(),
    ) {
        EXEC_SEG_CAN_LOAD_CD_HASH
    } else {
        0
    }) | (if spec_has_bool_true(
        ents,
        "com.apple.private.amfi.can-execute-cdhash".spec_bytes(),
    ) {
        EXEC_SEG_CAN_EXEC_CD_HASH
    } else {
        0
    })
}

/// The UTF-8 bytes of a string slice, as a vector.
pub fn bytes_of_str(s: &str) -> (r: Vec<u8>)
    ensures
        r@ == s.spec_bytes(),
{
    vstd::slice::slice_to_vec(s.as_bytes())
}

/// Whether some entry holds `true` under `key`.
fn has_bool_true(ents: &EntitlementsDict, key: &Vec<u8>) -> (r: bool)
    ensures
        r == spec_has_bool_true(ents@, key@),
{
    let n = ents.len();
    let mut i: usize = 0;
    while i < n
        invariant
            n == ents@.len(),
            i <= n,
            forall|j: int|
                0 <= j < i ==> !((#[trigger] ents@[j]).0@ == key@ && ents@[j].1
                    == EntitlementValue::Boolean(true)),
        decreases n - i,
    {
        let hit = match &ents[i].1 {
            EntitlementValue::Boolean(b) => *b && ents[i].0 == *key,
            _ => false,
        };
        if hit {
            assert(ents@[i as int].0@ == key@ && ents@[i as int].1 == EntitlementValue::Boolean(
                true,
            ));
            return true;
        }
        i = i + 1;
    }
    false
}

/// Translate an entitlements plist into executable-segment flags.
pub fn plist_to_executable_segment_flags(ents: &EntitlementsDict) -> (r: u64)
    ensures
        r == spec_plist_exec_seg_flags(ents@),
{
    let c1 = has_bool_true(ents, &bytes_of_str("get-task-allow"));
    let c2 = has_bool_true(ents, &bytes_of_str("run-unsigned-code"));
    let c3 = has_bool_true(ents, &bytes_of_str("com.apple.private.cs.debugger"));
    let c4 = has_bool_true(ents, &bytes_of_str("dynamic-codesigning"));
    let c5 = has_bool_true(ents, &bytes_of_str("com.apple.private.skip-library-validation"));
    let c6 = has_bool_true(ents, &bytes_of_str("com.apple.private.amfi.can-load-cdhash"));
    let c7 = has_bool_true(ents, &bytes_of_str("com.apple.private.amfi.can-execute-cdhash"));
    (if c1 {
        EXEC_SEG_ALLOW_UNSIGNED
    } else {
        0
    }) | (if c2 {
        EXEC_SEG_ALLOW_UNSIGNED
    } else {
        0
    }) | (if c3 {
        EXEC_SEG_DEBUGGER
    } else {
        0
    }) | (if c4 {
        EXEC_SEG_JIT
    } else {
        0
    }) | (if c5 {
        EXEC_SEG_SKIP_LIBRARY_VALIDATION
    } else {
        0
    }) | (if c6 {
        EXEC_SEG_CAN_LOAD_CD_HASH
    } else {
        0
    }) | (if c7 {
        EXEC_SEG_CAN_EXEC_CD_HASH
    } else {
        0
    })
}

/// DER definite-length encoding, for lengths up to `0xffff`.
pub open spec fn spec_der_len_bytes(n: int) -> Seq<u8> {
    if n < 0x80 {
        seq![n as u8]
    } else if n < 0x100 {
        seq![0x81u8, n as u8]
    } else {
        seq![0x82u8, (n / 0x100) as u8, (n % 0x100) as u8]
    }
}

/// A DER BOOLEAN.
pub open spec fn spec_der_bool(b: bool) -> Seq<u8> {
    seq![
        0x01u8,
        0x01u8,
        if b {
            0xffu8
        } else {
            0x00u8
        },
    ]
}

/// A DER UTF8String.
pub open spec fn spec_der_utf8(s: Seq<u8>) -> Seq<u8> {
    seq![0x0cu8] + spec_der_len_bytes(s.len() as int) + s
}

/// A DER-encoded entitlement value.
pub open spec fn spec_der_value(v: EntitlementValue) -> Seq<u8> {
    match v {
        EntitlementValue::Boolean(b) => spec_der_bool(b),
        EntitlementValue::Text(t) => spec_der_utf8(t@),
    }
}

/// A key/value pair as a DER SEQUENCE.
pub open spec fn spec_der_entry(k: Seq<u8>, v: EntitlementValue) -> Seq<u8> {
    seq![0x30u8] + spec_der_len_bytes((spec_der_utf8(k) + spec_der_value(v)).len() as int) + (
    spec_der_utf8(k) + spec_der_value(v))
}

/// The first `n` pairs, concatenated.
pub open spec fn spec_der_entries(ents: Seq<(Vec<u8>, EntitlementValue)>, n: int) -> Seq<u8>
    decreases n,
{
    if n <= 0 {
        Seq::empty()
    } else {
        spec_der_entries(ents, n - 1) + spec_der_entry(ents[n - 1].0@, ents[n - 1].1)
    }
}

/// The whole DER entitlements payload: a SEQUENCE of pairs.
pub open spec fn spec_entitlements_der(ents: Seq<(Vec<u8>, EntitlementValue)>) -> Seq<u8> {
    seq![0x30u8] + spec_der_len_bytes(
        spec_der_entries(ents, ents.len() as int).len() as int,
    ) + spec_der_entries(ents, ents.len() as int)
}

/// Sizes that keep every DER length below `0xffff`.
pub open spec fn spec_ents_bounded(ents: Seq<(Vec<u8>, EntitlementValue)>) -> bool {
    &&& ents.len() <= 0x40
    &&& forall|i: int| 0 <= i < ents.len() ==> (#[trigger] ents[i]).0@.len() <= 0x80
    &&& forall|i: int|
        0 <= i < ents.len() ==> match (#[trigger] ents[i]).1 {
            EntitlementValue::Boolean(_) => true,
            EntitlementValue::Text(t) => t@.len() <= 0x100,
        }
}

/// Append a DER definite length.
fn push_der_len(out: &mut Vec<u8>, n: usize)
    requires
        n <= 0xffff,
    ensures
        final(out)@ == old(out)@ + spec_der_len_bytes(n as int),
{
    if n < 0x80 {
        out.push(n as u8);
        assert(out@ =~= old(out)@ + spec_der_len_bytes(n as int));
    } else if n < 0x100 {
        out.push(0x81);
        out.push(n as u8);
        assert(out@ =~= old(out)@ + spec_der_len_bytes(n as int));
    } else {
        out.push(0x82);
        out.push((n / 0x100) as u8);
        out.push((n % 0x100) as u8);
        assert(out@ =~= old(out)@ + spec_der_len_bytes(n as int));
    }
}

/// Append a DER UTF8String.
fn push_der_utf8(out: &mut Vec<u8>, s: &Vec<u8>)
    requires
        s@.len() <= 0xffff,
    ensures
        final(out)@ == old(out)@ + spec_der_utf8(s@),
{
    let ghost o0 = out@;
    out.push(0x0c);
    push_der_len(out, s.len());
    push_bytes(out, s);
    assert(out@ =~= o0 + spec_der_utf8(s@));
}

/// Append a DER-encoded value.
fn push_der_value(out: &mut Vec<u8>, v: &EntitlementValue)
    requires
        match v {
            EntitlementValue::Boolean(_) => true,
            EntitlementValue::Text(t) => t@.len() <= 0xffff,
        },
    ensures
        final(out)@ == old(out)@ + spec_der_value(*v),
{
    let ghost o0 = out@;
    match v {
        EntitlementValue::Boolean(b) => {
            out.push(0x01);
            out.push(0x01);
            out.push(
                if *b {
                    0xff
                } else {
                    0x00
                },
            );
            assert(out@ =~= o0 + spec_der_bool(*b));
        },
        EntitlementValue::Text(t) => {
            push_der_utf8(out, t);
        },
    }
}

/// The DER width of a value.
fn der_value_len(v: &EntitlementValue) -> (r: usize)
    requires
        match v {
            EntitlementValue::Boolean(_) => true,
            EntitlementValue::Text(t) => t@.len() <= 0xffff,
        },
    ensures
        r == spec_der_value(*v).len(),
        r <= spec_der_value_len_bound(*v),
{
    match v {
        EntitlementValue::Boolean(_) => 3,
        EntitlementValue::Text(t) => {
            let n = t.len();
            if n < 0x80 {
                2 + n
            } else if n < 0x100 {
                3 + n
            } else {
                4 + n
            }
        },
    }
}

/// An upper bound on a value's DER width.
pub open spec fn spec_der_value_len_bound(v: EntitlementValue) -> int {
    match v {
        EntitlementValue::Boolean(_) => 3int,
        EntitlementValue::Text(t) => 4int + t@.len(),
    }
}

/// Encode an entitlements plist as the DER blob payload.
pub fn encode_entitlements_der(ents: &EntitlementsDict) -> (r: Vec<u8>)
    requires
        spec_ents_bounded(ents@),
    ensures
        r@ == spec_entitlements_der(ents@),
{
    let n = ents.len();

    // Each entry is at most 2 + (2 + 0x80) + (4 + 0x100) bytes wide.
    let mut body: Vec<u8> = Vec::new();
    let mut i: usize = 0;
    while i < n
        invariant
            n == ents@.len(),
            i <= n,
            spec_ents_bounded(ents@),
            body@ == spec_der_entries(ents@, i as int),
            body@.len() <= i * 0x200,
        decreases n - i,
    {
        let ghost b0 = body@;
        let key = &ents[i].0;
        let value = &ents[i].1;
        let klen: usize = if key.len() < 0x80 {
            2 + key.len()
        } else {
            3 + key.len()
        };
        proof {
            assert(klen == spec_der_utf8(key@).len());
        }
        let vlen = der_value_len(value);
        let entry_len: usize = klen + vlen;
        body.push(0x30);
        push_der_len(&mut body, entry_len);
        push_der_utf8(&mut body, key);
        push_der_value(&mut body, value);
        proof {
            assert(body@ =~= b0 + spec_der_entry(ents@[i as int].0@, ents@[i as int].1));
            assert((i + 1) * 0x200 >= i * 0x200 + 0x200) by (nonlinear_arith);
        }
        i = i + 1;
    }
    let mut out: Vec<u8> = Vec::new();
    out.push(0x30);
    push_der_len(&mut out, body.len());
    push_bytes(&mut out, &body);
    proof {
        assert(out@ =~= spec_entitlements_der(ents@));
    }
    out
}

} // verus!
