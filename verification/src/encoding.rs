//! The canonical byte encoding of transactions, from which their digests and
//! encoded sizes are computed. Integers are little-endian `u64`s, byte
//! strings and lists carry a `u64` length first, variants a one-byte tag.
use vstd::prelude::*;
use vstd::bytes::spec_u64_to_le_bytes;
use vstd::utf8::encode_utf8;
use crate::hashing::{append_bytes, append_u64_le};
use crate::types::{StructTag, TypeTag, tag_height, lemma_tags_height};

verus! {

/// Encoding of a `u64`.
pub open spec fn enc_u64(x: u64) -> Seq<u8> {
    spec_u64_to_le_bytes(x)
}

/// Encoding of a byte string: its length, then its bytes.
pub open spec fn enc_bytes(b: Seq<u8>) -> Seq<u8> {
    enc_u64(b.len() as u64) + b
}

/// Encoding of a string: its UTF-8 bytes as a byte string.
pub open spec fn enc_str(s: Seq<char>) -> Seq<u8> {
    enc_bytes(encode_utf8(s))
}

/// Encoding of a type tag.
pub open spec fn enc_type_tag(t: TypeTag) -> Seq<u8>
    decreases t,
{
    match t {
        TypeTag::Bool => seq![0u8],
        TypeTag::U8 => seq![1u8],
        TypeTag::U64 => seq![2u8],
        TypeTag::U128 => seq![3u8],
        TypeTag::Address => seq![4u8],
        TypeTag::Vector(inner) => seq![5u8] + enc_type_tag(*inner),
        TypeTag::Struct(st) => seq![6u8] + st.address@ + enc_str(st.module@) + enc_str(st.name@)
            + enc_u64(st.type_params@.len() as u64) + enc_type_tags(st.type_params@),
    }
}

/// Concatenated encodings of a list of type tags.
pub open spec fn enc_type_tags(ts: Seq<TypeTag>) -> Seq<u8>
    decreases ts,
{
    if ts.len() == 0 {
        Seq::empty()
    } else {
        enc_type_tags(ts.drop_last()) + enc_type_tag(ts.last())
    }
}

/// Appends the encoding of a `u64`.
pub fn put_u64(out: &mut Vec<u8>, x: u64)
    ensures
        final(out)@ == old(out)@ + enc_u64(x),
{
    append_u64_le(out, x);
}

/// Appends the encoding of a byte string.
pub fn put_bytes(out: &mut Vec<u8>, b: &[u8])
    ensures
        final(out)@ == old(out)@ + enc_bytes(b@),
{
    put_u64(out, b.len() as u64);
    append_bytes(out, b);
    assert(out@ == old(out)@ + enc_bytes(b@));
}

/// Appends the encoding of a string.
pub fn put_str(out: &mut Vec<u8>, s: &str)
    ensures
        final(out)@ == old(out)@ + enc_str(s@),
{
    put_bytes(out, s.as_bytes());
}

/// Appends the encoding of a type tag.
pub fn put_type_tag(out: &mut Vec<u8>, t: &TypeTag)
    ensures
        final(out)@ == old(out)@ + enc_type_tag(*t),
    decreases tag_height(*t),
{
    match t {
        TypeTag::Bool => out.push(0u8),
        TypeTag::U8 => out.push(1u8),
        TypeTag::U64 => out.push(2u8),
        TypeTag::U128 => out.push(3u8),
        TypeTag::Address => out.push(4u8),
        TypeTag::Vector(inner) => {
            out.push(5u8);
            put_type_tag(out, &**inner);
            assert(out@ == old(out)@ + enc_type_tag(*t));
        },
        TypeTag::Struct(st) => {
            out.push(6u8);
            append_bytes(out, st.address.0.as_slice());
            put_str(out, st.module.as_str());
            put_str(out, st.name.as_str());
            let n = st.type_params.len();
            put_u64(out, n as u64);
            let ghost start = out@;
            let mut i: usize = 0;
            while i < n
                invariant
                    n == st.type_params@.len(),
                    i <= n,
                    *t == TypeTag::Struct(*st),
                    out@ == start + enc_type_tags(st.type_params@.take(i as int)),
                decreases n - i,
            {
                proof {
                    lemma_tags_height(st.type_params@, i as int);
                }
                put_type_tag(out, &st.type_params[i]);
                assert(st.type_params@.take(i + 1).drop_last() == st.type_params@.take(i as int));
                i = i + 1;
            }
            assert(st.type_params@.take(n as int) == st.type_params@);
            assert(out@ == old(out)@ + enc_type_tag(*t));
        },
    }
}

/// A copy of a type tag, with the same encoding.
pub fn copy_type_tag(t: &TypeTag) -> (r: TypeTag)
    ensures
        enc_type_tag(r) == enc_type_tag(*t),
    decreases tag_height(*t),
{
    match t {
        TypeTag::Bool => TypeTag::Bool,
        TypeTag::U8 => TypeTag::U8,
        TypeTag::U64 => TypeTag::U64,
        TypeTag::U128 => TypeTag::U128,
        TypeTag::Address => TypeTag::Address,
        TypeTag::Vector(inner) => TypeTag::Vector(Box::new(copy_type_tag(&**inner))),
        TypeTag::Struct(st) => {
            let params = copy_type_tags_of(t, st);
            let r = TypeTag::Struct(StructTag {
                address: st.address,
                module: st.module.as_str().to_string(),
                name: st.name.as_str().to_string(),
                type_params: params,
            });
            r
        },
    }
}

pub fn copy_type_tags_of(t: &TypeTag, st: &StructTag) -> (r: Vec<TypeTag>)
    requires
        *t == TypeTag::Struct(*st),
    ensures
        r@.len() == st.type_params@.len(),
        enc_type_tags(r@) == enc_type_tags(st.type_params@),
    decreases tag_height(*t), 0nat,
{
    let n = st.type_params.len();
    let mut out: Vec<TypeTag> = Vec::new();
    let mut i: usize = 0;
    while i < n
        invariant
            n == st.type_params@.len(),
            i <= n,
            *t == TypeTag::Struct(*st),
            out@.len() == i,
            enc_type_tags(out@) == enc_type_tags(st.type_params@.take(i as int)),
        decreases n - i,
    {
        proof {
            lemma_tags_height(st.type_params@, i as int);
        }
        let c = copy_type_tag(&st.type_params[i]);
        let ghost prev = out@;
        out.push(c);
        assert(out@.drop_last() == prev);
        assert(st.type_params@.take(i + 1).drop_last() == st.type_params@.take(i as int));
        i = i + 1;
    }
    assert(st.type_params@.take(n as int) == st.type_params@);
    out
}

} // verus!
