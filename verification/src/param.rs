use vstd::prelude::*;
use vstd::utf8::{char_is_scalar, char_u32_cast, encode_scalar, encode_utf8};

use crate::error::LibMountError;

verus! {

/// One mount parameter: either nul-terminated text (the stored bytes include
/// the trailing nul) or an arbitrary byte buffer passed through unchanged.
#[derive(Hash, PartialEq, Eq, Debug, Clone)]
pub enum MntParam {
    CString(Vec<u8>),
    Buffer(Vec<u8>),
}

/// The mathematical model of a parameter: its variant tag and byte contents.
#[verifier::ext_equal]
pub enum MntParamV {
    CString(Seq<u8>),
    Buffer(Seq<u8>),
}

impl MntParamV {
    /// The bytes a descriptor for this parameter exposes to the kernel; for
    /// text they include the trailing nul.
    pub open spec fn bytes(self) -> Seq<u8> {
        match self {
            MntParamV::CString(b) => b,
            MntParamV::Buffer(b) => b,
        }
    }

    /// Well-formed text is nul-terminated and holds no interior nul byte;
    /// a raw buffer is unconstrained.
    pub open spec fn wf(self) -> bool {
        match self {
            MntParamV::CString(b) => {
                &&& b.len() >= 1
                &&& b[b.len() - 1] == 0
                &&& forall|i: int| 0 <= i < b.len() - 1 ==> b[i] != 0
            },
            MntParamV::Buffer(_) => true,
        }
    }
}

impl View for MntParam {
    type V = MntParamV;

    open spec fn view(&self) -> MntParamV {
        match self {
            MntParam::CString(b) => MntParamV::CString(b@),
            MntParam::Buffer(b) => MntParamV::Buffer(b@),
        }
    }
}

/// Index `i` is the first nul byte of `b`.
pub open spec fn is_first_nul(b: Seq<u8>, i: int) -> bool {
    &&& 0 <= i < b.len()
    &&& b[i] == 0
    &&& forall|j: int| 0 <= j < i ==> b[j] != 0
}

/// At most one index is the first nul of a byte sequence.
pub proof fn lemma_first_nul_unique(b: Seq<u8>, i: int, j: int)
    requires
        is_first_nul(b, i),
        is_first_nul(b, j),
    ensures
        i == j,
{
}

/// A scalar's encoding holds a nul byte exactly when the scalar is nul:
/// the one-byte encoding is the scalar itself, and every byte of a wider
/// encoding has a high bit set.
proof fn lemma_encode_scalar_nul(c: u32)
    ensures
        encode_scalar(c).contains(0u8) <==> c == 0,
{
    let e = encode_scalar(c);
    if vstd::utf8::has_width_1_encoding(c) {
        assert(e[0] == (c & 0x7F) as u8);
        assert(c <= 0x7F ==> (((c & 0x7F) as u8 == 0) <==> c == 0)) by (bit_vector);
        if c == 0 {
            assert(e.contains(0u8)) by {
                assert(e[0] == 0u8);
            }
        } else if e.contains(0u8) {
            let i = choose|i: int| 0 <= i < e.len() && e[i] == 0u8;
            assert(i == 0);
        }
    } else {
        lemma_or_high_nonzero(((c >> 6) & 0x1F) as u8);
        lemma_or_high_nonzero((c & 0x3F) as u8);
        lemma_or_high_nonzero(((c >> 12) & 0x0F) as u8);
        lemma_or_high_nonzero(((c >> 6) & 0x3F) as u8);
        lemma_or_high_nonzero(((c >> 18) & 0x7) as u8);
        lemma_or_high_nonzero(((c >> 12) & 0x3F) as u8);
        if e.contains(0u8) {
            let i = choose|i: int| 0 <= i < e.len() && e[i] == 0u8;
            assert(false);
        }
    }
}

/// Any byte with one of the UTF-8 marker bits set is not nul.
proof fn lemma_or_high_nonzero(x: u8)
    ensures
        (0x80u8 | x) != 0u8,
        (0xC0u8 | x) != 0u8,
        (0xE0u8 | x) != 0u8,
        (0xF0u8 | x) != 0u8,
{
    assert((0x80u8 | x) != 0u8 && (0xC0u8 | x) != 0u8 && (0xE0u8 | x) != 0u8 && (0xF0u8 | x)
        != 0u8) by (bit_vector);
}

/// Encoded text holds a nul byte exactly where the text holds the nul
/// character.
pub proof fn lemma_nul_byte_iff_nul_char(s: Seq<char>)
    ensures
        encode_utf8(s).contains(0u8) <==> s.contains('\0'),
    decreases s.len(),
{
    if s.len() > 0 {
        let c = s[0] as u32;
        let head = encode_scalar(c);
        let tail = encode_utf8(s.drop_first());
        assert(encode_utf8(s) == head + tail);
        char_is_scalar(s[0]);
        lemma_encode_scalar_nul(c);
        lemma_nul_byte_iff_nul_char(s.drop_first());
        assert(c == 0 <==> s[0] == '\0') by {
            char_u32_cast(s[0], c);
            char_u32_cast('\0', 0);
        }
        assert(head.len() >= 1) by {
            if vstd::utf8::has_width_1_encoding(c) {
            }
        }
        if (head + tail).contains(0u8) {
            let i = choose|i: int| 0 <= i < (head + tail).len() && (head + tail)[i] == 0u8;
            if i < head.len() {
                assert(head[i] == 0u8);
                assert(head.contains(0u8));
            } else {
                assert(tail[i - head.len()] == 0u8);
                assert(tail.contains(0u8));
            }
            assert(s[0] == '\0' || s.drop_first().contains('\0'));
        }
        if s.contains('\0') {
            let i = choose|i: int| 0 <= i < s.len() && s[i] == '\0';
            if i == 0 {
                let j = choose|j: int| 0 <= j < head.len() && head[j] == 0u8;
                assert((head + tail)[j] == 0u8);
            } else {
                assert(s.drop_first()[i - 1] == '\0');
                assert(s.drop_first().contains('\0'));
                let j = choose|j: int| 0 <= j < tail.len() && tail[j] == 0u8;
                assert((head + tail)[head.len() + j] == 0u8);
            }
            assert((head + tail).contains(0u8));
        }
        if s.drop_first().contains('\0') {
            assert(s[1 + choose|i: int| 0 <= i < s.drop_first().len() && s.drop_first()[i] == '\0'] == '\0');
            assert(s.contains('\0'));
        }
    }
}

/// Encodes `value` as nul-terminated bytes; rejects an interior nul byte,
/// reporting the index of the first one.
pub(crate) fn make_cstring(value: &str) -> (r: Result<Vec<u8>, LibMountError>)
    ensures
        ({
            let b = encode_utf8(value@);
            &&& (r is Ok <==> !b.contains(0u8))
            &&& (r matches Ok(v) ==> v@ == b.push(0u8))
            &&& (r matches Err(e) ==> ({
                &&& b.contains(0u8)
                &&& e matches LibMountError::NulError(i) && is_first_nul(b, i as int)
            }))
        }),
{
    let mut bytes = value.as_bytes_vec();
    let ghost b = encode_utf8(value@);
    let n = bytes.len();
    let mut i: usize = 0;
    while i < n
        invariant
            i <= n,
            n == bytes@.len(),
            bytes@ == b,
            b == encode_utf8(value@),
            forall|j: int| 0 <= j < i ==> b[j] != 0u8,
        decreases n - i,
    {
        if bytes[i] == 0 {
            proof {
                assert(b.contains(0u8)) by {
                    assert(b[i as int] == 0u8);
                }
            }
            return Err(LibMountError::NulError(i));
        }
        i += 1;
    }
    proof {
        assert(!b.contains(0u8)) by {
            assert(forall|j: int| 0 <= j < b.len() ==> b[j] != 0u8);
        }
    }
    bytes.push(0);
    Ok(bytes)
}

impl MntParam {
    /// Builds a text parameter from a string; fails on an interior nul byte.
    pub fn try_from(value: &str) -> (r: Result<MntParam, LibMountError>)
        ensures
            ({
                let b = encode_utf8(value@);
                &&& (r is Ok <==> !b.contains(0u8))
                &&& (r is Ok <==> !value@.contains('\0'))
                &&& (r matches Ok(p) ==> p@ == MntParamV::CString(b.push(0u8)) && p@.wf())
                &&& (r matches Err(e) ==> ({
                    &&& b.contains(0u8)
                    &&& e matches LibMountError::NulError(i) && is_first_nul(b, i as int)
                }))
            }),
    {
        proof {
            lemma_nul_byte_iff_nul_char(value@);
        }
        match make_cstring(value) {
            Ok(bytes) => Ok(MntParam::CString(bytes)),
            Err(e) => Err(e),
        }
    }

    /// The buffer this parameter hands to the kernel: a borrowed view of the
    /// owned bytes, never a copy.
    pub fn as_iov(&self) -> (r: &Vec<u8>)
        ensures
            r@ == self@.bytes(),
    {
        match self {
            MntParam::CString(b) => b,
            MntParam::Buffer(b) => b,
        }
    }
}

/// Structural equality of two parameters: same variant, same bytes.
pub fn param_eq(a: &MntParam, b: &MntParam) -> (r: bool)
    ensures
        r == (a@ == b@),
{
    match (a, b) {
        (MntParam::CString(x), MntParam::CString(y)) => bytes_eq(x, y),
        (MntParam::Buffer(x), MntParam::Buffer(y)) => bytes_eq(x, y),
        _ => false,
    }
}

fn bytes_eq(x: &Vec<u8>, y: &Vec<u8>) -> (r: bool)
    ensures
        r == (x@ == y@),
{
    if x.len() != y.len() {
        return false;
    }
    let n = x.len();
    let mut i: usize = 0;
    while i < n
        invariant
            i <= n,
            n == x@.len() == y@.len(),
            forall|j: int| 0 <= j < i ==> x@[j] == y@[j],
        decreases n - i,
    {
        if x[i] != y[i] {
            return false;
        }
        i += 1;
    }
    proof {
        assert(x@ =~= y@);
    }
    true
}

} // verus!
