//! The interned buffer: a length field followed by the text's bytes, in a
//! single block whose layout is computed here.
use vstd::prelude::*;
use vstd::utf8::encode_utf8;

verus! {

/// Size in bytes of the length field (a `u64`) that starts every buffer.
pub const LEN_FIELD_SIZE: usize = 8;

/// Alignment of a buffer: that of its length field.
pub const BUFFER_ALIGN: usize = 8;

/// Size of the block for `n` content bytes: the length field plus `n`
/// bytes, rounded up to a multiple of the alignment.
pub open spec fn padded_size(n: nat) -> nat {
    ((LEN_FIELD_SIZE + n + BUFFER_ALIGN - 1) / BUFFER_ALIGN as int * BUFFER_ALIGN) as nat
}

/// A layout is representable when its padded size does not exceed
/// `isize::MAX`.
pub open spec fn layout_fits(n: nat) -> bool {
    padded_size(n) <= isize::MAX
}

/// Memory layout of a buffer holding a given number of content bytes.
#[derive(Clone, Copy, Debug, PartialEq, Eq, Structural)]
pub struct BufferLayout {
    /// Total size of the block, padded to `align`.
    pub size: usize,
    /// Alignment of the block.
    pub align: usize,
    /// Offset of the first content byte, right after the length field.
    pub data_offset: usize,
}

/// Why a buffer could not be built.
#[derive(Clone, Copy, Debug, PartialEq, Eq, Structural)]
pub enum LayoutError {
    /// The length field plus the content, rounded up to the alignment, is
    /// larger than any block can be.
    Overflow,
}

/// The layout exists exactly for the lengths that leave room for the length
/// field and the padding below `isize::MAX`.
proof fn lemma_layout_fits_iff(n: nat)
    ensures
        layout_fits(n) <==> n + 15 <= isize::MAX,
{
    let x = n + 15;
    assert(padded_size(n) == x / 8 * 8);
    assert(x / 8 * 8 <= x && x / 8 * 8 > x - 8) by (nonlinear_arith);
    let m: int = isize::MAX as int + 1;
    assert(m % 8 == 0) by {
        assert(m == 0x8000_0000 || m == 0x8000_0000_0000_0000);
    }
    if x >= m {
        assert(x / 8 * 8 >= m) by (nonlinear_arith)
            requires
                x >= m,
                m % 8 == 0,
                x / 8 * 8 > x - 8,
        ;
    }
}

impl InternedData {
    /// Computes the layout of a buffer for `n` content bytes, or reports
    /// that it cannot be represented.
    pub fn layout_of(n: usize) -> (r: Result<BufferLayout, LayoutError>)
        ensures
            r is Ok <==> layout_fits(n as nat),
            r is Ok <==> n + 15 <= isize::MAX,
            r matches Ok(l) ==> l.size == padded_size(n as nat) && l.align == BUFFER_ALIGN
                && l.data_offset == LEN_FIELD_SIZE,
            r matches Err(e) ==> e == LayoutError::Overflow,
    {
        proof {
            lemma_layout_fits_iff(n as nat);
        }
        if n > isize::MAX as usize - (LEN_FIELD_SIZE + BUFFER_ALIGN - 1) {
            return Err(LayoutError::Overflow);
        }
        let unpadded: usize = LEN_FIELD_SIZE + n + (BUFFER_ALIGN - 1);
        let size: usize = unpadded / BUFFER_ALIGN * BUFFER_ALIGN;
        Ok(BufferLayout { size, align: BUFFER_ALIGN, data_offset: LEN_FIELD_SIZE })
    }
}

/// Number of bytes in the UTF-8 encoding of `s`.
pub open spec fn byte_len(s: Seq<char>) -> nat {
    encode_utf8(s).len()
}

/// One interned text: its length in bytes, kept in a field of its own, and
/// the text.
pub struct InternedData {
    len: u64,
    data: String,
}

impl View for InternedData {
    type V = Seq<char>;

    closed spec fn view(&self) -> Seq<char> {
        self.data@
    }
}

impl InternedData {
    /// The length field always matches the text, and the text fits a
    /// representable layout.
    #[verifier::type_invariant]
    spec fn inv(&self) -> bool {
        &&& self.len as nat == byte_len(self.data@)
        &&& layout_fits(self.len as nat)
    }

    /// Builds the buffer for `s`, failing when its layout cannot be
    /// represented.
    pub fn new(s: &str) -> (r: Result<InternedData, LayoutError>)
        ensures
            r is Ok <==> layout_fits(byte_len(s@)),
            r matches Ok(d) ==> d@ == s@,
            r matches Err(e) ==> e == LayoutError::Overflow,
    {
        let n = s.as_bytes().len();
        match Self::layout_of(n) {
            Err(e) => Err(e),
            Ok(_) => {
                let len = n as u64;
                Ok(InternedData { len, data: s.to_owned() })
            },
        }
    }

    /// The length in bytes, read from the length field.
    pub fn len(&self) -> (r: usize)
        ensures
            r == byte_len(self@),
            layout_fits(r as nat),
    {
        proof {
            use_type_invariant(self);
        }
        self.len as usize
    }

    /// The text held by the buffer.
    pub fn as_str(&self) -> (r: &str)
        ensures
            r@ == self@,
    {
        self.data.as_str()
    }
}

} // verus!
