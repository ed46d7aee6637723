//! QUIC variable-length integers: the two top bits of the first byte give
//! the length (1, 2, 4 or 8 bytes), the remaining bits hold the value,
//! most significant byte first.
use crate::error::{Error, ErrorView};
use crate::serde::{read_outcome, wrote};
use vstd::prelude::*;

verus! {

/// Largest value that a variable-length integer can carry (2^62 - 1).
pub const MAX_VAR_INT: u64 = 0x3fff_ffff_ffff_ffff;

/// Number of bytes of the shortest encoding of `v`.
pub open spec fn var_int_len(v: u64) -> nat {
    if v < 0x40 {
        1
    } else if v < 0x4000 {
        2
    } else if v < 0x4000_0000 {
        4
    } else {
        8
    }
}

/// The shortest encoding of `v`.
pub open spec fn var_int_bytes(v: u64) -> Seq<u8> {
    if v < 0x40 {
        seq![v as u8]
    } else if v < 0x4000 {
        seq![(0x40u64 | (v >> 8u64)) as u8, (v & 0xffu64) as u8]
    } else if v < 0x4000_0000 {
        seq![
            (0x80u64 | (v >> 24u64)) as u8,
            ((v >> 16u64) & 0xffu64) as u8,
            ((v >> 8u64) & 0xffu64) as u8,
            (v & 0xffu64) as u8,
        ]
    } else {
        seq![
            (0xc0u64 | (v >> 56u64)) as u8,
            ((v >> 48u64) & 0xffu64) as u8,
            ((v >> 40u64) & 0xffu64) as u8,
            ((v >> 32u64) & 0xffu64) as u8,
            ((v >> 24u64) & 0xffu64) as u8,
            ((v >> 16u64) & 0xffu64) as u8,
            ((v >> 8u64) & 0xffu64) as u8,
            (v & 0xffu64) as u8,
        ]
    }
}

/// What writing `v` produces: its shortest encoding, or an error when it
/// does not fit in 62 bits.
pub open spec fn spec_var_int(v: u64) -> Result<Seq<u8>, ErrorView> {
    if v > MAX_VAR_INT {
        Err(ErrorView::ErrVarIntBoundsExceeded)
    } else {
        Ok(var_int_bytes(v))
    }
}

/// Length of the encoding that starts with byte `first`.
pub open spec fn var_int_width(first: u8) -> nat {
    if first < 0x40 {
        1
    } else if first < 0x80 {
        2
    } else if first < 0xc0 {
        4
    } else {
        8
    }
}

/// The value of the encoding that starts at `s[off]`.
pub open spec fn var_int_value(s: Seq<u8>, off: int) -> u64 {
    let b0 = (s[off] & 0x3f) as u64;
    let w = var_int_width(s[off]);
    if w == 1 {
        b0
    } else if w == 2 {
        (b0 << 8u64) | (s[off + 1] as u64)
    } else if w == 4 {
        (b0 << 24u64) | ((s[off + 1] as u64) << 16u64) | ((s[off + 2] as u64) << 8u64) | (s[off
            + 3] as u64)
    } else {
        (b0 << 56u64) | ((s[off + 1] as u64) << 48u64) | ((s[off + 2] as u64) << 40u64) | ((s[off
            + 3] as u64) << 32u64) | ((s[off + 4] as u64) << 24u64) | ((s[off + 5] as u64)
            << 16u64) | ((s[off + 6] as u64) << 8u64) | (s[off + 7] as u64)
    }
}

/// Reading a variable-length integer at `off`: its value and the offset after
/// it, or `ErrUnexpectedEnd` when the input ends first. Longer encodings than
/// the shortest one are accepted.
pub open spec fn spec_read_var_int(s: Seq<u8>, off: int) -> Result<(u64, int), ErrorView> {
    if off < 0 || off >= s.len() {
        Err(ErrorView::ErrUnexpectedEnd)
    } else if off + var_int_width(s[off]) > s.len() {
        Err(ErrorView::ErrUnexpectedEnd)
    } else {
        Ok((var_int_value(s, off), off + var_int_width(s[off])))
    }
}

/// Reading a length: a variable-length integer that must fit in `usize`.
pub open spec fn spec_read_var_usize(s: Seq<u8>, off: int) -> Result<(usize, int), ErrorView> {
    match spec_read_var_int(s, off) {
        Ok((v, p)) => if v <= usize::MAX {
            Ok((v as usize, p))
        } else {
            Err(ErrorView::ErrVarIntBoundsExceeded)
        },
        Err(e) => Err(e),
    }
}

pub proof fn lemma_var_int_len(v: u64)
    requires
        v <= MAX_VAR_INT,
    ensures
        var_int_bytes(v).len() == var_int_len(v),
        1 <= var_int_len(v) <= 8,
{
}

/// Reading back what writing produced gives the value and the length
/// written, wherever the encoding stands in a larger input.
pub proof fn lemma_var_int_roundtrip(v: u64, s: Seq<u8>, off: int)
    requires
        v <= MAX_VAR_INT,
        0 <= off,
        off + var_int_len(v) <= s.len(),
        s.subrange(off, off + var_int_len(v)) == var_int_bytes(v),
    ensures
        spec_read_var_int(s, off) == Ok::<(u64, int), ErrorView>((v, off + var_int_len(v))),
{
    let b = var_int_bytes(v);
    let sub = s.subrange(off, off + var_int_len(v));
    assert forall|i: int| 0 <= i < b.len() implies s[off + i] == b[i] by {
        assert(sub[i] == s[off + i]);
    }
    assert(s[off] == b[0]) by {
        assert(sub[0] == s[off]);
    }
    if v < 0x40 {
        assert(v < 0x40 ==> ((v as u8) < 0x40u8 && (((v as u8) & 0x3f) as u64) == v))
            by (bit_vector);
    } else if v < 0x4000 {
        assert(s[off + 1] == b[1]);
        assert(0x40 <= v && v < 0x4000 ==> {
            let c0 = (0x40u64 | (v >> 8u64)) as u8;
            let c1 = (v & 0xffu64) as u8;
            &&& 0x40u8 <= c0 && c0 < 0x80u8
            &&& ((((c0 & 0x3f) as u64) << 8u64) | (c1 as u64)) == v
        }) by (bit_vector);
    } else if v < 0x4000_0000 {
        assert(s[off + 1] == b[1] && s[off + 2] == b[2] && s[off + 3] == b[3]);
        assert(0x4000 <= v && v < 0x4000_0000 ==> {
            let c0 = (0x80u64 | (v >> 24u64)) as u8;
            let c1 = ((v >> 16u64) & 0xffu64) as u8;
            let c2 = ((v >> 8u64) & 0xffu64) as u8;
            let c3 = (v & 0xffu64) as u8;
            &&& 0x80u8 <= c0 && c0 < 0xc0u8
            &&& ((((c0 & 0x3f) as u64) << 24u64) | ((c1 as u64) << 16u64) | ((c2 as u64) << 8u64)
                | (c3 as u64)) == v
        }) by (bit_vector);
    } else {
        assert(s[off + 1] == b[1] && s[off + 2] == b[2] && s[off + 3] == b[3]);
        assert(s[off + 4] == b[4] && s[off + 5] == b[5] && s[off + 6] == b[6] && s[off + 7]
            == b[7]);
        assert(0x4000_0000 <= v && v <= 0x3fff_ffff_ffff_ffffu64 ==> {
            let c0 = (0xc0u64 | (v >> 56u64)) as u8;
            let c1 = ((v >> 48u64) & 0xffu64) as u8;
            let c2 = ((v >> 40u64) & 0xffu64) as u8;
            let c3 = ((v >> 32u64) & 0xffu64) as u8;
            let c4 = ((v >> 24u64) & 0xffu64) as u8;
            let c5 = ((v >> 16u64) & 0xffu64) as u8;
            let c6 = ((v >> 8u64) & 0xffu64) as u8;
            let c7 = (v & 0xffu64) as u8;
            &&& 0xc0u8 <= c0
            &&& ((((c0 & 0x3f) as u64) << 56u64) | ((c1 as u64) << 48u64) | ((c2 as u64)
                << 40u64) | ((c3 as u64) << 32u64) | ((c4 as u64) << 24u64) | ((c5 as u64)
                << 16u64) | ((c6 as u64) << 8u64) | (c7 as u64)) == v
        }) by (bit_vector);
    }
}

/// The form of [`lemma_var_int_roundtrip`] that the composite formats use.
pub proof fn lemma_u64_roundtrip(v: u64, s: Seq<u8>, off: int)
    requires
        spec_var_int(v) is Ok,
        crate::serde::at(s, off, spec_var_int(v)->Ok_0),
    ensures
        spec_read_var_int(s, off) == Ok::<(u64, int), ErrorView>(
            (v, off + spec_var_int(v)->Ok_0.len()),
        ),
{
    lemma_var_int_len(v);
    lemma_var_int_roundtrip(v, s, off);
}

/// Writes `v` as a variable-length integer; fails on a value above 2^62 - 1.
pub fn write_var_int(v: u64, w: &mut Vec<u8>) -> (res: Result<usize, Error>)
    ensures
        wrote(old(w)@, final(w)@, res, spec_var_int(v)),
{
    if v > MAX_VAR_INT {
        return Err(Error::ErrVarIntBoundsExceeded);
    }
    let ghost old_w = w@;
    if v < 0x40 {
        w.push(v as u8);
        proof {
            assert(w@ == old_w + var_int_bytes(v));
        }
        Ok(1)
    } else if v < 0x4000 {
        w.push((0x40u64 | (v >> 8u64)) as u8);
        w.push((v & 0xffu64) as u8);
        proof {
            assert(w@ == old_w + var_int_bytes(v));
        }
        Ok(2)
    } else if v < 0x4000_0000 {
        w.push((0x80u64 | (v >> 24u64)) as u8);
        w.push(((v >> 16u64) & 0xffu64) as u8);
        w.push(((v >> 8u64) & 0xffu64) as u8);
        w.push((v & 0xffu64) as u8);
        proof {
            assert(w@ == old_w + var_int_bytes(v));
        }
        Ok(4)
    } else {
        w.push((0xc0u64 | (v >> 56u64)) as u8);
        w.push(((v >> 48u64) & 0xffu64) as u8);
        w.push(((v >> 40u64) & 0xffu64) as u8);
        w.push(((v >> 32u64) & 0xffu64) as u8);
        w.push(((v >> 24u64) & 0xffu64) as u8);
        w.push(((v >> 16u64) & 0xffu64) as u8);
        w.push(((v >> 8u64) & 0xffu64) as u8);
        w.push((v & 0xffu64) as u8);
        proof {
            assert(w@ == old_w + var_int_bytes(v));
        }
        Ok(8)
    }
}

/// Writes a length as a variable-length integer.
pub fn write_var_usize(v: usize, w: &mut Vec<u8>) -> (res: Result<usize, Error>)
    ensures
        wrote(old(w)@, final(w)@, res, spec_var_int(v as u64)),
{
    write_var_int(v as u64, w)
}

/// Reads a variable-length integer at `pos`; returns it with the position
/// after it.
pub fn read_var_int(r: &[u8], pos: usize) -> (res: Result<(u64, usize), Error>)
    ensures
        read_outcome(res, spec_read_var_int(r@, pos as int)),
{
    if pos >= r.len() {
        return Err(Error::ErrUnexpectedEnd);
    }
    let first = r[pos];
    let width: usize = if first < 0x40 {
        1
    } else if first < 0x80 {
        2
    } else if first < 0xc0 {
        4
    } else {
        8
    };
    if width > r.len() - pos {
        return Err(Error::ErrUnexpectedEnd);
    }
    let b0 = (first & 0x3f) as u64;
    let v: u64 = if width == 1 {
        b0
    } else if width == 2 {
        (b0 << 8u64) | (r[pos + 1] as u64)
    } else if width == 4 {
        (b0 << 24u64) | ((r[pos + 1] as u64) << 16u64) | ((r[pos + 2] as u64) << 8u64) | (r[pos
            + 3] as u64)
    } else {
        (b0 << 56u64) | ((r[pos + 1] as u64) << 48u64) | ((r[pos + 2] as u64) << 40u64) | ((r[pos
            + 3] as u64) << 32u64) | ((r[pos + 4] as u64) << 24u64) | ((r[pos + 5] as u64)
            << 16u64) | ((r[pos + 6] as u64) << 8u64) | (r[pos + 7] as u64)
    };
    Ok((v, pos + width))
}

/// Reads a length: a variable-length integer that must fit in `usize`.
pub fn read_var_usize(r: &[u8], pos: usize) -> (res: Result<(usize, usize), Error>)
    ensures
        read_outcome(res, spec_read_var_usize(r@, pos as int)),
{
    let (v, p) = match read_var_int(r, pos) {
        Ok(x) => x,
        Err(e) => return Err(e),
    };
    if v > usize::MAX as u64 {
        return Err(Error::ErrVarIntBoundsExceeded);
    }
    Ok((v as usize, p))
}

} // verus!
