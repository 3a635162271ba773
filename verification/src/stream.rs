//! Cutting a stream of bytes into instruction words: a word whose two lowest
//! bits are both set has 32 bits, any other has 16.
use vstd::prelude::*;

verus! {

/// One instruction word of a stream.
#[derive(PartialEq, Eq, Structural, Debug, Clone, Copy)]
pub enum IData {
    Word(u32),
    Half(u16),
}

/// Number of bytes of the word that starts with the byte `first`.
pub open spec fn idata_len(first: u8) -> nat {
    if first & 3 == 3 {
        4
    } else {
        2
    }
}

/// The 16-bit number of two bytes, least significant first.
pub open spec fn le16(b0: u8, b1: u8) -> u16 {
    (b0 as u16) | ((b1 as u16) << 8)
}

/// The 32-bit number of four bytes, least significant first.
pub open spec fn le32(b0: u8, b1: u8, b2: u8, b3: u8) -> u32 {
    (b0 as u32) | ((b1 as u32) << 8) | ((b2 as u32) << 16) | ((b3 as u32) << 24)
}

/// The word that starts at `pos`, and where the next one starts; nothing
/// where the bytes left are fewer than the word needs.
pub open spec fn idata_at(bytes: Seq<u8>, pos: int) -> Option<(IData, int)> {
    if pos < 0 || pos >= bytes.len() {
        None
    } else if pos + idata_len(bytes[pos]) > bytes.len() {
        None
    } else if idata_len(bytes[pos]) == 4 {
        Some(
            (
                IData::Word(le32(bytes[pos], bytes[pos + 1], bytes[pos + 2], bytes[pos + 3])),
                pos + 4,
            ),
        )
    } else {
        Some((IData::Half(le16(bytes[pos], bytes[pos + 1])), pos + 2))
    }
}

/// The words of a stream from `pos` on, up to the first that is cut short.
pub open spec fn idata_from(bytes: Seq<u8>, pos: int) -> Seq<IData>
    decreases bytes.len() - pos,
{
    match idata_at(bytes, pos) {
        None => Seq::empty(),
        Some((d, next)) => seq![d] + idata_from(bytes, next),
    }
}

/// Tells the number of bytes of the word that starts with the byte `first`.
pub fn idata_size(first: u8) -> (r: usize)
    ensures
        r == idata_len(first),
{
    if first & 3 == 3 {
        4
    } else {
        2
    }
}

/// Reads the word that starts at `pos`.
pub fn next_idata(bytes: &Vec<u8>, pos: usize) -> (r: Option<(IData, usize)>)
    ensures
        match r {
            None => idata_at(bytes@, pos as int) is None,
            Some((d, next)) => idata_at(bytes@, pos as int) == Some((d, next as int)),
        },
{
    if pos >= bytes.len() {
        return None;
    }
    let first = bytes[pos];
    if first & 3 == 3 {
        if bytes.len() - pos < 4 {
            return None;
        }
        let w = (first as u32) | ((bytes[pos + 1] as u32) << 8) | ((bytes[pos + 2] as u32) << 16)
            | ((bytes[pos + 3] as u32) << 24);
        Some((IData::Word(w), pos + 4))
    } else {
        if bytes.len() - pos < 2 {
            return None;
        }
        let h = (first as u16) | ((bytes[pos + 1] as u16) << 8);
        Some((IData::Half(h), pos + 2))
    }
}

/// Cuts a stream of bytes into its words, up to the first that is cut short.
pub fn split_stream(bytes: &Vec<u8>) -> (r: Vec<IData>)
    ensures
        r@ == idata_from(bytes@, 0),
{
    let mut out: Vec<IData> = Vec::new();
    let mut pos: usize = 0;
    proof {
        assert(out@ + idata_from(bytes@, 0) =~= idata_from(bytes@, 0));
    }
    loop
        invariant
            pos <= bytes.len(),
            idata_from(bytes@, 0) == out@ + idata_from(bytes@, pos as int),
        ensures
            out@ == idata_from(bytes@, 0),
        decreases bytes.len() - pos,
    {
        match next_idata(bytes, pos) {
            None => {
                proof {
                    assert(out@ + idata_from(bytes@, pos as int) =~= out@);
                }
                break ;
            },
            Some((d, next)) => {
                proof {
                    assert(out@.push(d) + idata_from(bytes@, next as int) =~= out@ + (seq![d]
                        + idata_from(bytes@, next as int)));
                }
                out.push(d);
                pos = next;
            },
        }
    }
    out
}

} // verus!
