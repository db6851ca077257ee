//! The colour table that maps a picture's colour indices to RGB triples.
use crate::error::WadError;
use vstd::prelude::*;

verus! {

/// Number of colours in a palette.
pub const PALETTE_COLOURS: usize = 256;

/// Number of bytes that one palette occupies in a lump.
pub const PALETTE_BYTES: usize = 768;

/// The first palette stored in the lump `b`.
pub open spec fn palette_of(b: Seq<u8>) -> Seq<[u8; 3]> {
    Seq::new(PALETTE_COLOURS as nat, |i: int| [b[3 * i], b[3 * i + 1], b[3 * i + 2]])
}

/// Decodes the first palette of a palette lump: 256 RGB triples, read in order.
/// Bytes after the first 768 (further palettes) are ignored.
pub fn decode_palette(data: &Vec<u8>) -> (r: Result<Vec<[u8; 3]>, WadError>)
    ensures
        data@.len() < PALETTE_BYTES ==> r == Err::<Vec<[u8; 3]>, WadError>(WadError::FormatError),
        data@.len() >= PALETTE_BYTES ==> r is Ok && r->Ok_0@ == palette_of(data@),
{
    if data.len() < PALETTE_BYTES {
        return Err(WadError::FormatError);
    }
    let mut palette: Vec<[u8; 3]> = Vec::new();
    let mut i: usize = 0;
    while i < PALETTE_COLOURS
        invariant
            data@.len() >= PALETTE_BYTES,
            i <= PALETTE_COLOURS,
            palette@.len() == i,
            forall|k: int| 0 <= k < i ==> #[trigger] palette@[k] == palette_of(data@)[k],
        decreases PALETTE_COLOURS - i,
    {
        let rgb: [u8; 3] = [data[3 * i], data[3 * i + 1], data[3 * i + 2]];
        palette.push(rgb);
        i = i + 1;
    }
    assert(palette@ =~= palette_of(data@));
    Ok(palette)
}

} // verus!
