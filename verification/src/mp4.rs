use vstd::prelude::*;

verus! {

/// Four-character code of the `ftyp` box.
pub const FOURCC_FTYP: u32 = 0x66747970;

/// Four-character code of the `moov` box.
pub const FOURCC_MOOV: u32 = 0x6d6f6f76;

/// Four-character code of the `mdat` box.
pub const FOURCC_MDAT: u32 = 0x6d646174;

/// Window in which a leading `moov` box is searched for.
pub const MOOV_CHECK_SIZE: usize = 262144;

/// A top-level MP4 box: a 32-bit big-endian size followed by a
/// four-character type code. A well-formed box is at least 8 bytes long.
#[derive(Debug, Clone, Copy, PartialEq, Eq, Structural)]
pub struct Atom {
    /// The four type bytes, packed big-endian.
    pub kind: u32,
    /// Offset of the box header within the scanned window.
    pub offset: u64,
    /// Total size of the box, header included.
    pub size: u64,
}

/// The 32-bit big-endian integer at `off`.
pub open spec fn spec_be32(data: Seq<u8>, off: int) -> int {
    data[off] * 0x1000000 + data[off + 1] * 0x10000 + data[off + 2] * 0x100 + data[off + 3]
}

/// The box header at `offset`, if 8 header bytes are in range and the size
/// field is at least 8.
pub open spec fn spec_parse_atom(data: Seq<u8>, offset: int) -> Option<Atom> {
    if offset + 8 > data.len() {
        None
    } else {
        let size = spec_be32(data, offset);
        if size < 8 {
            None
        } else {
            Some(
                Atom {
                    kind: spec_be32(data, offset + 4) as u32,
                    offset: offset as u64,
                    size: size as u64,
                },
            )
        }
    }
}

/// The first box of the given type met when walking the boxes from `pos`;
/// the walk stops at a malformed header or one that runs past the window.
pub open spec fn spec_find_atom(data: Seq<u8>, kind: u32, pos: int) -> Option<Atom>
    decreases data.len() - pos,
{
    if pos < 0 || pos + 8 > data.len() {
        None
    } else {
        match spec_parse_atom(data, pos) {
            None => None,
            Some(atom) => {
                if atom.kind == kind {
                    Some(atom)
                } else if pos + atom.size > data.len() {
                    None
                } else {
                    spec_find_atom(data, kind, pos + atom.size)
                }
            },
        }
    }
}

/// Whether a walk of the leading boxes meets a `moov` box. The walk gives up
/// past the check window, at a malformed size, or at a box that runs past
/// the scanned bytes.
pub open spec fn spec_moov_at_start(data: Seq<u8>, pos: int) -> bool
    decreases data.len() - pos,
{
    if pos < 0 || pos + 8 > data.len() || pos > MOOV_CHECK_SIZE {
        false
    } else {
        let size = spec_be32(data, pos);
        if size < 8 || pos + size > data.len() {
            false
        } else if spec_be32(data, pos + 4) == FOURCC_MOOV {
            true
        } else {
            spec_moov_at_start(data, pos + size)
        }
    }
}

/// A found box lies inside the scanned window and respects the box
/// invariant: its header fits and its size covers at least the header.
pub proof fn lemma_find_atom_props(data: Seq<u8>, kind: u32, pos: int)
    requires
        spec_find_atom(data, kind, pos) is Some,
        pos >= 0,
        data.len() <= usize::MAX,
    ensures
        ({
            let atom = spec_find_atom(data, kind, pos)->0;
            &&& atom.kind == kind
            &&& pos <= atom.offset
            &&& atom.offset + 8 <= data.len()
            &&& atom.size >= 8
            &&& atom.size <= 0xFFFF_FFFF
        }),
    decreases data.len() - pos,
{
    let parsed = spec_parse_atom(data, pos);
    match parsed {
        Some(atom) => {
            if atom.kind == kind {
            } else if pos + atom.size > data.len() {
            } else {
                lemma_find_atom_props(data, kind, pos + atom.size);
            }
        },
        None => {},
    }
}

fn be32_at(data: &[u8], off: usize) -> (r: u32)
    requires
        off + 4 <= data@.len(),
    ensures
        r == spec_be32(data@, off as int),
{
    let b0 = data[off] as u32;
    let b1 = data[off + 1] as u32;
    let b2 = data[off + 2] as u32;
    let b3 = data[off + 3] as u32;
    b0 * 0x1000000 + b1 * 0x10000 + b2 * 0x100 + b3
}

/// Reads the box header at `offset`: its size field, interpreted big-endian,
/// and its type code. A header that does not fit, or whose size field is
/// below the 8 header bytes, is rejected.
pub fn parse_atom_header(data: &[u8], offset: usize) -> (r: Option<Atom>)
    ensures
        r == spec_parse_atom(data@, offset as int),
{
    if offset > data.len() || data.len() - offset < 8 {
        return None;
    }
    let size = be32_at(data, offset);
    if size < 8 {
        return None;
    }
    let kind = be32_at(data, offset + 4);
    Some(Atom { kind, offset: offset as u64, size: size as u64 })
}

/// Walks the top-level boxes from the front of `data` and answers the first
/// one of the given type, or nothing when the walk gives out.
pub fn find_atom(data: &[u8], kind: u32) -> (r: Option<Atom>)
    ensures
        r == spec_find_atom(data@, kind, 0),
{
    let mut pos: usize = 0;
    loop
        invariant
            pos <= data@.len(),
            spec_find_atom(data@, kind, 0) == spec_find_atom(data@, kind, pos as int),
        decreases data@.len() - pos,
    {
        if pos > data.len() || data.len() - pos < 8 {
            return None;
        }
        match parse_atom_header(data, pos) {
            Some(atom) => {
                if atom.kind == kind {
                    return Some(atom);
                }
                if atom.size > (data.len() - pos) as u64 {
                    return None;
                }
                pos = pos + atom.size as usize;
            },
            None => {
                return None;
            },
        }
    }
}

/// Walks the boxes at the front of `data` and reports whether a `moov` box
/// stands among them, within the check window: the fast-start test.
pub fn has_moov_at_start(data: &[u8]) -> (r: bool)
    ensures
        r == spec_moov_at_start(data@, 0),
{
    let mut pos: usize = 0;
    loop
        invariant
            pos <= data@.len(),
            spec_moov_at_start(data@, 0) == spec_moov_at_start(data@, pos as int),
        decreases data@.len() - pos,
    {
        if pos > data.len() || data.len() - pos < 8 {
            return false;
        }
        if pos > MOOV_CHECK_SIZE {
            return false;
        }
        let size = be32_at(data, pos) as usize;
        if size < 8 || size > data.len() - pos {
            return false;
        }
        let kind = be32_at(data, pos + 4);
        if kind == FOURCC_MOOV {
            return true;
        }
        pos = pos + size;
    }
}

} // verus!
