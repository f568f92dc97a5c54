//! File-format gate at the pipeline boundary.
//!
//! Only `.jpg`, `.jpeg` and `.png` paths may enter the pipeline; the
//! extension is the part of the path after its last `.` (the whole path
//! when it has no dot), compared ASCII case-insensitively. Paths are
//! handled as byte strings.

use vstd::prelude::*;

verus! {

/// ASCII lower-casing of one byte.
pub open spec fn ascii_lower(b: u8) -> u8 {
    if 65 <= b <= 90 {
        (b + 32) as u8
    } else {
        b
    }
}

/// Index at which the extension of `s` starts: just after the last
/// `.` (byte 46), or 0 when the path holds none.
pub open spec fn extension_start(s: Seq<u8>) -> int
    decreases s.len(),
{
    if s.len() == 0 {
        0
    } else if s.last() == 46 {
        s.len() as int
    } else {
        extension_start(s.drop_last())
    }
}

/// The extension of a path: everything after the last dot, the whole
/// path when there is no dot.
pub open spec fn extension_of_spec(s: Seq<u8>) -> Seq<u8> {
    s.subrange(extension_start(s), s.len() as int)
}

/// Whether an extension names an accepted image format: `jpg`, `jpeg`
/// or `png`, in any letter case.
pub open spec fn supported_extension(s: Seq<u8>) -> bool {
    ||| (s.len() == 3 && ascii_lower(s[0]) == 106 && ascii_lower(s[1]) == 112 && ascii_lower(s[2])
        == 103)
    ||| (s.len() == 4 && ascii_lower(s[0]) == 106 && ascii_lower(s[1]) == 112 && ascii_lower(s[2])
        == 101 && ascii_lower(s[3]) == 103)
    ||| (s.len() == 3 && ascii_lower(s[0]) == 112 && ascii_lower(s[1]) == 110 && ascii_lower(s[2])
        == 103)
}

/// Extracts the extension of a path, byte for byte.
pub fn extension_of(path: &Vec<u8>) -> (ext: Vec<u8>)
    ensures
        ext@ == extension_of_spec(path@),
{
    let mut start: usize = 0;
    let mut j: usize = 0;
    proof {
        assert(path@.take(0).len() == 0);
    }
    while j < path.len()
        invariant
            start <= j <= path@.len(),
            start == extension_start(path@.take(j as int)),
        decreases path@.len() - j,
    {
        proof {
            let prefix = path@.take(j as int);
            let extended = path@.take(j as int + 1);
            assert(extended.drop_last() =~= prefix);
            assert(extended.last() == path@[j as int]);
        }
        if path[j] == 46 {
            start = j + 1;
        }
        j += 1;
    }
    proof {
        assert(path@.take(path@.len() as int) =~= path@);
    }
    let mut ext: Vec<u8> = Vec::new();
    let mut k: usize = start;
    while k < path.len()
        invariant
            start <= k <= path@.len(),
            start == extension_start(path@),
            ext@ =~= path@.subrange(start as int, k as int),
        decreases path@.len() - k,
    {
        ext.push(path[k]);
        k += 1;
    }
    proof {
        assert(ext@ =~= extension_of_spec(path@));
    }
    ext
}

/// ASCII lower-casing of one byte, executable counterpart.
fn lower_byte(b: u8) -> (r: u8)
    ensures
        r == ascii_lower(b),
{
    if 65 <= b && b <= 90 {
        b + 32
    } else {
        b
    }
}

/// Decides whether an extension names an accepted image format
/// (`jpg`, `jpeg` or `png`, ASCII case-insensitively).
pub fn is_supported_extension(ext: &Vec<u8>) -> (r: bool)
    ensures
        r == supported_extension(ext@),
{
    if ext.len() == 3 {
        let a: u8 = lower_byte(ext[0]);
        let b: u8 = lower_byte(ext[1]);
        let c: u8 = lower_byte(ext[2]);
        (a == 106 && b == 112 && c == 103) || (a == 112 && b == 110 && c == 103)
    } else if ext.len() == 4 {
        let a: u8 = lower_byte(ext[0]);
        let b: u8 = lower_byte(ext[1]);
        let c: u8 = lower_byte(ext[2]);
        let d: u8 = lower_byte(ext[3]);
        a == 106 && b == 112 && c == 101 && d == 103
    } else {
        false
    }
}

} // verus!
