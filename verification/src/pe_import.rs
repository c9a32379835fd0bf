//! Lookup of an imported function's slot in the Import Address Table of a
//! loaded PE32+ module image.
//!
//! The image is the module as mapped in memory, so every relative virtual
//! address (RVA) in its headers is an offset into the byte sequence. Reads that
//! would fall outside the image are reported as [`PeImportError::ImageOutOfRange`].

use vstd::prelude::*;
use vstd::string::StringExecFns;
use crate::text::concat3;

verus! {

/// Little-endian 16-bit value at `off`.
pub open spec fn u16_at(img: Seq<u8>, off: int) -> int {
    img[off] + img[off + 1] * 0x100
}

/// Little-endian 32-bit value at `off`.
pub open spec fn u32_at(img: Seq<u8>, off: int) -> int {
    img[off] + img[off + 1] * 0x100 + img[off + 2] * 0x1_0000 + img[off + 3] * 0x100_0000
}

/// Little-endian 64-bit value at `off`.
pub open spec fn u64_at(img: Seq<u8>, off: int) -> int {
    u32_at(img, off) + u32_at(img, off + 4) * 0x1_0000_0000
}

/// Whether `n` bytes starting at `off` lie inside the image.
pub open spec fn in_image(img: Seq<u8>, off: int, n: int) -> bool {
    0 <= off && off + n <= img.len()
}

/// Whether `end` is the first NUL byte at or after `off`.
pub open spec fn is_cstr_end(img: Seq<u8>, off: int, end: int) -> bool {
    &&& 0 <= off <= end < img.len()
    &&& img[end] == 0
    &&& forall|k: int| off <= k < end ==> img[k] != 0
}

/// The NUL-terminated byte string starting at `off`, without its NUL, or
/// `None` when no NUL follows inside the image.
pub open spec fn cstr_at(img: Seq<u8>, off: int) -> Option<Seq<u8>> {
    if exists|end: int| is_cstr_end(img, off, end) {
        let end = choose|end: int| is_cstr_end(img, off, end);
        Some(img.subrange(off, end))
    } else {
        None
    }
}

/// ASCII lower-case of a byte.
pub open spec fn ascii_lower(b: u8) -> u8 {
    if 0x41 <= b <= 0x5a {
        (b + 0x20) as u8
    } else {
        b
    }
}

/// Equality of two byte strings up to ASCII case.
pub open spec fn ascii_ci_eq(a: Seq<u8>, b: Seq<u8>) -> bool {
    &&& a.len() == b.len()
    &&& forall|i: int| 0 <= i < a.len() ==> ascii_lower(a[i]) == ascii_lower(b[i])
}

/// Where an import lives: the byte offset of its IAT slot in the image, and
/// the address that the slot holds.
#[derive(Clone, Copy, Debug, PartialEq, Eq)]
pub struct IatSlot {
    pub offset: usize,
    pub current: u64,
}

/// Why an import could not be located.
#[derive(Clone, Copy, Debug, PartialEq, Eq)]
pub enum PeImportError {
    /// The image does not start with `MZ`.
    InvalidDosMagic,
    /// The NT headers do not start with `PE\0\0`.
    InvalidPeSignature,
    /// The module imports nothing.
    NoImportDirectory,
    /// The DLL was found, but none of its thunks names the function.
    FunctionNotFound,
    /// No import descriptor names the DLL.
    DllNotFound,
    /// A header, name or thunk lies (partly) outside the image.
    ImageOutOfRange,
}

impl PeImportError {
    /// The human-readable description of the error, for a lookup of `func`
    /// imported from `dll`.
    pub fn message(&self, dll: &str, func: &str) -> (text: String)
        ensures
            text@ == match self {
                PeImportError::InvalidDosMagic => "Invalid DOS magic (expected MZ / 0x5A4D)"@,
                PeImportError::InvalidPeSignature =>
                    "Invalid PE signature (expected PE\\0\\0 / 0x00004550)"@,
                PeImportError::NoImportDirectory => "Module has no import directory"@,
                PeImportError::FunctionNotFound => "'"@ + func@ + "' not found in '"@ + dll@
                    + "' import thunks"@,
                PeImportError::DllNotFound => "DLL '"@ + dll@
                    + "' not found in main module import table"@,
                PeImportError::ImageOutOfRange => "Import table reaches outside the module image"@,
            },
    {
        match self {
            PeImportError::InvalidDosMagic => String::from_str(
                "Invalid DOS magic (expected MZ / 0x5A4D)",
            ),
            PeImportError::InvalidPeSignature => String::from_str(
                "Invalid PE signature (expected PE\\0\\0 / 0x00004550)",
            ),
            PeImportError::NoImportDirectory => String::from_str("Module has no import directory"),
            PeImportError::FunctionNotFound => {
                let mut text = concat3("'", func, "' not found in '");
                text.append(dll);
                text.append("' import thunks");
                text
            },
            PeImportError::DllNotFound => concat3(
                "DLL '",
                dll,
                "' not found in main module import table",
            ),
            PeImportError::ImageOutOfRange => String::from_str(
                "Import table reaches outside the module image",
            ),
        }
    }
}

/// The lookup of `func` among the import thunks of one DLL, continuing at
/// thunk number `i`: `ilt` is the RVA of the import lookup table and `iat` the
/// RVA of the import address table.
pub open spec fn thunk_lookup(img: Seq<u8>, ilt: int, iat: int, i: int, func: Seq<u8>) -> Result<
    IatSlot,
    PeImportError,
>
    decreases img.len() - ilt - 8 * i,
{
    if !(0 <= i && in_image(img, ilt + 8 * i, 8)) {
        Err(PeImportError::ImageOutOfRange)
    } else {
        let v = u64_at(img, ilt + 8 * i);
        if v == 0 {
            Err(PeImportError::FunctionNotFound)
        } else if v < 0x8000_0000_0000_0000 {
            match cstr_at(img, v + 2) {
                None => Err(PeImportError::ImageOutOfRange),
                Some(name) => if name == func {
                    if in_image(img, iat + 8 * i, 8) {
                        Ok(
                            IatSlot {
                                offset: (iat + 8 * i) as usize,
                                current: u64_at(img, iat + 8 * i) as u64,
                            },
                        )
                    } else {
                        Err(PeImportError::ImageOutOfRange)
                    }
                } else {
                    thunk_lookup(img, ilt, iat, i + 1, func)
                },
            }
        } else {
            thunk_lookup(img, ilt, iat, i + 1, func)
        }
    }
}

/// The lookup of `func` imported from `dll`, continuing at the import
/// descriptor at `desc`.
pub open spec fn descriptor_lookup(img: Seq<u8>, desc: int, dll: Seq<u8>, func: Seq<u8>) -> Result<
    IatSlot,
    PeImportError,
>
    decreases img.len() + 20 - desc,
{
    if !in_image(img, desc, 16) {
        Err(PeImportError::ImageOutOfRange)
    } else {
        let name = u32_at(img, desc + 12);
        if name == 0 {
            Err(PeImportError::DllNotFound)
        } else {
            match cstr_at(img, name) {
                None => Err(PeImportError::ImageOutOfRange),
                Some(dll_name) => if ascii_ci_eq(dll_name, dll) {
                    if in_image(img, desc, 20) {
                        thunk_lookup(img, u32_at(img, desc), u32_at(img, desc + 16), 0, func)
                    } else {
                        Err(PeImportError::ImageOutOfRange)
                    }
                } else {
                    descriptor_lookup(img, desc + 20, dll, func)
                },
            }
        }
    }
}

/// The IAT slot through which the image calls `func` of `dll`.
pub open spec fn import_slot(img: Seq<u8>, dll: Seq<u8>, func: Seq<u8>) -> Result<
    IatSlot,
    PeImportError,
> {
    if !in_image(img, 0, 2) {
        Err(PeImportError::ImageOutOfRange)
    } else if u16_at(img, 0) != 0x5a4d {
        Err(PeImportError::InvalidDosMagic)
    } else if !in_image(img, 60, 4) {
        Err(PeImportError::ImageOutOfRange)
    } else {
        let nt = u32_at(img, 60);
        if nt >= 0x8000_0000 || !in_image(img, nt, 4) {
            Err(PeImportError::ImageOutOfRange)
        } else if u32_at(img, nt) != 0x4550 {
            Err(PeImportError::InvalidPeSignature)
        } else if !in_image(img, nt + 144, 4) {
            Err(PeImportError::ImageOutOfRange)
        } else {
            let import_rva = u32_at(img, nt + 144);
            if import_rva == 0 {
                Err(PeImportError::NoImportDirectory)
            } else {
                descriptor_lookup(img, import_rva, dll, func)
            }
        }
    }
}

fn read_u16(img: &[u8], off: usize) -> (v: u16)
    requires
        in_image(img@, off as int, 2),
    ensures
        v == u16_at(img@, off as int),
{
    img[off] as u16 + img[off + 1] as u16 * 0x100
}

fn read_u32(img: &[u8], off: usize) -> (v: u32)
    requires
        in_image(img@, off as int, 4),
    ensures
        v == u32_at(img@, off as int),
{
    img[off] as u32 + img[off + 1] as u32 * 0x100 + img[off + 2] as u32 * 0x1_0000 + img[off
        + 3] as u32 * 0x100_0000
}

fn read_u64(img: &[u8], off: usize) -> (v: u64)
    requires
        in_image(img@, off as int, 8),
    ensures
        v == u64_at(img@, off as int),
{
    assert(img@.len() == img.len());
    let lo = read_u32(img, off);
    let hi = read_u32(img, off + 4);
    lo as u64 + hi as u64 * 0x1_0000_0000
}

/// Whether `n` bytes at the (64-bit) offset `off` lie inside the image.
fn fits(img: &[u8], off: u64, n: u64) -> (b: bool)
    requires
        n <= 0x1_0000,
    ensures
        b == in_image(img@, off as int, n as int),
{
    let len = img.len() as u64;
    off <= len && n <= len - off
}

/// The position of the first NUL at or after `off`, if there is one.
fn find_nul(img: &[u8], off: usize) -> (end: Option<usize>)
    ensures
        match end {
            Some(e) => is_cstr_end(img@, off as int, e as int),
            None => !exists|e: int| is_cstr_end(img@, off as int, e),
        },
{
    let mut k = off;
    while k < img.len()
        invariant
            off <= k,
            forall|j: int| off <= j < k ==> img@[j] != 0,
        decreases img.len() - k,
    {
        if img[k] == 0 {
            return Some(k);
        }
        k = k + 1;
    }
    assert forall|e: int| !is_cstr_end(img@, off as int, e) by {
        if is_cstr_end(img@, off as int, e) {
            assert(img@[e] == 0);
        }
    }
    None
}

proof fn lemma_cstr_end_unique(img: Seq<u8>, off: int, e: int)
    requires
        is_cstr_end(img, off, e),
    ensures
        cstr_at(img, off) == Some(img.subrange(off, e)),
{
    let c = choose|end: int| is_cstr_end(img, off, end);
    if c < e {
        assert(img[c] != 0);
    } else if c > e {
        assert(img[e] != 0);
    }
}

/// ASCII lower-case of a byte.
fn to_ascii_lower(b: u8) -> (l: u8)
    ensures
        l == ascii_lower(b),
{
    if 0x41 <= b && b <= 0x5a {
        b + 0x20
    } else {
        b
    }
}

/// Whether `img[start..end]` equals `target` up to ASCII case.
fn ci_eq_range(img: &[u8], start: usize, end: usize, target: &[u8]) -> (eq: bool)
    requires
        start <= end <= img.len(),
    ensures
        eq == ascii_ci_eq(img@.subrange(start as int, end as int), target@),
{
    if end - start != target.len() {
        return false;
    }
    let mut i: usize = 0;
    while i < target.len()
        invariant
            end - start == target@.len(),
            start <= end <= img.len(),
            0 <= i <= target@.len(),
            forall|j: int|
                0 <= j < i ==> ascii_lower(img@[start + j]) == ascii_lower(target@[j]),
        decreases target@.len() - i,
    {
        if to_ascii_lower(img[start + i]) != to_ascii_lower(target[i]) {
            assert(img@.subrange(start as int, end as int)[i as int] == img@[start + i]);
            return false;
        }
        i = i + 1;
    }
    assert forall|j: int| 0 <= j < target@.len() implies ascii_lower(
        img@.subrange(start as int, end as int)[j],
    ) == ascii_lower(target@[j]) by {
        assert(img@.subrange(start as int, end as int)[j] == img@[start + j]);
    }
    true
}

/// Whether `img[start..end]` equals `target` byte for byte.
fn eq_range(img: &[u8], start: usize, end: usize, target: &[u8]) -> (eq: bool)
    requires
        start <= end <= img.len(),
    ensures
        eq == (img@.subrange(start as int, end as int) == target@),
{
    if end - start != target.len() {
        return false;
    }
    let mut i: usize = 0;
    while i < target.len()
        invariant
            end - start == target@.len(),
            start <= end <= img.len(),
            0 <= i <= target@.len(),
            forall|j: int| 0 <= j < i ==> img@[start + j] == target@[j],
        decreases target@.len() - i,
    {
        if img[start + i] != target[i] {
            assert(img@.subrange(start as int, end as int)[i as int] != target@[i as int]);
            return false;
        }
        i = i + 1;
    }
    assert(img@.subrange(start as int, end as int) =~= target@);
    true
}

/// Scans the import thunks of one DLL for `func`.
fn lookup_thunks(img: &[u8], ilt: u32, iat: u32, func: &[u8]) -> (r: Result<IatSlot, PeImportError>)
    ensures
        r == thunk_lookup(img@, ilt as int, iat as int, 0, func@),
{
    let mut i: u64 = 0;
    assert(img@.len() == img.len());
    loop
        invariant
            thunk_lookup(img@, ilt as int, iat as int, 0, func@) == thunk_lookup(
                img@,
                ilt as int,
                iat as int,
                i as int,
                func@,
            ),
            i == 0 || ilt as int + 8 * i <= img@.len(),
            img@.len() == img.len(),
        decreases img@.len() - ilt - 8 * i,
    {
        let entry = ilt as u64 + 8 * i;
        if !fits(img, entry, 8) {
            return Err(PeImportError::ImageOutOfRange);
        }
        let v = read_u64(img, entry as usize);
        if v == 0 {
            return Err(PeImportError::FunctionNotFound);
        }
        if v < 0x8000_0000_0000_0000 {
            let name_off = v + 2;
            if name_off >= img.len() as u64 {
                assert(!exists|e: int| is_cstr_end(img@, name_off as int, e));
                return Err(PeImportError::ImageOutOfRange);
            }
            match find_nul(img, name_off as usize) {
                None => {
                    return Err(PeImportError::ImageOutOfRange);
                },
                Some(end) => {
                    proof {
                        lemma_cstr_end_unique(img@, name_off as int, end as int);
                    }
                    if eq_range(img, name_off as usize, end, func) {
                        if iat as u64 > u64::MAX - 8 * i {
                            return Err(PeImportError::ImageOutOfRange);
                        }
                        let slot = iat as u64 + 8 * i;
                        if fits(img, slot, 8) {
                            let current = read_u64(img, slot as usize);
                            return Ok(IatSlot { offset: slot as usize, current });
                        } else {
                            return Err(PeImportError::ImageOutOfRange);
                        }
                    }
                },
            }
        }
        i = i + 1;
    }
}

/// Scans the import descriptors, starting at `desc`, for `dll` and then `func`.
fn lookup_descriptors(img: &[u8], desc: u32, dll: &[u8], func: &[u8]) -> (r: Result<
    IatSlot,
    PeImportError,
>)
    ensures
        r == descriptor_lookup(img@, desc as int, dll@, func@),
{
    let mut d: u64 = desc as u64;
    assert(img@.len() == img.len());
    loop
        invariant
            descriptor_lookup(img@, desc as int, dll@, func@) == descriptor_lookup(
                img@,
                d as int,
                dll@,
                func@,
            ),
            d == desc || d <= img@.len() + 4,
            img@.len() == img.len(),
        decreases img@.len() + 20 - d,
    {
        if !fits(img, d, 16) {
            return Err(PeImportError::ImageOutOfRange);
        }
        let name = read_u32(img, (d + 12) as usize);
        if name == 0 {
            return Err(PeImportError::DllNotFound);
        }
        if name as u64 >= img.len() as u64 {
            assert(!exists|e: int| is_cstr_end(img@, name as int, e));
            return Err(PeImportError::ImageOutOfRange);
        }
        match find_nul(img, name as usize) {
            None => {
                return Err(PeImportError::ImageOutOfRange);
            },
            Some(end) => {
                proof {
                    lemma_cstr_end_unique(img@, name as int, end as int);
                }
                if ci_eq_range(img, name as usize, end, dll) {
                    if fits(img, d, 20) {
                        let ilt = read_u32(img, d as usize);
                        let iat = read_u32(img, (d + 16) as usize);
                        return lookup_thunks(img, ilt, iat, func);
                    } else {
                        return Err(PeImportError::ImageOutOfRange);
                    }
                }
            },
        }
        if d > u64::MAX - 20 {
            return Err(PeImportError::ImageOutOfRange);
        }
        d = d + 20;
    }
}


/// Little-endian bytes of a 64-bit value.
pub open spec fn le64(v: u64) -> Seq<u8> {
    seq![
        (v & 0xff) as u8,
        ((v >> 8) & 0xff) as u8,
        ((v >> 16) & 0xff) as u8,
        ((v >> 24) & 0xff) as u8,
        ((v >> 32) & 0xff) as u8,
        ((v >> 40) & 0xff) as u8,
        ((v >> 48) & 0xff) as u8,
        ((v >> 56) & 0xff) as u8,
    ]
}

proof fn lemma_le64_value(v: u64)
    ensures
        u64_at(le64(v), 0) == v,
{
    assert(((v & 0xff) as u8) as u64 == v & 0xff) by (bit_vector);
    assert((((v >> 8) & 0xff) as u8) as u64 == (v >> 8) & 0xff) by (bit_vector);
    assert((((v >> 16) & 0xff) as u8) as u64 == (v >> 16) & 0xff) by (bit_vector);
    assert((((v >> 24) & 0xff) as u8) as u64 == (v >> 24) & 0xff) by (bit_vector);
    assert((((v >> 32) & 0xff) as u8) as u64 == (v >> 32) & 0xff) by (bit_vector);
    assert((((v >> 40) & 0xff) as u8) as u64 == (v >> 40) & 0xff) by (bit_vector);
    assert((((v >> 48) & 0xff) as u8) as u64 == (v >> 48) & 0xff) by (bit_vector);
    assert((((v >> 56) & 0xff) as u8) as u64 == (v >> 56) & 0xff) by (bit_vector);
    assert(v == (v & 0xff) + ((v >> 8) & 0xff) * 0x100 + ((v >> 16) & 0xff) * 0x1_0000 + ((v >> 24)
        & 0xff) * 0x100_0000 + (((v >> 32) & 0xff) + ((v >> 40) & 0xff) * 0x100 + ((v >> 48) & 0xff)
        * 0x1_0000 + ((v >> 56) & 0xff) * 0x100_0000) * 0x1_0000_0000) by (bit_vector);
}

proof fn lemma_bytes_of_sum(v: u64, b0: u8, b1: u8, b2: u8, b3: u8, b4: u8, b5: u8, b6: u8, b7: u8)
    by (bit_vector)
    requires
        v == b0 as u64 + b1 as u64 * 0x100 + b2 as u64 * 0x1_0000 + b3 as u64 * 0x100_0000
            + b4 as u64 * 0x1_0000_0000 + b5 as u64 * 0x100_0000_0000 + b6 as u64 * 0x1_0000_0000_0000
            + b7 as u64 * 0x100_0000_0000_0000,
    ensures
        (v & 0xff) as u8 == b0,
        ((v >> 8) & 0xff) as u8 == b1,
        ((v >> 16) & 0xff) as u8 == b2,
        ((v >> 24) & 0xff) as u8 == b3,
        ((v >> 32) & 0xff) as u8 == b4,
        ((v >> 40) & 0xff) as u8 == b5,
        ((v >> 48) & 0xff) as u8 == b6,
        ((v >> 56) & 0xff) as u8 == b7,
{
}

/// Writing back the value that eight bytes hold gives those bytes.
proof fn lemma_le64_of_bytes(s: Seq<u8>, off: int)
    requires
        in_image(s, off, 8),
    ensures
        0 <= u64_at(s, off) < 0x1_0000_0000_0000_0000,
        le64(u64_at(s, off) as u64) == s.subrange(off, off + 8),
{
    let v = u64_at(s, off) as u64;
    assert(u64_at(s, off) == s[off] + s[off + 1] * 0x100 + s[off + 2] * 0x1_0000 + s[off + 3]
        * 0x100_0000 + s[off + 4] * 0x1_0000_0000 + s[off + 5] * 0x100_0000_0000 + s[off + 6]
        * 0x1_0000_0000_0000 + s[off + 7] * 0x100_0000_0000_0000);
    lemma_bytes_of_sum(v, s[off], s[off + 1], s[off + 2], s[off + 3], s[off + 4], s[off + 5], s[off + 6], s[off + 7]);
    assert(le64(v) =~= s.subrange(off, off + 8));
}

/// The image with the eight bytes at `off` replaced by `v`, little-endian:
/// the write of a pointer-sized IAT slot.
pub open spec fn slot_written(img: Seq<u8>, off: int, v: u64) -> Seq<u8> {
    img.subrange(0, off) + le64(v) + img.subrange(off + 8, img.len() as int)
}

/// Whether the `n` bytes at `off` lie apart from the bytes `lo..hi`.
pub open spec fn apart(off: int, n: int, lo: int, hi: int) -> bool {
    off + n <= lo || hi <= off
}

/// Whether the NUL-terminated string at `off`, its NUL included, lies apart
/// from the bytes `lo..hi`.
pub open spec fn cstr_apart(img: Seq<u8>, off: int, lo: int, hi: int) -> bool {
    forall|e: int| is_cstr_end(img, off, e) ==> apart(off, e - off + 1, lo, hi)
}

/// Whether the reads of [`thunk_lookup`] before its final IAT read lie apart
/// from the bytes `lo..hi`.
pub open spec fn thunk_reads_apart(
    img: Seq<u8>,
    ilt: int,
    iat: int,
    i: int,
    func: Seq<u8>,
    lo: int,
    hi: int,
) -> bool
    decreases img.len() - ilt - 8 * i,
{
    if !(0 <= i && in_image(img, ilt + 8 * i, 8)) {
        true
    } else {
        let v = u64_at(img, ilt + 8 * i);
        &&& apart(ilt + 8 * i, 8, lo, hi)
        &&& if v == 0 {
            true
        } else if v < 0x8000_0000_0000_0000 {
            &&& cstr_apart(img, v + 2, lo, hi)
            &&& match cstr_at(img, v + 2) {
                None => true,
                Some(name) => name == func || thunk_reads_apart(img, ilt, iat, i + 1, func, lo, hi),
            }
        } else {
            thunk_reads_apart(img, ilt, iat, i + 1, func, lo, hi)
        }
    }
}

/// Whether the reads of [`descriptor_lookup`] before its final IAT read lie
/// apart from the bytes `lo..hi`.
pub open spec fn descriptor_reads_apart(
    img: Seq<u8>,
    desc: int,
    dll: Seq<u8>,
    func: Seq<u8>,
    lo: int,
    hi: int,
) -> bool
    decreases img.len() + 20 - desc,
{
    if !in_image(img, desc, 16) {
        true
    } else {
        let name = u32_at(img, desc + 12);
        &&& apart(desc, 16, lo, hi)
        &&& name != 0 ==> {
            &&& cstr_apart(img, name, lo, hi)
            &&& match cstr_at(img, name) {
                None => true,
                Some(dll_name) => if ascii_ci_eq(dll_name, dll) {
                    in_image(img, desc, 20) ==> apart(desc, 20, lo, hi) && thunk_reads_apart(
                        img,
                        u32_at(img, desc),
                        u32_at(img, desc + 16),
                        0,
                        func,
                        lo,
                        hi,
                    )
                } else {
                    descriptor_reads_apart(img, desc + 20, dll, func, lo, hi)
                },
            }
        }
    }
}

/// Whether every read of [`import_slot`] but its final IAT read (headers,
/// import descriptors, DLL and function names, lookup-table entries) lies
/// apart from the bytes `lo..hi`.
pub open spec fn import_reads_apart(img: Seq<u8>, dll: Seq<u8>, func: Seq<u8>, lo: int, hi: int) -> bool {
    &&& apart(0, 2, lo, hi)
    &&& apart(60, 4, lo, hi)
    &&& in_image(img, 60, 4) ==> {
        let nt = u32_at(img, 60);
        &&& apart(nt, 4, lo, hi)
        &&& apart(nt + 144, 4, lo, hi)
        &&& (in_image(img, nt + 144, 4) && u32_at(img, nt + 144) != 0) ==> descriptor_reads_apart(
            img,
            u32_at(img, nt + 144),
            dll,
            func,
            lo,
            hi,
        )
    }
}

/// Whether `img2` equals `img` but for the bytes `lo..lo + 8`.
pub open spec fn same_but_slot(img: Seq<u8>, img2: Seq<u8>, lo: int) -> bool {
    &&& img2.len() == img.len()
    &&& forall|k: int| 0 <= k < img.len() && !(lo <= k < lo + 8) ==> #[trigger] img2[k] == img[k]
}

proof fn lemma_slot_written(img: Seq<u8>, lo: int, v: u64)
    requires
        in_image(img, lo, 8),
    ensures
        same_but_slot(img, slot_written(img, lo, v), lo),
        u64_at(slot_written(img, lo, v), lo) == v,
{
    let w = slot_written(img, lo, v);
    assert forall|k: int| 0 <= k < img.len() && !(lo <= k < lo + 8) implies #[trigger] w[k] == img[k] by {
        if k < lo {
            assert(w[k] == img.subrange(0, lo)[k]);
        } else {
            assert(w[k] == img.subrange(lo + 8, img.len() as int)[k - lo - 8]);
        }
    }
    assert(w.subrange(lo, lo + 8) =~= le64(v));
    lemma_le64_value(v);
    assert(u64_at(w, lo) == u64_at(w.subrange(lo, lo + 8), 0));
}

proof fn lemma_cstr_frame(img: Seq<u8>, img2: Seq<u8>, slot: int, off: int)
    requires
        same_but_slot(img, img2, slot),
        cstr_apart(img, off, slot, slot + 8),
        cstr_at(img, off) is Some,
    ensures
        cstr_at(img2, off) == cstr_at(img, off),
{
    let e = choose|end: int| is_cstr_end(img, off, end);
    assert(is_cstr_end(img, off, e));
    assert(apart(off, e - off + 1, slot, slot + 8));
    assert(img2[e] == img[e]);
    assert forall|k: int| off <= k < e implies img2[k] != 0 by {
        assert(img2[k] == img[k]);
    }
    assert(is_cstr_end(img2, off, e));
    lemma_cstr_end_unique(img, off, e);
    lemma_cstr_end_unique(img2, off, e);
    assert forall|k: int| 0 <= k < e - off implies img2.subrange(off, e)[k] == img.subrange(off, e)[k] by {
        assert(img2[off + k] == img[off + k]);
    }
    assert(img2.subrange(off, e) =~= img.subrange(off, e));
}

proof fn lemma_thunks_after_write(
    img: Seq<u8>,
    img2: Seq<u8>,
    ilt: int,
    iat: int,
    i: int,
    func: Seq<u8>,
    slot: IatSlot,
    v: u64,
)
    requires
        img.len() <= usize::MAX,
        thunk_lookup(img, ilt, iat, i, func) == Ok::<IatSlot, PeImportError>(slot),
        thunk_reads_apart(img, ilt, iat, i, func, slot.offset as int, slot.offset + 8),
        same_but_slot(img, img2, slot.offset as int),
        in_image(img, slot.offset as int, 8),
        u64_at(img2, slot.offset as int) == v,
    ensures
        thunk_lookup(img2, ilt, iat, i, func) == Ok::<IatSlot, PeImportError>(
            IatSlot { offset: slot.offset, current: v },
        ),
    decreases img.len() - ilt - 8 * i,
{
    let lo = slot.offset as int;
    let e = ilt + 8 * i;
    assert(0 <= i && in_image(img, e, 8));
    assert(apart(e, 8, lo, lo + 8));
    assert(u64_at(img2, e) == u64_at(img, e));
    let x = u64_at(img, e);
    if x < 0x8000_0000_0000_0000 {
        lemma_cstr_frame(img, img2, lo, x + 2);
        let name = cstr_at(img, x + 2)->0;
        if name == func {
            assert(lo == iat + 8 * i);
            lemma_le64_of_bytes(img, lo);
        } else {
            lemma_thunks_after_write(img, img2, ilt, iat, i + 1, func, slot, v);
        }
    } else {
        lemma_thunks_after_write(img, img2, ilt, iat, i + 1, func, slot, v);
    }
}

proof fn lemma_descriptors_after_write(
    img: Seq<u8>,
    img2: Seq<u8>,
    desc: int,
    dll: Seq<u8>,
    func: Seq<u8>,
    slot: IatSlot,
    v: u64,
)
    requires
        img.len() <= usize::MAX,
        descriptor_lookup(img, desc, dll, func) == Ok::<IatSlot, PeImportError>(slot),
        descriptor_reads_apart(img, desc, dll, func, slot.offset as int, slot.offset + 8),
        same_but_slot(img, img2, slot.offset as int),
        in_image(img, slot.offset as int, 8),
        u64_at(img2, slot.offset as int) == v,
    ensures
        descriptor_lookup(img2, desc, dll, func) == Ok::<IatSlot, PeImportError>(
            IatSlot { offset: slot.offset, current: v },
        ),
    decreases img.len() + 20 - desc,
{
    let lo = slot.offset as int;
    assert(in_image(img, desc, 16));
    assert(u32_at(img2, desc + 12) == u32_at(img, desc + 12));
    let name = u32_at(img, desc + 12);
    lemma_cstr_frame(img, img2, lo, name);
    let dll_name = cstr_at(img, name)->0;
    if ascii_ci_eq(dll_name, dll) {
        assert(u32_at(img2, desc) == u32_at(img, desc));
        assert(u32_at(img2, desc + 16) == u32_at(img, desc + 16));
        lemma_thunks_after_write(img, img2, u32_at(img, desc), u32_at(img, desc + 16), 0, func, slot, v);
    } else {
        lemma_descriptors_after_write(img, img2, desc + 20, dll, func, slot, v);
    }
}

proof fn lemma_thunk_slot_in_image(img: Seq<u8>, ilt: int, iat: int, i: int, func: Seq<u8>)
    requires
        img.len() <= usize::MAX,
        thunk_lookup(img, ilt, iat, i, func) is Ok,
    ensures
        in_image(img, thunk_lookup(img, ilt, iat, i, func)->Ok_0.offset as int, 8),
        thunk_lookup(img, ilt, iat, i, func)->Ok_0.current == u64_at(
            img,
            thunk_lookup(img, ilt, iat, i, func)->Ok_0.offset as int,
        ),
    decreases img.len() - ilt - 8 * i,
{
    let e = ilt + 8 * i;
    let x = u64_at(img, e);
    if x < 0x8000_0000_0000_0000 {
        let name = cstr_at(img, x + 2)->0;
        if name == func {
            lemma_le64_of_bytes(img, iat + 8 * i);
        } else {
            lemma_thunk_slot_in_image(img, ilt, iat, i + 1, func);
        }
    } else {
        lemma_thunk_slot_in_image(img, ilt, iat, i + 1, func);
    }
}

proof fn lemma_descriptor_slot_in_image(img: Seq<u8>, desc: int, dll: Seq<u8>, func: Seq<u8>)
    requires
        img.len() <= usize::MAX,
        descriptor_lookup(img, desc, dll, func) is Ok,
    ensures
        in_image(img, descriptor_lookup(img, desc, dll, func)->Ok_0.offset as int, 8),
        descriptor_lookup(img, desc, dll, func)->Ok_0.current == u64_at(
            img,
            descriptor_lookup(img, desc, dll, func)->Ok_0.offset as int,
        ),
    decreases img.len() + 20 - desc,
{
    let name = u32_at(img, desc + 12);
    let dll_name = cstr_at(img, name)->0;
    if ascii_ci_eq(dll_name, dll) {
        lemma_thunk_slot_in_image(img, u32_at(img, desc), u32_at(img, desc + 16), 0, func);
    } else {
        lemma_descriptor_slot_in_image(img, desc + 20, dll, func);
    }
}

proof fn lemma_headers_after_write(
    img: Seq<u8>,
    img2: Seq<u8>,
    dll: Seq<u8>,
    func: Seq<u8>,
    slot: IatSlot,
)
    requires
        import_slot(img, dll, func) == Ok::<IatSlot, PeImportError>(slot),
        import_reads_apart(img, dll, func, slot.offset as int, slot.offset + 8),
        same_but_slot(img, img2, slot.offset as int),
    ensures
        ({
            let rva = u32_at(img, u32_at(img, 60) + 144);
            &&& import_slot(img, dll, func) == descriptor_lookup(img, rva, dll, func)
            &&& import_slot(img2, dll, func) == descriptor_lookup(img2, rva, dll, func)
            &&& descriptor_reads_apart(img, rva, dll, func, slot.offset as int, slot.offset + 8)
        }),
{
    let nt = u32_at(img, 60);
    assert(u16_at(img2, 0) == u16_at(img, 0));
    assert(u32_at(img2, 60) == u32_at(img, 60));
    assert(u32_at(img2, nt) == u32_at(img, nt));
    assert(u32_at(img2, nt + 144) == u32_at(img, nt + 144));
}

proof fn lemma_restore_slot(img: Seq<u8>, lo: int, hook: u64, current: u64)
    requires
        in_image(img, lo, 8),
        current == u64_at(img, lo),
    ensures
        slot_written(slot_written(img, lo, hook), lo, current) == img,
{
    lemma_le64_of_bytes(img, lo);
    let img2 = slot_written(img, lo, hook);
    assert(slot_written(img2, lo, current) =~= img);
}

proof fn lemma_lookup_after_write(img: Seq<u8>, dll: Seq<u8>, func: Seq<u8>, slot: IatSlot, hook: u64)
    requires
        img.len() <= usize::MAX,
        import_slot(img, dll, func) == Ok::<IatSlot, PeImportError>(slot),
        import_reads_apart(img, dll, func, slot.offset as int, slot.offset + 8),
    ensures
        in_image(img, slot.offset as int, 8),
        slot.current == u64_at(img, slot.offset as int),
        import_slot(slot_written(img, slot.offset as int, hook), dll, func) == Ok::<
            IatSlot,
            PeImportError,
        >(IatSlot { offset: slot.offset, current: hook }),
{
    let lo = slot.offset as int;
    let rva = u32_at(img, u32_at(img, 60) + 144);
    let img2 = slot_written(img, lo, hook);
    lemma_headers_after_write(img, img, dll, func, slot);
    lemma_descriptor_slot_in_image(img, rva, dll, func);
    lemma_slot_written(img, lo, hook);
    lemma_headers_after_write(img, img2, dll, func, slot);
    lemma_descriptors_after_write(img, img2, rva, dll, func, slot, hook);
}

/// Patching the IAT slot that the lookup found and looking up again finds
/// the same slot holding the new address, as long as the slot lies apart
/// from what the lookup reads on its way there; writing back the address
/// the slot held restores the image.
pub proof fn law_patched_slot_found_again(
    img: Seq<u8>,
    dll: Seq<u8>,
    func: Seq<u8>,
    slot: IatSlot,
    hook: u64,
)
    requires
        img.len() <= usize::MAX,
        import_slot(img, dll, func) == Ok::<IatSlot, PeImportError>(slot),
        import_reads_apart(img, dll, func, slot.offset as int, slot.offset + 8),
    ensures
        in_image(img, slot.offset as int, 8),
        import_slot(slot_written(img, slot.offset as int, hook), dll, func) == Ok::<
            IatSlot,
            PeImportError,
        >(IatSlot { offset: slot.offset, current: hook }),
        slot_written(slot_written(img, slot.offset as int, hook), slot.offset as int, slot.current)
            == img,
{
    lemma_lookup_after_write(img, dll, func, slot, hook);
    lemma_restore_slot(img, slot.offset as int, hook, slot.current);
}

/// Whether the bytes at `off` are exactly the C string `func`: its bytes,
/// none of them NUL, then a NUL.
pub open spec fn names_exactly(img: Seq<u8>, off: int, func: Seq<u8>) -> bool {
    &&& in_image(img, off, func.len() + 1int)
    &&& img.subrange(off, off + func.len()) == func
    &&& img[off + func.len()] == 0
    &&& forall|k: int| 0 <= k < func.len() ==> func[k] != 0
}

/// Whether import-lookup entry `j` of the table at `ilt` imports `func` by
/// name: a non-zero entry without the ordinal bit whose hint/name record
/// holds exactly `func` after its two-byte hint.
pub open spec fn thunk_names(img: Seq<u8>, ilt: int, j: int, func: Seq<u8>) -> bool {
    &&& in_image(img, ilt + 8 * j, 8)
    &&& 0 < u64_at(img, ilt + 8 * j) < 0x8000_0000_0000_0000
    &&& names_exactly(img, u64_at(img, ilt + 8 * j) + 2, func)
}

proof fn lemma_names_exactly_cstr(img: Seq<u8>, off: int, func: Seq<u8>)
    ensures
        names_exactly(img, off, func) <==> cstr_at(img, off) == Some(func),
{
    let len = func.len() as int;
    if names_exactly(img, off, func) {
        assert forall|k: int| off <= k < off + len implies img[k] != 0 by {
            assert(img.subrange(off, off + len)[k - off] == img[k]);
        }
        assert(is_cstr_end(img, off, off + len));
        lemma_cstr_end_unique(img, off, off + len);
    }
    if cstr_at(img, off) == Some(func) {
        let e = choose|end: int| is_cstr_end(img, off, end);
        assert(is_cstr_end(img, off, e));
        assert(img.subrange(off, e) == func);
        assert forall|k: int| 0 <= k < len implies func[k] != 0 by {
            assert(img.subrange(off, e)[k] == img[off + k]);
        }
    }
}

proof fn lemma_thunk_found_names(img: Seq<u8>, ilt: int, iat: int, i: int, func: Seq<u8>)
    requires
        img.len() <= usize::MAX,
        thunk_lookup(img, ilt, iat, i, func) is Ok,
    ensures
        exists|k: int|
            i <= k && thunk_lookup(img, ilt, iat, i, func)->Ok_0.offset == iat + 8 * k
                && #[trigger] thunk_names(img, ilt, k, func) && forall|j: int|
                i <= j < k ==> !thunk_names(img, ilt, j, func),
    decreases img.len() - ilt - 8 * i,
{
    let e = ilt + 8 * i;
    let x = u64_at(img, e);
    let r = thunk_lookup(img, ilt, iat, i, func);
    lemma_names_exactly_cstr(img, x + 2, func);
    if x < 0x8000_0000_0000_0000 && cstr_at(img, x + 2)->0 == func {
        assert(r->Ok_0.offset == iat + 8 * i);
        assert(thunk_names(img, ilt, i, func));
    } else {
        assert(!thunk_names(img, ilt, i, func));
        lemma_thunk_found_names(img, ilt, iat, i + 1, func);
        let k = choose|k: int|
            i + 1 <= k && thunk_lookup(img, ilt, iat, i + 1, func)->Ok_0.offset == iat + 8 * k
                && #[trigger] thunk_names(img, ilt, k, func) && forall|j: int|
                i + 1 <= j < k ==> !thunk_names(img, ilt, j, func);
        assert(forall|j: int| i <= j < k ==> !thunk_names(img, ilt, j, func));
    }
}

proof fn lemma_descriptor_found_names(img: Seq<u8>, desc: int, dll: Seq<u8>, func: Seq<u8>)
    requires
        img.len() <= usize::MAX,
        descriptor_lookup(img, desc, dll, func) is Ok,
    ensures
        exists|d: int, k: int|
            #![trigger thunk_names(img, u32_at(img, d), k, func), in_image(img, d, 20)]
            in_image(img, d, 20) && (cstr_at(img, u32_at(img, d + 12)) matches Some(n) && ascii_ci_eq(
                n,
                dll,
            )) && descriptor_lookup(img, desc, dll, func)->Ok_0.offset == u32_at(img, d + 16) + 8 * k
                && 0 <= k && thunk_names(img, u32_at(img, d), k, func) && forall|j: int|
                0 <= j < k ==> !thunk_names(img, u32_at(img, d), j, func),
    decreases img.len() + 20 - desc,
{
    let name = u32_at(img, desc + 12);
    let dll_name = cstr_at(img, name)->0;
    if ascii_ci_eq(dll_name, dll) {
        lemma_thunk_found_names(img, u32_at(img, desc), u32_at(img, desc + 16), 0, func);
        let k = choose|k: int|
            0 <= k && thunk_lookup(img, u32_at(img, desc), u32_at(img, desc + 16), 0, func)->Ok_0.offset
                == u32_at(img, desc + 16) + 8 * k && #[trigger] thunk_names(img, u32_at(img, desc), k, func)
                && forall|j: int| 0 <= j < k ==> !thunk_names(img, u32_at(img, desc), j, func);
        assert(in_image(img, desc, 20));
        assert(thunk_names(img, u32_at(img, desc), k, func));
    } else {
        lemma_descriptor_found_names(img, desc + 20, dll, func);
    }
}

/// A found slot is the import address entry of the first lookup entry that
/// imports `func` by exactly that name (no longer name that merely starts
/// with it), in an import descriptor whose DLL name equals `dll` up to ASCII
/// case.
pub proof fn law_found_slot_names_function(img: Seq<u8>, dll: Seq<u8>, func: Seq<u8>, slot: IatSlot)
    requires
        img.len() <= usize::MAX,
        import_slot(img, dll, func) == Ok::<IatSlot, PeImportError>(slot),
    ensures
        exists|d: int, k: int|
            #![trigger thunk_names(img, u32_at(img, d), k, func), in_image(img, d, 20)]
            in_image(img, d, 20) && (cstr_at(img, u32_at(img, d + 12)) matches Some(n) && ascii_ci_eq(
                n,
                dll,
            )) && slot.offset == u32_at(img, d + 16) + 8 * k && 0 <= k && thunk_names(
                img,
                u32_at(img, d),
                k,
                func,
            ) && forall|j: int| 0 <= j < k ==> !thunk_names(img, u32_at(img, d), j, func),
{
    let rva = u32_at(img, u32_at(img, 60) + 144);
    assert(import_slot(img, dll, func) == descriptor_lookup(img, rva, dll, func));
    lemma_descriptor_found_names(img, rva, dll, func);
}

/// The `SizeOfImage` of the module whose headers start `headers`, if they
/// hold a valid DOS header and PE signature and reach that field.
pub open spec fn image_size_of(headers: Seq<u8>) -> Option<u32> {
    if !in_image(headers, 0, 2) || u16_at(headers, 0) != 0x5a4d || !in_image(headers, 60, 4) {
        None
    } else {
        let nt = u32_at(headers, 60);
        if nt >= 0x8000_0000 || !in_image(headers, nt, 84) || u32_at(headers, nt) != 0x4550 {
            None
        } else {
            Some(u32_at(headers, nt + 80) as u32)
        }
    }
}

/// Reads `SizeOfImage` from the optional header of a PE32+ module, given
/// (a prefix of) its mapped image starting with the headers.
pub fn image_size(headers: &[u8]) -> (n: Option<u32>)
    ensures
        n == image_size_of(headers@),
{
    if !fits(headers, 0, 2) || read_u16(headers, 0) != 0x5a4d || !fits(headers, 60, 4) {
        return None;
    }
    let nt = read_u32(headers, 60);
    if nt >= 0x8000_0000 || !fits(headers, nt as u64, 84) || read_u32(headers, nt as usize)
        != 0x4550 {
        return None;
    }
    Some(read_u32(headers, nt as usize + 80))
}

/// Finds the Import Address Table slot through which the module image `img`
/// calls `target_func` of `target_dll` (the DLL name compared without regard
/// to ASCII case, the function name exactly), and the address it holds.
pub fn locate_iat_slot(img: &[u8], target_dll: &[u8], target_func: &[u8]) -> (r: Result<
    IatSlot,
    PeImportError,
>)
    ensures
        r == import_slot(img@, target_dll@, target_func@),
{
    if !fits(img, 0, 2) {
        return Err(PeImportError::ImageOutOfRange);
    }
    if read_u16(img, 0) != 0x5a4d {
        return Err(PeImportError::InvalidDosMagic);
    }
    if !fits(img, 60, 4) {
        return Err(PeImportError::ImageOutOfRange);
    }
    let nt = read_u32(img, 60);
    if nt >= 0x8000_0000 || !fits(img, nt as u64, 4) {
        return Err(PeImportError::ImageOutOfRange);
    }
    if read_u32(img, nt as usize) != 0x4550 {
        return Err(PeImportError::InvalidPeSignature);
    }
    if !fits(img, nt as u64 + 144, 4) {
        return Err(PeImportError::ImageOutOfRange);
    }
    let import_rva = read_u32(img, nt as usize + 144);
    if import_rva == 0 {
        return Err(PeImportError::NoImportDirectory);
    }
    lookup_descriptors(img, import_rva, target_dll, target_func)
}

} // verus!
