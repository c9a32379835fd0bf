//! The binary theme records that the host writes into shared memory and the
//! injected DLL reads back.
//!
//! Every record has the C layout of
//! `{ [u8; 3], [u8; 3], f32, u8-sized flag, [u8; 3], [u8; 3], u8-sized flag, u32 }`:
//! 24 bytes, with two padding bytes after the accent colour. The `f32`
//! transparency is carried as its IEEE-754 bit pattern.

use vstd::prelude::*;
use vstd::string::StringExecFns;
use crate::pe_import::u32_at;

verus! {

/// Length in bytes of one theme record.
pub const THEME_RECORD_LEN: usize = 24;

/// Little-endian bytes of a 32-bit value.
pub open spec fn le32(v: u32) -> Seq<u8> {
    seq![(v & 0xff) as u8, ((v >> 8) & 0xff) as u8, ((v >> 16) & 0xff) as u8, ((v >> 24) & 0xff) as u8]
}

/// The byte that stores a flag.
pub open spec fn flag_byte(b: bool) -> u8 {
    if b {
        1
    } else {
        0
    }
}

/// The 24-byte record of the given fields.
pub open spec fn record_bytes(
    primary: Seq<u8>,
    accent: Seq<u8>,
    transparency_bits: u32,
    border: u8,
    background: Seq<u8>,
    foreground: Seq<u8>,
    dark: u8,
    version: u32,
) -> Seq<u8> {
    primary + accent + seq![0u8, 0u8] + le32(transparency_bits) + seq![border] + background
        + foreground + seq![dark] + le32(version)
}

/// Reading back a little-endian 32-bit value gives the value.
pub proof fn lemma_le32_roundtrip(v: u32)
    ensures
        u32_at(le32(v), 0) == v,
{
    assert(((v & 0xff) as u8) as u32 == v & 0xff) by (bit_vector);
    assert((((v >> 8) & 0xff) as u8) as u32 == (v >> 8) & 0xff) by (bit_vector);
    assert((((v >> 16) & 0xff) as u8) as u32 == (v >> 16) & 0xff) by (bit_vector);
    assert((((v >> 24) & 0xff) as u8) as u32 == (v >> 24) & 0xff) by (bit_vector);
    assert(v == (v & 0xff) + ((v >> 8) & 0xff) * 0x100 + ((v >> 16) & 0xff) * 0x1_0000 + ((v
        >> 24) & 0xff) * 0x100_0000) by (bit_vector);
}

/// Every field of a record sits where the layout puts it.
pub proof fn lemma_record_fields(
    primary: Seq<u8>,
    accent: Seq<u8>,
    transparency_bits: u32,
    border: u8,
    background: Seq<u8>,
    foreground: Seq<u8>,
    dark: u8,
    version: u32,
)
    requires
        primary.len() == 3,
        accent.len() == 3,
        background.len() == 3,
        foreground.len() == 3,
    ensures
        ({
            let b = record_bytes(
                primary,
                accent,
                transparency_bits,
                border,
                background,
                foreground,
                dark,
                version,
            );
            &&& b.len() == 24
            &&& b.subrange(0, 3) == primary
            &&& b.subrange(3, 6) == accent
            &&& u32_at(b, 8) == transparency_bits
            &&& b[12] == border
            &&& b.subrange(13, 16) == background
            &&& b.subrange(16, 19) == foreground
            &&& b[19] == dark
            &&& u32_at(b, 20) == version
        }),
{
    let b = record_bytes(
        primary,
        accent,
        transparency_bits,
        border,
        background,
        foreground,
        dark,
        version,
    );
    lemma_le32_roundtrip(transparency_bits);
    lemma_le32_roundtrip(version);
    assert(b.subrange(0, 3) =~= primary);
    assert(b.subrange(3, 6) =~= accent);
    assert(b.subrange(13, 16) =~= background);
    assert(b.subrange(16, 19) =~= foreground);
    assert(b.subrange(8, 12) =~= le32(transparency_bits));
    assert(b.subrange(20, 24) =~= le32(version));
    assert(u32_at(b, 8) == u32_at(b.subrange(8, 12), 0));
    assert(u32_at(b, 20) == u32_at(b.subrange(20, 24), 0));
}

fn push_le32(out: &mut Vec<u8>, v: u32)
    ensures
        final(out)@ == old(out)@ + le32(v),
{
    out.push((v & 0xff) as u8);
    out.push(((v >> 8) & 0xff) as u8);
    out.push(((v >> 16) & 0xff) as u8);
    out.push(((v >> 24) & 0xff) as u8);
    assert(out@ =~= old(out)@ + le32(v));
}

fn push_rgb(out: &mut Vec<u8>, rgb: [u8; 3])
    ensures
        final(out)@ == old(out)@ + rgb@,
{
    out.push(rgb[0]);
    out.push(rgb[1]);
    out.push(rgb[2]);
    assert(out@ =~= old(out)@ + rgb@);
}

fn encode_record(
    primary: [u8; 3],
    accent: [u8; 3],
    transparency_bits: u32,
    border: u8,
    background: [u8; 3],
    foreground: [u8; 3],
    dark: u8,
    version: u32,
) -> (bytes: Vec<u8>)
    ensures
        bytes@ == record_bytes(
            primary@,
            accent@,
            transparency_bits,
            border,
            background@,
            foreground@,
            dark,
            version,
        ),
{
    let mut out: Vec<u8> = Vec::new();
    push_rgb(&mut out, primary);
    push_rgb(&mut out, accent);
    out.push(0);
    out.push(0);
    push_le32(&mut out, transparency_bits);
    out.push(border);
    push_rgb(&mut out, background);
    push_rgb(&mut out, foreground);
    out.push(dark);
    push_le32(&mut out, version);
    assert(out@ =~= record_bytes(
        primary@,
        accent@,
        transparency_bits,
        border,
        background@,
        foreground@,
        dark,
        version,
    ));
    out
}

fn read_rgb(bytes: &[u8], off: usize) -> (rgb: [u8; 3])
    requires
        off + 3 <= bytes@.len(),
    ensures
        rgb@ == bytes@.subrange(off as int, off + 3),
{
    let rgb = [bytes[off], bytes[off + 1], bytes[off + 2]];
    assert(rgb@ =~= bytes@.subrange(off as int, off + 3));
    rgb
}

fn read_le32(bytes: &[u8], off: usize) -> (v: u32)
    requires
        off + 4 <= bytes@.len(),
    ensures
        v == u32_at(bytes@, off as int),
{
    bytes[off] as u32 + bytes[off + 1] as u32 * 0x100 + bytes[off + 2] as u32 * 0x1_0000
        + bytes[off + 3] as u32 * 0x100_0000
}

/// Errors of the shared-memory theme channel.
#[derive(Debug)]
pub enum ThemeError {
    CreateMappingFailed(String),
    MapViewFailed(String),
    WriteFailed(String),
    ReadFailed(String),
}

/// The text of a theme-channel error.
pub open spec fn theme_error_text(e: ThemeError) -> Seq<char> {
    match e {
        ThemeError::CreateMappingFailed(s) => "Failed to create file mapping: "@ + s@,
        ThemeError::MapViewFailed(s) => "Failed to map view of file: "@ + s@,
        ThemeError::WriteFailed(s) => "Failed to write theme data: "@ + s@,
        ThemeError::ReadFailed(s) => "Failed to read theme data: "@ + s@,
    }
}

impl ThemeError {
    /// The human-readable description of the error.
    pub fn message(&self) -> (text: String)
        ensures
            text@ == theme_error_text(*self),
    {
        let (prefix, detail) = match self {
            ThemeError::CreateMappingFailed(s) => ("Failed to create file mapping: ", s),
            ThemeError::MapViewFailed(s) => ("Failed to map view of file: ", s),
            ThemeError::WriteFailed(s) => ("Failed to write theme data: ", s),
            ThemeError::ReadFailed(s) => ("Failed to read theme data: ", s),
        };
        let mut text = String::from_str(prefix);
        text.append(detail.as_str());
        text
    }
}

/// Theme data that the host shares with the injected DLL.
#[derive(Debug, Clone, Copy)]
pub struct InjectedTheme {
    pub primary_rgb: [u8; 3],
    pub accent_rgb: [u8; 3],
    /// IEEE-754 bits of the transparency level, 0.0 (clear) to 1.0 (opaque).
    pub transparency_bits: u32,
    pub border_iridescence: bool,
    pub background_rgb: [u8; 3],
    pub foreground_rgb: [u8; 3],
    pub is_dark_mode: bool,
    pub version: u32,
}

/// Whether `t` has exactly the given field values.
pub open spec fn injected_theme_is(
    t: InjectedTheme,
    primary: Seq<u8>,
    accent: Seq<u8>,
    transparency_bits: u32,
    border: bool,
    background: Seq<u8>,
    foreground: Seq<u8>,
    dark: bool,
    version: u32,
) -> bool {
    &&& t.primary_rgb@ == primary
    &&& t.accent_rgb@ == accent
    &&& t.transparency_bits == transparency_bits
    &&& t.border_iridescence == border
    &&& t.background_rgb@ == background
    &&& t.foreground_rgb@ == foreground
    &&& t.is_dark_mode == dark
    &&& t.version == version
}

/// The record bytes of an injected theme.
pub open spec fn injected_theme_bytes(t: InjectedTheme) -> Seq<u8> {
    record_bytes(
        t.primary_rgb@,
        t.accent_rgb@,
        t.transparency_bits,
        flag_byte(t.border_iridescence),
        t.background_rgb@,
        t.foreground_rgb@,
        flag_byte(t.is_dark_mode),
        t.version,
    )
}

impl InjectedTheme {
    /// Dark pill theme: dark colours with a blue accent.
    pub fn dark_theme() -> (t: Self)
        ensures
            injected_theme_is(
                t,
                seq![20u8, 20u8, 25u8],
                seq![100u8, 180u8, 255u8],
                0x3f733333,
                false,
                seq![15u8, 15u8, 20u8],
                seq![240u8, 240u8, 255u8],
                true,
                1,
            ),
    {
        let t = InjectedTheme {
            primary_rgb: [20, 20, 25],
            accent_rgb: [100, 180, 255],
            transparency_bits: 0x3f733333,
            border_iridescence: false,
            background_rgb: [15, 15, 20],
            foreground_rgb: [240, 240, 255],
            is_dark_mode: true,
            version: 1,
        };
        assert(t.primary_rgb@ =~= seq![20u8, 20u8, 25u8]);
        assert(t.accent_rgb@ =~= seq![100u8, 180u8, 255u8]);
        assert(t.background_rgb@ =~= seq![15u8, 15u8, 20u8]);
        assert(t.foreground_rgb@ =~= seq![240u8, 240u8, 255u8]);
        t
    }

    /// Frosted white theme: light colours with a subtle blue.
    pub fn light_theme() -> (t: Self)
        ensures
            injected_theme_is(
                t,
                seq![245u8, 245u8, 250u8],
                seq![100u8, 150u8, 220u8],
                0x3f6b851f,
                false,
                seq![255u8, 255u8, 255u8],
                seq![30u8, 30u8, 40u8],
                false,
                1,
            ),
    {
        let t = InjectedTheme {
            primary_rgb: [245, 245, 250],
            accent_rgb: [100, 150, 220],
            transparency_bits: 0x3f6b851f,
            border_iridescence: false,
            background_rgb: [255, 255, 255],
            foreground_rgb: [30, 30, 40],
            is_dark_mode: false,
            version: 1,
        };
        assert(t.primary_rgb@ =~= seq![245u8, 245u8, 250u8]);
        assert(t.accent_rgb@ =~= seq![100u8, 150u8, 220u8]);
        assert(t.background_rgb@ =~= seq![255u8, 255u8, 255u8]);
        assert(t.foreground_rgb@ =~= seq![30u8, 30u8, 40u8]);
        t
    }

    /// Glass theme: translucent with an iridescent border.
    pub fn vidrio_theme() -> (t: Self)
        ensures
            injected_theme_is(
                t,
                seq![200u8, 220u8, 255u8],
                seq![150u8, 200u8, 255u8],
                0x3f400000,
                true,
                seq![220u8, 235u8, 255u8],
                seq![20u8, 30u8, 50u8],
                false,
                1,
            ),
    {
        let t = InjectedTheme {
            primary_rgb: [200, 220, 255],
            accent_rgb: [150, 200, 255],
            transparency_bits: 0x3f400000,
            border_iridescence: true,
            background_rgb: [220, 235, 255],
            foreground_rgb: [20, 30, 50],
            is_dark_mode: false,
            version: 1,
        };
        assert(t.primary_rgb@ =~= seq![200u8, 220u8, 255u8]);
        assert(t.accent_rgb@ =~= seq![150u8, 200u8, 255u8]);
        assert(t.background_rgb@ =~= seq![220u8, 235u8, 255u8]);
        assert(t.foreground_rgb@ =~= seq![20u8, 30u8, 50u8]);
        t
    }

    /// The 24-byte shared-memory record of this theme.
    pub fn to_bytes(&self) -> (bytes: Vec<u8>)
        ensures
            bytes@ == injected_theme_bytes(*self),
    {
        encode_record(
            self.primary_rgb,
            self.accent_rgb,
            self.transparency_bits,
            if self.border_iridescence {
                1
            } else {
                0
            },
            self.background_rgb,
            self.foreground_rgb,
            if self.is_dark_mode {
                1
            } else {
                0
            },
            self.version,
        )
    }

    /// Reads a theme back from its shared-memory record. Fails when the record
    /// is not 24 bytes long or a flag byte is neither 0 nor 1.
    pub fn from_bytes(bytes: &[u8]) -> (r: Result<Self, ThemeError>)
        ensures
            (bytes@.len() == 24 && (bytes@[12] == 0 || bytes@[12] == 1) && (bytes@[19] == 0
                || bytes@[19] == 1)) <==> r is Ok,
            r matches Ok(t) ==> injected_theme_is(
                t,
                bytes@.subrange(0, 3),
                bytes@.subrange(3, 6),
                u32_at(bytes@, 8) as u32,
                bytes@[12] == 1,
                bytes@.subrange(13, 16),
                bytes@.subrange(16, 19),
                bytes@[19] == 1,
                u32_at(bytes@, 20) as u32,
            ),
            r matches Err(e) ==> (e matches ThemeError::ReadFailed(m) && m@ == if bytes@.len() != 24 {
                "theme record must be 24 bytes"@
            } else {
                "theme flag byte is not 0 or 1"@
            }),
    {
        if bytes.len() != THEME_RECORD_LEN {
            return Err(ThemeError::ReadFailed(String::from_str("theme record must be 24 bytes")));
        }
        if bytes[12] > 1 || bytes[19] > 1 {
            return Err(ThemeError::ReadFailed(String::from_str("theme flag byte is not 0 or 1")));
        }
        Ok(InjectedTheme {
            primary_rgb: read_rgb(bytes, 0),
            accent_rgb: read_rgb(bytes, 3),
            transparency_bits: read_le32(bytes, 8),
            border_iridescence: bytes[12] == 1,
            background_rgb: read_rgb(bytes, 13),
            foreground_rgb: read_rgb(bytes, 16),
            is_dark_mode: bytes[19] == 1,
            version: read_le32(bytes, 20),
        })
    }
}

/// Theme configuration written into shared memory by the host application,
/// with its flags stored as bytes (0 = off, 1 = on).
#[derive(Debug, Clone, Copy)]
pub struct IpcThemeConfig {
    pub primary_rgb: [u8; 3],
    pub accent_rgb: [u8; 3],
    /// IEEE-754 bits of the transparency level, 0.0 (clear) to 1.0 (opaque).
    pub transparency_bits: u32,
    pub border_iridescence: u8,
    pub background_rgb: [u8; 3],
    pub foreground_rgb: [u8; 3],
    pub is_dark_mode: u8,
    pub version: u32,
}

/// The record bytes of a host configuration.
pub open spec fn ipc_config_bytes(c: IpcThemeConfig) -> Seq<u8> {
    record_bytes(
        c.primary_rgb@,
        c.accent_rgb@,
        c.transparency_bits,
        c.border_iridescence,
        c.background_rgb@,
        c.foreground_rgb@,
        c.is_dark_mode,
        c.version,
    )
}

/// Whether `c` is the dark host configuration.
pub open spec fn is_dark_ipc_config(c: IpcThemeConfig) -> bool {
    &&& c.primary_rgb@ == seq![20u8, 20u8, 25u8]
    &&& c.accent_rgb@ == seq![100u8, 180u8, 255u8]
    &&& c.transparency_bits == 0x3f733333
    &&& c.border_iridescence == 0
    &&& c.background_rgb@ == seq![15u8, 15u8, 20u8]
    &&& c.foreground_rgb@ == seq![240u8, 240u8, 255u8]
    &&& c.is_dark_mode == 1
    &&& c.version == 1
}

/// Whether `c` is the light host configuration.
pub open spec fn is_light_ipc_config(c: IpcThemeConfig) -> bool {
    &&& c.primary_rgb@ == seq![245u8, 245u8, 250u8]
    &&& c.accent_rgb@ == seq![100u8, 150u8, 220u8]
    &&& c.transparency_bits == 0x3f6b851f
    &&& c.border_iridescence == 0
    &&& c.background_rgb@ == seq![255u8, 255u8, 255u8]
    &&& c.foreground_rgb@ == seq![30u8, 30u8, 40u8]
    &&& c.is_dark_mode == 0
    &&& c.version == 1
}

impl IpcThemeConfig {
    /// Dark pill theme: dark background with a blue accent.
    pub fn dark_theme() -> (c: Self)
        ensures
            is_dark_ipc_config(c),
    {
        let c = IpcThemeConfig {
            primary_rgb: [20, 20, 25],
            accent_rgb: [100, 180, 255],
            transparency_bits: 0x3f733333,
            border_iridescence: 0,
            background_rgb: [15, 15, 20],
            foreground_rgb: [240, 240, 255],
            is_dark_mode: 1,
            version: 1,
        };
        assert(c.primary_rgb@ =~= seq![20u8, 20u8, 25u8]);
        assert(c.accent_rgb@ =~= seq![100u8, 180u8, 255u8]);
        assert(c.background_rgb@ =~= seq![15u8, 15u8, 20u8]);
        assert(c.foreground_rgb@ =~= seq![240u8, 240u8, 255u8]);
        c
    }

    /// Frosted white theme: light background with a subtle blue accent.
    pub fn light_theme() -> (c: Self)
        ensures
            is_light_ipc_config(c),
    {
        let c = IpcThemeConfig {
            primary_rgb: [245, 245, 250],
            accent_rgb: [100, 150, 220],
            transparency_bits: 0x3f6b851f,
            border_iridescence: 0,
            background_rgb: [255, 255, 255],
            foreground_rgb: [30, 30, 40],
            is_dark_mode: 0,
            version: 1,
        };
        assert(c.primary_rgb@ =~= seq![245u8, 245u8, 250u8]);
        assert(c.accent_rgb@ =~= seq![100u8, 150u8, 220u8]);
        assert(c.background_rgb@ =~= seq![255u8, 255u8, 255u8]);
        assert(c.foreground_rgb@ =~= seq![30u8, 30u8, 40u8]);
        c
    }

    /// The 24-byte shared-memory record of this configuration.
    pub fn to_bytes(&self) -> (bytes: Vec<u8>)
        ensures
            bytes@ == ipc_config_bytes(*self),
    {
        encode_record(
            self.primary_rgb,
            self.accent_rgb,
            self.transparency_bits,
            self.border_iridescence,
            self.background_rgb,
            self.foreground_rgb,
            self.is_dark_mode,
            self.version,
        )
    }
}

/// Theme configuration as the injected DLL reads it from shared memory.
#[derive(Debug, Clone, Copy)]
pub struct ThemeConfig {
    pub primary_rgb: [u8; 3],
    pub accent_rgb: [u8; 3],
    /// IEEE-754 bits of the transparency level, 0.0 (clear) to 1.0 (opaque).
    pub transparency_bits: u32,
    pub border_iridescence: u8,
    pub background_rgb: [u8; 3],
    pub foreground_rgb: [u8; 3],
    pub is_dark_mode: u8,
    pub version: u32,
}

/// Whether the DLL-side configuration `c` holds the fields of `bytes`.
pub open spec fn theme_config_read_from(c: ThemeConfig, bytes: Seq<u8>) -> bool {
    &&& c.primary_rgb@ == bytes.subrange(0, 3)
    &&& c.accent_rgb@ == bytes.subrange(3, 6)
    &&& c.transparency_bits == u32_at(bytes, 8)
    &&& c.border_iridescence == bytes[12]
    &&& c.background_rgb@ == bytes.subrange(13, 16)
    &&& c.foreground_rgb@ == bytes.subrange(16, 19)
    &&& c.is_dark_mode == bytes[19]
    &&& c.version == u32_at(bytes, 20)
}

impl ThemeConfig {
    /// Reads a configuration from the start of a shared-memory view; `None`
    /// when the view holds fewer than 24 bytes.
    pub fn from_bytes(bytes: &[u8]) -> (r: Option<Self>)
        ensures
            r is Some <==> bytes@.len() >= 24,
            r matches Some(c) ==> theme_config_read_from(c, bytes@),
    {
        if bytes.len() < THEME_RECORD_LEN {
            return None;
        }
        Some(ThemeConfig {
            primary_rgb: read_rgb(bytes, 0),
            accent_rgb: read_rgb(bytes, 3),
            transparency_bits: read_le32(bytes, 8),
            border_iridescence: bytes[12],
            background_rgb: read_rgb(bytes, 13),
            foreground_rgb: read_rgb(bytes, 16),
            is_dark_mode: bytes[19],
            version: read_le32(bytes, 20),
        })
    }
}

/// What the host writes, the host reads back unchanged.
pub proof fn law_injected_theme_roundtrip(t: InjectedTheme)
    ensures
        injected_theme_bytes(t).len() == 24,
        injected_theme_is(
            t,
            injected_theme_bytes(t).subrange(0, 3),
            injected_theme_bytes(t).subrange(3, 6),
            u32_at(injected_theme_bytes(t), 8) as u32,
            injected_theme_bytes(t)[12] == 1,
            injected_theme_bytes(t).subrange(13, 16),
            injected_theme_bytes(t).subrange(16, 19),
            injected_theme_bytes(t)[19] == 1,
            u32_at(injected_theme_bytes(t), 20) as u32,
        ),
        (injected_theme_bytes(t)[12] == 0 || injected_theme_bytes(t)[12] == 1),
        (injected_theme_bytes(t)[19] == 0 || injected_theme_bytes(t)[19] == 1),
{
    lemma_record_fields(
        t.primary_rgb@,
        t.accent_rgb@,
        t.transparency_bits,
        flag_byte(t.border_iridescence),
        t.background_rgb@,
        t.foreground_rgb@,
        flag_byte(t.is_dark_mode),
        t.version,
    );
}

/// What the host writes as an [`IpcThemeConfig`], the DLL reads as a
/// [`ThemeConfig`] with the same fields: the two layouts agree byte for byte.
pub proof fn law_host_config_read_by_dll(host: IpcThemeConfig, dll: ThemeConfig)
    requires
        theme_config_read_from(dll, ipc_config_bytes(host)),
    ensures
        dll.primary_rgb@ == host.primary_rgb@,
        dll.accent_rgb@ == host.accent_rgb@,
        dll.transparency_bits == host.transparency_bits,
        dll.border_iridescence == host.border_iridescence,
        dll.background_rgb@ == host.background_rgb@,
        dll.foreground_rgb@ == host.foreground_rgb@,
        dll.is_dark_mode == host.is_dark_mode,
        dll.version == host.version,
{
    lemma_record_fields(
        host.primary_rgb@,
        host.accent_rgb@,
        host.transparency_bits,
        host.border_iridescence,
        host.background_rgb@,
        host.foreground_rgb@,
        host.is_dark_mode,
        host.version,
    );
}

/// The DLL reads the host's [`InjectedTheme`] record with its flags as 0 or 1.
pub proof fn law_injected_theme_read_by_dll(t: InjectedTheme, dll: ThemeConfig)
    requires
        theme_config_read_from(dll, injected_theme_bytes(t)),
    ensures
        dll.primary_rgb@ == t.primary_rgb@,
        dll.accent_rgb@ == t.accent_rgb@,
        dll.transparency_bits == t.transparency_bits,
        dll.border_iridescence == flag_byte(t.border_iridescence),
        dll.background_rgb@ == t.background_rgb@,
        dll.foreground_rgb@ == t.foreground_rgb@,
        dll.is_dark_mode == flag_byte(t.is_dark_mode),
        dll.version == t.version,
{
    lemma_record_fields(
        t.primary_rgb@,
        t.accent_rgb@,
        t.transparency_bits,
        flag_byte(t.border_iridescence),
        t.background_rgb@,
        t.foreground_rgb@,
        flag_byte(t.is_dark_mode),
        t.version,
    );
}

} // verus!
