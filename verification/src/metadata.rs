use vstd::prelude::*;

use crate::bytes::{bytes_eq, copy_bytes, copy_range, push_bytes};
use crate::jsonfmt::{
    push_json_string, spec_escape_byte, spec_hex_digit, spec_json_escaped, spec_json_string,
};
use crate::text::{
    colon_space, comma_newline, default_pack_version, indent2, json_null, key_pixi_pack_version,
    key_platform, key_version, msg_platform_mismatch, msg_unsupported_version, spec_colon_space,
    spec_comma_newline, spec_default_pack_version, spec_indent2, spec_json_null,
    spec_key_pixi_pack_version, spec_key_platform, spec_key_version, spec_msg_platform_mismatch,
    spec_msg_unsupported_version,
};

verus! {

/// The metadata of a pack: the pack format version, the version of the tool
/// that produced it (when known), and the platform the pack was created for.
/// All three are kept as byte strings.
#[derive(Debug)]
pub struct PixiPackMetadata {
    pub version: Vec<u8>,
    pub pixi_pack_version: Option<Vec<u8>>,
    pub platform: Vec<u8>,
}

/// Mathematical model of `PixiPackMetadata`.
#[verifier::ext_equal]
pub ghost struct PixiPackMetadataModel {
    pub version: Seq<u8>,
    pub pixi_pack_version: Option<Seq<u8>>,
    pub platform: Seq<u8>,
}

impl View for PixiPackMetadata {
    type V = PixiPackMetadataModel;

    open spec fn view(&self) -> PixiPackMetadataModel {
        PixiPackMetadataModel {
            version: self.version@,
            pixi_pack_version: match self.pixi_pack_version {
                Some(ref v) => Some(v@),
                None => None,
            },
            platform: self.platform@,
        }
    }
}

/// Why a pack's metadata was rejected at unpack time.
#[derive(Debug)]
pub enum MetadataError {
    /// The pack format version is not the version this implementation
    /// understands; carries the offending version string.
    UnsupportedVersion { version: Vec<u8> },
    /// The pack was created for a platform other than the host's; carries
    /// both platform strings.
    PlatformMismatch { pack_platform: Vec<u8>, host_platform: Vec<u8> },
}

impl MetadataError {
    /// The single human-readable message for this error.
    pub fn message_bytes(&self) -> (r: Vec<u8>)
        ensures
            self is UnsupportedVersion ==> r@ == spec_msg_unsupported_version()
                + self->UnsupportedVersion_version@,
            self is PlatformMismatch ==> r@ == spec_msg_platform_mismatch(),
    {
        match self {
            MetadataError::UnsupportedVersion { version } => {
                let mut out = msg_unsupported_version();
                push_bytes(&mut out, version.as_slice());
                out
            },
            MetadataError::PlatformMismatch { .. } => msg_platform_mismatch(),
        }
    }
}

/// Validate a pack's metadata against the host: the pack format version must
/// be the supported one, and the platform must equal the host's platform.
/// The version is checked first, as it decides whether the rest of the
/// metadata can be trusted at all.
pub fn validate_metadata(meta: &PixiPackMetadata, host_platform: &[u8]) -> (r: Result<
    (),
    MetadataError,
>)
    ensures
        r is Ok <==> meta@.version == spec_default_pack_version() && meta@.platform
            == host_platform@,
        meta@.version != spec_default_pack_version() ==> (r matches Err(
            MetadataError::UnsupportedVersion { version },
        ) && version@ == meta@.version),
        meta@.version == spec_default_pack_version() && meta@.platform != host_platform@ ==> (
        r matches Err(MetadataError::PlatformMismatch { pack_platform, host_platform: h })
            && pack_platform@ == meta@.platform && h@ == host_platform@),
{
    let supported = default_pack_version();
    if !bytes_eq(meta.version.as_slice(), supported.as_slice()) {
        return Err(MetadataError::UnsupportedVersion { version: meta.version.clone() });
    }
    if !bytes_eq(meta.platform.as_slice(), host_platform) {
        return Err(
            MetadataError::PlatformMismatch {
                pack_platform: meta.platform.clone(),
                host_platform: copy_bytes(host_platform),
            },
        );
    }
    Ok(())
}

/// The metadata file's text: a JSON object holding the pack format version,
/// the producing tool's version (or `null`), and the target platform, in that
/// order, one field per line.
pub open spec fn spec_render_metadata(m: PixiPackMetadataModel) -> Seq<u8> {
    seq![0x7bu8, 0x0au8] + spec_indent2() + spec_json_string(spec_key_version())
        + spec_colon_space() + spec_json_string(m.version) + spec_comma_newline() + spec_indent2()
        + spec_json_string(spec_key_pixi_pack_version()) + spec_colon_space() + (match m
        .pixi_pack_version {
        Some(v) => spec_json_string(v),
        None => spec_json_null(),
    }) + spec_comma_newline() + spec_indent2() + spec_json_string(spec_key_platform())
        + spec_colon_space() + spec_json_string(m.platform) + seq![0x0au8, 0x7du8]
}

/// Render the metadata file.
pub fn render_metadata(m: &PixiPackMetadata) -> (r: Vec<u8>)
    ensures
        r@ == spec_render_metadata(m@),
{
    let mut out: Vec<u8> = Vec::new();
    out.push(0x7bu8);
    out.push(0x0au8);
    let indent = indent2();
    let colon = colon_space();
    let comma = comma_newline();
    push_bytes(&mut out, indent.as_slice());
    let key = key_version();
    push_json_string(&mut out, key.as_slice());
    push_bytes(&mut out, colon.as_slice());
    push_json_string(&mut out, m.version.as_slice());
    push_bytes(&mut out, comma.as_slice());
    push_bytes(&mut out, indent.as_slice());
    let key = key_pixi_pack_version();
    push_json_string(&mut out, key.as_slice());
    push_bytes(&mut out, colon.as_slice());
    match &m.pixi_pack_version {
        Some(v) => push_json_string(&mut out, v.as_slice()),
        None => {
            let n = json_null();
            push_bytes(&mut out, n.as_slice());
        },
    }
    push_bytes(&mut out, comma.as_slice());
    push_bytes(&mut out, indent.as_slice());
    let key = key_platform();
    push_json_string(&mut out, key.as_slice());
    push_bytes(&mut out, colon.as_slice());
    push_json_string(&mut out, m.platform.as_slice());
    out.push(0x0au8);
    out.push(0x7du8);
    proof {
        assert(out@ =~= spec_render_metadata(m@));
    }
    out
}

/// Whether a byte is JSON whitespace.
pub open spec fn spec_is_ws(b: u8) -> bool {
    b == 0x20 || b == 0x09 || b == 0x0a || b == 0x0d
}

/// The first non-whitespace position at or after `i`.
pub open spec fn spec_skip_ws(s: Seq<u8>, i: int) -> int
    decreases s.len() - i,
{
    if i < 0 || i >= s.len() {
        i
    } else if spec_is_ws(s[i]) {
        spec_skip_ws(s, i + 1)
    } else {
        i
    }
}

/// Skipping whitespace lands at or after the start, at a non-whitespace
/// byte or the end.
pub proof fn lemma_skip_ws(s: Seq<u8>, i: int)
    requires
        0 <= i <= s.len(),
    ensures
        i <= spec_skip_ws(s, i) <= s.len(),
        spec_skip_ws(s, i) < s.len() ==> !spec_is_ws(s[spec_skip_ws(s, i)]),
    decreases s.len() - i,
{
    if i < s.len() && spec_is_ws(s[i]) {
        lemma_skip_ws(s, i + 1);
    }
}

/// The byte an escape character stands for, or nothing for an escape this
/// format does not use.
pub open spec fn spec_unescape_char(c: u8) -> Option<u8> {
    if c == 0x22 {
        Some(0x22u8)
    } else if c == 0x5c {
        Some(0x5cu8)
    } else if c == 0x2f {
        Some(0x2fu8)
    } else if c == 0x62 {
        Some(0x08u8)
    } else if c == 0x66 {
        Some(0x0cu8)
    } else if c == 0x6e {
        Some(0x0au8)
    } else if c == 0x72 {
        Some(0x0du8)
    } else if c == 0x74 {
        Some(0x09u8)
    } else {
        None
    }
}

/// The value of a lower-case hex digit.
pub open spec fn spec_hex_val(c: u8) -> Option<int> {
    if 0x30 <= c <= 0x39 {
        Some((c - 0x30) as int)
    } else if 0x61 <= c <= 0x66 {
        Some((10 + (c - 0x61)) as int)
    } else {
        None
    }
}

/// The body of a JSON string from position `i` (just past the opening
/// quote): the decoded bytes and the position just past the closing quote.
/// Escapes cover the short forms and `\u00XX`; raw control bytes are
/// rejected.
pub open spec fn spec_parse_string_body(s: Seq<u8>, i: int) -> Option<(Seq<u8>, int)>
    decreases s.len() - i,
{
    if i < 0 || i >= s.len() {
        None
    } else if s[i] == 0x22 {
        Some((seq![], i + 1))
    } else if s[i] == 0x5c {
        if i + 1 < s.len() && spec_unescape_char(s[i + 1]) is Some {
            match spec_parse_string_body(s, i + 2) {
                Some((rest, j)) => Some((seq![spec_unescape_char(s[i + 1])->0] + rest, j)),
                None => None,
            }
        } else if i + 5 < s.len() && s[i + 1] == 0x75 && s[i + 2] == 0x30 && s[i + 3] == 0x30
            && spec_hex_val(s[i + 4]) is Some && spec_hex_val(s[i + 5]) is Some {
            match spec_parse_string_body(s, i + 6) {
                Some((rest, j)) => Some(
                    (
                        seq![(spec_hex_val(s[i + 4])->0 * 16 + spec_hex_val(s[i + 5])->0) as u8]
                            + rest,
                        j,
                    ),
                ),
                None => None,
            }
        } else {
            None
        }
    } else if s[i] < 0x20 {
        None
    } else {
        match spec_parse_string_body(s, i + 1) {
            Some((rest, j)) => Some((seq![s[i]] + rest, j)),
            None => None,
        }
    }
}

/// One member value: a string, or `null`. The value and the position after
/// it.
pub open spec fn spec_parse_value(s: Seq<u8>, i: int) -> Option<(Option<Seq<u8>>, int)> {
    if 0 <= i && i + 4 <= s.len() && s.subrange(i, i + 4) == spec_json_null() {
        Some((None, i + 4))
    } else if 0 <= i < s.len() && s[i] == 0x22 {
        match spec_parse_string_body(s, i + 1) {
            Some((v, j)) => Some((Some(v), j)),
            None => None,
        }
    } else {
        None
    }
}

/// The fields gathered while reading the metadata object.
#[verifier::ext_equal]
pub ghost struct MetaFields {
    pub version: Option<Seq<u8>>,
    pub pixi_pack_version: Option<Seq<u8>>,
    pub platform: Option<Seq<u8>>,
}

/// One gathered member folded into the fields: the three known keys must be
/// strings (the tool version may also be `null`) and must not repeat;
/// unknown keys are ignored.
pub open spec fn spec_meta_field(f: MetaFields, key: Seq<u8>, value: Option<Seq<u8>>) -> Option<
    MetaFields,
> {
    if key == spec_key_version() {
        match (f.version, value) {
            (None, Some(v)) => Some(MetaFields { version: Some(v), ..f }),
            _ => None,
        }
    } else if key == spec_key_pixi_pack_version() {
        match value {
            Some(v) => if f.pixi_pack_version is None {
                Some(MetaFields { pixi_pack_version: Some(v), ..f })
            } else {
                None
            },
            None => Some(f),
        }
    } else if key == spec_key_platform() {
        match (f.platform, value) {
            (None, Some(v)) => Some(MetaFields { platform: Some(v), ..f }),
            _ => None,
        }
    } else {
        Some(f)
    }
}

/// The members of the metadata object from position `i` on, folded into the
/// fields; `first` says whether a comma must come before the next member.
/// Gives the fields and the position just past the closing brace.
pub open spec fn spec_parse_members(s: Seq<u8>, i: int, f: MetaFields, first: bool) -> Option<
    (MetaFields, int),
>
    decreases s.len() - i,
{
    let j = spec_skip_ws(s, i);
    if i < 0 || j >= s.len() {
        None
    } else if s[j] == 0x7d {
        Some((f, j + 1))
    } else {
        let k = if first {
            j
        } else {
            if s[j] == 0x2c {
                spec_skip_ws(s, j + 1)
            } else {
                s.len() as int
            }
        };
        if k >= s.len() || s[k] != 0x22 {
            None
        } else {
            match spec_parse_string_body(s, k + 1) {
                None => None,
                Some((key, m)) => {
                    let c = spec_skip_ws(s, m);
                    if c >= s.len() || s[c] != 0x3a {
                        None
                    } else {
                        let v = spec_skip_ws(s, c + 1);
                        match spec_parse_value(s, v) {
                            None => None,
                            Some((value, n)) => if i < n <= s.len() {
                                match spec_meta_field(f, key, value) {
                                    None => None,
                                    Some(f2) => spec_parse_members(s, n, f2, false),
                                }
                            } else {
                                None
                            },
                        }
                    }
                },
            }
        }
    }
}

/// What a metadata file's bytes parse to: a single JSON object whose
/// `version` and `platform` fields are strings and whose tool version field
/// is a string or `null`, with nothing but whitespace around it.
pub open spec fn spec_parse_metadata(s: Seq<u8>) -> Option<PixiPackMetadataModel> {
    let i = spec_skip_ws(s, 0);
    if i >= s.len() || s[i] != 0x7b {
        None
    } else {
        match spec_parse_members(s, i + 1, MetaFields { version: None, pixi_pack_version: None, platform: None }, true) {
            None => None,
            Some((f, j)) => if spec_skip_ws(s, j) == s.len() {
                match (f.version, f.platform) {
                    (Some(v), Some(p)) => Some(
                        PixiPackMetadataModel {
                            version: v,
                            pixi_pack_version: f.pixi_pack_version,
                            platform: p,
                        },
                    ),
                    _ => None,
                }
            } else {
                None
            },
        }
    }
}

/// Skip whitespace.
fn skip_ws(s: &[u8], i: usize) -> (r: usize)
    requires
        i <= s@.len(),
    ensures
        r as int == spec_skip_ws(s@, i as int),
        i <= r <= s@.len(),
    decreases s@.len() - i,
{
    if i < s.len() {
        let b = s[i];
        if b == 0x20 || b == 0x09 || b == 0x0a || b == 0x0d {
            return skip_ws(s, i + 1);
        }
    }
    i
}

/// Parse a string body from just past the opening quote.
fn parse_string_body(s: &[u8], start: usize) -> (r: Option<(Vec<u8>, usize)>)
    requires
        start <= s@.len(),
    ensures
        match r {
            Some((v, j)) => spec_parse_string_body(s@, start as int) == Some((v@, j as int))
                && start <= j <= s@.len(),
            None => spec_parse_string_body(s@, start as int) is None,
        },
{
    let mut acc: Vec<u8> = Vec::new();
    let mut i: usize = start;
    loop
        invariant
            start <= i <= s@.len(),
            spec_parse_string_body(s@, start as int) == (match spec_parse_string_body(
                s@,
                i as int,
            ) {
                Some((rest, j)) => Some((acc@ + rest, j)),
                None => Option::<(Seq<u8>, int)>::None,
            }),
        decreases s@.len() - i,
    {
        if i == s.len() {
            return None;
        }
        let b = s[i];
        if b == 0x22 {
            proof {
                assert(acc@ + Seq::<u8>::empty() =~= acc@);
            }
            return Some((acc, i + 1));
        }
        if b == 0x5c {
            if i + 1 < s.len() {
                let c = s[i + 1];
                let direct: Option<u8> = if c == 0x22 {
                    Some(0x22u8)
                } else if c == 0x5c {
                    Some(0x5cu8)
                } else if c == 0x2f {
                    Some(0x2fu8)
                } else if c == 0x62 {
                    Some(0x08u8)
                } else if c == 0x66 {
                    Some(0x0cu8)
                } else if c == 0x6e {
                    Some(0x0au8)
                } else if c == 0x72 {
                    Some(0x0du8)
                } else if c == 0x74 {
                    Some(0x09u8)
                } else {
                    None
                };
                match direct {
                    Some(d) => {
                        let ghost before = acc@;
                        acc.push(d);
                        proof {
                            assert(acc@ =~= before + seq![d]);
                            if spec_parse_string_body(s@, i + 2) is Some {
                                let (rest, j) = spec_parse_string_body(s@, i + 2)->0;
                                assert(before + (seq![d] + rest) =~= acc@ + rest);
                            }
                        }
                        i += 2;
                        continue ;
                    },
                    None => {
                        if s.len() - i > 5 && c == 0x75 && s[i + 2] == 0x30 && s[i + 3] == 0x30 {
                            let h1 = s[i + 4];
                            let h2 = s[i + 5];
                            let v1: Option<u8> = if 0x30 <= h1 && h1 <= 0x39 {
                                Some(h1 - 0x30)
                            } else if 0x61 <= h1 && h1 <= 0x66 {
                                Some(10 + (h1 - 0x61))
                            } else {
                                None
                            };
                            let v2: Option<u8> = if 0x30 <= h2 && h2 <= 0x39 {
                                Some(h2 - 0x30)
                            } else if 0x61 <= h2 && h2 <= 0x66 {
                                Some(10 + (h2 - 0x61))
                            } else {
                                None
                            };
                            match (v1, v2) {
                                (Some(a), Some(bb)) => {
                                    let d = a * 16 + bb;
                                    let ghost before = acc@;
                                    acc.push(d);
                                    proof {
                                        assert(acc@ =~= before + seq![d]);
                                        if spec_parse_string_body(s@, i + 6) is Some {
                                            let (rest, j) = spec_parse_string_body(s@, i + 6)->0;
                                            assert(before + (seq![d] + rest) =~= acc@ + rest);
                                        }
                                    }
                                    i += 6;
                                    continue ;
                                },
                                _ => {
                                    return None;
                                },
                            }
                        }
                        return None;
                    },
                }
            }
            return None;
        }
        if b < 0x20 {
            return None;
        }
        let ghost before = acc@;
        acc.push(b);
        proof {
            assert(acc@ =~= before + seq![b]);
            if spec_parse_string_body(s@, i + 1) is Some {
                let (rest, j) = spec_parse_string_body(s@, i + 1)->0;
                assert(before + (seq![b] + rest) =~= acc@ + rest);
            }
        }
        i += 1;
    }
}

/// Parse a member value: a string or `null`.
fn parse_value(s: &[u8], i: usize) -> (r: Option<(Option<Vec<u8>>, usize)>)
    requires
        i <= s@.len(),
    ensures
        match r {
            Some((v, j)) => spec_parse_value(s@, i as int) == Some(
                (
                    match v {
                        Some(ref b) => Some(b@),
                        None => None,
                    },
                    j as int,
                ),
            ) && i <= j <= s@.len(),
            None => spec_parse_value(s@, i as int) is None,
        },
{
    let null_text = json_null();
    if s.len() - i >= 4 {
        let window = copy_range(s, i, i + 4);
        if bytes_eq(window.as_slice(), null_text.as_slice()) {
            return Some((None, i + 4));
        }
    }
    if i < s.len() && s[i] == 0x22 {
        match parse_string_body(s, i + 1) {
            Some((v, j)) => {
                return Some((Some(v), j));
            },
            None => {
                return None;
            },
        }
    }
    None
}

/// Parse a metadata file: a single JSON object with the pack format
/// version, the producing tool's version, and the platform.
pub fn parse_metadata(s: &[u8]) -> (r: Option<PixiPackMetadata>)
    ensures
        match r {
            Some(m) => spec_parse_metadata(s@) == Some(m@),
            None => spec_parse_metadata(s@) is None,
        },
{
    let mut version: Option<Vec<u8>> = None;
    let mut ppv: Option<Vec<u8>> = None;
    let mut platform: Option<Vec<u8>> = None;
    let i = skip_ws(s, 0);
    if i >= s.len() || s[i] != 0x7b {
        return None;
    }
    let mut pos: usize = i + 1;
    let mut first = true;
    let ghost fields0 = MetaFields { version: None, pixi_pack_version: None, platform: None };
    loop
        invariant
            pos <= s@.len(),
            spec_parse_members(s@, i + 1, fields0, true) == spec_parse_members(
                s@,
                pos as int,
                MetaFields {
                    version: match version {
                        Some(ref v) => Some(v@),
                        None => None,
                    },
                    pixi_pack_version: match ppv {
                        Some(ref v) => Some(v@),
                        None => None,
                    },
                    platform: match platform {
                        Some(ref v) => Some(v@),
                        None => None,
                    },
                },
                first,
            ),
        decreases s@.len() - pos + 1,
    {
        let ghost fcur = MetaFields {
            version: match version {
                Some(ref v) => Some(v@),
                None => None,
            },
            pixi_pack_version: match ppv {
                Some(ref v) => Some(v@),
                None => None,
            },
            platform: match platform {
                Some(ref v) => Some(v@),
                None => None,
            },
        };
        let j = skip_ws(s, pos);
        if j >= s.len() {
            return None;
        }
        if s[j] == 0x7d {
            // the object is closed; nothing but whitespace may follow
            let tail = skip_ws(s, j + 1);
            if tail != s.len() {
                return None;
            }
            let v = match version {
                Some(v) => v,
                None => {
                    return None;
                },
            };
            let p = match platform {
                Some(p) => p,
                None => {
                    return None;
                },
            };
            return Some(PixiPackMetadata { version: v, pixi_pack_version: ppv, platform: p });
        }
        let k = if first {
            j
        } else {
            if s[j] == 0x2c {
                skip_ws(s, j + 1)
            } else {
                return None;
            }
        };
        if k >= s.len() || s[k] != 0x22 {
            return None;
        }
        let (key, m) = match parse_string_body(s, k + 1) {
            Some(km) => km,
            None => {
                return None;
            },
        };
        let c = skip_ws(s, m);
        if c >= s.len() || s[c] != 0x3a {
            return None;
        }
        let v = skip_ws(s, c + 1);
        let (value, n) = match parse_value(s, v) {
            Some(vn) => vn,
            None => {
                return None;
            },
        };
        if n <= pos {
            return None;
        }
        let ghost value_model: Option<Seq<u8>> = match value {
            Some(ref b) => Some(b@),
            None => None,
        };
        let kv = key_version();
        let kp = key_platform();
        let kt = key_pixi_pack_version();
        if bytes_eq(key.as_slice(), kv.as_slice()) {
            if version.is_some() {
                return None;
            }
            match value {
                Some(vv) => {
                    version = Some(vv);
                },
                None => {
                    return None;
                },
            }
        } else if bytes_eq(key.as_slice(), kt.as_slice()) {
            match value {
                Some(vv) => {
                    if ppv.is_some() {
                        return None;
                    }
                    ppv = Some(vv);
                },
                None => {},
            }
        } else if bytes_eq(key.as_slice(), kp.as_slice()) {
            if platform.is_some() {
                return None;
            }
            match value {
                Some(vv) => {
                    platform = Some(vv);
                },
                None => {
                    return None;
                },
            }
        }
        proof {
            let f2 = spec_meta_field(fcur, key@, value_model)->0;
            assert(f2 =~~= MetaFields {
                version: match version {
                    Some(ref v) => Some(v@),
                    None => None,
                },
                pixi_pack_version: match ppv {
                    Some(ref v) => Some(v@),
                    None => None,
                },
                platform: match platform {
                    Some(ref v) => Some(v@),
                    None => None,
                },
            });
        }
        pos = n;
        first = false;
    }
}

/// Skipping whitespace is transparent to one whitespace byte.
proof fn lemma_skip_ws_step(s: Seq<u8>, p: int)
    requires
        0 <= p < s.len(),
        spec_is_ws(s[p]),
    ensures
        spec_skip_ws(s, p) == spec_skip_ws(s, p + 1),
{
}

/// Skipping whitespace stops at a non-whitespace byte or the end.
proof fn lemma_skip_ws_stop(s: Seq<u8>, p: int)
    requires
        p >= 0,
        p >= s.len() || !spec_is_ws(s[p]),
    ensures
        spec_skip_ws(s, p) == p,
{
}

/// A byte string without quotes, backslashes or control bytes is its own
/// escaped text.
proof fn lemma_escaped_plain(x: Seq<u8>)
    requires
        forall|i: int| 0 <= i < x.len() ==> x[i] != 0x22u8 && x[i] != 0x5cu8 && x[i] >= 0x20u8,
    ensures
        spec_json_escaped(x) == x,
    decreases x.len(),
{
    if x.len() == 0 {
        assert(spec_json_escaped(x) =~= x);
    } else {
        assert(forall|i: int| 0 <= i < x.skip(1).len() ==> #[trigger] x.skip(1)[i] == x[i + 1]);
        lemma_escaped_plain(x.skip(1));
        assert(spec_escape_byte(x[0]) =~= seq![x[0]]);
        assert(spec_json_escaped(x) =~= x);
    }
}

/// Reading a string body from just past an opening quote gives back exactly
/// the bytes whose escaped text sits there, and stops just past the closing
/// quote.
#[verifier::rlimit(100)]
proof fn lemma_string_body_round_trip(s: Seq<u8>, i: int, x: Seq<u8>)
    requires
        0 <= i,
        i + spec_json_escaped(x).len() + 1 <= s.len(),
        s.subrange(i, i + spec_json_escaped(x).len()) == spec_json_escaped(x),
        s[i + spec_json_escaped(x).len()] == 0x22u8,
    ensures
        spec_parse_string_body(s, i) == Some((x, i + spec_json_escaped(x).len() + 1)),
    decreases x.len(),
{
    let e = spec_json_escaped(x);
    if x.len() == 0 {
        assert(e =~= Seq::<u8>::empty());
        assert(s[i] == 0x22u8);
    } else {
        let b = x[0];
        let eb = spec_escape_byte(b);
        let e1 = spec_json_escaped(x.skip(1));
        assert(e == eb + e1);
        assert forall|m: int| 0 <= m < eb.len() implies #[trigger] s[i + m] == eb[m] by {
            assert(s.subrange(i, i + e.len())[m] == s[i + m]);
            assert(e[m] == eb[m]);
        }
        let i1 = i + eb.len();
        assert forall|m: int|
            0 <= m < e1.len() implies #[trigger] s.subrange(i1, i1 + e1.len())[m] == e1[m] by {
            assert(s.subrange(i1, i1 + e1.len())[m] == s[i1 + m]);
            assert(s.subrange(i, i + e.len())[eb.len() + m] == s[i1 + m]);
            assert(e[eb.len() + m] == e1[m]);
        }
        assert(s.subrange(i1, i1 + e1.len()) =~= e1);
        assert(s[i1 + e1.len()] == 0x22u8);
        lemma_string_body_round_trip(s, i1, x.skip(1));
        if b == 0x22u8 || b == 0x5cu8 || b == 0x08u8 || b == 0x0cu8 || b == 0x0au8 || b == 0x0du8
            || b == 0x09u8 {
            assert(eb.len() == 2 && eb[0] == 0x5cu8);
            assert(s[i + 0] == eb[0] && s[i + 1] == eb[1]);
            assert(s[i] == 0x5cu8);
            assert(spec_unescape_char(eb[1]) == Some(b));
            assert(seq![b] + x.skip(1) =~= x);
        } else if b < 0x20u8 {
            assert(eb.len() == 6);
            assert(s[i + 0] == eb[0] && s[i + 1] == eb[1] && s[i + 2] == eb[2] && s[i + 3]
                == eb[3] && s[i + 4] == eb[4] && s[i + 5] == eb[5]);
            assert(s[i] == 0x5cu8 && s[i + 1] == 0x75u8 && s[i + 2] == 0x30u8 && s[i + 3]
                == 0x30u8);
            assert(s[i + 4] == spec_hex_digit(b as int / 16));
            assert(s[i + 5] == spec_hex_digit(b as int % 16));
            assert(spec_unescape_char(0x75u8) is None);
            assert(spec_hex_val(spec_hex_digit(b as int / 16)) == Some(b as int / 16));
            assert(spec_hex_val(spec_hex_digit(b as int % 16)) == Some(b as int % 16));
            assert((b as int / 16) * 16 + b as int % 16 == b as int);
            assert(seq![b] + x.skip(1) =~= x);
        } else {
            assert(eb =~= seq![b]);
            assert(s[i + 0] == eb[0]);
            assert(s[i] == b);
            assert(b != 0x22u8 && b != 0x5cu8 && !(b < 0x20u8));
            assert(seq![b] + x.skip(1) =~= x);
        }
    }
}

/// The three field keys hold only plain bytes.
proof fn lemma_keys_plain()
    ensures
        spec_json_escaped(spec_key_version()) == spec_key_version(),
        spec_json_escaped(spec_key_pixi_pack_version()) == spec_key_pixi_pack_version(),
        spec_json_escaped(spec_key_platform()) == spec_key_platform(),
{
    assert(forall|i: int|
        0 <= i < spec_key_version().len() ==> #[trigger] spec_key_version()[i] != 0x22u8
            && spec_key_version()[i] != 0x5cu8 && spec_key_version()[i] >= 0x20u8);
    lemma_escaped_plain(spec_key_version());
    assert(forall|i: int|
        0 <= i < spec_key_pixi_pack_version().len() ==> #[trigger] spec_key_pixi_pack_version()[i]
            != 0x22u8 && spec_key_pixi_pack_version()[i] != 0x5cu8
            && spec_key_pixi_pack_version()[i] >= 0x20u8);
    lemma_escaped_plain(spec_key_pixi_pack_version());
    assert(forall|i: int|
        0 <= i < spec_key_platform().len() ==> #[trigger] spec_key_platform()[i] != 0x22u8
            && spec_key_platform()[i] != 0x5cu8 && spec_key_platform()[i] >= 0x20u8);
    lemma_escaped_plain(spec_key_platform());
}

/// The empty field record the member walk starts from.
spec fn spec_mrt_f0() -> MetaFields {
    MetaFields { version: None, pixi_pack_version: None, platform: None }
}

/// Where the second member starts in a rendered metadata file.
spec fn spec_mrt_q1(m: PixiPackMetadataModel) -> int {
    17 + spec_json_escaped(m.version).len() as int
}

/// Where the third member starts in a rendered metadata file.
spec fn spec_mrt_q2(m: PixiPackMetadataModel) -> int {
    spec_mrt_q1(m) + 25 + (match m.pixi_pack_version {
        Some(pv) => spec_json_escaped(pv).len() as int + 2,
        None => 4,
    })
}

/// Where the closing line starts in a rendered metadata file.
spec fn spec_mrt_q3(m: PixiPackMetadataModel) -> int {
    spec_mrt_q2(m) + 18 + spec_json_escaped(m.platform).len() as int
}

/// Reading the version member of a rendered metadata file.
#[verifier::rlimit(100)]
proof fn lemma_mrt_member1(m: PixiPackMetadataModel)
    ensures
        spec_parse_members(spec_render_metadata(m), 1, spec_mrt_f0(), true) == spec_parse_members(
            spec_render_metadata(m),
            spec_mrt_q1(m),
            MetaFields { version: Some(m.version), pixi_pack_version: None, platform: None },
            false,
        ),
{
    let s = spec_render_metadata(m);
    lemma_keys_plain();
    let k1 = spec_key_version();
    let ev = spec_json_escaped(m.version);
    let nv = ev.len() as int;
    let f0 = spec_mrt_f0();
    assert(s[1] == 0x0au8 && s[2] == 0x20u8 && s[3] == 0x20u8 && s[4] == 0x22u8);
    lemma_skip_ws_step(s, 1);
    lemma_skip_ws_step(s, 2);
    lemma_skip_ws_step(s, 3);
    lemma_skip_ws_stop(s, 4);
    assert(spec_skip_ws(s, 1) == 4);
    assert(s.subrange(5, 12) =~= spec_json_escaped(k1));
    assert(s[12] == 0x22u8);
    lemma_string_body_round_trip(s, 5, k1);
    assert(s[13] == 0x3au8 && s[14] == 0x20u8 && s[15] == 0x22u8);
    lemma_skip_ws_stop(s, 13);
    lemma_skip_ws_step(s, 14);
    lemma_skip_ws_stop(s, 15);
    assert(spec_skip_ws(s, 14) == 15);
    assert(s.subrange(15, 19)[0] == 0x22u8);
    assert(s.subrange(15, 19) != spec_json_null());
    assert(s.subrange(16, 16 + nv) =~= ev);
    assert(s[16 + nv] == 0x22u8);
    lemma_string_body_round_trip(s, 16, m.version);
    let q1 = 17 + nv;
    assert(spec_parse_value(s, 15) == Some((Some(m.version), q1)));
    let f1 = MetaFields { version: Some(m.version), pixi_pack_version: None, platform: None };
    assert(spec_meta_field(f0, k1, Some(m.version)) == Some(f1));
}

/// Reading the tool-version member of a rendered metadata file.
#[verifier::rlimit(100)]
proof fn lemma_mrt_member2(m: PixiPackMetadataModel)
    ensures
        spec_parse_members(
            spec_render_metadata(m),
            spec_mrt_q1(m),
            MetaFields { version: Some(m.version), pixi_pack_version: None, platform: None },
            false,
        ) == spec_parse_members(
            spec_render_metadata(m),
            spec_mrt_q2(m),
            MetaFields {
                version: Some(m.version),
                pixi_pack_version: m.pixi_pack_version,
                platform: None,
            },
            false,
        ),
{
    let s = spec_render_metadata(m);
    lemma_keys_plain();
    let k1 = spec_key_version();
    let k2 = spec_key_pixi_pack_version();
    let q1 = spec_mrt_q1(m);
    let f1 = MetaFields { version: Some(m.version), pixi_pack_version: None, platform: None };
    assert(s[q1] == 0x2cu8 && s[q1 + 1] == 0x0au8 && s[q1 + 2] == 0x20u8 && s[q1 + 3] == 0x20u8
        && s[q1 + 4] == 0x22u8);
    lemma_skip_ws_stop(s, q1);
    lemma_skip_ws_step(s, q1 + 1);
    lemma_skip_ws_step(s, q1 + 2);
    lemma_skip_ws_step(s, q1 + 3);
    lemma_skip_ws_stop(s, q1 + 4);
    assert(spec_skip_ws(s, q1 + 1) == q1 + 4);
    assert(s.subrange(q1 + 5, q1 + 22) =~= spec_json_escaped(k2));
    assert(s[q1 + 22] == 0x22u8);
    lemma_string_body_round_trip(s, q1 + 5, k2);
    assert(s[q1 + 23] == 0x3au8 && s[q1 + 24] == 0x20u8);
    lemma_skip_ws_stop(s, q1 + 23);
    lemma_skip_ws_step(s, q1 + 24);
    let v2 = q1 + 25;
    let q2: int = match m.pixi_pack_version {
        Some(pv) => {
            let ep = spec_json_escaped(pv);
            let np = ep.len() as int;
            assert(s[v2] == 0x22u8);
            lemma_skip_ws_stop(s, v2);
            assert(s.subrange(v2, v2 + 4)[0] == 0x22u8);
            assert(s.subrange(v2, v2 + 4) != spec_json_null());
            assert(s.subrange(v2 + 1, v2 + 1 + np) =~= ep);
            assert(s[v2 + 1 + np] == 0x22u8);
            lemma_string_body_round_trip(s, v2 + 1, pv);
            assert(spec_parse_value(s, v2) == Some((Some(pv), v2 + 2 + np)));
            v2 + 2 + np
        },
        None => {
            assert(s[v2] == 0x6eu8);
            lemma_skip_ws_stop(s, v2);
            assert(s.subrange(v2, v2 + 4) =~= spec_json_null());
            assert(spec_parse_value(s, v2) == Some((None::<Seq<u8>>, v2 + 4)));
            v2 + 4
        },
    };
    assert(q2 == spec_mrt_q2(m));
    assert(k2 != k1 && k2.len() == 17);
    let f2 = MetaFields {
        version: Some(m.version),
        pixi_pack_version: m.pixi_pack_version,
        platform: None,
    };
    assert(spec_meta_field(f1, k2, m.pixi_pack_version) == Some(f2)) by {
        match m.pixi_pack_version {
            Some(pv) => {
                assert(spec_meta_field(f1, k2, Some(pv)) =~~= Some(f2));
            },
            None => {
                assert(spec_meta_field(f1, k2, None::<Seq<u8>>) =~~= Some(f2));
            },
        }
    }
}

/// Reading the platform member and the closing brace of a rendered
/// metadata file.
#[verifier::rlimit(100)]
proof fn lemma_mrt_member3(m: PixiPackMetadataModel)
    ensures
        spec_parse_members(
            spec_render_metadata(m),
            spec_mrt_q2(m),
            MetaFields {
                version: Some(m.version),
                pixi_pack_version: m.pixi_pack_version,
                platform: None,
            },
            false,
        ) == Some(
            (
                MetaFields {
                    version: Some(m.version),
                    pixi_pack_version: m.pixi_pack_version,
                    platform: Some(m.platform),
                },
                spec_mrt_q3(m) + 2,
            ),
        ),
        spec_render_metadata(m).len() == spec_mrt_q3(m) + 2,
{
    let s = spec_render_metadata(m);
    lemma_keys_plain();
    let k1 = spec_key_version();
    let k2 = spec_key_pixi_pack_version();
    let k3 = spec_key_platform();
    let ef = spec_json_escaped(m.platform);
    let nf = ef.len() as int;
    let q2 = spec_mrt_q2(m);
    let f2 = MetaFields {
        version: Some(m.version),
        pixi_pack_version: m.pixi_pack_version,
        platform: None,
    };
    assert(s[q2] == 0x2cu8 && s[q2 + 1] == 0x0au8 && s[q2 + 2] == 0x20u8 && s[q2 + 3] == 0x20u8
        && s[q2 + 4] == 0x22u8);
    lemma_skip_ws_stop(s, q2);
    lemma_skip_ws_step(s, q2 + 1);
    lemma_skip_ws_step(s, q2 + 2);
    lemma_skip_ws_step(s, q2 + 3);
    lemma_skip_ws_stop(s, q2 + 4);
    assert(spec_skip_ws(s, q2 + 1) == q2 + 4);
    assert(s.subrange(q2 + 5, q2 + 13) =~= spec_json_escaped(k3));
    assert(s[q2 + 13] == 0x22u8);
    lemma_string_body_round_trip(s, q2 + 5, k3);
    assert(s[q2 + 14] == 0x3au8 && s[q2 + 15] == 0x20u8 && s[q2 + 16] == 0x22u8);
    lemma_skip_ws_stop(s, q2 + 14);
    lemma_skip_ws_step(s, q2 + 15);
    lemma_skip_ws_stop(s, q2 + 16);
    assert(spec_skip_ws(s, q2 + 15) == q2 + 16);
    assert(s.subrange(q2 + 16, q2 + 20)[0] == 0x22u8);
    assert(s.subrange(q2 + 16, q2 + 20) != spec_json_null());
    assert(s.subrange(q2 + 17, q2 + 17 + nf) =~= ef);
    assert(s[q2 + 17 + nf] == 0x22u8);
    lemma_string_body_round_trip(s, q2 + 17, m.platform);
    let q3 = q2 + 18 + nf;
    assert(spec_parse_value(s, q2 + 16) == Some((Some(m.platform), q3)));
    assert(k3 != k1 && k3 != k2);
    let f3 = MetaFields {
        version: Some(m.version),
        pixi_pack_version: m.pixi_pack_version,
        platform: Some(m.platform),
    };
    assert(spec_meta_field(f2, k3, Some(m.platform)) == Some(f3));
    assert(s[q3] == 0x0au8 && s[q3 + 1] == 0x7du8);
    lemma_skip_ws_step(s, q3);
    lemma_skip_ws_stop(s, q3 + 1);
    assert(spec_skip_ws(s, q3) == q3 + 1);
    assert(s.len() == q3 + 2);
    assert(spec_parse_members(s, q3, f3, false) == Some((f3, q3 + 2)));
}

/// Parsing a rendered metadata file gives back exactly the metadata that
/// was rendered: the library's own artifacts always read back unchanged.
pub proof fn lemma_metadata_round_trip(m: PixiPackMetadataModel)
    ensures
        spec_parse_metadata(spec_render_metadata(m)) == Some(m),
{
    let s = spec_render_metadata(m);
    assert(s[0] == 0x7bu8);
    lemma_skip_ws_stop(s, 0);
    lemma_mrt_member1(m);
    lemma_mrt_member2(m);
    lemma_mrt_member3(m);
    lemma_skip_ws_stop(s, spec_mrt_q3(m) + 2);
    assert(spec_parse_metadata(s) == Some(
        PixiPackMetadataModel {
            version: m.version,
            pixi_pack_version: m.pixi_pack_version,
            platform: m.platform,
        },
    ));
    assert(PixiPackMetadataModel {
        version: m.version,
        pixi_pack_version: m.pixi_pack_version,
        platform: m.platform,
    } =~~= m);
}

} // verus!