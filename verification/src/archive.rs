use vstd::prelude::*;

use crate::bytes::{copy_range, push_bytes};

verus! {

/// The fixed modification time stamp written into every archive header, so
/// that archiving the same tree twice gives identical bytes.
pub const DETERMINISTIC_MTIME: u64 = 1153704088;

/// One entry of an archive: a relative path and either a directory or a file
/// with its contents.
#[derive(Debug)]
pub enum ArchiveEntryData {
    Dir,
    File(Vec<u8>),
}

/// An archive entry.
#[derive(Debug)]
pub struct ArchiveEntry {
    pub path: Vec<u8>,
    pub data: ArchiveEntryData,
}

/// Mathematical model of an archive entry.
#[verifier::ext_equal]
pub ghost struct ArchiveEntryModel {
    pub path: Seq<u8>,
    pub is_dir: bool,
    pub data: Seq<u8>,
}

impl View for ArchiveEntry {
    type V = ArchiveEntryModel;

    open spec fn view(&self) -> ArchiveEntryModel {
        match self.data {
            ArchiveEntryData::Dir => ArchiveEntryModel {
                path: self.path@,
                is_dir: true,
                data: seq![],
            },
            ArchiveEntryData::File(ref d) => ArchiveEntryModel {
                path: self.path@,
                is_dir: false,
                data: d@,
            },
        }
    }
}

impl DeepView for ArchiveEntry {
    type V = ArchiveEntryModel;

    open spec fn deep_view(&self) -> ArchiveEntryModel {
        self.view()
    }
}

/// Well-formedness of one archive entry: the path fits the classic
/// hundred-byte name field and holds no NUL byte, and a file's size fits
/// the twelve-digit octal size field. This codec writes one header block
/// per entry and no long-name extension records, so a longer path is not
/// encodable and is reported, rather than silently truncated; the paths the
/// pack layout produces — a channel or wheel directory, a bucket and a
/// package file name — stay far below the limit.
pub open spec fn wf_entry(e: ArchiveEntryModel) -> bool {
    &&& 0 < e.path.len() <= 100
    &&& forall|i: int| 0 <= i < e.path.len() ==> e.path[i] != 0u8
    &&& e.is_dir ==> e.data.len() == 0
    &&& e.data.len() < 0x200000000
}

/// Well-formedness of a whole entry list.
pub open spec fn wf_entries(s: Seq<ArchiveEntryModel>) -> bool {
    forall|i: int| 0 <= i < s.len() ==> wf_entry(#[trigger] s[i])
}

/// `k` zero bytes.
pub open spec fn spec_zeros(k: int) -> Seq<u8> {
    Seq::new(k as nat, |i: int| 0u8)
}

/// Append `k` zero bytes.
pub fn push_zeros(out: &mut Vec<u8>, k: usize)
    ensures
        final(out)@ == old(out)@ + spec_zeros(k as int),
{
    let mut i: usize = 0;
    while i < k
        invariant
            i <= k,
            out@ == old(out)@ + spec_zeros(i as int),
        decreases k - i,
    {
        out.push(0u8);
        proof {
            assert(out@ =~= old(out)@ + spec_zeros(i + 1));
        }
        i += 1;
    }
}

/// The value `n` as exactly `w` octal digits, zero padded, most significant
/// first; the low digits of `n` when it does not fit.
pub open spec fn spec_octal_digits(n: int, w: int) -> Seq<u8>
    decreases w,
{
    if w <= 0 {
        seq![]
    } else {
        spec_octal_digits(n / 8, w - 1).push((0x30 + n % 8) as u8)
    }
}

/// Append `n` as `w` zero-padded octal digits.
pub fn push_octal(out: &mut Vec<u8>, n: u64, w: usize)
    ensures
        final(out)@ == old(out)@ + spec_octal_digits(n as int, w as int),
    decreases w,
{
    if w == 0 {
        proof {
            assert(final(out)@ =~= old(out)@ + spec_octal_digits(n as int, 0));
        }
        return ;
    }
    push_octal(out, n / 8, w - 1);
    out.push(0x30u8 + (n % 8) as u8);
    proof {
        assert(out@ =~= old(out)@ + spec_octal_digits(n as int, w as int));
    }
}

/// An octal rendering has exactly the requested width.
pub proof fn lemma_octal_digits_len(n: int, w: int)
    requires
        w >= 0,
    ensures
        spec_octal_digits(n, w).len() == w,
    decreases w,
{
    if w > 0 {
        lemma_octal_digits_len(n / 8, w - 1);
    }
}

/// The byte sum of a byte string.
pub open spec fn spec_sum(s: Seq<u8>) -> int
    decreases s.len(),
{
    if s.len() == 0 {
        0
    } else {
        s[0] + spec_sum(s.skip(1))
    }
}

/// Appending a byte adds it to the sum.
pub proof fn lemma_sum_push(s: Seq<u8>, x: u8)
    ensures
        spec_sum(s.push(x)) == spec_sum(s) + x,
    decreases s.len(),
{
    if s.len() == 0 {
        assert(s.push(x).skip(1) =~= Seq::<u8>::empty());
        assert(spec_sum(s.push(x)) == x + spec_sum(Seq::<u8>::empty()));
    } else {
        lemma_sum_push(s.skip(1), x);
        assert(s.push(x).skip(1) =~= s.skip(1).push(x));
        assert(s.push(x)[0] == s[0]);
    }
}

/// An entry's size field value: the file length, zero for a directory.
pub open spec fn spec_entry_size(e: ArchiveEntryModel) -> int {
    if e.is_dir {
        0
    } else {
        e.data.len() as int
    }
}

/// An entry's mode field value: `755` for directories, `644` for files, in
/// octal, as the deterministic header mode fixes them.
pub open spec fn spec_entry_mode(e: ArchiveEntryModel) -> int {
    if e.is_dir {
        0o755
    } else {
        0o644
    }
}

/// An entry's type flag: `5` for directories, `0` for regular files.
pub open spec fn spec_entry_type(e: ArchiveEntryModel) -> u8 {
    if e.is_dir {
        0x35u8
    } else {
        0x30u8
    }
}

/// A numeric header field: the value as zero-padded octal digits closed by a
/// NUL byte.
pub open spec fn spec_octal_field(n: int, w: int) -> Seq<u8> {
    spec_octal_digits(n, w - 1) + seq![0u8]
}

/// The six-byte magic and two-byte version of the header flavour this codec
/// writes.
pub open spec fn spec_header_magic() -> Seq<u8> {
    seq![0x75u8, 0x73u8, 0x74u8, 0x61u8, 0x72u8, 0x20u8, 0x20u8, 0u8]
}

/// A header before its checksum is filled in: the checksum field holds eight
/// spaces, as the checksum itself is defined over exactly these bytes.
#[verifier::opaque]
pub open spec fn spec_header_pre(e: ArchiveEntryModel) -> Seq<u8> {
    e.path + spec_zeros(100 - e.path.len()) + spec_octal_field(spec_entry_mode(e), 8)
        + spec_octal_field(0, 8) + spec_octal_field(0, 8) + spec_octal_field(spec_entry_size(e), 12)
        + spec_octal_field(DETERMINISTIC_MTIME as int, 12) + seq![
        0x20u8,
        0x20u8,
        0x20u8,
        0x20u8,
        0x20u8,
        0x20u8,
        0x20u8,
        0x20u8,
    ] + seq![spec_entry_type(e)] + spec_zeros(100) + spec_header_magic() + spec_zeros(64)
        + spec_octal_field(0, 8) + spec_octal_field(0, 8) + spec_zeros(167)
}

/// A pre-header is 512 bytes long.
pub proof fn lemma_header_pre_len(e: ArchiveEntryModel)
    requires
        wf_entry(e),
    ensures
        spec_header_pre(e).len() == 512,
{
    reveal(spec_header_pre);
    lemma_octal_digits_len(spec_entry_mode(e), 7);
    lemma_octal_digits_len(0, 7);
    lemma_octal_digits_len(spec_entry_size(e), 11);
    lemma_octal_digits_len(DETERMINISTIC_MTIME as int, 11);
}

/// A finished header: the pre-header with the checksum of its own bytes
/// written into the checksum field.
pub open spec fn spec_header(e: ArchiveEntryModel) -> Seq<u8> {
    spec_header_pre(e).subrange(0, 148) + spec_octal_field(spec_sum(spec_header_pre(e)), 8)
        + spec_header_pre(e).subrange(156, 512)
}

/// The padding that follows a file's data: zeros up to the next block
/// boundary.
pub open spec fn spec_pad_len(n: int) -> int {
    if n % 512 == 0 {
        0
    } else {
        512 - n % 512
    }
}

/// The bytes of one entry: its header, then for a file its data padded to a
/// whole number of blocks.
pub open spec fn spec_entry_bytes(e: ArchiveEntryModel) -> Seq<u8> {
    spec_header(e) + (if e.is_dir {
        seq![]
    } else {
        e.data + spec_zeros(spec_pad_len(e.data.len() as int))
    })
}

/// The bytes of a list of entries, in order.
pub open spec fn spec_tar_entries(s: Seq<ArchiveEntryModel>) -> Seq<u8>
    decreases s.len(),
{
    if s.len() == 0 {
        seq![]
    } else {
        spec_entry_bytes(s[0]) + spec_tar_entries(s.skip(1))
    }
}

/// Appending one entry appends its bytes.
pub proof fn lemma_tar_entries_push(s: Seq<ArchiveEntryModel>, x: ArchiveEntryModel)
    ensures
        spec_tar_entries(s.push(x)) == spec_tar_entries(s) + spec_entry_bytes(x),
    decreases s.len(),
{
    if s.len() == 0 {
        assert(s.push(x).skip(1) =~= Seq::<ArchiveEntryModel>::empty());
        assert(s.push(x)[0] == x);
        assert(spec_tar_entries(Seq::<ArchiveEntryModel>::empty()) =~= Seq::<u8>::empty());
        assert(spec_tar_entries(s.push(x)) =~= spec_entry_bytes(x));
        assert(spec_tar_entries(s) + spec_entry_bytes(x) =~= spec_entry_bytes(x));
    } else {
        lemma_tar_entries_push(s.skip(1), x);
        assert(s.push(x).skip(1) =~= s.skip(1).push(x));
        assert(s.push(x)[0] == s[0]);
        assert(spec_entry_bytes(s[0]) + (spec_tar_entries(s.skip(1)) + spec_entry_bytes(x)) =~= (
        spec_entry_bytes(s[0]) + spec_tar_entries(s.skip(1))) + spec_entry_bytes(x));
    }
}

/// A whole archive: every entry's bytes followed by two terminating zero
/// blocks.
pub open spec fn spec_tar(s: Seq<ArchiveEntryModel>) -> Seq<u8> {
    spec_tar_entries(s) + spec_zeros(1024)
}

/// Append the pre-header of one entry.
#[verifier::rlimit(100)]
fn push_header_pre(out: &mut Vec<u8>, e: &ArchiveEntry)
    requires
        wf_entry(e@),
    ensures
        final(out)@ == old(out)@ + spec_header_pre(e@),
{
    push_bytes(out, e.path.as_slice());
    push_zeros(out, 100 - e.path.len());
    let mode: u64 = match e.data {
        ArchiveEntryData::Dir => 0o755,
        ArchiveEntryData::File(_) => 0o644,
    };
    push_octal(out, mode, 7);
    out.push(0u8);
    push_octal(out, 0, 7);
    out.push(0u8);
    push_octal(out, 0, 7);
    out.push(0u8);
    let size: u64 = match &e.data {
        ArchiveEntryData::Dir => 0,
        ArchiveEntryData::File(d) => d.len() as u64,
    };
    push_octal(out, size, 11);
    out.push(0u8);
    push_octal(out, DETERMINISTIC_MTIME, 11);
    out.push(0u8);
    let ghost mid = out@;
    let mut i: usize = 0;
    proof {
        assert(out@ =~= mid + Seq::new(0nat, |j: int| 0x20u8));
    }
    while i < 8
        invariant
            i <= 8,
            out@ == mid + Seq::new(i as nat, |j: int| 0x20u8),
        decreases 8 - i,
    {
        out.push(0x20u8);
        proof {
            assert(out@ =~= mid + Seq::new((i + 1) as nat, |j: int| 0x20u8));
        }
        i += 1;
    }
    let tf: u8 = match e.data {
        ArchiveEntryData::Dir => 0x35,
        ArchiveEntryData::File(_) => 0x30,
    };
    out.push(tf);
    push_zeros(out, 100);
    out.push(0x75u8);
    out.push(0x73u8);
    out.push(0x74u8);
    out.push(0x61u8);
    out.push(0x72u8);
    out.push(0x20u8);
    out.push(0x20u8);
    out.push(0u8);
    push_zeros(out, 64);
    push_octal(out, 0, 7);
    out.push(0u8);
    push_octal(out, 0, 7);
    out.push(0u8);
    push_zeros(out, 167);
    proof {
        reveal(spec_header_pre);
        assert(Seq::new(8 as nat, |j: int| 0x20u8) =~= seq![
            0x20u8,
            0x20u8,
            0x20u8,
            0x20u8,
            0x20u8,
            0x20u8,
            0x20u8,
            0x20u8,
        ]);
        assert(out@ =~= old(out)@ + spec_header_pre(e@));
    }
}

/// Append the finished header of one entry.
fn push_header(out: &mut Vec<u8>, e: &ArchiveEntry)
    requires
        wf_entry(e@),
    ensures
        final(out)@ == old(out)@ + spec_header(e@),
{
    let mut pre: Vec<u8> = Vec::new();
    push_header_pre(&mut pre, e);
    proof {
        assert(pre@ =~= spec_header_pre(e@));
        lemma_header_pre_len(e@);
    }
    // the checksum is the byte sum of the pre-header
    let mut sum: u64 = 0;
    let mut i: usize = 0;
    proof {
        assert(pre@.take(0) =~= Seq::<u8>::empty());
    }
    while i < pre.len()
        invariant
            i <= pre.len(),
            pre@ == spec_header_pre(e@),
            pre@.len() == 512,
            sum == spec_sum(pre@.take(i as int)),
            sum <= 255 * i,
        decreases pre.len() - i,
    {
        proof {
            lemma_sum_push(pre@.take(i as int), pre@[i as int]);
            assert(pre@.take(i + 1) =~= pre@.take(i as int).push(pre@[i as int]));
        }
        sum = sum + pre[i] as u64;
        i += 1;
    }
    proof {
        assert(pre@.take(512) =~= pre@);
    }
    // name through mtime, then the checksum field, then the rest
    let mut j: usize = 0;
    while j < 148
        invariant
            j <= 148,
            pre@ == spec_header_pre(e@),
            pre@.len() == 512,
            out@ == old(out)@ + pre@.subrange(0, j as int),
        decreases 148 - j,
    {
        out.push(pre[j]);
        proof {
            assert(out@ =~= old(out)@ + pre@.subrange(0, j + 1));
        }
        j += 1;
    }
    push_octal(out, sum, 7);
    out.push(0u8);
    let mut k: usize = 156;
    while k < 512
        invariant
            156 <= k <= 512,
            pre@ == spec_header_pre(e@),
            pre@.len() == 512,
            out@ == old(out)@ + pre@.subrange(0, 148) + spec_octal_field(spec_sum(pre@), 8)
                + pre@.subrange(156, k as int),
        decreases 512 - k,
    {
        out.push(pre[k]);
        proof {
            assert(out@ =~= old(out)@ + pre@.subrange(0, 148) + spec_octal_field(
                spec_sum(pre@),
                8,
            ) + pre@.subrange(156, k + 1));
        }
        k += 1;
    }
    proof {
        assert(out@ =~= old(out)@ + spec_header(e@));
    }
}

/// Encode a list of entries as one deterministic archive: each entry's
/// header and padded contents in the given order, closed by two zero blocks.
/// Equal entry lists give byte-identical archives.
pub fn tar_encode(entries: &Vec<ArchiveEntry>) -> (r: Vec<u8>)
    requires
        wf_entries(entries.deep_view()),
    ensures
        r@ == spec_tar(entries.deep_view()),
{
    let mut out: Vec<u8> = Vec::new();
    let mut i: usize = 0;
    proof {
        assert(entries.deep_view().take(0) =~= Seq::<ArchiveEntryModel>::empty());
        assert(out@ =~= spec_tar_entries(entries.deep_view().take(0)));
    }
    while i < entries.len()
        invariant
            i <= entries.len(),
            out@ == spec_tar_entries(entries.deep_view().take(i as int)),
        decreases entries.len() - i,
    {
        let ghost before = out@;
        proof {
            assert(entries.deep_view()[i as int] == entries@[i as int]@);
            assert(wf_entry(entries.deep_view()[i as int]));
        }
        push_header(&mut out, &entries[i]);
        match &entries[i].data {
            ArchiveEntryData::Dir => {},
            ArchiveEntryData::File(d) => {
                push_bytes(&mut out, d.as_slice());
                let pad: usize = if d.len() % 512 == 0 {
                    0
                } else {
                    512 - d.len() % 512
                };
                push_zeros(&mut out, pad);
            },
        }
        proof {
            assert(out@ =~= before + spec_entry_bytes(entries.deep_view()[i as int]));
            lemma_tar_entries_push(
                entries.deep_view().take(i as int),
                entries.deep_view()[i as int],
            );
            assert(entries.deep_view().take(i + 1) =~= entries.deep_view().take(i as int).push(
                entries.deep_view()[i as int],
            ));
            assert(out@ =~= spec_tar_entries(entries.deep_view().take(i + 1)));
        }
        i += 1;
    }
    proof {
        assert(entries.deep_view().take(entries.deep_view().len() as int) =~= entries.deep_view());
    }
    push_zeros(&mut out, 1024);
    proof {
        assert(out@ =~= spec_tar(entries.deep_view()));
    }
    out
}

/// The first index of a NUL byte in `s`, or its length when none occurs.
pub open spec fn spec_first_nul(s: Seq<u8>) -> int
    decreases s.len(),
{
    if s.len() == 0 {
        0
    } else if s[0] == 0u8 {
        0
    } else {
        1 + spec_first_nul(s.skip(1))
    }
}

/// The first NUL of a NUL-free string padded with zeros sits right after the
/// string.
pub proof fn lemma_first_nul_padded(p: Seq<u8>, k: int)
    requires
        k >= 0,
        forall|i: int| 0 <= i < p.len() ==> p[i] != 0u8,
    ensures
        spec_first_nul(p + spec_zeros(k)) == p.len(),
    decreases p.len(),
{
    if p.len() == 0 {
        assert(p + spec_zeros(k) =~= spec_zeros(k));
        if k > 0 {
            assert(spec_zeros(k)[0] == 0u8);
        }
    } else {
        lemma_first_nul_padded(p.skip(1), k);
        assert((p + spec_zeros(k)).skip(1) =~= p.skip(1) + spec_zeros(k));
        assert((p + spec_zeros(k))[0] == p[0]);
    }
}

/// Powers of eight.
pub open spec fn pow8(w: int) -> int
    decreases w,
{
    if w <= 0 {
        1
    } else {
        8 * pow8(w - 1)
    }
}

/// The value of a string of octal digits, or nothing when a byte is not an
/// octal digit.
pub open spec fn spec_octal_val(s: Seq<u8>) -> Option<int>
    decreases s.len(),
{
    if s.len() == 0 {
        Some(0)
    } else {
        let last = s[s.len() - 1];
        if 0x30u8 <= last <= 0x37u8 {
            match spec_octal_val(s.take(s.len() - 1)) {
                Some(v) => Some(v * 8 + (last - 0x30u8)),
                None => None,
            }
        } else {
            None
        }
    }
}

/// Reading back a rendered octal number gives the number.
pub proof fn lemma_octal_round_trip(n: int, w: int)
    requires
        0 <= n < pow8(w),
        w >= 0,
    ensures
        spec_octal_val(spec_octal_digits(n, w)) == Some(n),
    decreases w,
{
    if w == 0 {
        assert(spec_octal_digits(n, 0) =~= Seq::<u8>::empty());
    } else {
        assert(pow8(w) == 8 * pow8(w - 1));
        assert(n / 8 < pow8(w - 1)) by {
            if n / 8 >= pow8(w - 1) {
                assert(n >= 8 * (n / 8)) by (nonlinear_arith)
                    requires n >= 0,
                ;
                assert(8 * (n / 8) >= 8 * pow8(w - 1)) by (nonlinear_arith)
                    requires n / 8 >= pow8(w - 1),
                ;
            }
        }
        lemma_octal_round_trip(n / 8, w - 1);
        lemma_octal_digits_len(n / 8, w - 1);
        let ds = spec_octal_digits(n / 8, w - 1);
        let d = (0x30 + n % 8) as u8;
        assert(spec_octal_digits(n, w) == ds.push(d));
        assert(ds.push(d).take(ds.len() as int) =~= ds);
        assert(ds.push(d)[ds.len() as int] == d);
        assert(spec_octal_val(ds.push(d)) == Some((n / 8) * 8 + (d - 0x30u8)));
        assert((n / 8) * 8 + n % 8 == n);
    }
}

/// What one header parses to: the entry and the offset of the next header,
/// or nothing when the header is not one this codec writes.
pub open spec fn spec_parse_header(b: Seq<u8>, off: int) -> Option<(ArchiveEntryModel, int)> {
    let name_area = b.subrange(off, off + 100);
    let name_len = spec_first_nul(name_area);
    let path = name_area.take(name_len);
    let size_val = spec_octal_val(b.subrange(off + 124, off + 135));
    let tf = b[off + 156];
    if name_len == 0 || size_val is None {
        None
    } else if tf == 0x35u8 {
        Some((ArchiveEntryModel { path, is_dir: true, data: seq![] }, off + 512))
    } else if tf == 0x30u8 {
        let sz = size_val->0;
        if 0 <= sz && off + 512 + sz + spec_pad_len(sz) <= b.len() {
            Some(
                (
                    ArchiveEntryModel {
                        path,
                        is_dir: false,
                        data: b.subrange(off + 512, off + 512 + sz),
                    },
                    off + 512 + sz + spec_pad_len(sz),
                ),
            )
        } else {
            None
        }
    } else {
        None
    }
}

/// What an archive parses to from offset `off` on: the entries of its
/// remaining headers, up to the first zero block; or nothing when a header is
/// malformed or the archive is truncated.
pub open spec fn spec_tar_parse_at(b: Seq<u8>, off: int) -> Option<Seq<ArchiveEntryModel>>
    decreases b.len() - off,
{
    if off < 0 || off + 512 > b.len() {
        None
    } else if b[off] == 0u8 {
        Some(seq![])
    } else {
        match spec_parse_header(b, off) {
            None => None,
            Some((e, next)) => if next <= b.len() {
                match spec_tar_parse_at(b, next) {
                    None => None,
                    Some(rest) => Some(seq![e] + rest),
                }
            } else {
                None
            },
        }
    }
}

/// What a whole archive parses to.
pub open spec fn spec_tar_parse(b: Seq<u8>) -> Option<Seq<ArchiveEntryModel>> {
    spec_tar_parse_at(b, 0)
}

/// The first-NUL index is the unique cut with no NUL before it and a NUL or
/// the end at it.
pub proof fn lemma_first_nul_char(s: Seq<u8>, k: int)
    requires
        0 <= k <= s.len(),
        forall|j: int| 0 <= j < k ==> s[j] != 0u8,
        k == s.len() || s[k] == 0u8,
    ensures
        spec_first_nul(s) == k,
    decreases s.len(),
{
    if s.len() == 0 {
    } else if k == 0 {
    } else {
        lemma_first_nul_char(s.skip(1), k - 1);
    }
}

/// An octal field with a non-digit byte has no value.
pub proof fn lemma_octal_val_none(s: Seq<u8>, j: int)
    requires
        0 <= j < s.len(),
        !(0x30u8 <= s[j] <= 0x37u8),
    ensures
        spec_octal_val(s) is None,
    decreases s.len(),
{
    if j == s.len() - 1 {
    } else {
        lemma_octal_val_none(s.take(s.len() - 1), j);
    }
}

/// The powers of eight up to the width of the size field.
pub proof fn lemma_pow8_11()
    ensures
        pow8(11) == 0x200000000,
{
    assert(pow8(0) == 1);
    assert(pow8(1) == 8);
    assert(pow8(2) == 64);
    assert(pow8(3) == 512);
    assert(pow8(4) == 4096);
    assert(pow8(5) == 32768);
    assert(pow8(6) == 262144);
    assert(pow8(7) == 2097152);
    assert(pow8(8) == 16777216);
    assert(pow8(9) == 134217728);
    assert(pow8(10) == 1073741824);
    assert(pow8(11) == 8589934592);
}

/// Parse the eleven-digit octal size field at `off + 124`.
fn parse_size_field(b: &[u8], off: usize) -> (r: Option<u64>)
    requires
        off + 512 <= b@.len(),
        b@.len() < 0x1000000000000000,
    ensures
        match r {
            Some(v) => spec_octal_val(b@.subrange(off + 124, off + 135)) == Some(v as int) && v
                < 0x200000000,
            None => spec_octal_val(b@.subrange(off + 124, off + 135)) is None,
        },
{
    let blen = b.len();
    let ghost field = b@.subrange(off + 124, off + 135);
    let mut v: u64 = 0;
    let mut k: usize = 0;
    proof {
        assert(field.take(0) =~= Seq::<u8>::empty());
    }
    while k < 11
        invariant
            k <= 11,
            off + 512 <= b@.len(),
            field == b@.subrange(off + 124, off + 135),
            spec_octal_val(field.take(k as int)) == Some(v as int),
            v < pow8(k as int),
        decreases 11 - k,
    {
        let d = b[off + 124 + k];
        if !(0x30u8 <= d && d <= 0x37u8) {
            proof {
                assert(field[k as int] == d);
                lemma_octal_val_none(field, k as int);
            }
            return None;
        }
        proof {
            assert(field.take(k + 1).take(k as int) =~= field.take(k as int));
            assert(field.take(k + 1)[k as int] == field[k as int]);
            assert(field[k as int] == d);
            assert(pow8(k + 1) == 8 * pow8(k as int));
            lemma_pow8_11();
            assert(pow8(k as int) <= pow8(11)) by {
                lemma_pow8_monotone(k as int, 11);
            }
        }
        v = v * 8 + (d - 0x30u8) as u64;
        k += 1;
    }
    proof {
        assert(field.take(11) =~= field);
        lemma_pow8_11();
    }
    Some(v)
}

/// Powers of eight grow with the exponent.
pub proof fn lemma_pow8_monotone(a: int, c: int)
    requires
        0 <= a <= c,
    ensures
        pow8(a) <= pow8(c),
    decreases c,
{
    if a < c {
        lemma_pow8_monotone(a, c - 1);
        assert(pow8(c) == 8 * pow8(c - 1));
        assert(pow8(c - 1) >= 1) by {
            lemma_pow8_pos(c - 1);
        }
    }
}

/// Powers of eight are positive.
pub proof fn lemma_pow8_pos(w: int)
    ensures
        pow8(w) >= 1,
    decreases w,
{
    if w > 0 {
        lemma_pow8_pos(w - 1);
    }
}

/// The length of the path stored in the name field at `off`: the bytes up
/// to the first NUL, or the whole field.
fn scan_name_len(b: &[u8], off: usize) -> (r: usize)
    requires
        off + 512 <= b@.len(),
        b@.len() < 0x1000000000000000,
    ensures
        r as int == spec_first_nul(b@.subrange(off as int, off + 100)),
        r <= 100,
{
    let blen = b.len();
    let ghost name_area = b@.subrange(off as int, off + 100);
    let mut nl: usize = 0;
    while nl < 100
        invariant
            nl <= 100,
            off + 512 <= b@.len(),
            name_area == b@.subrange(off as int, off + 100),
            forall|j: int| 0 <= j < nl ==> #[trigger] name_area[j] != 0u8,
        decreases 100 - nl,
    {
        if b[off + nl] == 0u8 {
            proof {
                assert(name_area[nl as int] == 0u8);
                lemma_first_nul_char(name_area, nl as int);
            }
            return nl;
        }
        proof {
            assert(name_area[nl as int] != 0u8);
        }
        nl += 1;
    }
    proof {
        lemma_first_nul_char(name_area, 100);
    }
    100
}

/// Parse one header. Only called with a full block available and a non-NUL
/// first byte.
fn parse_header_at(b: &[u8], off: usize) -> (r: Option<(ArchiveEntry, usize)>)
    requires
        off + 512 <= b@.len(),
        b@.len() < 0x1000000000000000,
        b@[off as int] != 0u8,
    ensures
        match r {
            Some((e, next)) => spec_parse_header(b@, off as int) == Some((e@, next as int))
                && off < next <= b@.len(),
            None => spec_parse_header(b@, off as int) is None,
        },
{
    let blen = b.len();
    let ghost name_area = b@.subrange(off as int, off + 100);
    let nl = scan_name_len(b, off);
    proof {
        assert(name_area[0] == b@[off as int]);
    }
    if nl == 0 {
        return None;
    }
    let path = copy_range(b, off, off + nl);
    proof {
        assert(path@ =~= name_area.take(nl as int));
    }
    let size = match parse_size_field(b, off) {
        Some(v) => v,
        None => {
            return None;
        },
    };
    let tf = b[off + 156];
    if tf == 0x35u8 {
        let e = ArchiveEntry { path, data: ArchiveEntryData::Dir };
        proof {
            let hd = spec_parse_header(b@, off as int)->0;
            assert(e@ =~~= hd.0);
        }
        Some((e, off + 512))
    } else if tf == 0x30u8 {
        if size > blen as u64 {
            proof {
                assert(off + 512 + size + spec_pad_len(size as int) > b@.len());
            }
            return None;
        }
        let sz = #[verifier::truncate] (size as usize);
        proof {
            assert(sz == size);
        }
        let pad: usize = if sz % 512 == 0 {
            0
        } else {
            512 - sz % 512
        };
        let avail = blen - off - 512;
        if sz > avail {
            proof {
                assert(off + 512 + sz + spec_pad_len(sz as int) > b@.len());
            }
            return None;
        }
        if pad > avail - sz {
            proof {
                assert(off + 512 + sz + spec_pad_len(sz as int) > b@.len());
            }
            return None;
        }
        let data = copy_range(b, off + 512, off + 512 + sz);
        let next = off + 512 + sz + pad;
        let e = ArchiveEntry { path, data: ArchiveEntryData::File(data) };
        proof {
            assert(pad as int == spec_pad_len(sz as int));
            let hd = spec_parse_header(b@, off as int)->0;
            assert(e@ =~~= hd.0);
        }
        Some((e, next))
    } else {
        None
    }
}

/// Parse an archive back into its entries: each header in order, up to the
/// first zero block. Returns nothing when the bytes are not a well-formed
/// archive of this codec.
pub fn tar_parse(b: &[u8]) -> (r: Option<Vec<ArchiveEntry>>)
    requires
        b@.len() < 0x1000000000000000,
    ensures
        match r {
            Some(es) => spec_tar_parse(b@) == Some(es.deep_view()),
            None => spec_tar_parse(b@) is None,
        },
{
    let mut entries: Vec<ArchiveEntry> = Vec::new();
    let mut off: usize = 0;
    let blen = b.len();
    loop
        invariant
            off <= b@.len(),
            blen == b@.len(),
            spec_tar_parse(b@) == (match spec_tar_parse_at(b@, off as int) {
                Some(rest) => Some(entries.deep_view() + rest),
                None => Option::<Seq<ArchiveEntryModel>>::None,
            }),
        decreases b@.len() - off,
    {
        if blen - off < 512 {
            return None;
        }
        if b[off] == 0u8 {
            proof {
                assert(entries.deep_view() + Seq::<ArchiveEntryModel>::empty()
                    =~= entries.deep_view());
            }
            return Some(entries);
        }
        match parse_header_at(b, off) {
            None => {
                return None;
            },
            Some((e, next)) => {
                let ghost before = entries.deep_view();
                let ghost em = e@;
                entries.push(e);
                proof {
                    assert(entries.deep_view() =~= before.push(em));
                    if spec_tar_parse_at(b@, next as int) is Some {
                        let rest = spec_tar_parse_at(b@, next as int)->0;
                        assert(spec_tar_parse_at(b@, off as int) == Some(seq![em] + rest));
                        assert(before + (seq![em] + rest) =~= before.push(em) + rest);
                    }
                }
                off = next;
            },
        }
    }
}

/// Where each field of a finished header lies: the name field holds the
/// padded path, the size field the octal size, and the type flag byte the
/// entry type.
#[verifier::rlimit(100)]
pub proof fn lemma_header_structure(e: ArchiveEntryModel)
    requires
        wf_entry(e),
    ensures
        spec_header(e).len() == 512,
        spec_header(e).subrange(0, 100) == e.path + spec_zeros(100 - e.path.len()),
        spec_header(e).subrange(124, 135) == spec_octal_digits(spec_entry_size(e), 11),
        spec_header(e)[156] == spec_entry_type(e),
        spec_header(e)[0] == e.path[0],
{
    lemma_header_pre_len(e);
    let pre = spec_header_pre(e);
    reveal(spec_header_pre);
    lemma_octal_digits_len(spec_entry_mode(e), 7);
    lemma_octal_digits_len(0, 7);
    lemma_octal_digits_len(spec_entry_size(e), 11);
    lemma_octal_digits_len(DETERMINISTIC_MTIME as int, 11);
    assert(pre.subrange(0, 100) =~= e.path + spec_zeros(100 - e.path.len()));
    assert(pre.subrange(124, 135) =~= spec_octal_digits(spec_entry_size(e), 11));
    assert(pre[156] == spec_entry_type(e));
    let h = spec_header(e);
    lemma_octal_digits_len(spec_sum(pre), 7);
    assert(h.len() == 512);
    assert(h.subrange(0, 100) =~= pre.subrange(0, 100));
    assert(h.subrange(124, 135) =~= pre.subrange(124, 135));
    assert(h[156] == pre[156]);
    assert(h[0] == pre[0]);
    assert(pre[0] == e.path[0]);
}

/// The bytes of one entry are its header, then the padded data; their length
/// is a whole number of blocks.
pub proof fn lemma_entry_bytes_len(e: ArchiveEntryModel)
    requires
        wf_entry(e),
    ensures
        spec_entry_bytes(e).len() == 512 + spec_entry_size(e) + spec_pad_len(spec_entry_size(e)),
{
    lemma_header_pre_len(e);
    lemma_octal_digits_len(spec_sum(spec_header_pre(e)), 7);
}

/// Parsing what `spec_tar` wrote from any offset gives back the entries
/// written from that offset on.
#[verifier::rlimit(100)]
pub proof fn lemma_tar_parse_round_trip_at(b: Seq<u8>, off: int, es: Seq<ArchiveEntryModel>)
    requires
        wf_entries(es),
        0 <= off <= b.len(),
        b.subrange(off, b.len() as int) == spec_tar_entries(es) + spec_zeros(1024),
    ensures
        spec_tar_parse_at(b, off) == Some(es),
    decreases es.len(),
{
    let suffix = b.subrange(off, b.len() as int);
    if es.len() == 0 {
        assert(spec_tar_entries(es) =~= Seq::<u8>::empty());
        assert(suffix =~= spec_zeros(1024));
        assert(b.len() - off == 1024);
        assert(b[off] == suffix[0]);
        assert(suffix[0] == 0u8);
        assert(spec_tar_parse_at(b, off) == Some(Seq::<ArchiveEntryModel>::empty()));
        assert(Seq::<ArchiveEntryModel>::empty() =~= es);
    } else {
        let e = es[0];
        assert(wf_entry(e));
        let eb = spec_entry_bytes(e);
        let rest_bytes = spec_tar_entries(es.skip(1)) + spec_zeros(1024);
        assert(spec_tar_entries(es) == eb + spec_tar_entries(es.skip(1)));
        assert(suffix =~= eb + rest_bytes);
        lemma_header_structure(e);
        lemma_entry_bytes_len(e);
        let sz = spec_entry_size(e);
        let pad = spec_pad_len(sz);
        assert(b.len() - off == eb.len() + rest_bytes.len());
        assert(rest_bytes.len() >= 1024);
        assert(off + 512 <= b.len());
        let h = spec_header(e);
        assert(eb.subrange(0, 512) =~= h);
        // every header byte of `b` is the corresponding byte of the header
        assert(forall|i: int|
            0 <= i < 512 ==> b[off + i] == #[trigger] h[i]) by {
            assert(forall|i: int| 0 <= i < 512 ==> #[trigger] suffix[i] == eb[i]);
            assert(forall|i: int| 0 <= i < 512 ==> #[trigger] eb[i] == h[i]);
            assert(forall|i: int|
                0 <= i < 512 ==> #[trigger] b[off + i] == suffix[i]);
        }
        assert(b[off] == h[0]);
        assert(b[off] == e.path[0]);
        assert(b[off] != 0u8);
        // the name field
        let name_area = b.subrange(off, off + 100);
        assert(name_area =~= h.subrange(0, 100));
        assert(name_area =~= e.path + spec_zeros(100 - e.path.len()));
        lemma_first_nul_padded(e.path, 100 - e.path.len());
        assert(spec_first_nul(name_area) == e.path.len());
        assert(name_area.take(e.path.len() as int) =~= e.path);
        // the size field
        assert(b.subrange(off + 124, off + 135) =~= h.subrange(124, 135));
        lemma_pow8_11();
        lemma_octal_round_trip(sz, 11);
        assert(spec_octal_val(b.subrange(off + 124, off + 135)) == Some(sz));
        // the type flag
        assert(b[off + 156] == h[156]);
        assert(b[off + 156] == spec_entry_type(e));
        // the next entry starts after this one's blocks
        let next = off + 512 + sz + pad;
        assert(next - off == eb.len());
        assert(next <= b.len());
        assert(b.subrange(next, b.len() as int) =~= rest_bytes) by {
            assert(forall|i: int|
                0 <= i < rest_bytes.len() ==> #[trigger] b.subrange(next, b.len() as int)[i]
                    == suffix[eb.len() + i]);
            assert(forall|i: int|
                0 <= i < rest_bytes.len() ==> #[trigger] suffix[eb.len() + i] == rest_bytes[i]);
        }
        assert(wf_entries(es.skip(1))) by {
            assert(forall|i: int|
                0 <= i < es.skip(1).len() ==> #[trigger] es.skip(1)[i] == es[i + 1]);
        }
        lemma_tar_parse_round_trip_at(b, next, es.skip(1));
        if e.is_dir {
            assert(sz == 0 && pad == 0);
            assert(spec_parse_header(b, off) == Some(
                (ArchiveEntryModel { path: e.path, is_dir: true, data: seq![] }, off + 512),
            ));
            assert(ArchiveEntryModel { path: e.path, is_dir: true, data: seq![] } =~~= e);
            assert(spec_tar_parse_at(b, off) == Some(seq![e] + es.skip(1)));
            assert(seq![e] + es.skip(1) =~= es);
        } else {
            // the data bytes
            assert(b.subrange(off + 512, off + 512 + sz) =~= e.data) by {
                assert(forall|i: int|
                    0 <= i < sz ==> #[trigger] b.subrange(off + 512, off + 512 + sz)[i]
                        == suffix[512 + i]);
                assert(forall|i: int|
                    0 <= i < sz ==> #[trigger] suffix[512 + i] == eb[512 + i]);
                assert(forall|i: int| 0 <= i < sz ==> #[trigger] eb[512 + i] == e.data[i]);
            }
            assert(spec_parse_header(b, off) == Some(
                (ArchiveEntryModel { path: e.path, is_dir: false, data: e.data }, next),
            ));
            assert(ArchiveEntryModel { path: e.path, is_dir: false, data: e.data } =~~= e);
            assert(spec_tar_parse_at(b, off) == Some(seq![e] + es.skip(1)));
            assert(seq![e] + es.skip(1) =~= es);
        }
    }
}

/// Decoding an encoded archive gives back exactly the entries that were
/// written, for every well-formed entry list.
pub proof fn lemma_tar_round_trip(es: Seq<ArchiveEntryModel>)
    requires
        wf_entries(es),
    ensures
        spec_tar_parse(spec_tar(es)) == Some(es),
{
    let b = spec_tar(es);
    assert(b.subrange(0, b.len() as int) =~= b);
    lemma_tar_parse_round_trip_at(b, 0, es);
}

} // verus!
