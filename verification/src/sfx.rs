use vstd::prelude::*;

use crate::bytes::{copy_range, push_bytes, starts_with, is_prefix_of};
use crate::radix64::{
    b64_decode, b64_encode, lemma_b64_no_foreign_byte, spec_b64, spec_b64_decode, spec_b64_val,
};
use crate::text::{crlf, lf, sentinel_posix, sentinel_windows, spec_crlf, spec_lf,
    spec_sentinel_posix, spec_sentinel_windows};

verus! {

/// The line ending a self-extracting script uses: CRLF on Windows targets,
/// LF elsewhere.
pub open spec fn spec_line_ending(windows: bool) -> Seq<u8> {
    if windows {
        spec_crlf()
    } else {
        spec_lf()
    }
}

/// The sentinel marker that separates the embedded archive from the embedded
/// extractor.
pub open spec fn spec_sentinel(windows: bool) -> Seq<u8> {
    if windows {
        spec_sentinel_windows()
    } else {
        spec_sentinel_posix()
    }
}

/// The sentinel holds no line-ending byte, is fifteen bytes long, and opens
/// with a byte that no radix-64 text contains.
pub proof fn lemma_sentinel_clean(windows: bool)
    ensures
        spec_sentinel(windows).len() == 15,
        forall|m: int|
            0 <= m < 15 ==> #[trigger] spec_sentinel(windows)[m] != 0x0au8 && spec_sentinel(
                windows,
            )[m] != 0x0du8,
        spec_b64_val(spec_sentinel(windows)[0]) is None,
        spec_sentinel(windows)[0] != 0x3du8,
{
}

/// A whole self-extracting script: the header text, the encoded archive, the
/// sentinel, and the encoded extractor, each part closed by the platform's
/// line ending.
pub open spec fn spec_sfx(
    header: Seq<u8>,
    archive: Seq<u8>,
    extractor: Seq<u8>,
    windows: bool,
) -> Seq<u8> {
    header + spec_line_ending(windows) + spec_b64(archive) + spec_line_ending(windows)
        + spec_sentinel(windows) + spec_line_ending(windows) + spec_b64(extractor)
}

/// Frame an archive and an extractor executable into a self-extracting
/// script around the given header text.
pub fn sfx_frame(header: &[u8], archive: &[u8], extractor: &[u8], windows: bool) -> (r: Vec<u8>)
    ensures
        r@ == spec_sfx(header@, archive@, extractor@, windows),
{
    let le = if windows {
        crlf()
    } else {
        lf()
    };
    let sent = if windows {
        sentinel_windows()
    } else {
        sentinel_posix()
    };
    let mut out: Vec<u8> = Vec::new();
    push_bytes(&mut out, header);
    push_bytes(&mut out, le.as_slice());
    let enc = b64_encode(archive);
    push_bytes(&mut out, enc.as_slice());
    push_bytes(&mut out, le.as_slice());
    push_bytes(&mut out, sent.as_slice());
    push_bytes(&mut out, le.as_slice());
    let enc = b64_encode(extractor);
    push_bytes(&mut out, enc.as_slice());
    proof {
        assert(out@ =~= spec_sfx(header@, archive@, extractor@, windows));
    }
    out
}

/// Whether the needle occurs in the haystack at position `i`.
pub open spec fn contains_at(h: Seq<u8>, n: Seq<u8>, i: int) -> bool {
    &&& 0 <= i
    &&& i + n.len() <= h.len()
    &&& h.subrange(i, i + n.len()) == n
}

/// The first occurrence of the needle at or after `i`, if any.
pub open spec fn spec_find_from(h: Seq<u8>, n: Seq<u8>, i: int) -> Option<int>
    decreases h.len() - i,
{
    if i < 0 || i + n.len() > h.len() {
        None
    } else if n.len() == 0 {
        Some(i)
    } else if h.subrange(i, i + n.len()) == n {
        Some(i)
    } else {
        spec_find_from(h, n, i + 1)
    }
}

/// What the first-occurrence search returns: an occurrence with none before
/// it, or nothing when there is no occurrence at all.
pub proof fn lemma_find_from_first(h: Seq<u8>, n: Seq<u8>, i: int)
    requires
        i >= 0,
        n.len() > 0,
    ensures
        match spec_find_from(h, n, i) {
            Some(k) => contains_at(h, n, k) && k >= i && forall|j: int|
                i <= j < k ==> !contains_at(h, n, j),
            None => forall|j: int| j >= i ==> !contains_at(h, n, j),
        },
    decreases h.len() - i,
{
    if i + n.len() > h.len() {
    } else if h.subrange(i, i + n.len()) == n {
    } else {
        lemma_find_from_first(h, n, i + 1);
    }
}

/// An occurrence at `k` makes the search from a position at or before `k`
/// succeed.
pub proof fn lemma_find_from_hit(h: Seq<u8>, n: Seq<u8>, i: int, k: int)
    requires
        0 <= i <= k,
        n.len() > 0,
        contains_at(h, n, k),
        forall|j: int| i <= j < k ==> !contains_at(h, n, j),
    ensures
        spec_find_from(h, n, i) == Some(k),
    decreases k - i,
{
    if i < k {
        assert(!contains_at(h, n, i));
        assert(i + n.len() <= h.len());
        assert(h.subrange(i, i + n.len()) != n);
        lemma_find_from_hit(h, n, i + 1, k);
    } else {
        assert(h.subrange(k, k + n.len()) == n);
    }
}

/// Find the first occurrence of `n` in `h`.
pub fn find_subseq(h: &[u8], n: &[u8]) -> (r: Option<usize>)
    requires
        n@.len() > 0,
    ensures
        match r {
            Some(i) => spec_find_from(h@, n@, 0) == Some(i as int),
            None => spec_find_from(h@, n@, 0) is None,
        },
{
    if n.len() > h.len() {
        proof {
            lemma_find_from_first(h@, n@, 0);
            if spec_find_from(h@, n@, 0) is Some {
                let k = spec_find_from(h@, n@, 0)->0;
                assert(contains_at(h@, n@, k));
            }
        }
        return None;
    }
    let last = h.len() - n.len();
    let mut i: usize = 0;
    while i <= last
        invariant
            i <= last + 1,
            n@.len() > 0,
            last == h@.len() - n@.len(),
            forall|j: int| 0 <= j < i ==> !contains_at(h@, n@, j),
        decreases last - i + 1,
    {
        let mut k: usize = 0;
        let mut hit = true;
        while k < n.len()
            invariant
                k <= n@.len(),
                i + n@.len() <= h@.len(),
                hit ==> forall|m: int| 0 <= m < k ==> h@[i + m] == n@[m],
                !hit ==> !contains_at(h@, n@, i as int),
            decreases n@.len() - k,
        {
            if h[i + k] != n[k] {
                proof {
                    assert(h@.subrange(i as int, i + n@.len())[k as int] == h@[i + k]);
                }
                hit = false;
                break ;
            }
            k += 1;
        }
        if hit {
            proof {
                assert(h@.subrange(i as int, i + n@.len()) =~= n@);
                lemma_find_from_hit(h@, n@, 0, i as int);
            }
            return Some(i);
        }
        i += 1;
    }
    proof {
        lemma_find_from_first(h@, n@, 0);
        if spec_find_from(h@, n@, 0) is Some {
            let k = spec_find_from(h@, n@, 0)->0;
            assert(contains_at(h@, n@, k));
            assert(k <= last);
        }
    }
    None
}

/// What extracting a self-extracting script gives: the embedded archive and
/// extractor decoded from the text between the known header, the sentinel
/// and the end; nothing when the bytes are not such a script.
pub open spec fn spec_sfx_extract(b: Seq<u8>, header: Seq<u8>, windows: bool) -> Option<
    (Seq<u8>, Seq<u8>),
> {
    let le = spec_line_ending(windows);
    let sent = spec_sentinel(windows);
    let prefix = header + le;
    if !is_prefix_of(prefix, b) {
        None
    } else {
        match spec_find_from(b, sent, 0) {
            None => None,
            Some(i) => if i >= prefix.len() + le.len() && i + sent.len() + le.len() <= b.len() {
                let enc_archive = b.subrange(prefix.len() as int, i - le.len());
                let enc_extractor = b.subrange(i + sent.len() + le.len(), b.len() as int);
                match (spec_b64_decode(enc_archive), spec_b64_decode(enc_extractor)) {
                    (Some(a), Some(x)) => Some((a, x)),
                    _ => None,
                }
            } else {
                None
            },
        }
    }
}

/// Extract the embedded archive and extractor from a self-extracting script
/// with the given header text.
pub fn sfx_extract(b: &[u8], header: &[u8], windows: bool) -> (r: Option<(Vec<u8>, Vec<u8>)>)
    ensures
        match r {
            Some((a, x)) => spec_sfx_extract(b@, header@, windows) == Some((a@, x@)),
            None => spec_sfx_extract(b@, header@, windows) is None,
        },
{
    let le = if windows {
        crlf()
    } else {
        lf()
    };
    let sent = if windows {
        sentinel_windows()
    } else {
        sentinel_posix()
    };
    let mut prefix = Vec::new();
    push_bytes(&mut prefix, header);
    push_bytes(&mut prefix, le.as_slice());
    proof {
        assert(prefix@ =~= header@ + spec_line_ending(windows));
    }
    if !starts_with(b, prefix.as_slice()) {
        return None;
    }
    let i = match find_subseq(b, sent.as_slice()) {
        Some(i) => i,
        None => {
            return None;
        },
    };
    proof {
        lemma_find_from_first(b@, sent@, 0);
        lemma_sentinel_clean(windows);
        assert(contains_at(b@, sent@, i as int));
        assert(i + sent@.len() <= b@.len());
    }
    if i < prefix.len() || i - prefix.len() < le.len() || b.len() - i < sent.len() + le.len() {
        return None;
    }
    let enc_archive = copy_range(b, prefix.len(), i - le.len());
    let enc_extractor = copy_range(b, i + sent.len() + le.len(), b.len());
    let a = match b64_decode(enc_archive.as_slice()) {
        Some(a) => a,
        None => {
            return None;
        },
    };
    let x = match b64_decode(enc_extractor.as_slice()) {
        Some(x) => x,
        None => {
            return None;
        },
    };
    Some((a, x))
}

/// No window before the framed sentinel matches it: every earlier window
/// either sits inside the header, crosses a line ending, or starts on a
/// radix-64 byte.
#[verifier::rlimit(100)]
proof fn lemma_sfx_no_hit_at(
    header: Seq<u8>,
    archive: Seq<u8>,
    extractor: Seq<u8>,
    windows: bool,
    j: int,
)
    requires
        forall|m: int| !contains_at(header, spec_sentinel(windows), m),
        0 <= j,
        j < header.len() + spec_line_ending(windows).len() + spec_b64(archive).len()
            + spec_line_ending(windows).len(),
    ensures
        !contains_at(
            spec_sfx(header, archive, extractor, windows),
            spec_sentinel(windows),
            j,
        ),
{
    let le = spec_line_ending(windows);
    let sent = spec_sentinel(windows);
    let k = le.len() as int;
    let b = spec_sfx(header, archive, extractor, windows);
    let ea = spec_b64(archive);
    let hl = header.len() as int;
    let a0 = hl + k;  // start of the encoded archive
    lemma_sentinel_clean(windows);
    lemma_b64_no_foreign_byte(archive, sent[0]);
    if contains_at(b, sent, j) {
        if j + 15 <= hl {
            // a hit entirely inside the header text
            assert(contains_at(header, sent, j)) by {
                assert(header.subrange(j, j + 15) =~= b.subrange(j, j + 15));
            }
        } else if j < hl {
            // the window would cover the line ending after the header
            assert(b.subrange(j, j + 15)[hl - j] == b[hl]);
            assert(b[hl] == le[0]);
            assert(le[0] == 0x0au8 || le[0] == 0x0du8);
        } else if j < a0 {
            // the window would start inside that line ending
            assert(b.subrange(j, j + 15)[0] == b[j]);
            assert(b[j] == le[j - hl]);
            assert(le[j - hl] == 0x0au8 || le[j - hl] == 0x0du8);
        } else if j < a0 + ea.len() {
            // the window would start inside the encoded archive
            assert(b.subrange(j, j + 15)[0] == b[j]);
            assert(b[j] == ea[j - a0]);
            assert(spec_b64_val(sent[0]) is None);
        } else {
            // the window would start inside the line ending before the
            // sentinel
            assert(b.subrange(j, j + 15)[0] == b[j]);
            assert(b[j] == le[j - (a0 + ea.len())]);
            assert(le[j - (a0 + ea.len())] == 0x0au8 || le[j - (a0 + ea.len())] == 0x0du8);
        }
    }
}

/// No window after the framed sentinel matches it either: a later window
/// either covers the line ending after the sentinel or starts on a
/// radix-64 byte of the encoded extractor.
#[verifier::rlimit(100)]
proof fn lemma_sfx_no_hit_after(
    header: Seq<u8>,
    archive: Seq<u8>,
    extractor: Seq<u8>,
    windows: bool,
    j: int,
)
    requires
        j > header.len() + spec_line_ending(windows).len() + spec_b64(archive).len()
            + spec_line_ending(windows).len(),
    ensures
        !contains_at(
            spec_sfx(header, archive, extractor, windows),
            spec_sentinel(windows),
            j,
        ),
{
    let le = spec_line_ending(windows);
    let sent = spec_sentinel(windows);
    let k = le.len() as int;
    let b = spec_sfx(header, archive, extractor, windows);
    let ea = spec_b64(archive);
    let ex = spec_b64(extractor);
    let hl = header.len() as int;
    let i0 = hl + k + ea.len() + k;  // start of the sentinel
    let x0 = i0 + 15 + k;  // start of the encoded extractor
    lemma_sentinel_clean(windows);
    lemma_b64_no_foreign_byte(extractor, sent[0]);
    if contains_at(b, sent, j) {
        if j <= i0 + 15 {
            // the window would cover the line ending after the sentinel
            assert(b.subrange(j, j + 15)[i0 + 15 - j] == b[i0 + 15]);
            assert(b[i0 + 15] == le[0]);
            assert(le[0] == 0x0au8 || le[0] == 0x0du8);
        } else if j < x0 {
            // the window would start inside that line ending
            assert(b.subrange(j, j + 15)[0] == b[j]);
            assert(b[j] == le[j - (i0 + 15)]);
            assert(le[j - (i0 + 15)] == 0x0au8 || le[j - (i0 + 15)] == 0x0du8);
        } else {
            // the window would start inside the encoded extractor
            assert(j < b.len());
            assert(b.subrange(j, j + 15)[0] == b[j]);
            assert(b[j] == ex[j - x0]);
            assert(spec_b64_val(sent[0]) is None);
        }
    }
}

/// In a framed script the sentinel occurs exactly once: at the framed
/// position, and nowhere else, provided the header text nowhere contains
/// the sentinel marker.
pub proof fn lemma_sfx_sentinel_unique(
    header: Seq<u8>,
    archive: Seq<u8>,
    extractor: Seq<u8>,
    windows: bool,
)
    requires
        forall|j: int| !contains_at(header, spec_sentinel(windows), j),
    ensures
        forall|j: int|
            contains_at(
                spec_sfx(header, archive, extractor, windows),
                spec_sentinel(windows),
                j,
            ) <==> j == header.len() + spec_line_ending(windows).len() + spec_b64(archive).len()
                + spec_line_ending(windows).len(),
{
    let le = spec_line_ending(windows);
    let sent = spec_sentinel(windows);
    let k = le.len() as int;
    let b = spec_sfx(header, archive, extractor, windows);
    let ea = spec_b64(archive);
    let hl = header.len() as int;
    let i0 = hl + k + ea.len() + k;
    lemma_sentinel_clean(windows);
    assert(contains_at(b, sent, i0)) by {
        assert(b.subrange(i0, i0 + 15) =~= sent);
    }
    assert forall|j: int| j != i0 implies !contains_at(b, sent, j) by {
        if 0 <= j < i0 {
            lemma_sfx_no_hit_at(header, archive, extractor, windows, j);
        } else if j > i0 {
            lemma_sfx_no_hit_after(header, archive, extractor, windows, j);
        }
    }
}

/// In a framed script the first occurrence of the sentinel is the framed
/// one, provided the header text nowhere contains the sentinel.
#[verifier::rlimit(100)]
pub proof fn lemma_sfx_sentinel_first(
    header: Seq<u8>,
    archive: Seq<u8>,
    extractor: Seq<u8>,
    windows: bool,
)
    requires
        forall|j: int| !contains_at(header, spec_sentinel(windows), j),
    ensures
        spec_find_from(spec_sfx(header, archive, extractor, windows), spec_sentinel(windows), 0)
            == Some((header.len() + spec_line_ending(windows).len() + spec_b64(archive).len()
            + spec_line_ending(windows).len()) as int),
{
    let le = spec_line_ending(windows);
    let sent = spec_sentinel(windows);
    let k = le.len() as int;
    let b = spec_sfx(header, archive, extractor, windows);
    let ea = spec_b64(archive);
    let hl = header.len() as int;
    let i0 = hl + k + ea.len() + k;  // start of the sentinel
    lemma_sentinel_clean(windows);
    assert(contains_at(b, sent, i0)) by {
        assert(b.subrange(i0, i0 + 15) =~= sent);
    }
    assert forall|j: int| 0 <= j < i0 implies !contains_at(b, sent, j) by {
        lemma_sfx_no_hit_at(header, archive, extractor, windows, j);
    }
    lemma_find_from_hit(b, sent, 0, i0);
}

/// Extracting a framed script gives back exactly the archive and extractor
/// that were framed, provided the header text nowhere contains the sentinel
/// marker; the header's own protocol relies on that same property.
#[verifier::rlimit(100)]
pub proof fn lemma_sfx_round_trip(
    header: Seq<u8>,
    archive: Seq<u8>,
    extractor: Seq<u8>,
    windows: bool,
)
    requires
        forall|j: int| !contains_at(header, spec_sentinel(windows), j),
    ensures
        spec_sfx_extract(spec_sfx(header, archive, extractor, windows), header, windows) == Some(
            (archive, extractor),
        ),
{
    let le = spec_line_ending(windows);
    let sent = spec_sentinel(windows);
    let k = le.len() as int;
    let b = spec_sfx(header, archive, extractor, windows);
    let ea = spec_b64(archive);
    let ex = spec_b64(extractor);
    let hl = header.len() as int;
    let a0 = hl + k;  // start of the encoded archive
    let i0 = a0 + ea.len() + k;  // start of the sentinel
    lemma_sentinel_clean(windows);
    lemma_sfx_sentinel_first(header, archive, extractor, windows);
    assert(b.len() == i0 + 15 + k + ex.len());
    let prefix = header + le;
    assert(is_prefix_of(prefix, b)) by {
        assert(b.subrange(0, hl + k) =~= prefix);
    }
    assert(i0 >= prefix.len() + k);
    assert(i0 + 15 + k <= b.len());
    assert(b.subrange(prefix.len() as int, i0 - k) =~= ea);
    assert(b.subrange(i0 + 15 + k, b.len() as int) =~= ex);
    crate::radix64::lemma_b64_round_trip(archive);
    crate::radix64::lemma_b64_round_trip(extractor);
}

} // verus!
