use vstd::prelude::*;

verus! {

/// The character of the standard radix-64 alphabet for one six-bit value.
pub open spec fn spec_b64_char(v: int) -> u8 {
    if v < 26 {
        (0x41 + v) as u8
    } else if v < 52 {
        (0x61 + (v - 26)) as u8
    } else if v < 62 {
        (0x30 + (v - 52)) as u8
    } else if v == 62 {
        0x2bu8
    } else {
        0x2fu8
    }
}

/// The six-bit value of one alphabet character, or nothing for a byte
/// outside the alphabet.
pub open spec fn spec_b64_val(c: u8) -> Option<int> {
    if 0x41 <= c <= 0x5a {
        Some(c - 0x41)
    } else if 0x61 <= c <= 0x7a {
        Some(26 + (c - 0x61))
    } else if 0x30 <= c <= 0x39 {
        Some(52 + (c - 0x30))
    } else if c == 0x2bu8 {
        Some(62)
    } else if c == 0x2fu8 {
        Some(63)
    } else {
        None
    }
}

/// Decoding a character the alphabet produced gives back its value.
pub proof fn lemma_b64_char_val(v: int)
    requires
        0 <= v < 64,
    ensures
        spec_b64_val(spec_b64_char(v)) == Some(v),
{
}

/// The text encoding of a byte string: each three bytes as four alphabet
/// characters, a short final group padded with `=`.
pub open spec fn spec_b64(s: Seq<u8>) -> Seq<u8>
    decreases s.len(),
{
    if s.len() == 0 {
        seq![]
    } else if s.len() == 1 {
        let b0 = s[0] as int;
        seq![
            spec_b64_char(b0 / 4),
            spec_b64_char((b0 % 4) * 16),
            0x3du8,
            0x3du8,
        ]
    } else if s.len() == 2 {
        let b0 = s[0] as int;
        let b1 = s[1] as int;
        seq![
            spec_b64_char(b0 / 4),
            spec_b64_char((b0 % 4) * 16 + b1 / 16),
            spec_b64_char((b1 % 16) * 4),
            0x3du8,
        ]
    } else {
        let b0 = s[0] as int;
        let b1 = s[1] as int;
        let b2 = s[2] as int;
        seq![
            spec_b64_char(b0 / 4),
            spec_b64_char((b0 % 4) * 16 + b1 / 16),
            spec_b64_char((b1 % 16) * 4 + b2 / 64),
            spec_b64_char(b2 % 64),
        ] + spec_b64(s.skip(3))
    }
}

/// Encoding distributes over a split at a multiple of three bytes.
pub proof fn lemma_b64_append(a: Seq<u8>, b: Seq<u8>)
    requires
        a.len() % 3 == 0,
    ensures
        spec_b64(a + b) == spec_b64(a) + spec_b64(b),
    decreases a.len(),
{
    if a.len() == 0 {
        assert(a + b =~= b);
        assert(spec_b64(a) + spec_b64(b) =~= spec_b64(b));
    } else {
        assert(a.len() >= 3);
        lemma_b64_append(a.skip(3), b);
        assert((a + b).skip(3) =~= a.skip(3) + b);
        if b.len() == 0 {
            assert(a + b =~= a);
            assert(spec_b64(a) + spec_b64(b) =~= spec_b64(a));
        } else {
            assert((a + b).len() >= 3);
            assert((a + b)[0] == a[0] && (a + b)[1] == a[1] && (a + b)[2] == a[2]);
            assert(spec_b64(a + b) =~= spec_b64(a) + spec_b64(b));
        }
    }
}

/// The encoding of a byte string holds only alphabet characters and the
/// padding character; in particular never `c` when `c` is neither.
pub proof fn lemma_b64_no_foreign_byte(s: Seq<u8>, c: u8)
    requires
        spec_b64_val(c) is None,
        c != 0x3du8,
    ensures
        forall|i: int| 0 <= i < spec_b64(s).len() ==> spec_b64(s)[i] != c,
    decreases s.len(),
{
    let enc = spec_b64(s);
    if s.len() == 0 {
    } else if s.len() == 1 {
        let b0 = s[0] as int;
        lemma_b64_char_val(b0 / 4);
        lemma_b64_char_val((b0 % 4) * 16);
        assert(enc.len() == 4);
        assert(enc[0] != c && enc[1] != c && enc[2] != c && enc[3] != c);
    } else if s.len() == 2 {
        let b0 = s[0] as int;
        let b1 = s[1] as int;
        lemma_b64_char_val(b0 / 4);
        lemma_b64_char_val((b0 % 4) * 16 + b1 / 16);
        lemma_b64_char_val((b1 % 16) * 4);
        assert(enc.len() == 4);
        assert(enc[0] != c && enc[1] != c && enc[2] != c && enc[3] != c);
    } else {
        let b0 = s[0] as int;
        let b1 = s[1] as int;
        let b2 = s[2] as int;
        lemma_b64_char_val(b0 / 4);
        lemma_b64_char_val((b0 % 4) * 16 + b1 / 16);
        lemma_b64_char_val((b1 % 16) * 4 + b2 / 64);
        lemma_b64_char_val(b2 % 64);
        lemma_b64_no_foreign_byte(s.skip(3), c);
        let rest = spec_b64(s.skip(3));
        assert(enc[0] != c && enc[1] != c && enc[2] != c && enc[3] != c);
        assert forall|i: int| 0 <= i < enc.len() implies enc[i] != c by {
            if i >= 4 {
                assert(enc[i] == rest[i - 4]);
            }
        }
    }
}

/// The alphabet character for a six-bit value.
fn b64_char_of(v: u8) -> (r: u8)
    requires
        v < 64,
    ensures
        r == spec_b64_char(v as int),
{
    if v < 26 {
        0x41u8 + v
    } else if v < 52 {
        0x61u8 + (v - 26)
    } else if v < 62 {
        0x30u8 + (v - 52)
    } else if v == 62 {
        0x2bu8
    } else {
        0x2fu8
    }
}

/// Encode a byte string as radix-64 text.
#[verifier::rlimit(100)]
pub fn b64_encode(s: &[u8]) -> (r: Vec<u8>)
    ensures
        r@ == spec_b64(s@),
{
    let mut out: Vec<u8> = Vec::new();
    let mut i: usize = 0;
    proof {
        assert(s@.take(0) =~= Seq::<u8>::empty());
        assert(out@ =~= spec_b64(s@.take(0)));
    }
    while s.len() - i >= 3
        invariant
            i <= s.len(),
            i % 3 == 0,
            out@ == spec_b64(s@.take(i as int)),
        decreases s.len() - i,
    {
        let b0 = s[i];
        let b1 = s[i + 1];
        let b2 = s[i + 2];
        out.push(b64_char_of(b0 / 4));
        out.push(b64_char_of((b0 % 4) * 16 + b1 / 16));
        out.push(b64_char_of((b1 % 16) * 4 + b2 / 64));
        out.push(b64_char_of(b2 % 64));
        proof {
            let w = s@.subrange(i as int, i + 3);
            lemma_b64_append(s@.take(i as int), w);
            assert(s@.take(i + 3) =~= s@.take(i as int) + w);
            assert(w.skip(3) =~= Seq::<u8>::empty());
            assert(spec_b64(w) =~= seq![
                spec_b64_char(w[0] as int / 4),
                spec_b64_char((w[0] as int % 4) * 16 + w[1] as int / 16),
                spec_b64_char((w[1] as int % 16) * 4 + w[2] as int / 64),
                spec_b64_char(w[2] as int % 64),
            ]);
            assert(out@ =~= spec_b64(s@.take(i + 3)));
        }
        i += 3;
    }
    let rem = s.len() - i;
    if rem == 1 {
        let b0 = s[i];
        out.push(b64_char_of(b0 / 4));
        out.push(b64_char_of((b0 % 4) * 16));
        out.push(0x3du8);
        out.push(0x3du8);
        proof {
            let w = s@.subrange(i as int, i + 1);
            lemma_b64_append(s@.take(i as int), w);
            assert(s@.take(i + 1) =~= s@.take(i as int) + w);
            assert(s@.take(i + 1) =~= s@);
            assert(out@ =~= spec_b64(s@));
        }
    } else if rem == 2 {
        let b0 = s[i];
        let b1 = s[i + 1];
        out.push(b64_char_of(b0 / 4));
        out.push(b64_char_of((b0 % 4) * 16 + b1 / 16));
        out.push(b64_char_of((b1 % 16) * 4));
        out.push(0x3du8);
        proof {
            let w = s@.subrange(i as int, i + 2);
            lemma_b64_append(s@.take(i as int), w);
            assert(s@.take(i + 2) =~= s@.take(i as int) + w);
            assert(s@.take(i + 2) =~= s@);
            assert(out@ =~= spec_b64(s@));
        }
    } else {
        proof {
            assert(s@.take(i as int) =~= s@);
        }
    }
    out
}

/// What a radix-64 text decodes to: the bytes of each four-character group,
/// with canonical `=` padding accepted only at the very end. Nothing when
/// the text is not a canonical encoding.
pub open spec fn spec_b64_decode(s: Seq<u8>) -> Option<Seq<u8>>
    decreases s.len(),
{
    if s.len() == 0 {
        Some(seq![])
    } else if s.len() < 4 {
        None
    } else {
        let v0 = spec_b64_val(s[0]);
        let v1 = spec_b64_val(s[1]);
        if v0 is None || v1 is None {
            None
        } else if s[2] == 0x3du8 && s[3] == 0x3du8 {
            if s.len() == 4 && v1->0 % 16 == 0 {
                Some(seq![(v0->0 * 4 + v1->0 / 16) as u8])
            } else {
                None
            }
        } else if s[3] == 0x3du8 {
            let v2 = spec_b64_val(s[2]);
            if s.len() == 4 && v2 is Some && v2->0 % 4 == 0 {
                Some(
                    seq![
                        (v0->0 * 4 + v1->0 / 16) as u8,
                        ((v1->0 % 16) * 16 + v2->0 / 4) as u8,
                    ],
                )
            } else {
                None
            }
        } else {
            let v2 = spec_b64_val(s[2]);
            let v3 = spec_b64_val(s[3]);
            if v2 is None || v3 is None {
                None
            } else {
                match spec_b64_decode(s.skip(4)) {
                    None => None,
                    Some(rest) => Some(
                        seq![
                            (v0->0 * 4 + v1->0 / 16) as u8,
                            ((v1->0 % 16) * 16 + v2->0 / 4) as u8,
                            ((v2->0 % 4) * 64 + v3->0) as u8,
                        ] + rest,
                    ),
                }
            }
        }
    }
}

/// Decoding an encoded byte string gives the bytes back.
pub proof fn lemma_b64_round_trip(s: Seq<u8>)
    ensures
        spec_b64_decode(spec_b64(s)) == Some(s),
    decreases s.len(),
{
    if s.len() == 0 {
        assert(Seq::<u8>::empty() =~= s);
    } else if s.len() == 1 {
        let b0 = s[0] as int;
        lemma_b64_char_val(b0 / 4);
        lemma_b64_char_val((b0 % 4) * 16);
        assert(spec_b64_decode(spec_b64(s)) == Some(seq![((b0 / 4) * 4 + ((b0 % 4) * 16) / 16) as u8]));
        assert((b0 / 4) * 4 + ((b0 % 4) * 16) / 16 == b0);
        assert(seq![s[0]] =~= s);
    } else if s.len() == 2 {
        let b0 = s[0] as int;
        let b1 = s[1] as int;
        let v1 = (b0 % 4) * 16 + b1 / 16;
        let v2 = (b1 % 16) * 4;
        lemma_b64_char_val(b0 / 4);
        lemma_b64_char_val(v1);
        lemma_b64_char_val(v2);
        assert(v1 / 16 == b0 % 4 && v1 % 16 == b1 / 16);
        assert(v2 % 4 == 0 && v2 / 4 == b1 % 16);
        assert((b0 / 4) * 4 + b0 % 4 == b0);
        assert((b1 / 16) * 16 + b1 % 16 == b1);
        assert(seq![s[0], s[1]] =~= s);
    } else {
        let b0 = s[0] as int;
        let b1 = s[1] as int;
        let b2 = s[2] as int;
        let v1 = (b0 % 4) * 16 + b1 / 16;
        let v2 = (b1 % 16) * 4 + b2 / 64;
        let v3 = b2 % 64;
        lemma_b64_char_val(b0 / 4);
        lemma_b64_char_val(v1);
        lemma_b64_char_val(v2);
        lemma_b64_char_val(v3);
        lemma_b64_round_trip(s.skip(3));
        let enc = spec_b64(s);
        let head = seq![
            spec_b64_char(b0 / 4),
            spec_b64_char(v1),
            spec_b64_char(v2),
            spec_b64_char(v3),
        ];
        assert(enc == head + spec_b64(s.skip(3)));
        assert(enc.len() >= 4);
        assert(enc[0] == head[0] && enc[1] == head[1] && enc[2] == head[2] && enc[3] == head[3]);
        // the third and fourth characters of a full group are never padding
        assert(enc[2] != 0x3du8 && enc[3] != 0x3du8);
        assert(enc.skip(4) =~= spec_b64(s.skip(3)));
        assert(v1 / 16 == b0 % 4 && v1 % 16 == b1 / 16);
        assert(v2 / 4 == b1 % 16 && v2 % 4 == b2 / 64);
        assert((b0 / 4) * 4 + b0 % 4 == b0);
        assert((b1 / 16) * 16 + b1 % 16 == b1);
        assert((b2 / 64) * 64 + b2 % 64 == b2);
        assert(seq![s[0], s[1], s[2]] + s.skip(3) =~= s);
    }
}

/// The six-bit value of one character, or nothing outside the alphabet.
fn b64_val_of(c: u8) -> (r: Option<u8>)
    ensures
        match r {
            Some(v) => spec_b64_val(c) == Some(v as int) && v < 64,
            None => spec_b64_val(c) is None,
        },
{
    if 0x41u8 <= c && c <= 0x5au8 {
        Some(c - 0x41u8)
    } else if 0x61u8 <= c && c <= 0x7au8 {
        Some(26u8 + (c - 0x61u8))
    } else if 0x30u8 <= c && c <= 0x39u8 {
        Some(52u8 + (c - 0x30u8))
    } else if c == 0x2bu8 {
        Some(62u8)
    } else if c == 0x2fu8 {
        Some(63u8)
    } else {
        None
    }
}

/// Decode a canonical radix-64 text. Returns nothing when the text is not
/// one.
pub fn b64_decode(s: &[u8]) -> (r: Option<Vec<u8>>)
    ensures
        match r {
            Some(d) => spec_b64_decode(s@) == Some(d@),
            None => spec_b64_decode(s@) is None,
        },
{
    let mut out: Vec<u8> = Vec::new();
    let mut i: usize = 0;
    proof {
        assert(s@.skip(0) =~= s@);
        if spec_b64_decode(s@) is Some {
            assert(out@ + spec_b64_decode(s@)->0 =~= spec_b64_decode(s@)->0);
        }
    }
    loop
        invariant
            i <= s.len(),
            i % 4 == 0,
            spec_b64_decode(s@) == (match spec_b64_decode(s@.skip(i as int)) {
                Some(rest) => Some(out@ + rest),
                None => Option::<Seq<u8>>::None,
            }),
        decreases s.len() - i,
    {
        let ghost tail = s@.skip(i as int);
        if i == s.len() {
            proof {
                assert(tail =~= Seq::<u8>::empty());
                assert(out@ + Seq::<u8>::empty() =~= out@);
            }
            return Some(out);
        }
        if s.len() - i < 4 {
            return None;
        }
        proof {
            assert(tail.len() >= 4);
            assert(tail[0] == s@[i as int]);
            assert(tail[1] == s@[i + 1]);
            assert(tail[2] == s@[i + 2]);
            assert(tail[3] == s@[i + 3]);
        }
        let v0 = match b64_val_of(s[i]) {
            Some(v) => v,
            None => {
                return None;
            },
        };
        let v1 = match b64_val_of(s[i + 1]) {
            Some(v) => v,
            None => {
                return None;
            },
        };
        if s[i + 2] == 0x3du8 && s[i + 3] == 0x3du8 {
            if i + 4 == s.len() && v1 % 16 == 0 {
                out.push(v0 * 4 + v1 / 16);
                proof {
                    assert(tail.len() == 4);
                    assert(out@ =~= out@.take(out@.len() - 1).push((v0 * 4 + v1 / 16) as u8));
                }
                return Some(out);
            }
            return None;
        }
        if s[i + 3] == 0x3du8 {
            let v2 = match b64_val_of(s[i + 2]) {
                Some(v) => v,
                None => {
                    return None;
                },
            };
            if i + 4 == s.len() && v2 % 4 == 0 {
                out.push(v0 * 4 + v1 / 16);
                out.push((v1 % 16) * 16 + v2 / 4);
                proof {
                    assert(tail.len() == 4);
                    assert(spec_b64_decode(tail) == Some(
                        seq![
                            (v0 * 4 + v1 / 16) as u8,
                            ((v1 % 16) * 16 + v2 / 4) as u8,
                        ],
                    ));
                    assert(out@ =~= out@.take(out@.len() - 2) + seq![
                        (v0 * 4 + v1 / 16) as u8,
                        ((v1 % 16) * 16 + v2 / 4) as u8,
                    ]);
                }
                return Some(out);
            }
            return None;
        }
        let v2 = match b64_val_of(s[i + 2]) {
            Some(v) => v,
            None => {
                return None;
            },
        };
        let v3 = match b64_val_of(s[i + 3]) {
            Some(v) => v,
            None => {
                return None;
            },
        };
        let ghost before = out@;
        out.push(v0 * 4 + v1 / 16);
        out.push((v1 % 16) * 16 + v2 / 4);
        out.push((v2 % 4) * 64 + v3);
        proof {
            assert(tail.skip(4) =~= s@.skip(i + 4));
            assert(out@ =~= before + seq![
                (v0 * 4 + v1 / 16) as u8,
                ((v1 % 16) * 16 + v2 / 4) as u8,
                ((v2 % 4) * 64 + v3) as u8,
            ]);
            if spec_b64_decode(s@.skip(i + 4)) is Some {
                let rest = spec_b64_decode(s@.skip(i + 4))->0;
                assert(before + (seq![
                    (v0 * 4 + v1 / 16) as u8,
                    ((v1 % 16) * 16 + v2 / 4) as u8,
                    ((v2 % 4) * 64 + v3) as u8,
                ] + rest) =~= out@ + rest);
            }
        }
        i += 4;
    }
}

} // verus!
