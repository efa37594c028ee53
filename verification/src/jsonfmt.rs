use vstd::prelude::*;

verus! {

/// The ASCII digit for one value below ten.
pub open spec fn spec_digit(d: int) -> u8 {
    (0x30 + d) as u8
}

/// Decimal text of a natural number, most significant digit first.
pub open spec fn spec_dec(n: int) -> Seq<u8>
    decreases n,
{
    if n < 10 {
        seq![spec_digit(n)]
    } else {
        spec_dec(n / 10) + seq![spec_digit(n % 10)]
    }
}

/// Append the decimal text of `n`.
#[verifier::loop_isolation(true)]
pub fn push_dec_u64(out: &mut Vec<u8>, n: u64)
    ensures
        final(out)@ == old(out)@ + spec_dec(n as int),
{
    let mut digits: Vec<u8> = Vec::new();
    let mut m: u64 = n;
    // collect the digits of `n`, least significant first
    loop
        invariant_except_break
            spec_dec(n as int) == spec_dec(m as int) + digits@.reverse(),
        ensures
            spec_dec(n as int) == digits@.reverse(),
        decreases m,
    {
        let d: u8 = (m % 10) as u8;
        let m2: u64 = m / 10;
        let ghost digits0 = digits@;
        digits.push(0x30u8 + d);
        proof {
            assert(digits@ =~= digits0 + seq![spec_digit(m as int % 10)]);
            assert(digits@.reverse() =~= seq![spec_digit(m as int % 10)] + digits0.reverse());
            if m >= 10 {
                assert(spec_dec(m as int) =~= spec_dec(m2 as int) + seq![
                    spec_digit(m as int % 10),
                ]);
                assert(spec_dec(m2 as int) + digits@.reverse() =~= spec_dec(m as int)
                    + digits0.reverse());
            } else {
                assert(spec_dec(m as int) =~= seq![spec_digit(m as int % 10)]);
                assert(digits@.reverse() =~= spec_dec(m as int) + digits0.reverse());
            }
        }
        if m2 == 0 {
            break;
        }
        m = m2;
    }
    // emit them in display order
    let mut i: usize = digits.len();
    proof {
        assert(digits@.reverse().skip(0) =~= digits@.reverse());
    }
    while i > 0
        invariant
            i <= digits.len(),
            spec_dec(n as int) == digits@.reverse(),
            out@ == old(out)@ + digits@.reverse().take(digits@.len() - i),
        decreases i,
    {
        i -= 1;
        let d = digits[i];
        out.push(d);
        proof {
            assert(digits@.reverse()[digits@.len() - i - 1] == digits@[i as int]);
            assert(out@ =~= old(out)@ + digits@.reverse().take(digits@.len() - i));
        }
    }
    proof {
        assert(digits@.reverse().take(digits@.len() - 0) =~= digits@.reverse());
    }
}

/// The lower-case hex digit for one value below sixteen.
pub open spec fn spec_hex_digit(d: int) -> u8 {
    if d < 10 {
        (0x30 + d) as u8
    } else {
        (0x61 + (d - 10)) as u8
    }
}

/// How one byte appears inside a JSON string: the two-character escapes of
/// JSON for quote, backslash and the named control characters, a `\u00XX`
/// escape for the remaining control bytes, and the byte itself otherwise.
pub open spec fn spec_escape_byte(b: u8) -> Seq<u8> {
    if b == 0x22 {
        seq![0x5cu8, 0x22u8]  // \"
    } else if b == 0x5c {
        seq![0x5cu8, 0x5cu8]  // two backslashes
    } else if b == 0x08 {
        seq![0x5cu8, 0x62u8]  // \b
    } else if b == 0x0c {
        seq![0x5cu8, 0x66u8]  // \f
    } else if b == 0x0a {
        seq![0x5cu8, 0x6eu8]  // \n
    } else if b == 0x0d {
        seq![0x5cu8, 0x72u8]  // \r
    } else if b == 0x09 {
        seq![0x5cu8, 0x74u8]  // \t
    } else if b < 0x20 {
        seq![0x5cu8, 0x75u8, 0x30u8, 0x30u8, spec_hex_digit(b as int / 16), spec_hex_digit(
            b as int % 16,
        )]
    } else {
        seq![b]
    }
}

/// A byte string escaped for the inside of a JSON string.
pub open spec fn spec_json_escaped(s: Seq<u8>) -> Seq<u8>
    decreases s.len(),
{
    if s.len() == 0 {
        seq![]
    } else {
        spec_escape_byte(s[0]) + spec_json_escaped(s.skip(1))
    }
}

/// Splitting a byte string splits its escaped text.
pub proof fn lemma_json_escaped_append(a: Seq<u8>, b: Seq<u8>)
    ensures
        spec_json_escaped(a + b) == spec_json_escaped(a) + spec_json_escaped(b),
    decreases a.len(),
{
    if a.len() == 0 {
        assert(a + b =~= b);
        assert(spec_json_escaped(a) + spec_json_escaped(b) =~= spec_json_escaped(b));
    } else {
        lemma_json_escaped_append(a.skip(1), b);
        assert((a + b).skip(1) =~= a.skip(1) + b);
        assert(spec_escape_byte(a[0]) + (spec_json_escaped(a.skip(1)) + spec_json_escaped(b))
            =~= (spec_escape_byte(a[0]) + spec_json_escaped(a.skip(1))) + spec_json_escaped(b));
    }
}

/// Append one escaped byte.
fn push_escaped_byte(out: &mut Vec<u8>, b: u8)
    ensures
        final(out)@ == old(out)@ + spec_escape_byte(b),
{
    if b == 0x22 {
        out.push(0x5cu8);
        out.push(0x22u8);
    } else if b == 0x5c {
        out.push(0x5cu8);
        out.push(0x5cu8);
    } else if b == 0x08 {
        out.push(0x5cu8);
        out.push(0x62u8);
    } else if b == 0x0c {
        out.push(0x5cu8);
        out.push(0x66u8);
    } else if b == 0x0a {
        out.push(0x5cu8);
        out.push(0x6eu8);
    } else if b == 0x0d {
        out.push(0x5cu8);
        out.push(0x72u8);
    } else if b == 0x09 {
        out.push(0x5cu8);
        out.push(0x74u8);
    } else if b < 0x20 {
        out.push(0x5cu8);
        out.push(0x75u8);
        out.push(0x30u8);
        out.push(0x30u8);
        let hi: u8 = b / 16;
        let lo: u8 = b % 16;
        out.push(if hi < 10 { 0x30u8 + hi } else { 0x61u8 + (hi - 10) });
        out.push(if lo < 10 { 0x30u8 + lo } else { 0x61u8 + (lo - 10) });
    } else {
        out.push(b);
    }
    proof {
        assert(out@ =~= old(out)@ + spec_escape_byte(b));
    }
}

/// A whole byte string rendered as a JSON string, quotes included.
pub open spec fn spec_json_string(s: Seq<u8>) -> Seq<u8> {
    seq![0x22u8] + spec_json_escaped(s) + seq![0x22u8]
}

/// Append `s` as a JSON string: an opening quote, the escaped bytes, a
/// closing quote.
pub fn push_json_string(out: &mut Vec<u8>, s: &[u8])
    ensures
        final(out)@ == old(out)@ + spec_json_string(s@),
{
    out.push(0x22u8);
    let mut i: usize = 0;
    proof {
        assert(s@.take(0) =~= Seq::<u8>::empty());
        assert(spec_json_escaped(s@.take(0)) =~= Seq::<u8>::empty());
        assert(out@ =~= old(out)@ + seq![0x22u8] + spec_json_escaped(s@.take(0)));
    }
    while i < s.len()
        invariant
            i <= s.len(),
            out@ == old(out)@ + seq![0x22u8] + spec_json_escaped(s@.take(i as int)),
        decreases s.len() - i,
    {
        push_escaped_byte(out, s[i]);
        proof {
            lemma_json_escaped_append(s@.take(i as int), seq![s@[i as int]]);
            assert(s@.take(i + 1) =~= s@.take(i as int) + seq![s@[i as int]]);
            let one = seq![s@[i as int]];
            assert(one.skip(1) =~= Seq::<u8>::empty());
            assert(spec_json_escaped(Seq::<u8>::empty()) =~= Seq::<u8>::empty());
            assert(spec_json_escaped(one) == spec_escape_byte(one[0]) + spec_json_escaped(
                one.skip(1),
            ));
            assert(spec_json_escaped(one) =~= spec_escape_byte(s@[i as int]));
            assert(out@ =~= old(out)@ + seq![0x22u8] + spec_json_escaped(s@.take(i + 1)));
        }
        i += 1;
    }
    out.push(0x22u8);
    proof {
        assert(s@.take(s@.len() as int) =~= s@);
        assert(out@ =~= old(out)@ + spec_json_string(s@));
    }
}

} // verus!
