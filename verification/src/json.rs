//! Building blocks for the JSON wire encoding of a notice.
//!
//! The encoder emits a pure-ASCII document: characters outside the printable
//! ASCII range are written as `\u` escape sequences (a surrogate pair for
//! characters beyond the basic plane), so the byte sequence of the document is
//! fixed exactly by the specification functions here.
use vstd::prelude::*;
use vstd::utf8::encode_utf8;

verus! {

/// The ASCII byte of one hexadecimal digit (lower case), for `0 <= d < 16`.
pub open spec fn hex_digit(d: int) -> u8 {
    if d < 10 {
        (48 + d) as u8
    } else {
        (87 + d) as u8
    }
}

/// Four hexadecimal digits of a code unit, most significant first.
pub open spec fn hex4(n: int) -> Seq<u8> {
    seq![
        hex_digit(n / 4096 % 16),
        hex_digit(n / 256 % 16),
        hex_digit(n / 16 % 16),
        hex_digit(n % 16),
    ]
}

/// The bytes a single character contributes to a JSON string body: the named
/// escapes for the quote, the backslash and the common control characters, a
/// `\u` escape for every other control or non-ASCII character (two escapes,
/// forming a surrogate pair, beyond the basic plane), and the character itself
/// otherwise.
pub open spec fn esc_char(c: char) -> Seq<u8> {
    let u = c as u32;
    if c == '"' {
        seq![92u8, 34u8]
    } else if c == '\\' {
        seq![92u8, 92u8]
    } else if c == '\n' {
        seq![92u8, 110u8]
    } else if c == '\r' {
        seq![92u8, 114u8]
    } else if c == '\t' {
        seq![92u8, 116u8]
    } else if u < 32 {
        seq![92u8, 117u8] + hex4(u as int)
    } else if u < 128 {
        seq![u as u8]
    } else if u < 65536 {
        seq![92u8, 117u8] + hex4(u as int)
    } else {
        let v = u - 65536;
        seq![92u8, 117u8] + hex4(55296 + v as int / 1024) + seq![92u8, 117u8] + hex4(
            56320 + v as int % 1024,
        )
    }
}

/// The body of a JSON string: every character escaped as `esc_char` says.
pub open spec fn esc(s: Seq<char>) -> Seq<u8>
    decreases s.len(),
{
    if s.len() == 0 {
        Seq::empty()
    } else {
        esc(s.drop_last()) + esc_char(s.last())
    }
}

/// A complete JSON string: the escaped body between two quotes.
pub open spec fn jstr(s: Seq<char>) -> Seq<u8> {
    seq![34u8] + esc(s) + seq![34u8]
}

/// The decimal digits of a number, most significant first.
pub open spec fn dec(n: nat) -> Seq<u8>
    decreases n,
{
    if n < 10 {
        seq![(48 + n) as u8]
    } else {
        dec(n / 10) + seq![(48 + n % 10) as u8]
    }
}

/// The value of a sequence of ASCII decimal digit bytes, most significant
/// first (what a decoder reads back from a numeric field).
pub open spec fn digit_bytes_val(s: Seq<u8>) -> int
    decreases s.len(),
{
    if s.len() == 0 {
        0
    } else {
        digit_bytes_val(s.drop_last()) * 10 + (s.last() - 48)
    }
}

/// Law: the decimal rendering of a numeric field decodes back to the value,
/// and consists of digit bytes only — so a decoder recovers the stamped
/// time and process id exactly.
pub proof fn lemma_dec_roundtrip(n: nat)
    ensures
        digit_bytes_val(dec(n)) == n,
        forall|i: int| 0 <= i < dec(n).len() ==> 48 <= #[trigger] dec(n)[i] <= 57,
    decreases n,
{
    assert(digit_bytes_val(Seq::<u8>::empty()) == 0);
    if n < 10 {
        assert(dec(n).drop_last() =~= Seq::<u8>::empty());
        assert(dec(n).last() == (48 + n) as u8);
        assert(digit_bytes_val(dec(n)) == ((48 + n) as u8) - 48);
    } else {
        lemma_dec_roundtrip(n / 10);
        assert(dec(n).drop_last() =~= dec(n / 10));
        assert(dec(n).last() == (48 + n % 10) as u8);
        assert(digit_bytes_val(dec(n)) == digit_bytes_val(dec(n / 10)) * 10 + (((48 + n % 10) as u8)
            - 48));
        assert(digit_bytes_val(dec(n)) == (n / 10) * 10 + n % 10);
        assert((n / 10) * 10 + n % 10 == n) by (nonlinear_arith);
        assert(forall|i: int|
            0 <= i < dec(n).len() ==> 48 <= #[trigger] dec(n)[i] <= 57) by {
            assert(forall|i: int|
                0 <= i < dec(n / 10).len() ==> dec(n)[i] == #[trigger] dec(n / 10)[i]);
        }
    }
}

/// One member of a JSON object built from a pair of strings.
pub open spec fn pair_json(p: (String, String)) -> Seq<u8> {
    jstr(p.0@) + seq![58u8] + jstr(p.1@)
}

/// The members of a JSON object built from a sequence of pairs, in order,
/// separated by commas.
pub open spec fn pairs_body(s: Seq<(String, String)>) -> Seq<u8>
    decreases s.len(),
{
    if s.len() == 0 {
        Seq::empty()
    } else if s.len() == 1 {
        pair_json(s.last())
    } else {
        pairs_body(s.drop_last()) + seq![44u8] + pair_json(s.last())
    }
}

/// A complete JSON object of string pairs.
pub open spec fn pairs_json(s: Seq<(String, String)>) -> Seq<u8> {
    seq![123u8] + pairs_body(s) + seq![125u8]
}

/// A JSON string, or `null` where the value is absent.
pub open spec fn opt_jstr(m: Option<String>) -> Seq<u8> {
    match m {
        Option::Some(s) => jstr(s@),
        Option::None => encode_utf8("null"@),
    }
}

proof fn lemma_hex4_inj(a: int, b: int)
    requires
        0 <= a < 65536,
        0 <= b < 65536,
        hex4(a) == hex4(b),
    ensures
        a == b,
{
    assert(hex4(a)[0] == hex4(b)[0]);
    assert(hex4(a)[1] == hex4(b)[1]);
    assert(hex4(a)[2] == hex4(b)[2]);
    assert(hex4(a)[3] == hex4(b)[3]);
    let a2 = a as u32;
    let b2 = b as u32;
    assert(a2 == b2) by (bit_vector)
        requires
            a2 < 65536,
            b2 < 65536,
            hex_digit((a2 / 4096 % 16) as int) == hex_digit((b2 / 4096 % 16) as int) ==> a2 / 4096
                % 16 == b2 / 4096 % 16,
            hex_digit((a2 / 256 % 16) as int) == hex_digit((b2 / 256 % 16) as int) ==> a2 / 256
                % 16 == b2 / 256 % 16,
            hex_digit((a2 / 16 % 16) as int) == hex_digit((b2 / 16 % 16) as int) ==> a2 / 16 % 16
                == b2 / 16 % 16,
            hex_digit((a2 % 16) as int) == hex_digit((b2 % 16) as int) ==> a2 % 16 == b2 % 16,
            a2 / 4096 % 16 == b2 / 4096 % 16,
            a2 / 256 % 16 == b2 / 256 % 16,
            a2 / 16 % 16 == b2 / 16 % 16,
            a2 % 16 == b2 % 16,
    ;
}

/// The value a `\u` escape of one character encodes in its first code unit.
spec fn first_unit(c: char) -> int {
    let u = c as u32;
    if u < 65536 {
        u as int
    } else {
        55296 + (u - 65536) as int / 1024
    }
}

#[verifier::rlimit(60)]
proof fn lemma_esc_char_prefix(c1: char, c2: char, t1: Seq<u8>, t2: Seq<u8>)
    requires
        esc_char(c1) + t1 == esc_char(c2) + t2,
    ensures
        c1 == c2,
        t1 == t2,
{
    vstd::utf8::char_is_scalar(c1);
    vstd::utf8::char_is_scalar(c2);
    let u1 = c1 as u32;
    let u2 = c2 as u32;
    let e1 = esc_char(c1);
    let e2 = esc_char(c2);
    let w = e1 + t1;
    // The first byte separates a plain character (never a backslash) from the
    // start of an escape sequence.
    assert(w[0] == e1[0] && w[0] == e2[0]);
    if e1[0] != 92 || e2[0] != 92 {
        // Both are plain: the single byte is the character itself.
        assert(e1 == seq![u1 as u8] && e2 == seq![u2 as u8]);
        assert(u1 < 128 && u2 < 128);
        assert(u1 == u2);
    } else {
        // Both are escapes: the second byte separates the named escapes from
        // the `\u` form.
        assert(w[1] == e1[1] && w[1] == e2[1]);
        let named1 = c1 == '"' || c1 == '\\' || c1 == '\n' || c1 == '\r' || c1 == '\t';
        let named2 = c2 == '"' || c2 == '\\' || c2 == '\n' || c2 == '\r' || c2 == '\t';
        if named1 && named2 {
            assert(u1 == u2) by {
                assert(e1[1] == e2[1]);
            }
        } else if named1 != named2 {
            // A named escape's second byte is never the 'u' of a `\u` escape.
            assert(false) by {
                assert(e1[1] == e2[1]);
            }
        } else {
            // Both are `\u` escapes; the four hex digits fix the first code
            // unit of each.
            assert(e1.subrange(2, 6) =~= hex4(first_unit(c1)));
            assert(e2.subrange(2, 6) =~= hex4(first_unit(c2)));
            assert(forall|i: int| 2 <= i < 6 ==> w[i] == e1[i] && w[i] == #[trigger] e2[i]);
            assert(hex4(first_unit(c1)) =~= hex4(first_unit(c2)));
            assert(0 <= first_unit(c1) < 65536 && 0 <= first_unit(c2) < 65536) by {
                assert(u1 > 65535 ==> (u1 - 65536) / 1024 < 1024);
                assert(u2 > 65535 ==> (u2 - 65536) / 1024 < 1024);
            }
            lemma_hex4_inj(first_unit(c1), first_unit(c2));
            // A one-unit escape never encodes a surrogate value, so both
            // characters lie on the same side of the basic plane.
            if u1 < 65536 && u2 < 65536 {
                assert(u1 == u2);
            } else if u1 >= 65536 && u2 >= 65536 {
                // The first units agree, and the second units are fixed by
                // the next six bytes.
                assert(forall|i: int| 6 <= i < 12 ==> w[i] == e1[i] && w[i] == #[trigger] e2[i]);
                assert(e1.subrange(8, 12) =~= hex4(56320 + (u1 - 65536) as int % 1024));
                assert(e2.subrange(8, 12) =~= hex4(56320 + (u2 - 65536) as int % 1024));
                assert(hex4(56320 + (u1 - 65536) as int % 1024) =~= hex4(
                    56320 + (u2 - 65536) as int % 1024,
                ));
                lemma_hex4_inj(
                    56320 + (u1 - 65536) as int % 1024,
                    56320 + (u2 - 65536) as int % 1024,
                );
                let v1 = (u1 - 65536) as int;
                let v2 = (u2 - 65536) as int;
                assert(v1 / 1024 == v2 / 1024 && v1 % 1024 == v2 % 1024);
                assert(v1 == v2) by (nonlinear_arith)
                    requires
                        v1 / 1024 == v2 / 1024,
                        v1 % 1024 == v2 % 1024,
                ;
            } else {
                // One unit is a high surrogate, the other a scalar: the hex
                // digits cannot agree.
                assert(false);
            }
        }
    }
    assert(u1 == u2);
    vstd::utf8::char_u32_cast(c1, u1);
    vstd::utf8::char_u32_cast(c2, u1);
    assert(c1 == c2);
    assert(e1 == e2);
    assert((e1 + t1).len() == e1.len() + t1.len());
    assert((e2 + t2).len() == e2.len() + t2.len());
    assert(t1.len() == t2.len());
    assert forall|i: int| 0 <= i < t1.len() implies t1[i] == t2[i] by {
        assert((e1 + t1)[e1.len() + i] == t1[i]);
        assert((e2 + t2)[e2.len() + i] == t2[i]);
    }
    assert(t1 =~= t2);
}

proof fn lemma_esc_unfold_left(s: Seq<char>)
    requires
        s.len() > 0,
    ensures
        esc(s) == esc_char(s[0]) + esc(s.drop_first()),
    decreases s.len(),
{
    if s.len() == 1 {
        assert(s.drop_last() =~= Seq::<char>::empty());
        assert(s.drop_first() =~= Seq::<char>::empty());
        assert(esc(s) =~= esc_char(s[0]) + esc(s.drop_first()));
    } else {
        lemma_esc_unfold_left(s.drop_last());
        assert(s.drop_last()[0] == s[0]);
        assert(s.drop_last().drop_first() =~= s.drop_first().drop_last());
        assert(s.drop_first().last() == s.last());
        assert(esc(s) =~= esc_char(s[0]) + esc(s.drop_first()));
    }
}

/// Law: the escaped body of a JSON string determines the string: no two
/// strings share an encoding, so a decoder recovers every string field of the
/// document exactly.
pub proof fn lemma_esc_injective(s1: Seq<char>, s2: Seq<char>)
    requires
        esc(s1) == esc(s2),
    ensures
        s1 == s2,
    decreases s1.len(),
{
    if s1.len() == 0 || s2.len() == 0 {
        if s1.len() > 0 {
            lemma_esc_unfold_left(s1);
            assert(esc_char(s1[0]).len() >= 1);
            assert(esc(s1).len() >= 1);
        }
        if s2.len() > 0 {
            lemma_esc_unfold_left(s2);
            assert(esc_char(s2[0]).len() >= 1);
            assert(esc(s2).len() >= 1);
        }
        assert(s1 =~= s2);
    } else {
        lemma_esc_unfold_left(s1);
        lemma_esc_unfold_left(s2);
        lemma_esc_char_prefix(s1[0], s2[0], esc(s1.drop_first()), esc(s2.drop_first()));
        lemma_esc_injective(s1.drop_first(), s2.drop_first());
        assert(s1.len() == s2.len());
        assert forall|i: int| 0 <= i < s1.len() implies s1[i] == s2[i] by {
            if i > 0 {
                assert(s1.drop_first()[i - 1] == s2.drop_first()[i - 1]);
            }
        }
        assert(s1 =~= s2);
    }
}

/// Law: a complete JSON string determines the string it encodes.
pub proof fn lemma_jstr_injective(s1: Seq<char>, s2: Seq<char>)
    requires
        jstr(s1) == jstr(s2),
    ensures
        s1 == s2,
{
    assert(esc(s1) =~= jstr(s1).subrange(1, jstr(s1).len() - 1));
    assert(esc(s2) =~= jstr(s2).subrange(1, jstr(s2).len() - 1));
    lemma_esc_injective(s1, s2);
}

/// Concatenation is associative.
pub proof fn lemma_assoc(a: Seq<u8>, b: Seq<u8>, c: Seq<u8>)
    ensures
        (a + b) + c == a + (b + c),
{
    assert((a + b) + c =~= a + (b + c));
}

/// Two sequences with a common prefix agree beyond it.
pub proof fn lemma_cancel_prefix(p: Seq<u8>, x: Seq<u8>, y: Seq<u8>)
    requires
        p + x == p + y,
    ensures
        x == y,
{
    assert((p + x).len() == p.len() + x.len());
    assert((p + y).len() == p.len() + y.len());
    assert forall|i: int| 0 <= i < x.len() implies x[i] == y[i] by {
        assert((p + x)[p.len() + i] == x[i]);
        assert((p + y)[p.len() + i] == y[i]);
    }
    assert(x =~= y);
}

/// Two sequences with a common suffix agree before it.
pub proof fn lemma_cancel_suffix(x: Seq<u8>, y: Seq<u8>, s: Seq<u8>)
    requires
        x + s == y + s,
    ensures
        x == y,
{
    assert((x + s).len() == x.len() + s.len());
    assert((y + s).len() == y.len() + s.len());
    assert forall|i: int| 0 <= i < x.len() implies x[i] == y[i] by {
        assert((x + s)[i] == x[i]);
        assert((y + s)[i] == y[i]);
    }
    assert(x =~= y);
}

proof fn lemma_esc_char_starts(c: char)
    ensures
        esc_char(c).len() >= 1,
        esc_char(c)[0] != 34,
{
    let u = c as u32;
    if !(c == '"' || c == '\\' || c == '\n' || c == '\r' || c == '\t') && 32 <= u && u < 128 {
        if u == 34 {
            vstd::utf8::char_u32_cast(c, 34);
            vstd::utf8::char_u32_cast('"', 34);
            assert(false);
        }
    }
}

proof fn lemma_esc_prefix(s1: Seq<char>, s2: Seq<char>, r1: Seq<u8>, r2: Seq<u8>)
    requires
        esc(s1) + (seq![34u8] + r1) == esc(s2) + (seq![34u8] + r2),
    ensures
        s1 == s2,
        r1 == r2,
    decreases s1.len(),
{
    if s1.len() == 0 && s2.len() == 0 {
        assert(esc(s1) + (seq![34u8] + r1) =~= seq![34u8] + r1);
        assert(esc(s2) + (seq![34u8] + r2) =~= seq![34u8] + r2);
        lemma_cancel_prefix(seq![34u8], r1, r2);
        assert(s1 =~= s2);
    } else if s1.len() == 0 {
        lemma_esc_unfold_left(s2);
        lemma_esc_char_starts(s2[0]);
        assert((esc(s1) + (seq![34u8] + r1))[0] == 34);
        assert((esc(s2) + (seq![34u8] + r2))[0] == esc_char(s2[0])[0]);
        assert(false);
    } else if s2.len() == 0 {
        lemma_esc_unfold_left(s1);
        lemma_esc_char_starts(s1[0]);
        assert((esc(s2) + (seq![34u8] + r2))[0] == 34);
        assert((esc(s1) + (seq![34u8] + r1))[0] == esc_char(s1[0])[0]);
        assert(false);
    } else {
        lemma_esc_unfold_left(s1);
        lemma_esc_unfold_left(s2);
        assert(esc(s1) + (seq![34u8] + r1) =~= esc_char(s1[0]) + (esc(s1.drop_first()) + (seq![34u8]
            + r1)));
        assert(esc(s2) + (seq![34u8] + r2) =~= esc_char(s2[0]) + (esc(s2.drop_first()) + (seq![34u8]
            + r2)));
        lemma_esc_char_prefix(
            s1[0],
            s2[0],
            esc(s1.drop_first()) + (seq![34u8] + r1),
            esc(s2.drop_first()) + (seq![34u8] + r2),
        );
        lemma_esc_prefix(s1.drop_first(), s2.drop_first(), r1, r2);
        assert forall|i: int| 0 <= i < s1.len() implies s1[i] == s2[i] by {
            if i > 0 {
                assert(s1.drop_first()[i - 1] == s2.drop_first()[i - 1]);
            }
        }
        assert(s1 =~= s2);
    }
}

/// Law: a JSON string is delimited unambiguously.  Whatever follows it in a
/// document, the leading complete string and the remainder are determined: a
/// decoder scanning a document cannot confuse the string's end.
pub proof fn lemma_jstr_prefix(s1: Seq<char>, s2: Seq<char>, r1: Seq<u8>, r2: Seq<u8>)
    requires
        jstr(s1) + r1 == jstr(s2) + r2,
    ensures
        s1 == s2,
        r1 == r2,
{
    assert(jstr(s1) + r1 =~= seq![34u8] + (esc(s1) + (seq![34u8] + r1)));
    assert(jstr(s2) + r2 =~= seq![34u8] + (esc(s2) + (seq![34u8] + r2)));
    lemma_cancel_prefix(
        seq![34u8],
        esc(s1) + (seq![34u8] + r1),
        esc(s2) + (seq![34u8] + r2),
    );
    lemma_esc_prefix(s1, s2, r1, r2);
}

/// Law: a decimal rendering at the end of a document is delimited
/// unambiguously by the non-digit byte before it: the number (and everything
/// before it) is determined.
pub proof fn lemma_dec_suffix(a1: Seq<u8>, a2: Seq<u8>, n1: nat, n2: nat)
    requires
        a1.len() > 0,
        a2.len() > 0,
        a1.last() == 58,
        a2.last() == 58,
        a1 + dec(n1) == a2 + dec(n2),
    ensures
        n1 == n2,
        a1 == a2,
{
    lemma_dec_roundtrip(n1);
    lemma_dec_roundtrip(n2);
    let d1 = dec(n1);
    let d2 = dec(n2);
    assert((a1 + d1).len() == a1.len() + d1.len());
    assert((a2 + d2).len() == a2.len() + d2.len());
    if d1.len() < d2.len() {
        let p = a1.len() - 1;
        assert((a1 + d1)[p] == a1.last());
        assert((a2 + d2)[p] == d2[p - a2.len()]);
        assert(48 <= d2[p - a2.len()] <= 57);
        assert(false);
    }
    if d2.len() < d1.len() {
        let p = a2.len() - 1;
        assert((a2 + d2)[p] == a2.last());
        assert((a1 + d1)[p] == d1[p - a1.len()]);
        assert(48 <= d1[p - a1.len()] <= 57);
        assert(false);
    }
    assert forall|i: int| 0 <= i < d1.len() implies d1[i] == d2[i] by {
        assert((a1 + d1)[a1.len() + i] == d1[i]);
        assert((a2 + d2)[a2.len() + i] == d2[i]);
    }
    assert(d1 =~= d2);
    assert forall|i: int| 0 <= i < a1.len() implies a1[i] == a2[i] by {
        assert((a1 + d1)[i] == a1[i]);
        assert((a2 + d2)[i] == a2[i]);
    }
    assert(a1 =~= a2);
}

/// Append the UTF-8 bytes of a string slice verbatim (used for the fixed
/// punctuation and key text of the document, which needs no escaping).
pub fn push_lit(out: &mut Vec<u8>, s: &str)
    ensures
        final(out)@ == old(out)@ + encode_utf8(s@),
{
    let bytes = s.as_bytes();
    let ghost base = out@;
    let mut i: usize = 0;
    while i < bytes.len()
        invariant
            bytes@ == encode_utf8(s@),
            i <= bytes@.len(),
            out@ == base + bytes@.subrange(0, i as int),
        decreases bytes@.len() - i,
    {
        out.push(bytes[i]);
        i = i + 1;
        proof {
            assert(out@ =~= base + bytes@.subrange(0, i as int));
        }
    }
    proof {
        assert(out@ =~= base + encode_utf8(s@));
    }
}

/// Append one hexadecimal digit.
fn push_hex_digit(out: &mut Vec<u8>, d: u32)
    requires
        d < 16,
    ensures
        final(out)@ == old(out)@ + seq![hex_digit(d as int)],
{
    if d < 10 {
        out.push(48 + d as u8);
    } else {
        out.push(87 + d as u8);
    }
    proof {
        assert(out@ =~= old(out)@ + seq![hex_digit(d as int)]);
    }
}

/// Append a `\u` escape of one code unit.
fn push_u_escape(out: &mut Vec<u8>, n: u32)
    requires
        n < 65536,
    ensures
        final(out)@ == old(out)@ + seq![92u8, 117u8] + hex4(n as int),
{
    out.push(92);
    out.push(117);
    push_hex_digit(out, n / 4096 % 16);
    push_hex_digit(out, n / 256 % 16);
    push_hex_digit(out, n / 16 % 16);
    push_hex_digit(out, n % 16);
    proof {
        assert(out@ =~= old(out)@ + seq![92u8, 117u8] + hex4(n as int));
    }
}

/// Append the escape of one character of a string body.
fn push_esc_char(out: &mut Vec<u8>, c: char)
    ensures
        final(out)@ == old(out)@ + esc_char(c),
{
    let u = c as u32;
    if c == '"' {
        out.push(92);
        out.push(34);
    } else if c == '\\' {
        out.push(92);
        out.push(92);
    } else if c == '\n' {
        out.push(92);
        out.push(110);
    } else if c == '\r' {
        out.push(92);
        out.push(114);
    } else if c == '\t' {
        out.push(92);
        out.push(116);
    } else if u < 32 {
        push_u_escape(out, u);
    } else if u < 128 {
        out.push(u as u8);
    } else if u < 65536 {
        push_u_escape(out, u);
    } else {
        let v = u - 65536;
        push_u_escape(out, 55296 + v / 1024);
        push_u_escape(out, 56320 + v % 1024);
    }
    proof {
        assert(out@ =~= old(out)@ + esc_char(c));
    }
}

/// Append a complete JSON string for `s`: quote, escaped body, quote.
pub fn push_json_string(out: &mut Vec<u8>, s: &str)
    ensures
        final(out)@ == old(out)@ + jstr(s@),
{
    let ghost base = out@;
    out.push(34);
    let n = s.unicode_len();
    let mut i: usize = 0;
    while i < n
        invariant
            n == s@.len(),
            i <= n,
            out@ == base + seq![34u8] + esc(s@.subrange(0, i as int)),
        decreases n - i,
    {
        let c = s.get_char(i);
        push_esc_char(out, c);
        i = i + 1;
        proof {
            let pre = s@.subrange(0, i as int);
            assert(pre.drop_last() =~= s@.subrange(0, i as int - 1));
            assert(out@ =~= base + seq![34u8] + esc(pre));
        }
    }
    out.push(34);
    proof {
        assert(s@.subrange(0, s@.len() as int) =~= s@);
        assert(out@ =~= base + jstr(s@));
    }
}

/// Append the decimal rendering of a number.
pub fn push_dec(out: &mut Vec<u8>, n: u64)
    ensures
        final(out)@ == old(out)@ + dec(n as nat),
    decreases n,
{
    if n >= 10 {
        push_dec(out, n / 10);
    }
    out.push(48 + (n % 10) as u8);
    proof {
        assert(out@ =~= old(out)@ + dec(n as nat));
    }
}

/// Append a JSON object whose members are the given pairs, in order.
pub fn push_pairs(out: &mut Vec<u8>, pairs: &Vec<(String, String)>)
    ensures
        final(out)@ == old(out)@ + pairs_json(pairs@),
{
    let ghost base = out@;
    out.push(123);
    let mut i: usize = 0;
    while i < pairs.len()
        invariant
            i <= pairs@.len(),
            out@ == base + seq![123u8] + pairs_body(pairs@.subrange(0, i as int)),
        decreases pairs@.len() - i,
    {
        if i > 0 {
            out.push(44);
        }
        let p = &pairs[i];
        push_json_string(out, p.0.as_str());
        out.push(58);
        push_json_string(out, p.1.as_str());
        i = i + 1;
        proof {
            let pre = pairs@.subrange(0, i as int);
            assert(pre.drop_last() =~= pairs@.subrange(0, i as int - 1));
            assert(pre.last() == pairs@[i as int - 1]);
            assert(out@ =~= base + seq![123u8] + pairs_body(pre));
        }
    }
    out.push(125);
    proof {
        assert(pairs@.subrange(0, pairs@.len() as int) =~= pairs@);
        assert(out@ =~= base + pairs_json(pairs@));
    }
}

/// Append a JSON string, or `null` where the value is absent.
pub fn push_opt_string(out: &mut Vec<u8>, m: &Option<String>)
    ensures
        final(out)@ == old(out)@ + opt_jstr(*m),
{
    match m {
        Option::Some(s) => push_json_string(out, s.as_str()),
        Option::None => push_lit(out, "null"),
    }
}

} // verus!
