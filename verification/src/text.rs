//! Textual rendering of header fields: lowercase hexadecimal, decimal
//! octets, and the hyphenated identifier form.
use vstd::prelude::*;

verus! {

/// The lowercase hexadecimal digit character for a value in `0..16`.
pub open spec fn hex_digit(n: int) -> char
    recommends
        0 <= n < 16,
{
    if n == 0 {
        '0'
    } else if n == 1 {
        '1'
    } else if n == 2 {
        '2'
    } else if n == 3 {
        '3'
    } else if n == 4 {
        '4'
    } else if n == 5 {
        '5'
    } else if n == 6 {
        '6'
    } else if n == 7 {
        '7'
    } else if n == 8 {
        '8'
    } else if n == 9 {
        '9'
    } else if n == 10 {
        'a'
    } else if n == 11 {
        'b'
    } else if n == 12 {
        'c'
    } else if n == 13 {
        'd'
    } else if n == 14 {
        'e'
    } else {
        'f'
    }
}

/// The single lowercase hexadecimal digit for `d`, as a one-character string.
pub fn hex_digit_str(d: u8) -> (r: &'static str)
    requires
        d < 16,
    ensures
        r@ == seq![hex_digit(d as int)],
{
    proof {
        reveal_strlit("0");
        reveal_strlit("1");
        reveal_strlit("2");
        reveal_strlit("3");
        reveal_strlit("4");
        reveal_strlit("5");
        reveal_strlit("6");
        reveal_strlit("7");
        reveal_strlit("8");
        reveal_strlit("9");
        reveal_strlit("a");
        reveal_strlit("b");
        reveal_strlit("c");
        reveal_strlit("d");
        reveal_strlit("e");
        reveal_strlit("f");
    }
    let r: &'static str = if d == 0 {
        "0"
    } else if d == 1 {
        "1"
    } else if d == 2 {
        "2"
    } else if d == 3 {
        "3"
    } else if d == 4 {
        "4"
    } else if d == 5 {
        "5"
    } else if d == 6 {
        "6"
    } else if d == 7 {
        "7"
    } else if d == 8 {
        "8"
    } else if d == 9 {
        "9"
    } else if d == 10 {
        "a"
    } else if d == 11 {
        "b"
    } else if d == 12 {
        "c"
    } else if d == 13 {
        "d"
    } else if d == 14 {
        "e"
    } else {
        "f"
    };
    proof {
        assert(r@ =~= seq![hex_digit(d as int)]);
    }
    r
}

/// Decimal digit characters of `n`, most significant first, with no
/// leading zeros (`0` itself is the single character `'0'`).
pub open spec fn dec_digits(n: int) -> Seq<char>
    recommends
        n >= 0,
    decreases n,
{
    if n <= 9 {
        seq![hex_digit(n)]
    } else {
        dec_digits(n / 10) + seq![hex_digit(n % 10)]
    }
}

/// Lowercase hexadecimal digit characters of `n`, most significant first,
/// with no leading zeros (`0` itself is the single character `'0'`).
pub open spec fn hex_digits(n: int) -> Seq<char>
    recommends
        n >= 0,
    decreases n,
{
    if n <= 15 {
        seq![hex_digit(n)]
    } else {
        hex_digits(n / 16) + seq![hex_digit(n % 16)]
    }
}

/// Two lowercase hexadecimal digit characters of the byte `b`, zero-padded.
pub open spec fn byte_hex(b: u8) -> Seq<char> {
    seq![hex_digit(b as int / 16), hex_digit(b as int % 16)]
}

/// Each byte as two lowercase hexadecimal digits, concatenated.
pub open spec fn hex_of(s: Seq<u8>) -> Seq<char>
    decreases s.len(),
{
    if s.len() == 0 {
        Seq::empty()
    } else {
        byte_hex(s[0]) + hex_of(s.drop_first())
    }
}

/// The decimal representation of `n` with no leading zeros.
pub fn dec_string(n: u8) -> (r: String)
    ensures
        r@ == dec_digits(n as int),
    decreases n,
{
    if n <= 9 {
        let mut s = String::new();
        s.append(hex_digit_str(n));
        proof {
            assert(s@ =~= dec_digits(n as int));
        }
        s
    } else {
        let mut s = dec_string(n / 10);
        s.append(hex_digit_str(n % 10));
        proof {
            assert(s@ =~= dec_digits(n as int));
        }
        s
    }
}

/// The lowercase hexadecimal representation of `v` with no leading zeros.
pub fn hex_string(v: u16) -> (r: String)
    ensures
        r@ == hex_digits(v as int),
    decreases v,
{
    if v <= 15 {
        let mut s = String::new();
        s.append(hex_digit_str(v as u8));
        proof {
            assert(s@ =~= hex_digits(v as int));
        }
        s
    } else {
        let mut s = hex_string(v / 16);
        s.append(hex_digit_str((v % 16) as u8));
        proof {
            assert(s@ =~= hex_digits(v as int));
        }
        s
    }
}

/// Appending a byte to a sequence appends its two hex digits to the rendering.
pub proof fn lemma_hex_of_push(s: Seq<u8>, b: u8)
    ensures
        hex_of(s.push(b)) == hex_of(s) + byte_hex(b),
    decreases s.len(),
{
    if s.len() == 0 {
        assert(s.push(b).drop_first() =~= s);
        assert(s.push(b)[0] == b);
        assert(hex_of(s.push(b)) == byte_hex(b) + hex_of(s));
        assert(hex_of(s) == Seq::<char>::empty());
        assert(hex_of(s.push(b)) =~= hex_of(s) + byte_hex(b));
    } else {
        lemma_hex_of_push(s.drop_first(), b);
        assert(s.push(b).drop_first() =~= s.drop_first().push(b));
        assert(s.push(b)[0] == s[0]);
        assert(hex_of(s.push(b)) == byte_hex(s[0]) + hex_of(s.drop_first().push(b)));
        assert(hex_of(s) == byte_hex(s[0]) + hex_of(s.drop_first()));
        assert((byte_hex(s[0]) + (hex_of(s.drop_first()) + byte_hex(b))) =~= ((byte_hex(s[0])
            + hex_of(s.drop_first())) + byte_hex(b)));
        assert(hex_of(s.push(b)) =~= hex_of(s) + byte_hex(b));
    }
}

/// A sequence of `n` bytes renders to exactly `2 * n` hex digit characters,
/// each of which is a digit `hex_digit` can produce.
pub proof fn lemma_hex_of_form(s: Seq<u8>)
    ensures
        hex_of(s).len() == 2 * s.len(),
        forall|i: int|
            0 <= i < hex_of(s).len() ==> exists|d: int| 0 <= d < 16 && #[trigger] hex_of(s)[i]
                == hex_digit(d),
    decreases s.len(),
{
    if s.len() == 0 {
    } else {
        lemma_hex_of_form(s.drop_first());
        assert forall|i: int| 0 <= i < hex_of(s).len() implies exists|d: int|
            0 <= d < 16 && #[trigger] hex_of(s)[i] == hex_digit(d) by {
            if i == 0 {
                let d = s[0] as int / 16;
                assert(0 <= d < 16 && hex_of(s)[i] == hex_digit(d));
            } else if i == 1 {
                let d = s[0] as int % 16;
                assert(0 <= d < 16 && hex_of(s)[i] == hex_digit(d));
            } else {
                assert(hex_of(s)[i] == hex_of(s.drop_first())[i - 2]);
            }
        }
    }
}

/// The bytes `bytes[from..to]` as lowercase hex digit pairs.
pub fn hex_string_of(bytes: &[u8], from: usize, to: usize) -> (r: String)
    requires
        from <= to <= bytes@.len(),
    ensures
        r@ == hex_of(bytes@.subrange(from as int, to as int)),
{
    let mut s = String::new();
    let mut i: usize = from;
    proof {
        assert(bytes@.subrange(from as int, from as int) =~= Seq::<u8>::empty());
    }
    while i < to
        invariant
            from <= i <= to <= bytes@.len(),
            s@ == hex_of(bytes@.subrange(from as int, i as int)),
        decreases to - i,
    {
        let b = bytes[i];
        s.append(hex_digit_str(b / 16));
        s.append(hex_digit_str(b % 16));
        proof {
            lemma_hex_of_push(bytes@.subrange(from as int, i as int), b);
            assert(bytes@.subrange(from as int, i + 1) =~= bytes@.subrange(
                from as int,
                i as int,
            ).push(b));
            assert(s@ =~= hex_of(bytes@.subrange(from as int, i as int)) + byte_hex(b));
        }
        i = i + 1;
    }
    s
}

/// Dotted-decimal rendering of the four bytes of an IPv4 address.
pub open spec fn ipv4_text(s: Seq<u8>) -> Seq<char>
    recommends
        s.len() == 4,
{
    dec_digits(s[0] as int) + seq!['.'] + dec_digits(s[1] as int) + seq!['.'] + dec_digits(
        s[2] as int,
    ) + seq!['.'] + dec_digits(s[3] as int)
}

/// Renders four IPv4 address bytes as dotted decimal octets.
pub fn parse_ipv4(bytes: &[u8]) -> (r: String)
    requires
        bytes@.len() == 4,
    ensures
        r@ == ipv4_text(bytes@),
{
    proof {
        reveal_strlit(".");
    }
    let mut s = dec_string(bytes[0]);
    s.append(".");
    let o1 = dec_string(bytes[1]);
    s.append(o1.as_str());
    s.append(".");
    let o2 = dec_string(bytes[2]);
    s.append(o2.as_str());
    s.append(".");
    let o3 = dec_string(bytes[3]);
    s.append(o3.as_str());
    proof {
        assert(s@ =~= ipv4_text(bytes@));
    }
    s
}

/// The value of the `i`-th big-endian 16-bit group of 16 IPv6 address bytes.
pub open spec fn ipv6_group(s: Seq<u8>, i: int) -> int
    recommends
        s.len() == 16,
        0 <= i < 8,
{
    (s[2 * i] as int) * 256 + (s[2 * i + 1] as int)
}

/// Colon-separated lowercase hex groups of an IPv6 address, each with no
/// leading zeros and with no `::` compression.
pub open spec fn ipv6_text(s: Seq<u8>) -> Seq<char>
    recommends
        s.len() == 16,
{
    hex_digits(ipv6_group(s, 0)) + seq![':'] + hex_digits(ipv6_group(s, 1)) + seq![':']
        + hex_digits(ipv6_group(s, 2)) + seq![':'] + hex_digits(ipv6_group(s, 3)) + seq![':']
        + hex_digits(ipv6_group(s, 4)) + seq![':'] + hex_digits(ipv6_group(s, 5)) + seq![':']
        + hex_digits(ipv6_group(s, 6)) + seq![':'] + hex_digits(ipv6_group(s, 7))
}

/// The `i`-th 16-bit group of an IPv6 address, in lowercase hex.
fn ipv6_group_string(bytes: &[u8], i: usize) -> (r: String)
    requires
        bytes@.len() == 16,
        i < 8,
    ensures
        r@ == hex_digits(ipv6_group(bytes@, i as int)),
{
    let hi = bytes[2 * i] as u16;
    let lo = bytes[2 * i + 1] as u16;
    let v: u16 = hi * 256 + lo;
    proof {
        assert(v as int == ipv6_group(bytes@, i as int));
    }
    hex_string(v)
}

/// Renders sixteen IPv6 address bytes as eight colon-separated hex groups.
pub fn parse_ipv6(bytes: &[u8]) -> (r: String)
    requires
        bytes@.len() == 16,
    ensures
        r@ == ipv6_text(bytes@),
{
    proof {
        reveal_strlit(":");
    }
    let mut s = ipv6_group_string(bytes, 0);
    let g1 = ipv6_group_string(bytes, 1);
    s.append(":");
    s.append(g1.as_str());
    let g2 = ipv6_group_string(bytes, 2);
    s.append(":");
    s.append(g2.as_str());
    let g3 = ipv6_group_string(bytes, 3);
    s.append(":");
    s.append(g3.as_str());
    let g4 = ipv6_group_string(bytes, 4);
    s.append(":");
    s.append(g4.as_str());
    let g5 = ipv6_group_string(bytes, 5);
    s.append(":");
    s.append(g5.as_str());
    let g6 = ipv6_group_string(bytes, 6);
    s.append(":");
    s.append(g6.as_str());
    let g7 = ipv6_group_string(bytes, 7);
    s.append(":");
    s.append(g7.as_str());
    proof {
        assert(s@ =~= ipv6_text(bytes@));
    }
    s
}

/// Canonical hyphenated identifier form: the hex digits of the 16 bytes,
/// grouped 8-4-4-4-12 characters (byte groups 4-2-2-2-6), joined by `-`.
pub open spec fn uuid_text(id: Seq<u8>) -> Seq<char>
    recommends
        id.len() == 16,
{
    hex_of(id.subrange(0, 4)) + seq!['-'] + hex_of(id.subrange(4, 6)) + seq!['-'] + hex_of(
        id.subrange(6, 8),
    ) + seq!['-'] + hex_of(id.subrange(8, 10)) + seq!['-'] + hex_of(id.subrange(10, 16))
}

/// Renders a 16-byte identifier in the canonical hyphenated lowercase hex form.
pub fn uuid_string(id: &[u8]) -> (r: String)
    requires
        id@.len() == 16,
    ensures
        r@ == uuid_text(id@),
{
    proof {
        reveal_strlit("-");
    }
    let mut s = hex_string_of(id, 0, 4);
    s.append("-");
    let g1 = hex_string_of(id, 4, 6);
    s.append(g1.as_str());
    s.append("-");
    let g2 = hex_string_of(id, 6, 8);
    s.append(g2.as_str());
    s.append("-");
    let g3 = hex_string_of(id, 8, 10);
    s.append(g3.as_str());
    s.append("-");
    let g4 = hex_string_of(id, 10, 16);
    s.append(g4.as_str());
    proof {
        assert(s@ =~= uuid_text(id@));
    }
    s
}

/// The canonical identifier form of any 16-byte value has exactly 36
/// characters; the characters at positions 8, 13, 18 and 23 are hyphens,
/// and no other position holds one (every other position is a hex digit).
pub proof fn lemma_uuid_canonical_form(id: Seq<u8>)
    requires
        id.len() == 16,
    ensures
        uuid_text(id).len() == 36,
        forall|i: int|
            0 <= i < 36 ==> ((#[trigger] uuid_text(id)[i] == '-') <==> (i == 8 || i == 13 || i
                == 18 || i == 23)),
{
    lemma_hex_of_form(id.subrange(0, 4));
    lemma_hex_of_form(id.subrange(4, 6));
    lemma_hex_of_form(id.subrange(6, 8));
    lemma_hex_of_form(id.subrange(8, 10));
    lemma_hex_of_form(id.subrange(10, 16));
    assert(forall|d: int| 0 <= d < 16 ==> #[trigger] hex_digit(d) != '-');
    assert forall|i: int|
        0 <= i < 36 implies ((#[trigger] uuid_text(id)[i] == '-') <==> (i == 8 || i == 13 || i
        == 18 || i == 23)) by {
        let a = hex_of(id.subrange(0, 4));
        let b = hex_of(id.subrange(4, 6));
        let c = hex_of(id.subrange(6, 8));
        let d = hex_of(id.subrange(8, 10));
        let e = hex_of(id.subrange(10, 16));
        if i < 8 {
            assert(uuid_text(id)[i] == a[i]);
        } else if i == 8 {
        } else if i < 13 {
            assert(uuid_text(id)[i] == b[i - 9]);
        } else if i == 13 {
        } else if i < 18 {
            assert(uuid_text(id)[i] == c[i - 14]);
        } else if i == 18 {
        } else if i < 23 {
            assert(uuid_text(id)[i] == d[i - 19]);
        } else if i == 23 {
        } else {
            assert(uuid_text(id)[i] == e[i - 24]);
        }
    }
}

} // verus!
