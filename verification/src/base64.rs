//! The Base64 encoding, with padding.
use vstd::prelude::*;


verus! {

/// The character for six bits.
pub open spec fn sextet_char(n: int) -> char {
    if n < 26 {
        ('A' as int + n) as char
    } else if n < 52 {
        ('a' as int + (n - 26)) as char
    } else if n < 62 {
        ('0' as int + (n - 52)) as char
    } else if n == 62 {
        '+'
    } else {
        '/'
    }
}

/// The six bits of a character.
pub open spec fn char_sextet(c: char) -> int {
    if 'A' <= c <= 'Z' {
        c as int - 'A' as int
    } else if 'a' <= c <= 'z' {
        c as int - 'a' as int + 26
    } else if '0' <= c <= '9' {
        c as int - '0' as int + 52
    } else if c == '+' {
        62
    } else {
        63
    }
}

/// Three bytes as one number.
pub open spec fn triple(b0: int, b1: int, b2: int) -> int {
    b0 * 65536 + b1 * 256 + b2
}

/// The four characters for up to three bytes: what is missing is padded.
pub open spec fn group(b: Seq<u8>) -> Seq<char> {
    let b1 = if b.len() > 1 {
        b[1] as int
    } else {
        0
    };
    let b2 = if b.len() > 2 {
        b[2] as int
    } else {
        0
    };
    let n = triple(b[0] as int, b1, b2);
    seq![
        sextet_char(n / 262144),
        sextet_char(n / 4096 % 64),
        if b.len() > 1 {
            sextet_char(n / 64 % 64)
        } else {
            '='
        },
        if b.len() > 2 {
            sextet_char(n % 64)
        } else {
            '='
        },
    ]
}

/// The encoding of bytes: three at a time.
pub open spec fn encoded(b: Seq<u8>) -> Seq<char>
    decreases b.len(),
{
    if b.len() == 0 {
        Seq::empty()
    } else if b.len() <= 3 {
        group(b)
    } else {
        group(b.take(3)) + encoded(b.skip(3))
    }
}

/// The bytes that four characters stand for.
pub open spec fn ungroup(c: Seq<char>) -> Seq<u8> {
    let n = char_sextet(c[0]) * 262144 + char_sextet(c[1]) * 4096 + (if c[2] == '=' {
        0
    } else {
        char_sextet(c[2]) * 64
    }) + (if c[3] == '=' {
        0
    } else {
        char_sextet(c[3])
    });
    if c[2] == '=' {
        seq![(n / 65536) as u8]
    } else if c[3] == '=' {
        seq![(n / 65536) as u8, (n / 256 % 256) as u8]
    } else {
        seq![(n / 65536) as u8, (n / 256 % 256) as u8, (n % 256) as u8]
    }
}

/// The bytes that an encoding stands for.
pub open spec fn decoded(c: Seq<char>) -> Seq<u8>
    decreases c.len(),
{
    if c.len() < 4 {
        Seq::empty()
    } else {
        ungroup(c.take(4)) + decoded(c.skip(4))
    }
}

/// The character for six bits.
fn alphabet(n: u32) -> (r: char)
    requires
        n < 64,
    ensures
        r == sextet_char(n as int),
{
    if n < 26 {
        (65 + n as u8) as char
    } else if n < 52 {
        (97 + (n as u8 - 26)) as char
    } else if n < 62 {
        (48 + (n as u8 - 52)) as char
    } else if n == 62 {
        '+'
    } else {
        '/'
    }
}

proof fn lemma_encoded_step(b: Seq<u8>, i: int, j: int)
    requires
        0 <= i < j <= b.len(),
        j == i + 3 || j == b.len() && j < i + 3,
    ensures
        encoded(b.skip(i)) == group(b.subrange(i, j)) + encoded(b.skip(j)),
{
    let rest = b.skip(i);
    if rest.len() <= 3 {
        assert(b.subrange(i, j) =~= rest);
        assert(encoded(b.skip(j)) =~= Seq::<char>::empty());
        assert(group(rest) + Seq::<char>::empty() =~= group(rest));
    } else {
        assert(rest.take(3) =~= b.subrange(i, j));
        assert(rest.skip(3) =~= b.skip(j));
    }
}

/// The Base64 encoding of bytes.
pub fn encode_bytes(bytes: &[u8]) -> (r: String)
    ensures
        r@ == encoded(bytes@),
{
    let mut result = String::new();
    let mut i: usize = 0;
    let total: usize = bytes.len();
    assert(bytes@.skip(0) =~= bytes@);
    while i < total
        invariant
            i <= total,
            total == bytes@.len(),
            result@ + encoded(bytes@.skip(i as int)) == encoded(bytes@),
        decreases total - i,
    {
        let left: usize = total - i;
        let b0: u32 = bytes[i] as u32;
        let b1: u32 = if left > 1 {
            bytes[i + 1] as u32
        } else {
            0
        };
        let b2: u32 = if left > 2 {
            bytes[i + 2] as u32
        } else {
            0
        };
        let n: u32 = b0 * 65536 + b1 * 256 + b2;
        let next: usize = if left > 3 {
            i + 3
        } else {
            total
        };
        let ghost before = result@;
        let ghost chunk = bytes@.subrange(i as int, next as int);
        result.push(alphabet(n / 262144));
        result.push(alphabet(n / 4096 % 64));
        if left > 1 {
            result.push(alphabet(n / 64 % 64));
        } else {
            result.push('=');
        }
        if left > 2 {
            result.push(alphabet(n % 64));
        } else {
            result.push('=');
        }
        proof {
            assert(chunk[0] == bytes@[i as int]);
            assert(result@ =~= before + group(chunk));
            lemma_encoded_step(bytes@, i as int, next as int);
            assert(before + (group(chunk) + encoded(bytes@.skip(next as int))) =~= (before + group(
                chunk,
            )) + encoded(bytes@.skip(next as int)));
        }
        i = next;
    }
    assert(encoded(bytes@.skip(total as int)) =~= Seq::<char>::empty());
    assert(result@ =~= encoded(bytes@));
    result
}

/// The Base64 encoding of a text in UTF-8.
pub fn base64_encode(input: &str) -> (r: String)
    ensures
        r@ == encoded(vstd::utf8::encode_utf8(input@)),
{
    encode_bytes(input.as_bytes())
}

// ---------------------------------------------------------------------------
// Laws
// ---------------------------------------------------------------------------

proof fn lemma_sextet(n: int)
    requires
        0 <= n < 64,
    ensures
        char_sextet(sextet_char(n)) == n,
        sextet_char(n) != '=',
{
}

proof fn lemma_sextets_of(n: int)
    requires
        0 <= n < 16777216,
    ensures
        0 <= n / 262144 < 64,
        n == (n / 262144) * 262144 + (n / 4096 % 64) * 4096 + (n / 64 % 64) * 64 + n % 64,
{
    assert(n / 4096 == (n / 64) / 64);
    assert(n / 262144 == (n / 4096) / 64);
}

proof fn lemma_bytes_of(b0: int, b1: int, b2: int)
    requires
        0 <= b0 < 256,
        0 <= b1 < 256,
        0 <= b2 < 256,
    ensures
        triple(b0, b1, b2) / 65536 == b0,
        triple(b0, b1, b2) / 256 % 256 == b1,
        triple(b0, b1, b2) % 256 == b2,
        0 <= triple(b0, b1, b2) < 16777216,
{
    let n = triple(b0, b1, b2);
    assert(n / 256 == b0 * 256 + b1);
}

proof fn lemma_group(b: Seq<u8>)
    requires
        1 <= b.len() <= 3,
    ensures
        group(b).len() == 4,
        ungroup(group(b)) == b,
{
    let b0 = b[0] as int;
    let b1 = if b.len() > 1 {
        b[1] as int
    } else {
        0
    };
    let b2 = if b.len() > 2 {
        b[2] as int
    } else {
        0
    };
    let n = triple(b0, b1, b2);
    let s0 = n / 262144;
    let s1 = n / 4096 % 64;
    let s2 = n / 64 % 64;
    let s3 = n % 64;
    lemma_bytes_of(b0, b1, b2);
    lemma_sextets_of(n);
    lemma_sextet(s0);
    lemma_sextet(s1);
    lemma_sextet(s2);
    lemma_sextet(s3);
    let c = group(b);
    assert(c[0] == sextet_char(s0) && c[1] == sextet_char(s1));
    if b.len() == 1 {
        assert(n == b0 * 65536);
        assert(s3 == 0);
        assert(n / 64 == b0 * 1024);
        assert(s2 * 64 + s3 == 0);
        assert(ungroup(c) =~= b);
    } else if b.len() == 2 {
        assert(n == (b0 * 256 + b1) * 256);
        assert(s3 == 0);
        assert(ungroup(c) =~= b);
    } else {
        assert(ungroup(c) =~= b);
    }
}

/// What was encoded can be read back, byte for byte.
pub proof fn law_decodes_back(b: Seq<u8>)
    ensures
        decoded(encoded(b)) == b,
    decreases b.len(),
{
    if b.len() == 0 {
        assert(decoded(Seq::<char>::empty()) =~= b);
    } else if b.len() <= 3 {
        lemma_group(b);
        let c = encoded(b);
        assert(c.take(4) =~= c);
        assert(decoded(c.skip(4)) =~= Seq::<u8>::empty());
        assert(decoded(c) =~= b);
    } else {
        lemma_group(b.take(3));
        law_decodes_back(b.skip(3));
        let c = encoded(b);
        assert(c.take(4) =~= group(b.take(3)));
        assert(c.skip(4) =~= encoded(b.skip(3)));
        assert(b.take(3) + b.skip(3) =~= b);
    }
}

/// An encoding has four characters for every three bytes, the last group
/// filled up.
pub proof fn law_encoded_len(b: Seq<u8>)
    ensures
        encoded(b).len() == (b.len() + 2) / 3 * 4,
    decreases b.len(),
{
    if b.len() > 3 {
        law_encoded_len(b.skip(3));
    }
}

} // verus!
