//! The string hash that names identifiers and blocks.

use vstd::prelude::*;
use vstd::string::*;
use vstd::utf8::{encode_utf8, is_ascii_chars, is_ascii_chars_encode_utf8};

verus! {

broadcast use vstd::string::is_ascii_spec_bytes;

/// The weight of a byte by its place in its group of four: the bytes of each
/// group of four are read as a little-endian 32-bit number.
pub open spec fn chunk_weight(j: int) -> int {
    if j == 0 {
        1
    } else if j == 1 {
        256
    } else if j == 2 {
        65536
    } else {
        16777216
    }
}

/// The hash of an ASCII string: the string is cut into groups of four bytes,
/// each group is read as a little-endian number, and the numbers are added.
pub open spec fn hash_chars(s: Seq<char>) -> int
    decreases s.len(),
{
    if s.len() == 0 {
        0
    } else {
        hash_chars(s.drop_last()) + (s.last() as int) * chunk_weight((s.len() - 1) % 4)
    }
}

/// A prefix of an ASCII string is ASCII.
pub proof fn lemma_ascii_take(s: Seq<char>, i: int)
    requires
        0 <= i <= s.len(),
        is_ascii_chars(s),
    ensures
        is_ascii_chars(s.take(i)),
{
    assert forall|j: int| 0 <= j < s.take(i).len() implies '\0' <= #[trigger] s.take(i)[j] <= '\u{7f}' by {
        assert(s.take(i)[j] == s[j]);
    }
}

/// Each byte adds a non-negative amount to the hash.
proof fn lemma_last_term(s: Seq<char>)
    requires
        s.len() > 0,
        is_ascii_chars(s),
    ensures
        (s.last() as int) * chunk_weight((s.len() - 1) % 4) >= 0,
        hash_chars(s) >= hash_chars(s.drop_last()),
{
    let c = s.last() as int;
    let w = chunk_weight((s.len() - 1) % 4);
    assert(s[s.len() - 1] <= '\u{7f}');
    assert(w >= 1);
    assert(0 <= c * w) by (nonlinear_arith)
        requires
            0 <= c,
            1 <= w,
    ;
}

/// The hash is never negative.
proof fn lemma_hash_nonneg(s: Seq<char>)
    requires
        is_ascii_chars(s),
    ensures
        hash_chars(s) >= 0,
    decreases s.len(),
{
    if s.len() > 0 {
        lemma_ascii_take(s, s.len() - 1);
        assert(s.take(s.len() - 1) =~= s.drop_last());
        lemma_hash_nonneg(s.drop_last());
        lemma_last_term(s);
    }
}

/// The hash of a prefix is at most the hash of the whole.
pub proof fn lemma_hash_prefix(s: Seq<char>, i: int)
    requires
        0 <= i <= s.len(),
        is_ascii_chars(s),
    ensures
        hash_chars(s.take(i)) <= hash_chars(s),
        hash_chars(s.take(i)) >= 0,
    decreases s.len(),
{
    lemma_ascii_take(s, i);
    lemma_hash_nonneg(s.take(i));
    if s.len() > 0 {
        lemma_ascii_take(s, s.len() - 1);
        assert(s.take(s.len() - 1) =~= s.drop_last());
        lemma_last_term(s);
        if i < s.len() {
            lemma_hash_prefix(s.drop_last(), i);
            assert(s.drop_last().take(i) =~= s.take(i));
        } else {
            assert(s.take(i) =~= s);
            lemma_hash_prefix(s.drop_last(), i - 1);
            assert(s.drop_last().take(i - 1) =~= s.drop_last());
        }
    }
}

/// A bound on the hash of an ASCII string by its length.
pub proof fn lemma_hash_bound(s: Seq<char>)
    requires
        is_ascii_chars(s),
    ensures
        0 <= hash_chars(s) <= 127 * 16777216 * s.len(),
    decreases s.len(),
{
    if s.len() > 0 {
        let t = s.drop_last();
        assert(is_ascii_chars(t)) by {
            assert forall|i: int| 0 <= i < t.len() implies '\0' <= #[trigger] t[i] <= '\u{7f}' by {
                assert(t[i] == s[i]);
            }
        }
        lemma_hash_bound(t);
        assert(s[s.len() - 1] <= '\u{7f}');
        let c = s.last() as int;
        let w = chunk_weight((s.len() - 1) % 4);
        assert(0 <= c <= 127);
        assert(1 <= w <= 16777216);
        assert(c * w <= 127 * 16777216) by (nonlinear_arith)
            requires
                0 <= c <= 127,
                1 <= w <= 16777216,
        ;
        assert(0 <= c * w) by (nonlinear_arith)
            requires
                0 <= c,
                1 <= w,
        ;
        let k: int = 2130706432;
        assert(k * t.len() + k == k * s.len()) by (nonlinear_arith)
            requires
                t.len() + 1 == s.len(),
        ;
        lemma_last_term(s);
    }
}

/// The hash adds up over groups of four: hashing a string whose length is a
/// multiple of four, then the rest, and adding, is hashing the whole.
pub proof fn lemma_hash_concat(a: Seq<char>, b: Seq<char>)
    requires
        a.len() % 4 == 0,
    ensures
        hash_chars(a + b) == hash_chars(a) + hash_chars(b),
    decreases b.len(),
{
    if b.len() == 0 {
        assert(a + b =~= a);
    } else {
        lemma_hash_concat(a, b.drop_last());
        assert((a + b).drop_last() =~= a + b.drop_last());
        assert((a + b).last() == b.last());
        let la = a.len() as int;
        let k = b.len() - 1;
        assert((la + k) % 4 == k % 4) by (nonlinear_arith)
            requires
                la % 4 == 0,
                la >= 0,
                k >= 0,
        ;
    }
}

/// The hash of a byte string: the bytes are cut into groups of four, each
/// group is read as a little-endian number, and the numbers are added.
pub open spec fn hash_bytes(b: Seq<u8>) -> int
    decreases b.len(),
{
    if b.len() == 0 {
        0
    } else {
        hash_bytes(b.drop_last()) + (b.last() as int) * chunk_weight((b.len() - 1) % 4)
    }
}

/// The hash of a prefix of a byte string is at most the hash of the whole,
/// and never negative.
pub proof fn lemma_hash_bytes_prefix(b: Seq<u8>, i: int)
    requires
        0 <= i <= b.len(),
    ensures
        0 <= hash_bytes(b.take(i)) <= hash_bytes(b),
    decreases b.len(),
{
    if b.len() > 0 {
        let c = b.last() as int;
        let w = chunk_weight((b.len() - 1) % 4);
        assert(0 <= c * w) by (nonlinear_arith)
            requires
                0 <= c,
                1 <= w,
        ;
        if i < b.len() {
            lemma_hash_bytes_prefix(b.drop_last(), i);
            assert(b.drop_last().take(i) =~= b.take(i));
        } else {
            lemma_hash_bytes_prefix(b.drop_last(), i - 1);
            assert(b.drop_last().take(i - 1) =~= b.drop_last());
            assert(b.take(i) =~= b);
        }
    } else {
        assert(b.take(i) =~= b);
    }
}

/// Bytes that read as the characters of a string hash as the string does.
proof fn lemma_hash_same_codes(b: Seq<u8>, s: Seq<char>)
    requires
        b.len() == s.len(),
        forall|i: int| 0 <= i < s.len() ==> #[trigger] b[i] as int == s[i] as int,
    ensures
        hash_bytes(b) == hash_chars(s),
    decreases s.len(),
{
    if s.len() > 0 {
        assert(b[b.len() - 1] as int == s[s.len() - 1] as int);
        let b2 = b.drop_last();
        let s2 = s.drop_last();
        assert forall|i: int| 0 <= i < s2.len() implies #[trigger] b2[i] as int == s2[i] as int by {
            assert(b2[i] == b[i]);
            assert(s2[i] == s[i]);
        }
        lemma_hash_same_codes(b2, s2);
    }
}

/// The bytes of an ASCII string are its characters, so the hash of its bytes
/// is the hash of its characters.
pub proof fn lemma_hash_ascii(s: Seq<char>)
    requires
        is_ascii_chars(s),
    ensures
        hash_bytes(encode_utf8(s)) == hash_chars(s),
{
    let e = encode_utf8(s);
    is_ascii_chars_encode_utf8(s);
    assert forall|i: int| 0 <= i < s.len() implies #[trigger] e[i] as int == s[i] as int by {
        assert(s[i] <= '\u{7f}');
        assert(s[i] as u8 == e[i]);
    }
    lemma_hash_same_codes(e, s);
}

/// Hashes strings: the bytes of a string are cut into groups of four, each
/// group is read as a little-endian number, and the numbers are added up.
pub struct Hasher;

impl Hasher {
    /// The hash of the bytes of a string, where it fits in 64 bits.
    pub fn hash_string(string: String) -> (h: u64)
        requires
            hash_bytes(encode_utf8(string@)) <= u64::MAX,
        ensures
            h == hash_bytes(encode_utf8(string@)),
            is_ascii_chars(string@) ==> h == hash_chars(string@),
    {
        let text: &str = string.as_str();
        let bytes: &[u8] = text.as_bytes();
        let ghost e = encode_utf8(string@);
        let n: usize = bytes.len();
        let mut value: u64 = 0;
        let mut i: usize = 0;
        assert(e.take(0) =~= seq![]);
        while i < n
            invariant
                n == bytes@.len(),
                bytes@ == e,
                e == encode_utf8(string@),
                i <= n,
                hash_bytes(e) <= u64::MAX,
                value == hash_bytes(e.take(i as int)),
            decreases n - i,
        {
            let b: u64 = bytes[i] as u64;
            let w: u64 = if i % 4 == 0 {
                1
            } else if i % 4 == 1 {
                256
            } else if i % 4 == 2 {
                65536
            } else {
                16777216
            };
            proof {
                assert(e.take(i + 1).drop_last() =~= e.take(i as int));
                assert(e.take(i + 1).last() == e[i as int]);
                lemma_hash_bytes_prefix(e, i + 1);
                assert(w == chunk_weight((i as int) % 4));
                assert(hash_bytes(e.take(i + 1)) == value + b * w);
            }
            value = value + b * w;
            i = i + 1;
        }
        assert(e.take(n as int) =~= e);
        proof {
            if is_ascii_chars(string@) {
                lemma_hash_ascii(string@);
            }
        }
        value
    }
}

} // verus!
