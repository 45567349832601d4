//! Lengths in UTF-8, and cutting a text into pieces of bytes.
use crate::text::chars_of;
use vstd::prelude::*;

verus! {

/// The number of bytes that `c` takes in UTF-8.
pub open spec fn utf8_width(c: char) -> nat {
    let n = c as u32;
    if n < 0x80 {
        1
    } else if n < 0x800 {
        2
    } else if n < 0x10000 {
        3
    } else {
        4
    }
}

/// The number of bytes that `s` takes in UTF-8.
pub open spec fn utf8_len(s: Seq<char>) -> nat {
    vstd::utf8::encode_utf8(s).len()
}

/// The number of leading characters of `s` that fit into `limit` bytes of
/// UTF-8.
pub open spec fn chars_within(s: Seq<char>, limit: nat) -> nat
    decreases s.len(),
{
    if s.len() == 0 {
        0
    } else if utf8_len(s) <= limit {
        s.len()
    } else {
        chars_within(s.drop_last(), limit)
    }
}

/// The text that `bytes` decode to as UTF-8, with the replacement character
/// in place of every part that is not UTF-8.
pub uninterp spec fn utf8_lossy(bytes: Seq<u8>) -> Seq<char>;

/// The number of pieces of at most `size` bytes that `len` bytes fall into.
pub open spec fn piece_count(len: nat, size: nat) -> nat {
    if size == 0 {
        0
    } else {
        ((len + size - 1) / (size as int)) as nat
    }
}

/// Piece `k` of `bytes` cut into pieces of `size` bytes; the last piece may
/// be shorter.
pub open spec fn piece(bytes: Seq<u8>, size: nat, k: int) -> Seq<u8> {
    bytes.subrange(
        k * size,
        if (k + 1) * size < bytes.len() {
            (k + 1) * size
        } else {
            bytes.len() as int
        },
    )
}

/// The texts of the pieces of at most `size` bytes that the UTF-8 form of
/// `s` falls into, each decoded by itself. A character that a cut divides
/// shows as replacement characters in both pieces.
pub open spec fn pieces(s: Seq<char>, size: nat) -> Seq<Seq<char>> {
    let bytes = vstd::utf8::encode_utf8(s);
    Seq::new(piece_count(bytes.len(), size), |k: int| utf8_lossy(piece(bytes, size, k)))
}

/// The number of bytes that `c` takes in UTF-8.
pub fn char_width(c: char) -> (r: usize)
    ensures
        r == utf8_width(c),
{
    let n: u32 = c as u32;
    if n < 0x80 {
        1
    } else if n < 0x800 {
        2
    } else if n < 0x10000 {
        3
    } else {
        4
    }
}

/// The longest prefix of `s` that takes at most `limit` bytes in UTF-8, and
/// whether that is the whole of `s`.
pub fn prefix_within(s: &str, limit: usize) -> (r: (&str, bool))
    ensures
        r.0@ == s@.take(chars_within(s@, limit as nat) as int),
        r.1 == (utf8_len(s@) <= limit),
{
    let v = chars_of(s);
    let n = v.len();
    let mut used: usize = 0;
    let mut i: usize = 0;
    assert(s@.take(0) =~= Seq::<char>::empty());
    assert(utf8_len(Seq::<char>::empty()) == 0);
    while i < n
        invariant
            n == v.len(),
            v@ == s@,
            i <= n,
            used == utf8_len(s@.take(i as int)),
            used <= limit,
        decreases n - i,
    {
        let w = char_width(v[i]);
        proof {
            assert(s@.take(i + 1) =~= s@.take(i as int).push(v@[i as int]));
            lemma_utf8_len_push(s@.take(i as int), v@[i as int]);
        }
        if w > limit - used {
            proof {
                lemma_chars_within(s@, limit as nat, i as int);
            }
            return (s.substring_char(0, i), false);
        }
        used = used + w;
        i += 1;
    }
    proof {
        assert(s@.take(n as int) =~= s@);
        lemma_chars_within(s@, limit as nat, n as int);
    }
    (s.substring_char(0, n), true)
}

/// Decodes `bytes` with std's `String::from_utf8_lossy`, which documents
/// that valid UTF-8 comes back as the text it encodes. Of other bytes nothing
/// is claimed beyond the name `utf8_lossy`.
#[verifier::external_body]
pub(crate) fn lossy_text(bytes: &[u8]) -> (r: String)
    ensures
        r@ == utf8_lossy(bytes@),
        vstd::utf8::valid_utf8(bytes@) ==> r@ == vstd::utf8::decode_utf8(bytes@),
{
    String::from_utf8_lossy(bytes).into_owned()
}

/// `s` cut into pieces of at most `size` bytes of UTF-8, each piece decoded
/// by itself.
pub fn split_pieces(s: &str, size: usize) -> (r: Vec<String>)
    requires
        size > 0,
    ensures
        r.deep_view() == pieces(s@, size as nat),
        0 < utf8_len(s@) <= size ==> r.deep_view() == seq![s@],
        utf8_len(s@) == 0 ==> r@.len() == 0,
{
    let bytes = s.as_bytes();
    let n = bytes.len();
    let ghost b = vstd::utf8::encode_utf8(s@);
    let ghost all = pieces(s@, size as nat);
    let mut out: Vec<String> = Vec::new();
    let mut start: usize = 0;
    let mut k: usize = 0;
    proof {
        assert(out.deep_view() =~= all.take(0));
        assert(0 * size == 0) by (nonlinear_arith);
    }
    while start < n
        invariant
            size > 0,
            n == bytes@.len(),
            bytes@ == b,
            b == vstd::utf8::encode_utf8(s@),
            all == pieces(s@, size as nat),
            all.len() == piece_count(n as nat, size as nat),
            k <= all.len(),
            start as int == if k * size < n {
                k * size
            } else {
                n as int
            },
            out.deep_view() == all.take(k as int),
            b.len() <= size && k >= 1 ==> all[0] == s@,
        decreases n - start,
    {
        let end = if size < n - start {
            start + size
        } else {
            n
        };
        proof {
            assert(start == k * size);
            assert((k + 1) * size == k * size + size) by (nonlinear_arith);
            assert(k <= k * size) by (nonlinear_arith)
                requires
                    size > 0,
            ;
            lemma_piece_count_step(n as nat, size as nat, k as nat);
            assert(piece(b, size as nat, k as int) == b.subrange(start as int, end as int));
        }
        let text = lossy_text(vstd::slice::slice_subrange(bytes, start, end));
        let ghost before = out.deep_view();
        out.push(text);
        proof {
            assert(out.deep_view() =~= before.push(text@));
            assert(all.take(k + 1) =~= all.take(k as int).push(all[k as int]));
            if b.len() <= size && k == 0 {
                assert(b.subrange(0, n as int) =~= b);
                vstd::utf8::encode_utf8_valid_utf8(s@);
                vstd::utf8::encode_utf8_decode_utf8(s@);
            }
        }
        start = end;
        k = k + 1;
    }
    proof {
        lemma_piece_count_step(n as nat, size as nat, k as nat);
        assert(all.take(k as int) =~= all);
        if 0 < b.len() <= size {
            lemma_piece_count_one(n as nat, size as nat);
            assert(1 * size == size) by (nonlinear_arith);
            assert(0 * size == 0) by (nonlinear_arith);
            assert(all =~= seq![s@]);
        }
        if b.len() == 0 {
            lemma_piece_count(0, size as nat);
        }
    }
    out
}

/// Where the first `k` characters of `s` fit into `limit` bytes and one more
/// would not, `k` characters are what fits.
pub proof fn lemma_chars_within(s: Seq<char>, limit: nat, k: int)
    requires
        0 <= k <= s.len(),
        utf8_len(s.take(k)) <= limit,
        k < s.len() ==> utf8_len(s.take(k + 1)) > limit,
    ensures
        chars_within(s, limit) == k,
        s.subrange(0, k) == s.take(k),
        (utf8_len(s) <= limit) == (k == s.len()),
    decreases s.len() - k,
{
    if k == s.len() {
        assert(s.take(k) =~= s);
    } else {
        lemma_utf8_len_grows(s, k + 1);
        let t = s.drop_last();
        assert(t.take(k) =~= s.take(k));
        if k < t.len() {
            assert(t.take(k + 1) =~= s.take(k + 1));
        }
        lemma_chars_within(t, limit, k);
    }
}

/// A character takes as many bytes in UTF-8 as `utf8_width` says.
pub proof fn lemma_utf8_width(c: char)
    ensures
        vstd::utf8::encode_scalar(c as u32).len() == utf8_width(c),
{
    vstd::utf8::char_is_scalar(c);
}

/// A text with one more character takes the bytes of that character more.
pub proof fn lemma_utf8_len_push(s: Seq<char>, c: char)
    ensures
        utf8_len(s.push(c)) == utf8_len(s) + utf8_width(c),
    decreases s.len(),
{
    lemma_utf8_width(c);
    if s.len() == 0 {
        assert(s.push(c).drop_first() =~= s);
    } else {
        assert(s.push(c).drop_first() =~= s.drop_first().push(c));
        assert(s.push(c)[0] == s[0]);
        lemma_utf8_len_push(s.drop_first(), c);
    }
}

/// A longer text takes no fewer bytes.
pub proof fn lemma_utf8_len_grows(s: Seq<char>, k: int)
    requires
        0 <= k <= s.len(),
    ensures
        utf8_len(s.take(k)) <= utf8_len(s),
    decreases s.len() - k,
{
    if k == s.len() {
        assert(s.take(k) =~= s);
    } else {
        lemma_utf8_len_grows(s.drop_last(), k);
        assert(s.drop_last().take(k) =~= s.take(k));
        assert(s =~= s.drop_last().push(s.last()));
        lemma_utf8_len_push(s.drop_last(), s.last());
    }
}

/// How the number of pieces relates to the bytes that they hold.
pub proof fn lemma_piece_count(len: nat, size: nat)
    requires
        size > 0,
    ensures
        len == 0 <==> piece_count(len, size) == 0,
        (piece_count(len, size) - 1) * size < len || len == 0,
        len <= piece_count(len, size) * size,
{
    let c = piece_count(len, size);
    assert(c == (len + size - 1) / (size as int));
    assert(c * size <= len + size - 1 && len + size - 1 < c * size + size) by (nonlinear_arith)
        requires
            size > 0,
            c == (len + size - 1) / (size as int),
    ;
    assert((c - 1) * size == c * size - size) by (nonlinear_arith);
}

/// Piece `k` starts inside the bytes exactly when there are more than `k`
/// pieces.
pub proof fn lemma_piece_count_step(len: nat, size: nat, k: nat)
    requires
        size > 0,
    ensures
        k * size < len <==> k < piece_count(len, size),
{
    lemma_piece_count(len, size);
    let c = piece_count(len, size);
    if k < c {
        assert(k * size <= (c - 1) * size) by (nonlinear_arith)
            requires
                k <= c - 1,
                size > 0,
        ;
    } else {
        assert(c * size <= k * size) by (nonlinear_arith)
            requires
                c <= k,
                size > 0,
        ;
    }
}

/// Bytes that fit into one piece make one piece.
pub proof fn lemma_piece_count_one(len: nat, size: nat)
    requires
        0 < len <= size,
    ensures
        piece_count(len, size) == 1,
{
    lemma_piece_count_step(len, size, 0);
    lemma_piece_count_step(len, size, 1);
    assert(1 * size == size) by (nonlinear_arith);
}

} // verus!
