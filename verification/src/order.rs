//! The byte-wise order of strings, as `String`'s `Ord` and `BTreeMap` use it.

use vstd::prelude::*;
use crate::text::utf8;

verus! {

broadcast use vstd::utf8::encode_utf8_decode_utf8;

/// Lexicographic order on byte sequences: a proper prefix comes first.
pub open spec fn lex_lt(a: Seq<u8>, b: Seq<u8>) -> bool
    decreases a.len(),
{
    if a.len() == 0 {
        b.len() > 0
    } else if b.len() == 0 {
        false
    } else if a[0] != b[0] {
        a[0] < b[0]
    } else {
        lex_lt(a.drop_first(), b.drop_first())
    }
}

/// `a` sorts before `b` by their UTF-8 bytes.
pub open spec fn text_lt(a: Seq<char>, b: Seq<char>) -> bool {
    lex_lt(utf8(a), utf8(b))
}

/// No sequence comes before itself.
pub proof fn lemma_lex_irreflexive(a: Seq<u8>)
    ensures
        !lex_lt(a, a),
    decreases a.len(),
{
    if a.len() > 0 {
        lemma_lex_irreflexive(a.drop_first());
    }
}

/// The order is transitive.
pub proof fn lemma_lex_transitive(a: Seq<u8>, b: Seq<u8>, c: Seq<u8>)
    requires
        lex_lt(a, b),
        lex_lt(b, c),
    ensures
        lex_lt(a, c),
    decreases a.len(),
{
    if a.len() > 0 && b.len() > 0 && c.len() > 0 && a[0] == b[0] && b[0] == c[0] {
        lemma_lex_transitive(a.drop_first(), b.drop_first(), c.drop_first());
    }
}

/// Of two different sequences, one comes first, and never both.
pub proof fn lemma_lex_total(a: Seq<u8>, b: Seq<u8>)
    ensures
        a != b ==> lex_lt(a, b) || lex_lt(b, a),
        !(lex_lt(a, b) && lex_lt(b, a)),
    decreases a.len(),
{
    if a.len() > 0 && b.len() > 0 && a[0] == b[0] {
        lemma_lex_total(a.drop_first(), b.drop_first());
        if a != b {
            assert(a =~= seq![a[0]] + a.drop_first());
            assert(b =~= seq![b[0]] + b.drop_first());
        }
    } else if a.len() == 0 && b.len() == 0 {
        assert(a =~= b);
    }
}

/// Strict order on texts: irreflexive, transitive and total.
pub proof fn lemma_text_order(a: Seq<char>, b: Seq<char>, c: Seq<char>)
    ensures
        !text_lt(a, a),
        text_lt(a, b) && text_lt(b, c) ==> text_lt(a, c),
        a != b ==> text_lt(a, b) || text_lt(b, a),
        !(text_lt(a, b) && text_lt(b, a)),
{
    lemma_lex_irreflexive(utf8(a));
    if text_lt(a, b) && text_lt(b, c) {
        lemma_lex_transitive(utf8(a), utf8(b), utf8(c));
    }
    lemma_lex_total(utf8(a), utf8(b));
    if a != b {
        assert(vstd::utf8::decode_utf8(utf8(a)) == a);
        assert(vstd::utf8::decode_utf8(utf8(b)) == b);
    }
}

/// How two texts compare.
pub enum TextOrder {
    Less,
    Equal,
    Greater,
}

/// A common prefix does not decide the order.
proof fn lemma_lex_common_prefix(a: Seq<u8>, b: Seq<u8>, i: int)
    requires
        0 <= i <= a.len(),
        i <= b.len(),
        a.take(i) == b.take(i),
    ensures
        lex_lt(a, b) == lex_lt(a.skip(i), b.skip(i)),
    decreases i,
{
    if i > 0 {
        assert(a[0] == a.take(i)[0]);
        assert(b[0] == b.take(i)[0]);
        assert(a.drop_first().take(i - 1) =~= a.take(i).drop_first());
        assert(b.drop_first().take(i - 1) =~= b.take(i).drop_first());
        lemma_lex_common_prefix(a.drop_first(), b.drop_first(), i - 1);
        assert(a.drop_first().skip(i - 1) =~= a.skip(i));
        assert(b.drop_first().skip(i - 1) =~= b.skip(i));
    } else {
        assert(a.skip(0) =~= a);
        assert(b.skip(0) =~= b);
    }
}

/// Compare two texts by their UTF-8 bytes, as `str`'s `Ord` does.
pub fn text_order(a: &str, b: &str) -> (r: TextOrder)
    ensures
        r is Less <==> text_lt(a@, b@),
        r is Equal <==> a@ == b@,
        r is Greater <==> text_lt(b@, a@),
{
    let x = a.as_bytes();
    let y = b.as_bytes();
    let n = x.len();
    let m = y.len();
    let mut i: usize = 0;
    proof {
        lemma_text_order(a@, b@, b@);
        assert(x@.take(0) =~= y@.take(0));
    }
    while i < n && i < m
        invariant
            x@ == utf8(a@),
            y@ == utf8(b@),
            n == x@.len(),
            m == y@.len(),
            0 <= i <= n,
            i <= m,
            x@.take(i as int) == y@.take(i as int),
        decreases n - i,
    {
        if x[i] != y[i] {
            proof {
                lemma_lex_common_prefix(x@, y@, i as int);
                lemma_lex_common_prefix(y@, x@, i as int);
                assert(x@.skip(i as int)[0] == x@[i as int]);
                assert(y@.skip(i as int)[0] == y@[i as int]);
            }
            if x[i] < y[i] {
                return TextOrder::Less;
            } else {
                return TextOrder::Greater;
            }
        }
        assert(x@.take(i + 1) =~= x@.take(i as int).push(x@[i as int]));
        assert(y@.take(i + 1) =~= y@.take(i as int).push(y@[i as int]));
        i = i + 1;
    }
    proof {
        lemma_lex_common_prefix(x@, y@, i as int);
        lemma_lex_common_prefix(y@, x@, i as int);
    }
    if n == m {
        assert(x@ =~= x@.take(i as int));
        assert(y@ =~= y@.take(i as int));
        assert(vstd::utf8::decode_utf8(utf8(a@)) == a@);
        assert(vstd::utf8::decode_utf8(utf8(b@)) == b@);
        TextOrder::Equal
    } else if n < m {
        TextOrder::Less
    } else {
        TextOrder::Greater
    }
}

} // verus!
