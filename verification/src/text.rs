//! Text helpers over the character and byte views of strings.

use vstd::prelude::*;

verus! {

broadcast use vstd::utf8::encode_utf8_decode_utf8;

/// The UTF-8 bytes of a character sequence.
pub open spec fn utf8(s: Seq<char>) -> Seq<u8> {
    vstd::utf8::encode_utf8(s)
}

/// The UTF-8 bytes of a concatenation are the concatenation of the bytes.
pub proof fn lemma_utf8_concat(x: Seq<char>, y: Seq<char>)
    ensures
        utf8(x + y) == utf8(x) + utf8(y),
    decreases x.len(),
{
    if x.len() == 0 {
        assert(x + y =~= y);
        assert(utf8(x) =~= Seq::<u8>::empty());
        assert(utf8(x) + utf8(y) =~= utf8(y));
    } else {
        lemma_utf8_concat(x.drop_first(), y);
        assert((x + y).drop_first() =~= x.drop_first() + y);
        assert((x + y)[0] == x[0]);
        let e = vstd::utf8::encode_scalar(x[0] as u32);
        assert(utf8(x + y) == e + utf8(x.drop_first() + y));
        assert(utf8(x) == e + utf8(x.drop_first()));
        assert(utf8(x + y) =~= utf8(x) + utf8(y));
    }
}

/// Two strings are equal exactly when their character views are.
pub fn str_eq(a: &str, b: &str) -> (r: bool)
    ensures
        r == (a@ == b@),
{
    let x = a.as_bytes();
    let y = b.as_bytes();
    proof {
        assert(vstd::utf8::decode_utf8(utf8(a@)) == a@);
        assert(vstd::utf8::decode_utf8(utf8(b@)) == b@);
    }
    if x.len() != y.len() {
        return false;
    }
    let mut i: usize = 0;
    while i < x.len()
        invariant
            x@ == utf8(a@),
            y@ == utf8(b@),
            x@.len() == y@.len(),
            0 <= i <= x@.len(),
            forall|k: int| 0 <= k < i ==> x@[k] == y@[k],
        decreases x@.len() - i,
    {
        if x[i] != y[i] {
            return false;
        }
        i = i + 1;
    }
    assert(x@ =~= y@);
    true
}

/// The characters of a string, in order.
pub fn chars_of(s: &str) -> (v: Vec<char>)
    ensures
        v@ == s@,
{
    let mut v: Vec<char> = Vec::new();
    for c in it: s.chars()
        invariant
            v@ == it.seq().take(it.index() as int),
            it.seq() == s@,
    {
        v.push(c);
    }
    v
}

/// Unicode `White_Space`: the characters that `str::trim` removes.
pub open spec fn is_white_space(c: char) -> bool {
    let u = c as u32;
    ||| 0x09 <= u <= 0x0D
    ||| u == 0x20
    ||| u == 0x85
    ||| u == 0xA0
    ||| u == 0x1680
    ||| 0x2000 <= u <= 0x200A
    ||| u == 0x2028
    ||| u == 0x2029
    ||| u == 0x202F
    ||| u == 0x205F
    ||| u == 0x3000
}

/// Whether `c` is Unicode white space.
pub fn is_whitespace(c: char) -> (r: bool)
    ensures
        r == is_white_space(c),
{
    let u = c as u32;
    (0x09 <= u && u <= 0x0D) || u == 0x20 || u == 0x85 || u == 0xA0 || u == 0x1680 || (0x2000
        <= u && u <= 0x200A) || u == 0x2028 || u == 0x2029 || u == 0x202F || u == 0x205F || u
        == 0x3000
}

/// `s` without its leading white space.
pub open spec fn trim_start(s: Seq<char>) -> Seq<char>
    decreases s.len(),
{
    if s.len() > 0 && is_white_space(s[0]) {
        trim_start(s.drop_first())
    } else {
        s
    }
}

/// `s` without its trailing white space.
pub open spec fn trim_end(s: Seq<char>) -> Seq<char>
    decreases s.len(),
{
    if s.len() > 0 && is_white_space(s.last()) {
        trim_end(s.drop_last())
    } else {
        s
    }
}

/// `s` without leading and trailing white space, as `str::trim` gives it.
pub open spec fn trimmed(s: Seq<char>) -> Seq<char> {
    trim_end(trim_start(s))
}

/// What `trim_start` leaves: a suffix that does not start with white space.
pub proof fn lemma_trim_start_shape(s: Seq<char>)
    ensures
        trim_start(s).len() == 0 || !is_white_space(trim_start(s)[0]),
        trim_start(s).len() <= s.len(),
        trim_start(s) == s.skip(s.len() - trim_start(s).len()),
    decreases s.len(),
{
    if s.len() > 0 && is_white_space(s[0]) {
        lemma_trim_start_shape(s.drop_first());
        assert(s.drop_first().skip(s.drop_first().len() - trim_start(s).len()) =~= s.skip(
            s.len() - trim_start(s).len(),
        ));
    } else {
        assert(s.skip(0) =~= s);
    }
}

/// What `trim_end` leaves: a prefix that does not end with white space.
proof fn lemma_trim_end_shape(s: Seq<char>)
    ensures
        trim_end(s).len() == 0 || !is_white_space(trim_end(s).last()),
        trim_end(s).len() <= s.len(),
        trim_end(s) == s.take(trim_end(s).len() as int),
    decreases s.len(),
{
    if s.len() > 0 && is_white_space(s.last()) {
        lemma_trim_end_shape(s.drop_last());
        assert(s.drop_last().take(trim_end(s).len() as int) =~= s.take(trim_end(s).len() as int));
    } else {
        assert(s.take(s.len() as int) =~= s);
    }
}

/// Trimming is idempotent: a trimmed text neither starts nor ends with white
/// space.
pub proof fn lemma_trimmed_idempotent(s: Seq<char>)
    ensures
        trimmed(trimmed(s)) == trimmed(s),
        trimmed(s).len() > 0 ==> !is_white_space(trimmed(s)[0]) && !is_white_space(
            trimmed(s).last(),
        ),
{
    let a = trim_start(s);
    let t = trim_end(a);
    lemma_trim_start_shape(s);
    lemma_trim_end_shape(a);
    if t.len() > 0 {
        assert(t[0] == a[0]);
    }
    lemma_trim_start_shape(t);
    assert(trim_start(t) == t);
    lemma_trim_end_shape(t);
    assert(trim_end(t) == t);
}

/// Trimming the start of `x + y`, where `y` starts with a character that is
/// not white space, trims `x` alone.
pub proof fn lemma_trim_start_concat(x: Seq<char>, y: Seq<char>)
    requires
        y.len() > 0,
        !is_white_space(y[0]),
    ensures
        trim_start(x + y) == trim_start(x) + y,
    decreases x.len(),
{
    if x.len() == 0 {
        assert(x + y =~= y);
        assert(trim_start(x) + y =~= y);
    } else if is_white_space(x[0]) {
        assert((x + y).drop_first() =~= x.drop_first() + y);
        lemma_trim_start_concat(x.drop_first(), y);
    } else {
        assert((x + y)[0] == x[0]);
    }
}

/// Trimming the end of `x + y`, where `x` ends with a character that is not
/// white space, trims `y` alone.
pub proof fn lemma_trim_end_concat(x: Seq<char>, y: Seq<char>)
    requires
        x.len() > 0,
        !is_white_space(x.last()),
    ensures
        trim_end(x + y) == x + trim_end(y),
    decreases y.len(),
{
    if y.len() == 0 {
        assert(x + y =~= x);
        assert(x + trim_end(y) =~= x);
    } else if is_white_space(y.last()) {
        assert((x + y).drop_last() =~= x + y.drop_last());
        lemma_trim_end_concat(x, y.drop_last());
    } else {
        assert((x + y).last() == y.last());
    }
}

/// `s` with leading and trailing Unicode white space removed.
pub fn trim(s: &str) -> (r: &str)
    ensures
        r@ == trimmed(s@),
{
    let v = chars_of(s);
    let n = v.len();
    let mut i: usize = 0;
    assert(s@.subrange(0, n as int) =~= s@);
    while i < n && is_whitespace(v[i])
        invariant
            v@ == s@,
            n == v@.len(),
            0 <= i <= n,
            trim_start(s@) == trim_start(s@.subrange(i as int, n as int)),
        decreases n - i,
    {
        assert(s@.subrange(i as int, n as int).drop_first() =~= s@.subrange(i + 1, n as int));
        i = i + 1;
    }
    let ghost t = s@.subrange(i as int, n as int);
    assert(trim_start(s@) == t);
    let mut j: usize = n;
    while j > i && is_whitespace(v[j - 1])
        invariant
            v@ == s@,
            n == v@.len(),
            0 <= i <= j <= n,
            t == s@.subrange(i as int, n as int),
            trim_end(t) == trim_end(s@.subrange(i as int, j as int)),
        decreases j - i,
    {
        assert(s@.subrange(i as int, j as int).drop_last() =~= s@.subrange(i as int, j - 1));
        j = j - 1;
    }
    s.substring_char(i, j)
}

/// `p` is a prefix of `s`.
pub open spec fn has_prefix(s: Seq<char>, p: Seq<char>) -> bool {
    p.len() <= s.len() && s.take(p.len() as int) == p
}

/// `p` is a suffix of `s`.
pub open spec fn has_suffix(s: Seq<char>, p: Seq<char>) -> bool {
    p.len() <= s.len() && s.skip(s.len() - p.len()) == p
}

/// `p` occurs in `s` as a contiguous piece.
pub open spec fn has_infix(s: Seq<char>, p: Seq<char>) -> bool {
    exists|i: int| 0 <= i && i + p.len() <= s.len() && #[trigger] s.subrange(i, i + p.len()) == p
}

/// Whether `p` occurs in `v` starting at `at`.
fn matches_at(v: &Vec<char>, at: usize, p: &Vec<char>) -> (r: bool)
    requires
        at + p@.len() <= v@.len(),
    ensures
        r == (v@.subrange(at as int, at + p@.len()) == p@),
{
    let mut k: usize = 0;
    let n = v.len();
    while k < p.len()
        invariant
            at + p@.len() <= v@.len(),
            n == v@.len(),
            0 <= k <= p@.len(),
            forall|m: int| 0 <= m < k ==> v@[at + m] == p@[m],
        decreases p@.len() - k,
    {
        if v[at + k] != p[k] {
            assert(v@.subrange(at as int, at + p@.len())[k as int] != p@[k as int]);
            return false;
        }
        k = k + 1;
    }
    assert(v@.subrange(at as int, at + p@.len()) =~= p@);
    true
}

/// `s` without the prefix `p`, or `None` when `s` does not start with `p`.
pub fn strip_prefix<'a>(s: &'a str, p: &str) -> (r: Option<&'a str>)
    ensures
        match r {
            Some(t) => has_prefix(s@, p@) && t@ == s@.skip(p@.len() as int),
            None => !has_prefix(s@, p@),
        },
{
    let v = chars_of(s);
    let w = chars_of(p);
    if w.len() > v.len() {
        return None;
    }
    if matches_at(&v, 0, &w) {
        assert(s@.take(p@.len() as int) =~= s@.subrange(0, p@.len() as int));
        Some(s.substring_char(w.len(), v.len()))
    } else {
        assert(s@.take(p@.len() as int) =~= s@.subrange(0, p@.len() as int));
        None
    }
}

/// Whether `s` ends with `p`.
pub fn ends_with(s: &str, p: &str) -> (r: bool)
    ensures
        r == has_suffix(s@, p@),
{
    let v = chars_of(s);
    let w = chars_of(p);
    if w.len() > v.len() {
        return false;
    }
    let at = v.len() - w.len();
    let r = matches_at(&v, at, &w);
    assert(s@.skip(s@.len() - p@.len()) =~= s@.subrange(at as int, at + p@.len()));
    r
}

/// Whether `p` occurs in `s`.
pub fn contains(s: &str, p: &str) -> (r: bool)
    ensures
        r == has_infix(s@, p@),
{
    let v = chars_of(s);
    let w = chars_of(p);
    if w.len() > v.len() {
        return false;
    }
    if w.len() == 0 {
        assert(s@.subrange(0, 0 + p@.len() as int) =~= p@);
        return true;
    }
    let n = v.len();
    let last = n - w.len();
    let mut i: usize = 0;
    while i <= last
        invariant
            n == v@.len(),
            last < n,
            v@ == s@,
            w@ == p@,
            last == v@.len() - w@.len(),
            0 <= i <= last + 1,
            forall|k: int| 0 <= k < i ==> #[trigger] v@.subrange(k, k + w@.len()) != w@,
        decreases last + 1 - i,
    {
        if matches_at(&v, i, &w) {
            return true;
        }
        i = i + 1;
    }
    assert forall|k: int| 0 <= k && k + p@.len() <= s@.len() implies #[trigger] s@.subrange(
        k,
        k + p@.len(),
    ) != p@ by {
        assert(k < i);
    }
    false
}

/// The index of the first `d` in `s`, or `s.len()` when there is none.
pub open spec fn first_index<A>(s: Seq<A>, d: A) -> int
    decreases s.len(),
{
    if s.len() == 0 {
        0
    } else if s[0] == d {
        0
    } else {
        1 + first_index(s.drop_first(), d)
    }
}

/// What `first_index` is: the first position holding `d`, or the length.
pub proof fn lemma_first_index<A>(s: Seq<A>, d: A)
    ensures
        0 <= first_index(s, d) <= s.len(),
        forall|k: int| 0 <= k < first_index(s, d) ==> s[k] != d,
        first_index(s, d) < s.len() ==> s[first_index(s, d)] == d,
    decreases s.len(),
{
    if s.len() > 0 && s[0] != d {
        lemma_first_index(s.drop_first(), d);
        assert forall|k: int| 0 <= k < first_index(s, d) implies s[k] != d by {
            if k > 0 {
                assert(s[k] == s.drop_first()[k - 1]);
            }
        }
    }
}

/// A position is the first index of `d` when nothing before it is `d` and it
/// holds `d` or is the end.
pub proof fn lemma_first_index_unique<A>(s: Seq<A>, d: A, i: int)
    requires
        0 <= i <= s.len(),
        forall|k: int| 0 <= k < i ==> s[k] != d,
        i < s.len() ==> s[i] == d,
    ensures
        first_index(s, d) == i,
{
    lemma_first_index(s, d);
    let f = first_index(s, d);
    if f < i {
        assert(s[f] == d);
    } else if i < f {
        assert(s[i] != d);
    }
}

/// The pieces of `s` between occurrences of `d`, as `str::split` yields them.
pub open spec fn split_on(s: Seq<char>, d: char) -> Seq<Seq<char>>
    decreases s.len(),
{
    let f = first_index(s, d);
    if f >= s.len() {
        seq![s]
    } else {
        proof {
            lemma_first_index(s, d);
        }
        seq![s.take(f)] + split_on(s.skip(f + 1), d)
    }
}

/// Splitting `a`, `d`, `b` on `d`, where `a` holds no `d`, gives `a` and then
/// the pieces of `b`.
pub proof fn lemma_split_on_first(a: Seq<char>, d: char, b: Seq<char>)
    requires
        !a.contains(d),
    ensures
        split_on(a + seq![d] + b, d) == seq![a] + split_on(b, d),
{
    let s = a + seq![d] + b;
    assert forall|k: int| 0 <= k < a.len() implies s[k] != d by {
        assert(s[k] == a[k]);
    }
    lemma_first_index_unique(s, d, a.len() as int);
    assert(s.take(a.len() as int) =~= a);
    assert(s.skip(a.len() + 1int) =~= b);
}

/// Text with no `d` is one piece.
pub proof fn lemma_split_on_none(s: Seq<char>, d: char)
    requires
        !s.contains(d),
    ensures
        split_on(s, d) == seq![s],
{
    assert forall|k: int| 0 <= k < s.len() implies s[k] != d by {
        if s[k] == d {
            assert(s.contains(d));
        }
    }
    lemma_first_index_unique(s, d, s.len() as int);
}

/// Splitting `x`, `d`, `y` on `d`, where `y` holds no `d`, gives the pieces of
/// `x` and then `y`.
pub proof fn lemma_split_on_last(x: Seq<char>, d: char, y: Seq<char>)
    requires
        !y.contains(d),
    ensures
        split_on(x + seq![d] + y, d) == split_on(x, d) + seq![y],
    decreases x.len(),
{
    lemma_first_index(x, d);
    let f = first_index(x, d);
    if f >= x.len() {
        lemma_split_on_first(x, d, y);
        lemma_split_on_none(y, d);
        assert(!x.contains(d)) by {
            if x.contains(d) {
                let k = choose|k: int| 0 <= k < x.len() && x[k] == d;
                assert(x[k] != d);
            }
        }
        lemma_split_on_none(x, d);
    } else {
        let a = x.take(f);
        let b = x.skip(f + 1);
        assert(!a.contains(d)) by {
            if a.contains(d) {
                let k = choose|k: int| 0 <= k < a.len() && a[k] == d;
                assert(x[k] == a[k]);
            }
        }
        assert(x =~= a + seq![d] + b);
        assert(x + seq![d] + y =~= a + seq![d] + (b + seq![d] + y));
        lemma_split_on_first(a, d, b + seq![d] + y);
        lemma_split_on_first(a, d, b);
        lemma_split_on_last(b, d, y);
    }
}

/// The pieces that `ranges` cut out of `s`.
pub open spec fn pieces(s: Seq<char>, ranges: Seq<(usize, usize)>) -> Seq<Seq<char>> {
    ranges.map_values(|r: (usize, usize)| s.subrange(r.0 as int, r.1 as int))
}

/// Every range is ordered and ends within `len`.
pub open spec fn ranges_within(ranges: Seq<(usize, usize)>, len: nat) -> bool {
    forall|i: int| 0 <= i < ranges.len() ==> #[trigger] ranges[i].0 <= ranges[i].1 <= len
}

/// The ranges of the pieces of `v` between occurrences of `d`.
pub fn split_ranges(v: &Vec<char>, d: char) -> (r: Vec<(usize, usize)>)
    ensures
        pieces(v@, r@) == split_on(v@, d),
        r@.len() >= 1,
        ranges_within(r@, v@.len()),
{
    let n = v.len();
    let mut out: Vec<(usize, usize)> = Vec::new();
    let mut start: usize = 0;
    assert(v@.skip(0) =~= v@);
    loop
        invariant_except_break
            0 <= start <= n,
            split_on(v@, d) == pieces(v@, out@) + split_on(v@.skip(start as int), d),
        invariant
            n == v@.len(),
            ranges_within(out@, v@.len()),
        ensures
            pieces(v@, out@) == split_on(v@, d),
            out@.len() >= 1,
        decreases n - start,
    {
        let ghost rest = v@.skip(start as int);
        let mut k: usize = start;
        while k < n && v[k] != d
            invariant
                start <= k <= n,
                n == v@.len(),
                rest == v@.skip(start as int),
                forall|m: int| start <= m < k ==> v@[m] != d,
            decreases n - k,
        {
            k = k + 1;
        }
        proof {
            lemma_first_index_unique(rest, d, k - start);
        }
        let ghost before = out@;
        if k == n {
            out.push((start, n));
            assert(rest.take((k - start) as int) =~= v@.subrange(start as int, n as int));
            assert(pieces(v@, out@) =~= pieces(v@, before) + seq![v@.subrange(start as int, n as int)]);
            assert(rest =~= v@.subrange(start as int, n as int));
            assert(ranges_within(out@, v@.len())) by {
                assert forall|i: int| 0 <= i < out@.len() implies #[trigger] out@[i].0 <= out@[i].1
                    <= v@.len() by {
                    if i < before.len() {
                        assert(out@[i] == before[i]);
                    }
                }
            }
            break;
        } else {
            out.push((start, k));
            assert(rest.take((k - start) as int) =~= v@.subrange(start as int, k as int));
            assert(rest.skip(k - start + 1) =~= v@.skip(k + 1));
            assert(pieces(v@, out@) =~= pieces(v@, before) + seq![v@.subrange(start as int, k as int)]);
            assert(ranges_within(out@, v@.len())) by {
                assert forall|i: int| 0 <= i < out@.len() implies #[trigger] out@[i].0 <= out@[i].1
                    <= v@.len() by {
                    if i < before.len() {
                        assert(out@[i] == before[i]);
                    }
                }
            }
            start = k + 1;
        }
    }
    out
}

/// The character of a decimal digit.
pub open spec fn digit_char(d: nat) -> char {
    (d + 48) as char
}

/// The decimal digits of `n`, most significant first, without leading zeros.
pub open spec fn decimal(n: nat) -> Seq<char>
    decreases n,
{
    if n < 10 {
        seq![digit_char(n)]
    } else {
        decimal(n / 10).push(digit_char(n % 10))
    }
}

/// The text of one decimal digit.
fn digit_str(d: u8) -> (r: &'static str)
    requires
        d < 10,
    ensures
        r@ == seq![digit_char(d as nat)],
{
    proof {
        reveal_strlit("0");
        reveal_strlit("1");
        reveal_strlit("2");
        reveal_strlit("3");
        reveal_strlit("4");
        reveal_strlit("5");
        reveal_strlit("6");
        reveal_strlit("7");
        reveal_strlit("8");
        reveal_strlit("9");
    }
    match d {
        0 => "0",
        1 => "1",
        2 => "2",
        3 => "3",
        4 => "4",
        5 => "5",
        6 => "6",
        7 => "7",
        8 => "8",
        _ => "9",
    }
}

/// `n` written in decimal.
pub fn decimal_string(n: u128) -> (r: String)
    ensures
        r@ == decimal(n as nat),
{
    let mut ds: Vec<u8> = Vec::new();
    let mut m: u128 = n;
    let ghost mut suffix: Seq<char> = Seq::empty();
    while m >= 10
        invariant
            decimal(n as nat) == decimal(m as nat) + suffix,
            suffix.len() == ds@.len(),
            forall|k: int| 0 <= k < ds@.len() ==> #[trigger] ds@[k] < 10,
            forall|k: int|
                0 <= k < suffix.len() ==> suffix[k] == digit_char(
                    ds@[ds@.len() - 1 - k] as nat,
                ),
        decreases m,
    {
        let d = (m % 10) as u8;
        proof {
            assert(decimal(m as nat) == decimal((m / 10) as nat).push(digit_char(d as nat)));
            let s2 = seq![digit_char(d as nat)] + suffix;
            assert(decimal(m as nat) + suffix =~= decimal((m / 10) as nat) + s2);
            suffix = s2;
        }
        ds.push(d);
        m = m / 10;
    }
    let d = m as u8;
    proof {
        suffix = seq![digit_char(d as nat)] + suffix;
    }
    ds.push(d);
    assert(decimal(n as nat) =~= suffix);
    let mut out = String::new();
    let mut i: usize = ds.len();
    while i > 0
        invariant
            0 <= i <= ds@.len(),
            suffix.len() == ds@.len(),
            forall|k: int| 0 <= k < ds@.len() ==> #[trigger] ds@[k] < 10,
            forall|k: int|
                0 <= k < suffix.len() ==> suffix[k] == digit_char(
                    ds@[ds@.len() - 1 - k] as nat,
                ),
            out@ == suffix.take(ds@.len() - i),
        decreases i,
    {
        i = i - 1;
        let piece = digit_str(ds[i]);
        out.append(piece);
        assert(out@ =~= suffix.take(ds@.len() - i)) by {
            assert(suffix[ds@.len() - 1 - i] == digit_char(ds@[i as int] as nat));
        }
    }
    assert(suffix.take(ds@.len() as int) =~= suffix);
    out
}

} // verus!
