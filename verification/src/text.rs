//! Text helpers shared by the store and the relay: the characters of a
//! string, equality and byte order of strings, trimming, previews.

use vstd::prelude::*;
use vstd::string::StringSliceAdditionalSpecFns;
use vstd::utf8::encode_utf8;

verus! {

/// The characters of `s`, in order.
pub fn to_chars(s: &str) -> (v: Vec<char>)
    ensures
        v@ == s@,
{
    let mut v: Vec<char> = Vec::new();
    for c in it: s.chars()
        invariant
            v@ == it.seq().take(it.index()),
            it.seq() == s@,
    {
        v.push(c);
    }
    v
}

/// Two texts are equal exactly when their UTF-8 encodings are.
pub proof fn lemma_encoding_is_injective(a: Seq<char>, b: Seq<char>)
    ensures
        (encode_utf8(a) == encode_utf8(b)) <==> (a == b),
{
    vstd::utf8::encode_utf8_decode_utf8(a);
    vstd::utf8::encode_utf8_decode_utf8(b);
}

/// Whether the two byte strings hold the same bytes.
pub fn same_bytes(a: &[u8], b: &[u8]) -> (r: bool)
    ensures
        r == (a@ == b@),
{
    if a.len() != b.len() {
        return false;
    }
    let mut i: usize = 0;
    while i < a.len()
        invariant
            a@.len() == b@.len(),
            i <= a@.len(),
            a@.take(i as int) == b@.take(i as int),
        decreases a@.len() - i,
    {
        if a[i] != b[i] {
            return false;
        }
        i += 1;
    }
    assert(a@.take(a@.len() as int) == a@);
    assert(b@.take(b@.len() as int) == b@);
    true
}

/// Whether the two strings hold the same text.
pub fn same_text(a: &str, b: &str) -> (r: bool)
    ensures
        r == (a@ == b@),
{
    proof {
        lemma_encoding_is_injective(a@, b@);
    }
    same_bytes(a.as_bytes(), b.as_bytes())
}

/// Strict lexicographic order of byte strings: at the first position where
/// they differ the smaller byte wins, and a proper prefix comes first.
pub open spec fn bytes_before(a: Seq<u8>, b: Seq<u8>) -> bool
    decreases a.len(),
{
    if b.len() == 0 {
        false
    } else if a.len() == 0 {
        true
    } else if a[0] != b[0] {
        a[0] < b[0]
    } else {
        bytes_before(a.drop_first(), b.drop_first())
    }
}

/// Strict order of texts by their UTF-8 bytes, the order of a binary
/// collation.
pub open spec fn text_before(a: Seq<char>, b: Seq<char>) -> bool {
    bytes_before(encode_utf8(a), encode_utf8(b))
}

/// No byte string comes before itself.
pub proof fn lemma_bytes_before_irreflexive(a: Seq<u8>)
    ensures
        !bytes_before(a, a),
    decreases a.len(),
{
    if a.len() > 0 {
        lemma_bytes_before_irreflexive(a.drop_first());
    }
}

/// Of two byte strings exactly one holds: the first comes before the second,
/// they are equal, or the second comes before the first.
pub proof fn lemma_bytes_before_total(a: Seq<u8>, b: Seq<u8>)
    ensures
        bytes_before(a, b) || a == b || bytes_before(b, a),
        !(bytes_before(a, b) && bytes_before(b, a)),
        a == b ==> !bytes_before(a, b),
    decreases a.len(),
{
    if a.len() > 0 && b.len() > 0 && a[0] == b[0] {
        lemma_bytes_before_total(a.drop_first(), b.drop_first());
        if a.drop_first() == b.drop_first() {
            assert(a =~= seq![a[0]] + a.drop_first());
        }
    }
}

/// The byte order is transitive.
pub proof fn lemma_bytes_before_transitive(a: Seq<u8>, b: Seq<u8>, c: Seq<u8>)
    requires
        bytes_before(a, b),
        bytes_before(b, c),
    ensures
        bytes_before(a, c),
    decreases a.len(),
{
    if a.len() > 0 && a[0] == b[0] && b[0] == c[0] {
        lemma_bytes_before_transitive(a.drop_first(), b.drop_first(), c.drop_first());
    }
}

/// The byte order of texts is a strict total order: the facts that a proof
/// about three texts may need.
pub proof fn lemma_text_order(a: Seq<char>, b: Seq<char>, c: Seq<char>)
    ensures
        !text_before(a, a),
        text_before(a, b) || a == b || text_before(b, a),
        !(text_before(a, b) && text_before(b, a)),
        text_before(a, b) && text_before(b, c) ==> text_before(a, c),
        !text_before(a, b) && !text_before(b, c) ==> !text_before(a, c),
{
    let x = encode_utf8(a);
    let y = encode_utf8(b);
    let z = encode_utf8(c);
    lemma_encoding_is_injective(a, b);
    lemma_bytes_before_irreflexive(x);
    lemma_bytes_before_total(x, y);
    lemma_bytes_before_total(y, z);
    if bytes_before(x, y) && bytes_before(y, z) {
        lemma_bytes_before_transitive(x, y, z);
    }
    if bytes_before(x, z) && bytes_before(z, y) {
        lemma_bytes_before_transitive(x, z, y);
    }
}

/// Unfolds the byte order after a common prefix of `i` bytes.
proof fn lemma_bytes_before_skip(a: Seq<u8>, b: Seq<u8>, i: int)
    requires
        0 <= i <= a.len(),
        i <= b.len(),
        a.take(i) == b.take(i),
    ensures
        bytes_before(a, b) == bytes_before(a.skip(i), b.skip(i)),
    decreases i,
{
    if i > 0 {
        assert(a[0] == a.take(i)[0]);
        assert(a.drop_first().take(i - 1) == a.take(i).drop_first());
        assert(b.drop_first().take(i - 1) == b.take(i).drop_first());
        lemma_bytes_before_skip(a.drop_first(), b.drop_first(), i - 1);
        assert(a.drop_first().skip(i - 1) == a.skip(i));
        assert(b.drop_first().skip(i - 1) == b.skip(i));
    } else {
        assert(a.skip(0) == a);
        assert(b.skip(0) == b);
    }
}

/// Whether `a` comes strictly before `b` in byte order.
pub fn bytes_precede(a: &[u8], b: &[u8]) -> (r: bool)
    ensures
        r == bytes_before(a@, b@),
{
    let mut i: usize = 0;
    while i < a.len() && i < b.len()
        invariant
            i <= a@.len(),
            i <= b@.len(),
            a@.take(i as int) == b@.take(i as int),
        decreases a@.len() - i,
    {
        if a[i] != b[i] {
            proof {
                lemma_bytes_before_skip(a@, b@, i as int);
            }
            return a[i] < b[i];
        }
        i += 1;
    }
    proof {
        lemma_bytes_before_skip(a@, b@, i as int);
    }
    i < b.len()
}

/// Whether `a` comes strictly before `b` in the byte order of their text.
pub fn text_precedes(a: &str, b: &str) -> (r: bool)
    ensures
        r == text_before(a@, b@),
{
    bytes_precede(a.as_bytes(), b.as_bytes())
}

/// `byte` with the 26 capital letters of ASCII folded to small letters.
pub open spec fn folded_byte(byte: u8) -> u8 {
    if 65 <= byte <= 90 {
        (byte + 32) as u8
    } else {
        byte
    }
}

/// `bytes` with the capital letters of ASCII folded to small letters.
pub open spec fn folded(bytes: Seq<u8>) -> Seq<u8> {
    bytes.map_values(|byte: u8| folded_byte(byte))
}

/// Strict order of texts by their UTF-8 bytes where the case of ASCII
/// letters does not count: the order of a collation without case.
pub open spec fn text_before_nocase(a: Seq<char>, b: Seq<char>) -> bool {
    bytes_before(folded(encode_utf8(a)), folded(encode_utf8(b)))
}

/// Whether two texts are the same where the case of ASCII letters does not
/// count.
pub open spec fn same_nocase(a: Seq<char>, b: Seq<char>) -> bool {
    folded(encode_utf8(a)) == folded(encode_utf8(b))
}

/// The order without case ranks texts: the facts that a proof about three
/// texts may need.
pub proof fn lemma_nocase_order(a: Seq<char>, b: Seq<char>, c: Seq<char>)
    ensures
        !text_before_nocase(a, a),
        text_before_nocase(a, b) || same_nocase(a, b) || text_before_nocase(b, a),
        !(text_before_nocase(a, b) && text_before_nocase(b, a)),
        same_nocase(a, b) ==> !text_before_nocase(a, b),
        text_before_nocase(a, b) && text_before_nocase(b, c) ==> text_before_nocase(a, c),
        !text_before_nocase(a, b) && !text_before_nocase(b, c) ==> !text_before_nocase(a, c),
{
    let x = folded(encode_utf8(a));
    let y = folded(encode_utf8(b));
    let z = folded(encode_utf8(c));
    lemma_bytes_before_irreflexive(x);
    lemma_bytes_before_total(x, y);
    lemma_bytes_before_total(y, z);
    if bytes_before(x, y) && bytes_before(y, z) {
        lemma_bytes_before_transitive(x, y, z);
    }
    if bytes_before(x, z) && bytes_before(z, y) {
        lemma_bytes_before_transitive(x, z, y);
    }
}

/// `byte` with the capital letters of ASCII folded to small letters.
pub fn fold_byte(byte: u8) -> (r: u8)
    ensures
        r == folded_byte(byte),
{
    if 65 <= byte && byte <= 90 {
        byte + 32
    } else {
        byte
    }
}

/// Whether `a` comes strictly before `b` in byte order where the case of
/// ASCII letters does not count.
pub fn bytes_precede_nocase(a: &[u8], b: &[u8]) -> (r: bool)
    ensures
        r == bytes_before(folded(a@), folded(b@)),
{
    let ghost x = folded(a@);
    let ghost y = folded(b@);
    let mut i: usize = 0;
    while i < a.len() && i < b.len()
        invariant
            x == folded(a@),
            y == folded(b@),
            i <= a@.len(),
            i <= b@.len(),
            x.take(i as int) == y.take(i as int),
        decreases a@.len() - i,
    {
        let p = fold_byte(a[i]);
        let q = fold_byte(b[i]);
        if p != q {
            proof {
                lemma_bytes_before_skip(x, y, i as int);
            }
            return p < q;
        }
        i += 1;
    }
    proof {
        lemma_bytes_before_skip(x, y, i as int);
    }
    i < b.len()
}

/// Whether `a` comes strictly before `b` where the case of ASCII letters
/// does not count.
pub fn text_precedes_nocase(a: &str, b: &str) -> (r: bool)
    ensures
        r == text_before_nocase(a@, b@),
{
    bytes_precede_nocase(a.as_bytes(), b.as_bytes())
}

/// White space as `char::is_whitespace` defines it: the code points with the
/// Unicode property `White_Space`.
pub open spec fn is_space(c: char) -> bool {
    let v = c as u32;
    ||| 0x09 <= v <= 0x0d
    ||| v == 0x20
    ||| v == 0x85
    ||| v == 0xa0
    ||| v == 0x1680
    ||| 0x2000 <= v <= 0x200a
    ||| v == 0x2028
    ||| v == 0x2029
    ||| v == 0x202f
    ||| v == 0x205f
    ||| v == 0x3000
}

/// Whether `c` is white space.
pub fn char_is_space(c: char) -> (r: bool)
    ensures
        r == is_space(c),
{
    let v: u32 = c as u32;
    (0x09 <= v && v <= 0x0d) || v == 0x20 || v == 0x85 || v == 0xa0 || v == 0x1680 || (0x2000 <= v
        && v <= 0x200a) || v == 0x2028 || v == 0x2029 || v == 0x202f || v == 0x205f || v == 0x3000
}

/// What trimming strips from the ends of a text.
#[derive(Clone, Copy, Debug, PartialEq, Eq)]
pub enum Strip {
    /// White space.
    Space,
    /// The double quote, U+0022.
    Quote,
}

/// Whether trimming of `what` strips the character `c`.
pub open spec fn strips(what: Strip, c: char) -> bool {
    match what {
        Strip::Space => is_space(c),
        Strip::Quote => c == '"',
    }
}

/// Whether trimming of `what` strips the character `c`.
pub fn char_is_stripped(what: Strip, c: char) -> (r: bool)
    ensures
        r == strips(what, c),
{
    match what {
        Strip::Space => char_is_space(c),
        Strip::Quote => c == '"',
    }
}

/// The number of stripped characters at the start of `s`.
pub open spec fn leading_run(s: Seq<char>, what: Strip) -> nat
    decreases s.len(),
{
    if s.len() > 0 && strips(what, s[0]) {
        1 + leading_run(s.drop_first(), what)
    } else {
        0
    }
}

/// The number of stripped characters at the end of `s`.
pub open spec fn trailing_run(s: Seq<char>, what: Strip) -> nat
    decreases s.len(),
{
    if s.len() > 0 && strips(what, s.last()) {
        1 + trailing_run(s.drop_last(), what)
    } else {
        0
    }
}

/// `s` without the stripped characters at its start and at its end.
pub open spec fn stripped(s: Seq<char>, what: Strip) -> Seq<char> {
    let rest = s.skip(leading_run(s, what) as int);
    rest.take(rest.len() - trailing_run(rest, what))
}

/// `s` without the white space at its start and at its end.
pub open spec fn trimmed(s: Seq<char>) -> Seq<char> {
    stripped(s, Strip::Space)
}

/// After `i` leading stripped characters the count goes on from there.
proof fn lemma_leading_run_step(s: Seq<char>, what: Strip, i: int)
    requires
        0 <= i <= s.len(),
        forall|j: int| 0 <= j < i ==> strips(what, #[trigger] s[j]),
    ensures
        leading_run(s, what) == i + leading_run(s.skip(i), what),
    decreases i,
{
    if i > 0 {
        lemma_leading_run_step(s.drop_first(), what, i - 1);
        assert(s.drop_first().skip(i - 1) == s.skip(i));
    } else {
        assert(s.skip(0) == s);
    }
}

/// After `k` trailing stripped characters the count goes on before them.
proof fn lemma_trailing_run_step(s: Seq<char>, what: Strip, k: int)
    requires
        0 <= k <= s.len(),
        forall|j: int| s.len() - k <= j < s.len() ==> strips(what, #[trigger] s[j]),
    ensures
        trailing_run(s, what) == k + trailing_run(s.take(s.len() - k), what),
    decreases k,
{
    if k > 0 {
        lemma_trailing_run_step(s.drop_last(), what, k - 1);
        assert(s.drop_last().take(s.drop_last().len() - (k - 1)) == s.take(s.len() - k));
    } else {
        assert(s.take(s.len() as int) == s);
    }
}

/// The bounds `(from, to)` of `chars` without the stripped characters at
/// both ends.
pub fn stripped_bounds(chars: &Vec<char>, what: Strip) -> (r: (usize, usize))
    ensures
        r.0 <= r.1 <= chars@.len(),
        chars@.subrange(r.0 as int, r.1 as int) == stripped(chars@, what),
{
    let n = chars.len();
    let mut from: usize = 0;
    while from < n && char_is_stripped(what, chars[from])
        invariant
            from <= n,
            n == chars@.len(),
            forall|j: int| 0 <= j < from ==> strips(what, #[trigger] chars@[j]),
        decreases n - from,
    {
        from += 1;
    }
    proof {
        lemma_leading_run_step(chars@, what, from as int);
    }
    let ghost rest = chars@.skip(from as int);
    let mut to: usize = n;
    while to > from && char_is_stripped(what, chars[to - 1])
        invariant
            from <= to <= n,
            n == chars@.len(),
            rest == chars@.skip(from as int),
            forall|j: int| to <= j < n ==> strips(what, #[trigger] chars@[j]),
        decreases to,
    {
        to -= 1;
    }
    proof {
        lemma_trailing_run_step(rest, what, n - to);
    }
    (from, to)
}

/// `s` without the stripped characters at both ends.
pub fn strip(s: &str, what: Strip) -> (r: &str)
    ensures
        r@ == stripped(s@, what),
{
    let chars = to_chars(s);
    let (from, to) = stripped_bounds(&chars, what);
    s.substring_char(from, to)
}

/// `s` without the white space at both ends.
pub fn trim(s: &str) -> (r: &str)
    ensures
        r@ == trimmed(s@),
{
    strip(s, Strip::Space)
}

/// Whether `s` starts with `prefix`.
pub open spec fn has_prefix(s: Seq<char>, prefix: Seq<char>) -> bool {
    prefix.len() <= s.len() && s.take(prefix.len() as int) == prefix
}

/// Whether `chars` starts with `prefix`.
pub fn starts_with(chars: &Vec<char>, prefix: &Vec<char>) -> (r: bool)
    ensures
        r == has_prefix(chars@, prefix@),
{
    if prefix.len() > chars.len() {
        return false;
    }
    let mut i: usize = 0;
    while i < prefix.len()
        invariant
            prefix@.len() <= chars@.len(),
            i <= prefix@.len(),
            chars@.take(i as int) == prefix@.take(i as int),
        decreases prefix@.len() - i,
    {
        if chars[i] != prefix[i] {
            return false;
        }
        i += 1;
    }
    assert(prefix@.take(prefix@.len() as int) == prefix@);
    true
}

/// The first `limit` characters of `s`, or all of it where it is shorter.
pub open spec fn prefix_of(s: Seq<char>, limit: nat) -> Seq<char> {
    if s.len() <= limit {
        s
    } else {
        s.take(limit as int)
    }
}

/// The first `limit` characters of `s`, counted as characters, not bytes.
pub fn first_chars(s: &str, limit: usize) -> (r: String)
    ensures
        r@ == prefix_of(s@, limit as nat),
{
    let n = s.unicode_len();
    if n <= limit {
        s.substring_char(0, n).to_owned()
    } else {
        s.substring_char(0, limit).to_owned()
    }
}

/// Adds `more` behind `out`.
pub fn append_bytes(out: &mut Vec<u8>, more: &[u8])
    ensures
        final(out)@ == old(out)@ + more@,
{
    let mut i: usize = 0;
    while i < more.len()
        invariant
            i <= more@.len(),
            out@ == old(out)@ + more@.take(i as int),
        decreases more@.len() - i,
    {
        out.push(more[i]);
        i += 1;
    }
}

} // verus!
