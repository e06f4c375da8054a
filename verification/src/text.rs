//! Text building blocks: decimal and hexadecimal numerals, and pushing
//! single characters onto a `String`.

use vstd::prelude::*;

verus! {

/// The character of a digit value below sixteen (lower-case for ten and above).
pub open spec fn digit_char(d: nat) -> char {
    if d < 10 {
        ((48 + d) as u8) as char
    } else {
        ((87 + d) as u8) as char
    }
}

/// The numeral of `n` in base `base`, most significant digit first, with no
/// leading zeros ("0" for zero).
pub open spec fn numeral(n: nat, base: nat) -> Seq<char>
    recommends 2 <= base <= 16,
    decreases n,
    when base >= 2
{
    if n < base {
        seq![digit_char(n)]
    } else {
        proof {
            vstd::arithmetic::div_mod::lemma_div_decreases(n as int, base as int);
        }
        numeral(n / base, base).push(digit_char(n % base))
    }
}

/// The decimal numeral of `n`.
pub open spec fn decimal_text(n: nat) -> Seq<char> {
    numeral(n, 10)
}

/// The lower-case hexadecimal numeral of `n`.
pub open spec fn hex_text(n: nat) -> Seq<char> {
    numeral(n, 16)
}

/// The number that a string of decimal digits stands for.
pub open spec fn digits_value(s: Seq<char>) -> int
    decreases s.len(),
{
    if s.len() == 0 {
        0
    } else {
        digits_value(s.drop_last()) * 10 + (s.last() as int - 48)
    }
}

/// `s` is the decimal numeral of `n`: one or more digits standing for `n`,
/// with no leading zero.
pub open spec fn is_decimal_numeral_of(s: Seq<char>, n: nat) -> bool {
    &&& s.len() >= 1
    &&& forall|i: int| 0 <= i < s.len() ==> '0' <= #[trigger] s[i] <= '9'
    &&& digits_value(s) == n
    &&& (s.len() > 1 ==> s[0] != '0')
}

/// The decimal text of `n` is a numeral of `n`: all of its digits, and no
/// leading zero (its first digit is a zero only for zero itself).
pub proof fn lemma_decimal_text_is_numeral(n: nat)
    ensures
        is_decimal_numeral_of(decimal_text(n), n),
        n >= 1 ==> decimal_text(n)[0] != '0',
    decreases n,
{
    let d = decimal_text(n);
    if n < 10 {
        assert(d == seq![digit_char(n)]);
        assert(d.drop_last() =~= Seq::<char>::empty());
        assert(digit_char(n) as int == 48 + n);
        assert(digits_value(d) == digits_value(d.drop_last()) * 10 + (d.last() as int - 48));
        assert(digits_value(d.drop_last()) == 0);
    } else {
        let m = n / 10;
        let r = n % 10;
        vstd::arithmetic::div_mod::lemma_div_decreases(n as int, 10);
        lemma_decimal_text_is_numeral(m);
        let dm = decimal_text(m);
        assert(d == dm.push(digit_char(r)));
        assert(d.drop_last() =~= dm);
        assert(digit_char(r) as int == 48 + r);
        assert(m * 10 + r == n) by {
            vstd::arithmetic::div_mod::lemma_fundamental_div_mod(n as int, 10);
        }
        assert(m >= 1);
        assert(d[0] == dm[0]);
        assert(digits_value(d) == digits_value(dm) * 10 + (digit_char(r) as int - 48));
        assert forall|i: int| 0 <= i < d.len() implies '0' <= #[trigger] d[i] <= '9' by {
            if i < dm.len() {
                assert(d[i] == dm[i]);
            }
        }
    }
}

/// Appends one character to a string.
///
/// Trusted: wraps `String::push`, which std documents as appending the given
/// `char` to the end of the string.
#[verifier::external_body]
pub(crate) fn push_char(s: &mut String, c: char)
    ensures
        final(s)@ == old(s)@.push(c),
{
    s.push(c);
}

/// The character of the digit `d`.
pub fn digit(d: u64) -> (c: char)
    requires
        d < 16,
    ensures
        c == digit_char(d as nat),
{
    if d < 10 {
        let b: u8 = 48u8 + d as u8;
        b as char
    } else {
        let b: u8 = 87u8 + d as u8;
        b as char
    }
}

/// Appends the numeral of `n` in base `base` to `s`.
pub fn push_numeral(s: &mut String, n: u64, base: u64)
    requires
        2 <= base <= 16,
    ensures
        final(s)@ == old(s)@ + numeral(n as nat, base as nat),
    decreases n,
{
    if n < base {
        push_char(s, digit(n));
        assert(numeral(n as nat, base as nat) == seq![digit_char(n as nat)]);
    } else {
        proof {
            vstd::arithmetic::div_mod::lemma_div_decreases(n as int, base as int);
        }
        push_numeral(s, n / base, base);
        push_char(s, digit(n % base));
    }
}

/// The decimal numeral of `n`, as `to_string` writes it.
pub fn decimal_string(n: u64) -> (s: String)
    ensures
        s@ == decimal_text(n as nat),
{
    let mut s = String::new();
    push_numeral(&mut s, n, 10);
    s
}

/// The lower-case hexadecimal numeral of `n`, as the `{:x}` format writes it.
pub fn hex_string(n: u64) -> (s: String)
    ensures
        s@ == hex_text(n as nat),
{
    let mut s = String::new();
    push_numeral(&mut s, n, 16);
    s
}

/// The characters of `s`, in order.
pub fn chars_of(s: &str) -> (v: Vec<char>)
    ensures
        v@ == s@,
{
    broadcast use vstd::string::group_string_axioms;
    let mut v: Vec<char> = Vec::new();
    for c in it: s.chars()
        invariant
            v@ == it.seq().take(it.index()),
            it.seq() == s@,
    {
        v.push(c);
    }
    v
}

/// A string holding the characters `v`.
pub fn string_of(v: &Vec<char>) -> (s: String)
    ensures
        s@ == v@,
{
    let mut s = String::new();
    let mut i: usize = 0;
    while i < v.len()
        invariant
            i <= v@.len(),
            s@ == v@.take(i as int),
        decreases v@.len() - i,
    {
        push_char(&mut s, v[i]);
        assert(v@.take(i + 1) =~= v@.take(i as int).push(v@[i as int]));
        i = i + 1;
    }
    assert(v@.take(v@.len() as int) =~= v@);
    s
}

/// `s` with every occurrence of `c` taken out.
pub open spec fn without_char(s: Seq<char>, c: char) -> Seq<char>
    decreases s.len(),
{
    if s.len() == 0 {
        seq![]
    } else if s.last() == c {
        without_char(s.drop_last(), c)
    } else {
        without_char(s.drop_last(), c).push(s.last())
    }
}

/// `s` with every occurrence of `c` taken out, as `str::replace` with an
/// empty replacement gives it.
pub fn remove_char(s: &str, c: char) -> (r: String)
    ensures
        r@ == without_char(s@, c),
{
    let v = chars_of(s);
    let mut r = String::new();
    let mut i: usize = 0;
    while i < v.len()
        invariant
            i <= v@.len(),
            v@ == s@,
            r@ == without_char(v@.take(i as int), c),
        decreases v@.len() - i,
    {
        assert(v@.take(i + 1).drop_last() =~= v@.take(i as int));
        if v[i] != c {
            push_char(&mut r, v[i]);
        }
        i = i + 1;
    }
    assert(v@.take(v@.len() as int) =~= v@);
    r
}

/// The pieces of `s` between the occurrences of `c`, as `str::split` gives
/// them: one more piece than there are occurrences, empty pieces included.
pub open spec fn split_on(s: Seq<char>, c: char) -> Seq<Seq<char>>
    decreases s.len(),
{
    if s.len() == 0 {
        seq![seq![]]
    } else {
        let p = split_on(s.drop_last(), c);
        if s.last() == c {
            p.push(seq![])
        } else {
            p.update(p.len() - 1, p.last().push(s.last()))
        }
    }
}

/// There is always at least one piece.
pub proof fn lemma_split_on_nonempty(s: Seq<char>, c: char)
    ensures
        split_on(s, c).len() >= 1,
    decreases s.len(),
{
    if s.len() > 0 {
        lemma_split_on_nonempty(s.drop_last(), c);
    }
}

/// Taking out `c` leaves no `c`, and taking it out again changes nothing.
pub proof fn lemma_without_char(s: Seq<char>, c: char)
    ensures
        !without_char(s, c).contains(c),
        without_char(without_char(s, c), c) == without_char(s, c),
    decreases s.len(),
{
    if s.len() > 0 {
        lemma_without_char(s.drop_last(), c);
        let w = without_char(s.drop_last(), c);
        if s.last() != c {
            let ws = w.push(s.last());
            assert(ws.drop_last() =~= w);
            assert forall|k: int| 0 <= k < ws.len() implies ws[k] != c by {
                if k < w.len() {
                    assert(ws[k] == w[k]);
                }
            }
        }
    }
}

/// The pieces joined back together with `c` between each two.
pub open spec fn join_with(pieces: Seq<Seq<char>>, c: char) -> Seq<char>
    decreases pieces.len(),
{
    if pieces.len() <= 1 {
        if pieces.len() == 1 {
            pieces[0]
        } else {
            seq![]
        }
    } else {
        join_with(pieces.drop_last(), c) + seq![c] + pieces.last()
    }
}

/// Splitting on `c` loses nothing: no piece holds `c`, and joining the
/// pieces with `c` gives the text back.
pub proof fn lemma_split_join(s: Seq<char>, c: char)
    ensures
        join_with(split_on(s, c), c) == s,
        forall|i: int|
            0 <= i < split_on(s, c).len() ==> !(#[trigger] split_on(s, c)[i]).contains(c),
    decreases s.len(),
{
    lemma_split_on_nonempty(s, c);
    if s.len() > 0 {
        let t = s.drop_last();
        lemma_split_join(t, c);
        lemma_split_on_nonempty(t, c);
        let p = split_on(t, c);
        let x = s.last();
        if x == c {
            let q = p.push(seq![]);
            assert(q.drop_last() =~= p);
            assert(join_with(q, c) =~= s);
            assert forall|i: int| 0 <= i < q.len() implies !(#[trigger] q[i]).contains(c) by {
                if i < p.len() {
                    assert(q[i] == p[i]);
                }
            }
        } else {
            let n = p.len() - 1;
            let q = p.update(n, p.last().push(x));
            assert forall|i: int| 0 <= i < q.len() implies !(#[trigger] q[i]).contains(c) by {
                if i < n {
                    assert(q[i] == p[i]);
                } else {
                    assert(!p[n].contains(c));
                    assert forall|k: int| 0 <= k < q[i].len() implies q[i][k] != c by {
                        if k < p[n].len() {
                            assert(q[i][k] == p[n][k]);
                        }
                    }
                }
            }
            if p.len() == 1 {
                assert(join_with(q, c) =~= s);
            } else {
                assert(q.drop_last() =~= p.drop_last());
                assert(join_with(q, c) =~= join_with(p, c).push(x));
                assert(join_with(q, c) =~= s);
            }
        }
    }
}

/// The last piece of `s` is the text after the last `c`: it holds no `c`,
/// it ends `s`, and it is all of `s` or follows a `c`.
pub proof fn lemma_last_piece_after_last(s: Seq<char>, c: char)
    ensures
        ({
            let e = split_on(s, c).last();
            &&& !e.contains(c)
            &&& e.len() <= s.len()
            &&& s.skip(s.len() - e.len()) == e
            &&& (e.len() == s.len() || s[s.len() - e.len() - 1] == c)
        }),
    decreases s.len(),
{
    lemma_split_on_nonempty(s, c);
    if s.len() > 0 {
        let t = s.drop_last();
        lemma_last_piece_after_last(t, c);
        lemma_split_on_nonempty(t, c);
        lemma_split_join(s, c);
        let p = split_on(t, c);
        let e0 = p.last();
        if s.last() == c {
            assert(split_on(s, c).last() =~= Seq::<char>::empty());
            assert(s.skip(s.len() as int) =~= Seq::<char>::empty());
        } else {
            let e = e0.push(s.last());
            assert(split_on(s, c).last() == e);
            assert(s.skip(s.len() - e.len()) =~= t.skip(t.len() - e0.len()).push(s.last()));
            if e0.len() < t.len() {
                assert(s[s.len() - e.len() - 1] == t[t.len() - e0.len() - 1]);
            }
        }
    }
}

/// There is one text after the last `c`: any text that holds no `c`, ends
/// `s`, and is all of `s` or follows a `c`, is the last piece.
pub proof fn lemma_text_after_last_unique(s: Seq<char>, c: char, e: Seq<char>)
    requires
        !e.contains(c),
        e.len() <= s.len(),
        s.skip(s.len() - e.len()) == e,
        e.len() == s.len() || s[s.len() - e.len() - 1] == c,
    ensures
        split_on(s, c).last() == e,
{
    lemma_last_piece_after_last(s, c);
    let l = split_on(s, c).last();
    if l.len() < e.len() {
        let k = s.len() - l.len() - 1;
        assert(s[k] == c);
        assert(e[k - (s.len() - e.len())] == s[k]);
    } else if e.len() < l.len() {
        let k = s.len() - e.len() - 1;
        assert(s[k] == c);
        assert(l[k - (s.len() - l.len())] == s[k]);
    }
    assert(l =~= e) by {
        assert forall|i: int| 0 <= i < l.len() implies l[i] == e[i] by {
            assert(l[i] == s[s.len() - l.len() + i]);
            assert(e[i] == s[s.len() - e.len() + i]);
        }
    }
}

/// The pieces of `s` between the occurrences of `c`.
pub fn split_string(s: &str, c: char) -> (r: Vec<String>)
    ensures
        r@.len() == split_on(s@, c).len(),
        forall|i: int| 0 <= i < r@.len() ==> #[trigger] r@[i]@ == split_on(s@, c)[i],
{
    let v = chars_of(s);
    let mut done: Vec<String> = Vec::new();
    let mut cur: Vec<char> = Vec::new();
    let mut i: usize = 0;
    while i < v.len()
        invariant
            i <= v@.len(),
            v@ == s@,
            split_on(v@.take(i as int), c).len() == done@.len() + 1,
            forall|j: int|
                0 <= j < done@.len() ==> #[trigger] done@[j]@ == split_on(v@.take(i as int), c)[j],
            cur@ == split_on(v@.take(i as int), c).last(),
        decreases v@.len() - i,
    {
        proof {
            lemma_split_on_nonempty(v@.take(i as int), c);
            assert(v@.take(i + 1).drop_last() =~= v@.take(i as int));
        }
        if v[i] == c {
            let piece = string_of(&cur);
            done.push(piece);
            cur = Vec::new();
        } else {
            cur.push(v[i]);
        }
        i = i + 1;
    }
    assert(v@.take(v@.len() as int) =~= v@);
    let last = string_of(&cur);
    done.push(last);
    done
}

/// The last piece of `s` after the last occurrence of `c` (all of `s` where
/// `c` does not occur).
pub fn last_piece(s: &str, c: char) -> (r: String)
    ensures
        r@ == split_on(s@, c).last(),
{
    let v = chars_of(s);
    let mut cur: Vec<char> = Vec::new();
    let mut i: usize = 0;
    while i < v.len()
        invariant
            i <= v@.len(),
            v@ == s@,
            cur@ == split_on(v@.take(i as int), c).last(),
        decreases v@.len() - i,
    {
        proof {
            lemma_split_on_nonempty(v@.take(i as int), c);
            assert(v@.take(i + 1).drop_last() =~= v@.take(i as int));
        }
        if v[i] == c {
            cur = Vec::new();
        } else {
            cur.push(v[i]);
        }
        i = i + 1;
    }
    assert(v@.take(v@.len() as int) =~= v@);
    string_of(&cur)
}

/// The characters that Unicode gives the White_Space property, which
/// `char::is_whitespace` tests for.
pub open spec fn is_white_space(c: char) -> bool {
    let n = c as u32;
    (0x09 <= n <= 0x0d) || n == 0x20 || n == 0x85 || n == 0xa0 || n == 0x1680 || (0x2000 <= n
        <= 0x200a) || n == 0x2028 || n == 0x2029 || n == 0x202f || n == 0x205f || n == 0x3000
}

/// Whether `c` is white space.
pub fn white_space(c: char) -> (b: bool)
    ensures
        b == is_white_space(c),
{
    let n = c as u32;
    (0x09 <= n && n <= 0x0d) || n == 0x20 || n == 0x85 || n == 0xa0 || n == 0x1680 || (0x2000 <= n
        && n <= 0x200a) || n == 0x2028 || n == 0x2029 || n == 0x202f || n == 0x205f || n == 0x3000
}

/// `s` without its leading and trailing white space, as `str::trim` gives it:
/// the part from the first to the last character that is not white space.
pub open spec fn trimmed(s: Seq<char>) -> Seq<char> {
    if forall|k: int| 0 <= k < s.len() ==> is_white_space(#[trigger] s[k]) {
        seq![]
    } else {
        let a = choose|a: int|
            0 <= a < s.len() && !is_white_space(s[a]) && forall|k: int|
                0 <= k < a ==> is_white_space(#[trigger] s[k]);
        let b = choose|b: int|
            0 <= b < s.len() && !is_white_space(s[b]) && forall|k: int|
                b < k < s.len() ==> is_white_space(#[trigger] s[k]);
        s.subrange(a, b + 1)
    }
}

/// `s` without its leading and trailing white space.
pub fn trim_chars(s: &Vec<char>) -> (r: Vec<char>)
    ensures
        r@ == trimmed(s@),
{
    let n = s.len();
    let mut a: usize = 0;
    while a < n && white_space(s[a])
        invariant
            a <= n == s@.len(),
            forall|k: int| 0 <= k < a ==> is_white_space(#[trigger] s@[k]),
        decreases n - a,
    {
        a = a + 1;
    }
    if a == n {
        return Vec::new();
    }
    let mut b: usize = n - 1;
    while b > a && white_space(s[b])
        invariant
            a <= b < n == s@.len(),
            !is_white_space(s@[a as int]),
            forall|k: int| b < k < n ==> is_white_space(#[trigger] s@[k]),
        decreases b,
    {
        b = b - 1;
    }
    proof {
        let ca = choose|ca: int|
            0 <= ca < s@.len() && !is_white_space(s@[ca]) && forall|k: int|
                0 <= k < ca ==> is_white_space(#[trigger] s@[k]);
        let cb = choose|cb: int|
            0 <= cb < s@.len() && !is_white_space(s@[cb]) && forall|k: int|
                cb < k < s@.len() ==> is_white_space(#[trigger] s@[k]);
        assert(!is_white_space(s@[a as int]));
        assert(!is_white_space(s@[b as int]));
        if ca < a {
            assert(is_white_space(s@[ca]));
        }
        if ca > a {
            assert(is_white_space(s@[a as int]));
        }
        if cb < b {
            assert(is_white_space(s@[b as int]));
        }
        if cb > b {
            assert(is_white_space(s@[cb]));
        }
    }
    let mut r: Vec<char> = Vec::new();
    let mut i: usize = a;
    while i <= b
        invariant
            a <= i <= b + 1,
            b < n == s@.len(),
            r@ == s@.subrange(a as int, i as int),
        decreases b + 1 - i,
    {
        r.push(s[i]);
        assert(s@.subrange(a as int, i + 1) =~= s@.subrange(a as int, i as int).push(s@[i as int]));
        i = i + 1;
    }
    r
}

/// Trusted: `char::from_u32`, which std documents as giving the `char` of
/// `n` exactly when `n` is a Unicode scalar value (at most 0x10FFFF and not
/// a surrogate, 0xD800 to 0xDFFF), and `None` otherwise.
#[verifier::external_body]
fn char_from_u32(n: u32) -> (r: Option<char>)
    ensures
        n <= 0x10ffff && !(0xd800 <= n <= 0xdfff) ==> r == Some(n as char),
        !(n <= 0x10ffff && !(0xd800 <= n <= 0xdfff)) ==> r is None,
{
    char::from_u32(n)
}

/// The text that the bytes `b` encode in UTF-8, where they are valid UTF-8,
/// as `std::str::from_utf8` decodes it.
pub fn utf8_text(b: &[u8]) -> (r: Option<String>)
    ensures
        r is Some <==> vstd::utf8::valid_utf8(b@),
        r matches Some(s) ==> s@ == vstd::utf8::decode_utf8(b@),
{
    let n = b.len();
    let mut out = String::new();
    let mut i: usize = 0;
    assert(b@.subrange(0, n as int) =~= b@);
    while i < n
        invariant
            i <= n == b@.len(),
            vstd::utf8::valid_utf8(b@) == vstd::utf8::valid_utf8(b@.subrange(i as int, n as int)),
            vstd::utf8::valid_utf8(b@.subrange(i as int, n as int)) ==> vstd::utf8::decode_utf8(b@)
                == out@ + vstd::utf8::decode_utf8(b@.subrange(i as int, n as int)),
        decreases n - i,
    {
        let ghost rest = b@.subrange(i as int, n as int);
        assert(rest[0] == b@[i as int]);
        let b0 = b[i];
        let len: usize;
        let cp: u32;
        if b0 <= 0x7f {
            len = 1;
            cp = (b0 & 0x7f) as u32;
        } else if 0xc0 <= b0 && b0 <= 0xdf {
            if n - i < 2 || !(0x80 <= b[i + 1] && b[i + 1] <= 0xbf) {
                return None;
            }
            assert(rest[1] == b@[i + 1]);
            len = 2;
            let b1 = b[i + 1];
            cp = (((b0 & 0x1f) as u32) << 6) | ((b1 & 0x3f) as u32);
            assert(((((b0 & 0x1f) as u32) << 6) | ((b1 & 0x3f) as u32)) <= 0x7ff) by (bit_vector);
            if cp < 0x80 {
                return None;
            }
        } else if 0xe0 <= b0 && b0 <= 0xef {
            if n - i < 3 || !(0x80 <= b[i + 1] && b[i + 1] <= 0xbf) || !(0x80 <= b[i + 2] && b[i
                + 2] <= 0xbf) {
                return None;
            }
            assert(rest[1] == b@[i + 1]);
            assert(rest[2] == b@[i + 2]);
            len = 3;
            let b1 = b[i + 1];
            let b2 = b[i + 2];
            cp = (((b0 & 0x0f) as u32) << 12) | (((b1 & 0x3f) as u32) << 6) | ((b2 & 0x3f) as u32);
            assert(((((b0 & 0x0f) as u32) << 12) | (((b1 & 0x3f) as u32) << 6) | ((b2 & 0x3f) as u32))
                <= 0xffff) by (bit_vector);
            if cp < 0x800 {
                return None;
            }
        } else if 0xf0 <= b0 && b0 <= 0xf7 {
            if n - i < 4 || !(0x80 <= b[i + 1] && b[i + 1] <= 0xbf) || !(0x80 <= b[i + 2] && b[i
                + 2] <= 0xbf) || !(0x80 <= b[i + 3] && b[i + 3] <= 0xbf) {
                return None;
            }
            assert(rest[1] == b@[i + 1]);
            assert(rest[2] == b@[i + 2]);
            assert(rest[3] == b@[i + 3]);
            len = 4;
            cp = (((b0 & 0x07) as u32) << 18) | (((b[i + 1] & 0x3f) as u32) << 12) | (((b[i + 2]
                & 0x3f) as u32) << 6) | ((b[i + 3] & 0x3f) as u32);
            if cp < 0x10000 || cp > 0x10ffff {
                return None;
            }
        } else {
            return None;
        }
        if 0xd800 <= cp && cp <= 0xdfff {
            return None;
        }
        assert(vstd::utf8::valid_first_scalar(rest));
        assert(vstd::utf8::decode_first_scalar(rest) == cp);
        assert(vstd::utf8::length_of_first_scalar(rest) == len);
        let c = match char_from_u32(cp) {
            Some(c) => c,
            None => {
                return None;
            },
        };
        let ghost before = out@;
        push_char(&mut out, c);
        proof {
            let next = b@.subrange(i + len, n as int);
            assert(vstd::utf8::pop_first_scalar(rest) =~= next);
            if vstd::utf8::valid_utf8(next) {
                assert(vstd::utf8::decode_utf8(rest) == seq![c] + vstd::utf8::decode_utf8(next));
                assert(out@ + vstd::utf8::decode_utf8(next) =~= before + vstd::utf8::decode_utf8(rest));
            }
        }
        i = i + len;
    }
    Some(out)
}

} // verus!
