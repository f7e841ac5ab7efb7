//! Character-level text helpers shared by the parsers and renderers.
//!
//! Strings are modelled by their view, a `Seq<char>`; the spec functions here
//! say what the executable helpers compute on that model.

use vstd::prelude::*;

verus! {

/// Appends one character to a string (`String::push`).
#[verifier::external_body]
pub(crate) fn push_char(s: &mut String, c: char)
    ensures
        final(s)@ == old(s)@.push(c),
{
    s.push(c);
}

/// The characters of a string slice, in order.
pub fn chars_of(s: &str) -> (v: Vec<char>)
    ensures
        v@ == s@,
{
    let mut v: Vec<char> = Vec::new();
    for c in it: s.chars()
        invariant
            v@ == it.seq().take(it.index() as int),
    {
        v.push(c);
    }
    v
}

/// A string holding the given characters.
pub fn string_of(cs: &[char]) -> (s: String)
    ensures
        s@ == cs@,
{
    let mut s = String::new();
    let mut i: usize = 0;
    while i < cs.len()
        invariant
            i <= cs.len(),
            s@ == cs@.take(i as int),
        decreases cs.len() - i,
    {
        push_char(&mut s, cs[i]);
        i += 1;
        assert(s@ =~= cs@.take(i as int));
    }
    assert(cs@.take(cs.len() as int) =~= cs@);
    s
}

/// Appends every character of `cs` to `s`.
pub fn push_chars(s: &mut String, cs: &[char])
    ensures
        final(s)@ == old(s)@ + cs@,
{
    let mut i: usize = 0;
    while i < cs.len()
        invariant
            i <= cs.len(),
            s@ == old(s)@ + cs@.take(i as int),
        decreases cs.len() - i,
    {
        push_char(s, cs[i]);
        i += 1;
        assert(s@ =~= old(s)@ + cs@.take(i as int));
    }
    assert(cs@.take(cs.len() as int) =~= cs@);
}

/// Appends every character of `t` to `s`.
pub fn push_str(s: &mut String, t: &str)
    ensures
        final(s)@ == old(s)@ + t@,
{
    let cs = chars_of(t);
    push_chars(s, cs.as_slice());
}

/// The character a byte stands for when read as Latin-1.
pub fn byte_char(b: u8) -> (c: char)
    ensures
        c == (b as char),
        c as u32 == b as u32,
{
    b as char
}

/// Bytes read as Latin-1 characters, one character per byte.
pub open spec fn latin1(b: Seq<u8>) -> Seq<char> {
    b.map_values(|x: u8| x as char)
}

/// The result of `String::from_utf8_lossy` on these bytes.
pub uninterp spec fn utf8_lossy(bytes: Seq<u8>) -> Seq<char>;

/// `String::from_utf8_lossy`: decodes UTF-8, replacing invalid sequences with
/// U+FFFD. The contract claims that the result is a function of the bytes and
/// that valid UTF-8 decodes to exactly the characters it encodes; it says
/// nothing about how invalid sequences are replaced.
#[verifier::external_body]
pub(crate) fn decode_utf8_lossy(bytes: &[u8]) -> (s: String)
    ensures
        s@ == utf8_lossy(bytes@),
        vstd::utf8::valid_utf8(bytes@) ==> s@ == vstd::utf8::decode_utf8(bytes@),
{
    String::from_utf8_lossy(bytes).into_owned()
}

// ── Decimal numbers ──────────────────────────────────────────────────────────

/// The ASCII digit for `d` (0..=9).
pub open spec fn digit(d: nat) -> char {
    (48 + d) as char
}

/// Decimal rendering of a natural number, without leading zeros.
pub open spec fn dec(n: nat) -> Seq<char>
    decreases n,
{
    if n < 10 {
        seq![digit(n)]
    } else {
        dec(n / 10).push(digit(n % 10))
    }
}

/// `n` zero characters.
pub open spec fn zeros(n: nat) -> Seq<char> {
    Seq::new(n, |i: int| '0')
}

/// Decimal rendering left-padded with zeros to at least `width` characters.
pub open spec fn dec_padded(n: nat, width: nat) -> Seq<char> {
    if dec(n).len() < width {
        zeros((width - dec(n).len()) as nat) + dec(n)
    } else {
        dec(n)
    }
}

/// Decimal rendering of a signed integer.
pub open spec fn dec_int(n: int) -> Seq<char> {
    if n < 0 {
        seq!['-'] + dec((-n) as nat)
    } else {
        dec(n as nat)
    }
}

fn digit_char(d: u64) -> (c: char)
    requires
        d < 10,
    ensures
        c == digit(d as nat),
{
    ((48 + d) as u8) as char
}

/// Appends the decimal rendering of `n`.
pub fn push_dec(s: &mut String, n: u64)
    ensures
        final(s)@ == old(s)@ + dec(n as nat),
    decreases n,
{
    if n < 10 {
        push_char(s, digit_char(n));
        assert(old(s)@ + dec(n as nat) =~= old(s)@.push(digit(n as nat)));
    } else {
        push_dec(s, n / 10);
        push_char(s, digit_char(n % 10));
        assert(dec(n as nat) == dec((n / 10) as nat).push(digit((n % 10) as nat)));
        assert(final(s)@ =~= old(s)@ + dec(n as nat));
    }
}

/// The decimal rendering of `n`.
pub fn fmt_u64(n: u64) -> (s: String)
    ensures
        s@ == dec(n as nat),
{
    let mut s = String::new();
    push_dec(&mut s, n);
    assert(s@ =~= dec(n as nat));
    s
}

/// The decimal rendering of a signed `n`.
pub fn fmt_i64(n: i64) -> (s: String)
    ensures
        s@ == dec_int(n as int),
{
    let mut s = String::new();
    if n < 0 {
        push_char(&mut s, '-');
        let m: u64 = if n == i64::MIN {
            9223372036854775808u64
        } else {
            (-n) as u64
        };
        push_dec(&mut s, m);
        assert(s@ =~= dec_int(n as int));
    } else {
        push_dec(&mut s, n as u64);
        assert(s@ =~= dec_int(n as int));
    }
    s
}

/// Decimal text reads back as its number.
pub proof fn lemma_dec_digits(n: nat)
    ensures
        dec(n).len() >= 1,
        all_digits(dec(n)),
        digits_value(dec(n)) == n,
        dec(n)[0] != '+' && dec(n)[0] != '-',
        nat_text(dec(n)) == Some(n),
    decreases n,
{
    lemma_dec_len_pos(n);
    assert(digit(n % 10) as u32 == 48 + n % 10);
    if n < 10 {
        assert(dec(n) == seq![digit(n)]);
        assert(dec(n).drop_last() =~= seq![]);
        assert(digits_value(seq![]) == 0);
        assert(n % 10 == n);
        assert(digits_value(dec(n)) == digits_value(dec(n).drop_last()) * 10 + ((dec(n).last() as u32 - 48) as nat));
    } else {
        lemma_dec_digits(n / 10);
        let s = dec(n / 10);
        let t = dec(n);
        assert(t == s.push(digit(n % 10)));
        assert(t.drop_last() =~= s);
        assert forall|i: int| 0 <= i < t.len() implies is_digit(#[trigger] t[i]) by {
            if i < s.len() {
                assert(t[i] == s[i]);
            }
        }
        assert(t[0] == s[0]);
        assert(digits_value(t) == digits_value(s) * 10 + ((t.last() as u32 - 48) as nat));
        assert(t.last() == digit(n % 10));
        assert((n / 10) * 10 + n % 10 == n);
    }
}

pub proof fn lemma_dec_len_pos(n: nat)
    ensures
        dec(n).len() >= 1,
    decreases n,
{
    if n >= 10 {
        lemma_dec_len_pos(n / 10);
    }
}

/// Appends the decimal rendering of `n`, zero-padded to `width` characters.
pub fn push_dec_padded(s: &mut String, n: u64, width: usize)
    ensures
        final(s)@ == old(s)@ + dec_padded(n as nat, width as nat),
{
    let digits = fmt_u64(n);
    let dv = chars_of(digits.as_str());
    let mut k: usize = dv.len();
    while k < width
        invariant
            dv@ == dec(n as nat),
            dv.len() <= k <= width || (k == dv.len() && k >= width),
            s@ == old(s)@ + zeros((k - dv.len()) as nat),
        decreases width - k,
    {
        push_char(s, '0');
        k += 1;
        assert(s@ =~= old(s)@ + zeros((k - dv.len()) as nat));
    }
    push_chars(s, dv.as_slice());
    if dv.len() < width {
        assert(s@ =~= old(s)@ + dec_padded(n as nat, width as nat));
    } else {
        assert(zeros(0) =~= Seq::<char>::empty());
        assert(s@ =~= old(s)@ + dec_padded(n as nat, width as nat));
    }
}

// ── Whitespace and case ──────────────────────────────────────────────────────

/// Unicode `White_Space`, the set `char::is_whitespace` accepts.
pub open spec fn is_ws(c: char) -> bool {
    let u = c as u32;
    (9 <= u <= 13) || u == 32 || u == 0x85 || u == 0xa0 || u == 0x1680 || (0x2000 <= u <= 0x200a)
        || u == 0x2028 || u == 0x2029 || u == 0x202f || u == 0x205f || u == 0x3000
}

pub fn is_whitespace(c: char) -> (b: bool)
    ensures
        b == is_ws(c),
{
    let u = c as u32;
    (9 <= u && u <= 13) || u == 32 || u == 0x85 || u == 0xa0 || u == 0x1680 || (0x2000 <= u && u
        <= 0x200a) || u == 0x2028 || u == 0x2029 || u == 0x202f || u == 0x205f || u == 0x3000
}

/// `s` without leading whitespace.
pub open spec fn trim_start(s: Seq<char>) -> Seq<char>
    decreases s.len(),
{
    if s.len() > 0 && is_ws(s[0]) {
        trim_start(s.drop_first())
    } else {
        s
    }
}

/// `s` without trailing whitespace.
pub open spec fn trim_end(s: Seq<char>) -> Seq<char>
    decreases s.len(),
{
    if s.len() > 0 && is_ws(s.last()) {
        trim_end(s.drop_last())
    } else {
        s
    }
}

/// `s` without leading and trailing whitespace (`str::trim`).
pub open spec fn trim(s: Seq<char>) -> Seq<char> {
    trim_end(trim_start(s))
}

proof fn lemma_trim_start_skip(s: Seq<char>, i: int)
    requires
        0 <= i <= s.len(),
        forall|j: int| 0 <= j < i ==> is_ws(#[trigger] s[j]),
    ensures
        trim_start(s) == trim_start(s.skip(i)),
    decreases i,
{
    if i > 0 {
        assert(s.drop_first().skip(i - 1) =~= s.skip(i));
        assert forall|j: int| 0 <= j < i - 1 implies is_ws(#[trigger] s.drop_first()[j]) by {
            assert(s.drop_first()[j] == s[j + 1]);
        }
        lemma_trim_start_skip(s.drop_first(), i - 1);
    } else {
        assert(s.skip(0) =~= s);
    }
}

proof fn lemma_trim_end_take(s: Seq<char>, i: int)
    requires
        0 <= i <= s.len(),
        forall|j: int| i <= j < s.len() ==> is_ws(#[trigger] s[j]),
    ensures
        trim_end(s) == trim_end(s.take(i)),
    decreases s.len() - i,
{
    if i < s.len() {
        assert(s.drop_last().take(i) =~= s.take(i));
        assert forall|j: int| i <= j < s.drop_last().len() implies is_ws(
            #[trigger] s.drop_last()[j],
        ) by {
            assert(s.drop_last()[j] == s[j]);
        }
        lemma_trim_end_take(s.drop_last(), i);
    } else {
        assert(s.take(i) =~= s);
    }
}

/// The characters of `s` without leading and trailing whitespace.
pub fn trim_chars(s: &[char]) -> (r: Vec<char>)
    ensures
        r@ == trim(s@),
{
    let mut a: usize = 0;
    while a < s.len() && is_whitespace(s[a])
        invariant
            a <= s.len(),
            forall|j: int| 0 <= j < a ==> is_ws(#[trigger] s@[j]),
        decreases s.len() - a,
    {
        a += 1;
    }
    proof {
        lemma_trim_start_skip(s@, a as int);
        assert(trim_start(s@.skip(a as int)) == s@.skip(a as int));
    }
    let mut b: usize = s.len();
    while b > a && is_whitespace(s[b - 1])
        invariant
            a <= b <= s.len(),
            forall|j: int| b <= j < s.len() ==> is_ws(#[trigger] s@[j]),
        decreases b,
    {
        b -= 1;
    }
    let ghost mid = s@.skip(a as int);
    proof {
        assert forall|j: int| (b - a) <= j < mid.len() implies is_ws(#[trigger] mid[j]) by {
            assert(mid[j] == s@[j + a]);
        }
        lemma_trim_end_take(mid, (b - a) as int);
        assert(mid.take((b - a) as int) =~= s@.subrange(a as int, b as int));
    }
    let mut r: Vec<char> = Vec::new();
    let mut i = a;
    while i < b
        invariant
            a <= i <= b <= s.len(),
            r@ == s@.subrange(a as int, i as int),
        decreases b - i,
    {
        r.push(s[i]);
        i += 1;
        assert(r@ =~= s@.subrange(a as int, i as int));
    }
    proof {
        let t = s@.subrange(a as int, b as int);
        if t.len() > 0 {
            assert(!is_ws(t.last()));
        }
        assert(trim_end(t) == t);
    }
    r
}

/// `str::trim`, as an owned string.
pub fn trim_str(s: &str) -> (r: String)
    ensures
        r@ == trim(s@),
{
    let cs = chars_of(s);
    let t = trim_chars(cs.as_slice());
    string_of(t.as_slice())
}

/// ASCII lower-casing of one character.
pub open spec fn lower(c: char) -> char {
    if 65 <= c as u32 <= 90 {
        ((c as u32) + 32) as char
    } else {
        c
    }
}

/// ASCII upper-casing of one character.
pub open spec fn upper(c: char) -> char {
    if 97 <= c as u32 <= 122 {
        ((c as u32) - 32) as char
    } else {
        c
    }
}

/// `str::to_ascii_lowercase` on the model.
pub open spec fn lower_seq(s: Seq<char>) -> Seq<char> {
    s.map_values(|c: char| lower(c))
}

/// `str::to_ascii_uppercase` on the model.
pub open spec fn upper_seq(s: Seq<char>) -> Seq<char> {
    s.map_values(|c: char| upper(c))
}

pub fn to_lower(c: char) -> (r: char)
    ensures
        r == lower(c),
{
    let u = c as u32;
    if 65 <= u && u <= 90 {
        ((u + 32) as u8) as char
    } else {
        c
    }
}

pub fn to_upper(c: char) -> (r: char)
    ensures
        r == upper(c),
{
    let u = c as u32;
    if 97 <= u && u <= 122 {
        ((u - 32) as u8) as char
    } else {
        c
    }
}

/// ASCII lower-cased copy of the characters.
pub fn lower_chars(s: &[char]) -> (r: Vec<char>)
    ensures
        r@ == lower_seq(s@),
{
    let mut r: Vec<char> = Vec::new();
    let mut i: usize = 0;
    while i < s.len()
        invariant
            i <= s.len(),
            r@ == lower_seq(s@.take(i as int)),
        decreases s.len() - i,
    {
        r.push(to_lower(s[i]));
        i += 1;
        assert(r@ =~= lower_seq(s@.take(i as int)));
    }
    assert(s@.take(s.len() as int) =~= s@);
    r
}

/// ASCII upper-cased copy of the characters.
pub fn upper_chars(s: &[char]) -> (r: Vec<char>)
    ensures
        r@ == upper_seq(s@),
{
    let mut r: Vec<char> = Vec::new();
    let mut i: usize = 0;
    while i < s.len()
        invariant
            i <= s.len(),
            r@ == upper_seq(s@.take(i as int)),
        decreases s.len() - i,
    {
        r.push(to_upper(s[i]));
        i += 1;
        assert(r@ =~= upper_seq(s@.take(i as int)));
    }
    assert(s@.take(s.len() as int) =~= s@);
    r
}

// ── Comparison, prefixes, search ─────────────────────────────────────────────

/// Character-wise equality of two slices.
pub fn chars_eq(a: &[char], b: &[char]) -> (r: bool)
    ensures
        r == (a@ == b@),
{
    if a.len() != b.len() {
        return false;
    }
    let mut i: usize = 0;
    while i < a.len()
        invariant
            a.len() == b.len(),
            i <= a.len(),
            forall|j: int| 0 <= j < i ==> a@[j] == b@[j],
        decreases a.len() - i,
    {
        if a[i] != b[i] {
            return false;
        }
        i += 1;
    }
    assert(a@ =~= b@);
    true
}

/// Whether the model of `a` equals the literal text `b`.
pub fn eq_str(a: &[char], b: &str) -> (r: bool)
    ensures
        r == (a@ == b@),
{
    let bv = chars_of(b);
    chars_eq(a, bv.as_slice())
}

/// `s` begins with `p`.
pub open spec fn starts_with(s: Seq<char>, p: Seq<char>) -> bool {
    p.len() <= s.len() && s.take(p.len() as int) == p
}

/// `s` ends with `p`.
pub open spec fn ends_with(s: Seq<char>, p: Seq<char>) -> bool {
    p.len() <= s.len() && s.skip(s.len() - p.len()) == p
}

pub fn has_prefix(s: &[char], p: &[char]) -> (r: bool)
    ensures
        r == starts_with(s@, p@),
{
    if p.len() > s.len() {
        return false;
    }
    let mut i: usize = 0;
    while i < p.len()
        invariant
            p.len() <= s.len(),
            i <= p.len(),
            forall|j: int| 0 <= j < i ==> s@[j] == p@[j],
        decreases p.len() - i,
    {
        if s[i] != p[i] {
            assert(s@.take(p.len() as int)[i as int] != p@[i as int]);
            return false;
        }
        i += 1;
    }
    assert(s@.take(p.len() as int) =~= p@);
    true
}

pub fn has_prefix_str(s: &[char], p: &str) -> (r: bool)
    ensures
        r == starts_with(s@, p@),
{
    let pv = chars_of(p);
    has_prefix(s, pv.as_slice())
}

pub fn has_suffix(s: &[char], p: &[char]) -> (r: bool)
    ensures
        r == ends_with(s@, p@),
{
    if p.len() > s.len() {
        return false;
    }
    let off = s.len() - p.len();
    let mut i: usize = 0;
    while i < p.len()
        invariant
            p.len() <= s.len(),
            off == s.len() - p.len(),
            i <= p.len(),
            forall|j: int| 0 <= j < i ==> s@[off + j] == p@[j],
        decreases p.len() - i,
    {
        if s[off + i] != p[i] {
            assert(s@.skip(off as int)[i as int] != p@[i as int]);
            return false;
        }
        i += 1;
    }
    assert(s@.skip(off as int) =~= p@);
    true
}

/// Copy of `s[from..to]`.
pub fn slice_chars(s: &[char], from: usize, to: usize) -> (r: Vec<char>)
    requires
        from <= to <= s.len(),
    ensures
        r@ == s@.subrange(from as int, to as int),
{
    let mut r: Vec<char> = Vec::new();
    let mut i = from;
    while i < to
        invariant
            from <= i <= to <= s.len(),
            r@ == s@.subrange(from as int, i as int),
        decreases to - i,
    {
        r.push(s[i]);
        i += 1;
        assert(r@ =~= s@.subrange(from as int, i as int));
    }
    r
}

/// The index of the first occurrence of `c` in `s`, if any.
pub open spec fn first_index(s: Seq<char>, c: char) -> Option<int> {
    if exists|i: int| 0 <= i < s.len() && s[i] == c {
        Some(choose|i: int| 0 <= i < s.len() && s[i] == c && forall|j: int| 0 <= j < i ==> s[j] != c)
    } else {
        None
    }
}

/// Exec `first_index`.
pub fn find_char(s: &[char], c: char) -> (r: Option<usize>)
    ensures
        match r {
            Some(i) => first_index(s@, c) == Some(i as int) && i < s.len() && s@[i as int] == c
                && forall|j: int| 0 <= j < i ==> s@[j] != c,
            None => first_index(s@, c) == None::<int> && forall|j: int| 0 <= j < s.len() ==> s@[j] != c,
        },
{
    let mut i: usize = 0;
    while i < s.len()
        invariant
            i <= s.len(),
            forall|j: int| 0 <= j < i ==> s@[j] != c,
        decreases s.len() - i,
    {
        if s[i] == c {
            proof {
                let w = choose|k: int| 0 <= k < s@.len() && s@[k] == c && forall|j: int| 0 <= j < k ==> s@[j] != c;
                assert(0 <= i < s@.len() && s@[i as int] == c && forall|j: int| 0 <= j < i ==> s@[j] != c);
                if w < i {
                } else if w > i {
                    assert(s@[i as int] != c);
                }
            }
            return Some(i);
        }
        i += 1;
    }
    None
}

/// `str::split` on one separator character, on the model.
pub open spec fn split_on(s: Seq<char>, c: char) -> Seq<Seq<char>>
    decreases s.len(),
{
    match first_index(s, c) {
        Some(i) => if 0 <= i < s.len() {
            seq![s.take(i)] + split_on(s.skip(i + 1), c)
        } else {
            seq![s]
        },
        None => seq![s],
    }
}

/// `str::split` on one separator character.
pub fn split_chars(s: &[char], c: char) -> (parts: Vec<Vec<char>>)
    ensures
        parts@.map_values(|p: Vec<char>| p@) == split_on(s@, c),
    decreases s.len(),
{
    match find_char(s, c) {
        Some(i) => {
            let head = slice_chars(s, 0, i);
            let tail = slice_chars(s, i + 1, s.len());
            let rest = split_chars(tail.as_slice(), c);
            let mut parts: Vec<Vec<char>> = Vec::new();
            parts.push(head);
            let ghost rv = rest@.map_values(|p: Vec<char>| p@);
            proof {
                assert(s@.skip(i + 1) =~= tail@);
                assert(s@.take(i as int) =~= head@);
            }
            let mut out = parts;
            let mut j: usize = 0;
            while j < rest.len()
                invariant
                    j <= rest.len(),
                    rv == rest@.map_values(|p: Vec<char>| p@),
                    out@.map_values(|p: Vec<char>| p@) =~= seq![s@.take(i as int)] + rv.take(j as int),
                decreases rest.len() - j,
            {
                let piece = slice_chars(rest[j].as_slice(), 0, rest[j].len());
                assert(piece@ =~= rest@[j as int]@);
                let ghost prev = out@;
                out.push(piece);
                proof {
                    assert(out@ == prev.push(piece));
                    assert(out@.map_values(|p: Vec<char>| p@) =~= prev.map_values(|p: Vec<char>| p@).push(piece@));
                    assert(rv[j as int] == rest@[j as int]@);
                    assert(rv.take(j + 1) =~= rv.take(j as int).push(rv[j as int]));
                }
                j += 1;
            }
            assert(rv.take(rest.len() as int) =~= rv);
            out
        },
        None => {
            let mut parts: Vec<Vec<char>> = Vec::new();
            parts.push(slice_chars(s, 0, s.len()));
            assert(s@.subrange(0, s.len() as int) =~= s@);
            assert(parts@.map_values(|p: Vec<char>| p@) =~= seq![s@]);
            parts
        },
    }
}

// ── Parsing decimal integers ─────────────────────────────────────────────────

/// An ASCII decimal digit.
pub open spec fn is_digit(c: char) -> bool {
    48 <= c as u32 <= 57
}

/// Every character is an ASCII digit.
pub open spec fn all_digits(s: Seq<char>) -> bool {
    forall|i: int| 0 <= i < s.len() ==> is_digit(#[trigger] s[i])
}

/// The value of a run of decimal digits.
pub open spec fn digits_value(s: Seq<char>) -> nat
    decreases s.len(),
{
    if s.len() == 0 {
        0
    } else {
        digits_value(s.drop_last()) * 10 + ((s.last() as u32 - 48) as nat)
    }
}

/// What `str::parse` reads as an unsigned integer, before the range check:
/// an optional `+` and at least one digit.
pub open spec fn nat_text(s: Seq<char>) -> Option<nat> {
    let body = if s.len() > 0 && s[0] == '+' {
        s.drop_first()
    } else {
        s
    };
    if body.len() > 0 && all_digits(body) {
        Some(digits_value(body))
    } else {
        None
    }
}

/// What `str::parse` reads as a signed integer, before the range check:
/// an optional `+` or `-` and at least one digit.
pub open spec fn int_text(s: Seq<char>) -> Option<int> {
    if s.len() > 0 && s[0] == '-' {
        let body = s.drop_first();
        if body.len() > 0 && all_digits(body) {
            Some(-(digits_value(body) as int))
        } else {
            None
        }
    } else {
        match nat_text(s) {
            Some(n) => Some(n as int),
            None => None,
        }
    }
}

proof fn lemma_digits_value_grows(s: Seq<char>, i: int)
    requires
        0 <= i < s.len(),
        all_digits(s),
    ensures
        digits_value(s.take(i + 1)) >= digits_value(s.take(i)),
        digits_value(s.take(i + 1)) == digits_value(s.take(i)) * 10 + ((s[i] as u32 - 48) as nat),
{
    assert(s.take(i + 1).drop_last() =~= s.take(i));
}

proof fn lemma_digits_value_mono(s: Seq<char>, i: int)
    requires
        0 <= i <= s.len(),
        all_digits(s),
    ensures
        digits_value(s) >= digits_value(s.take(i)),
    decreases s.len() - i,
{
    if i < s.len() {
        lemma_digits_value_grows(s, i);
        lemma_digits_value_mono(s, i + 1);
    } else {
        assert(s.take(i) =~= s);
    }
}

/// The value of the digits `s[from..]`, or `None` when they are not all
/// digits, empty, or exceed `u64::MAX`.
fn digits_u64(s: &[char], from: usize) -> (r: Option<u64>)
    requires
        from <= s.len(),
    ensures
        ({
            let body = s@.skip(from as int);
            match r {
                Some(v) => body.len() > 0 && all_digits(body) && digits_value(body) == v,
                None => !(body.len() > 0 && all_digits(body) && digits_value(body) <= u64::MAX),
            }
        }),
{
    let ghost body = s@.skip(from as int);
    if from == s.len() {
        return None;
    }
    let mut i = from;
    let mut v: u64 = 0;
    while i < s.len()
        invariant
            from <= i <= s.len(),
            body == s@.skip(from as int),
            forall|j: int| 0 <= j < i - from ==> is_digit(#[trigger] body[j]),
            v == digits_value(body.take(i - from)),
        decreases s.len() - i,
    {
        let c = s[i];
        let u = c as u32;
        if u < 48 || u > 57 {
            assert(!is_digit(body[i - from]));
            return None;
        }
        let d = (u - 48) as u64;
        proof {
            assert(body.take(i - from + 1).drop_last() =~= body.take(i - from));
        }
        if v > 1844674407370955161 || (v == 1844674407370955161 && d > 5) {
            proof {
                assert(digits_value(body.take(i - from + 1)) > u64::MAX);
                if all_digits(body) {
                    lemma_digits_value_mono(body, i - from + 1);
                }
            }
            return None;
        }
        v = v * 10 + d;
        i += 1;
    }
    assert(body.take(i - from) =~= body);
    Some(v)
}

/// `str::parse::<u64>` on the characters of `s`.
pub fn parse_u64_chars(s: &[char]) -> (r: Option<u64>)
    ensures
        match r {
            Some(v) => nat_text(s@) == Some(v as nat),
            None => !(nat_text(s@) matches Some(n) && n <= u64::MAX),
        },
{
    let from: usize = if s.len() > 0 && s[0] == '+' {
        1
    } else {
        0
    };
    proof {
        if from == 1 {
            assert(s@.skip(1) =~= s@.drop_first());
        } else {
            assert(s@.skip(0) =~= s@);
        }
    }
    digits_u64(s, from)
}

/// Whether `s` is an optional `+` followed by at least one digit, whatever
/// the size of the number.
pub fn is_nat_text(s: &[char]) -> (b: bool)
    ensures
        b == (nat_text(s@) is Some),
{
    let from: usize = if s.len() > 0 && s[0] == '+' {
        1
    } else {
        0
    };
    let ghost body = s@.skip(from as int);
    proof {
        if from == 1 {
            assert(s@.skip(1) =~= s@.drop_first());
        } else {
            assert(s@.skip(0) =~= s@);
        }
        assert((nat_text(s@) is Some) == (body.len() > 0 && all_digits(body)));
    }
    if from == s.len() {
        return false;
    }
    let mut i = from;
    while i < s.len()
        invariant
            from <= i <= s.len(),
            body == s@.skip(from as int),
            body.len() > 0,
            (nat_text(s@) is Some) == (body.len() > 0 && all_digits(body)),
            forall|j: int| 0 <= j < i - from ==> is_digit(#[trigger] body[j]),
        decreases s.len() - i,
    {
        let c = s[i];
        let u = c as u32;
        assert(body[i - from] == c);
        if u < 48 || u > 57 {
            assert(!is_digit(body[i - from]));
            assert(!all_digits(body));
            assert(!(nat_text(s@) is Some));
            return false;
        }
        i += 1;
    }
    assert(all_digits(body));
    true
}

/// The least position from `i` on where `p` occurs in `s`.
pub open spec fn find_from(s: Seq<char>, p: Seq<char>, i: int) -> Option<int>
    decreases s.len() + 1 - i,
{
    if i < 0 || i > s.len() {
        None
    } else if starts_with(s.skip(i), p) {
        Some(i)
    } else {
        find_from(s, p, i + 1)
    }
}

/// A position `find_from` gives holds an occurrence, at or after the start.
pub proof fn lemma_find_from(s: Seq<char>, p: Seq<char>, j: int)
    ensures
        find_from(s, p, j) matches Some(i) ==> j <= i <= s.len() && starts_with(s.skip(i), p),
    decreases s.len() + 1 - j,
{
    if 0 <= j <= s.len() && !starts_with(s.skip(j), p) {
        lemma_find_from(s, p, j + 1);
    }
}

/// `str::find` of a text, as a character position.
pub fn find_chars(s: &[char], p: &[char]) -> (r: Option<usize>)
    ensures
        match r {
            Some(i) => find_from(s@, p@, 0) == Some(i as int) && i <= s.len(),
            None => find_from(s@, p@, 0) is None,
        },
{
    let mut i: usize = 0;
    while i <= s.len()
        invariant
            i <= s.len() + 1,
            find_from(s@, p@, 0) == find_from(s@, p@, i as int),
        decreases s.len() + 1 - i,
    {
        if matches_at(s, i, p) {
            return Some(i);
        }
        if i == s.len() {
            assert(find_from(s@, p@, i + 1) is None);
            return None;
        }
        i += 1;
    }
    None
}

/// What `str::to_lowercase` gives (full Unicode case mapping).
pub uninterp spec fn unicode_lower(s: Seq<char>) -> Seq<char>;

/// `str::to_lowercase`. The contract names the result and states the one
/// fact std documents that callers use: ASCII text lower-cases letter by
/// letter.
#[verifier::external_body]
pub(crate) fn to_lowercase(s: &str) -> (r: String)
    ensures
        r@ == unicode_lower(s@),
        vstd::string::is_ascii(s) ==> r@ == lower_seq(s@),
{
    s.to_lowercase()
}

/// `str::parse::<i32>` on the characters of `s`.
pub fn parse_i32_chars(s: &[char]) -> (r: Option<i32>)
    ensures
        match r {
            Some(v) => int_text(s@) == Some(v as int),
            None => !(int_text(s@) matches Some(n) && i32::MIN <= n <= i32::MAX),
        },
{
    if s.len() > 0 && s[0] == '-' {
        assert(s@.skip(1) =~= s@.drop_first());
        match digits_u64(s, 1) {
            Some(m) => {
                if m <= 2147483648 {
                    Some((0i64 - m as i64) as i32)
                } else {
                    None
                }
            },
            None => None,
        }
    } else {
        match parse_u64_chars(s) {
            Some(m) => {
                if m <= 2147483647 {
                    Some(m as i32)
                } else {
                    None
                }
            },
            None => None,
        }
    }
}

/// `str::parse::<u16>` on the characters of `s`.
pub fn parse_u16_chars(s: &[char]) -> (r: Option<u16>)
    ensures
        match r {
            Some(v) => nat_text(s@) == Some(v as nat),
            None => !(nat_text(s@) matches Some(n) && n <= u16::MAX),
        },
{
    match parse_u64_chars(s) {
        Some(m) => {
            if m <= 65535 {
                Some(m as u16)
            } else {
                None
            }
        },
        None => None,
    }
}

// ── Ordering ─────────────────────────────────────────────────────────────────

/// Lexicographic `a <= b` by code point, the order `str`'s `Ord` gives
/// (UTF-8 preserves code-point order).
pub open spec fn text_le(a: Seq<char>, b: Seq<char>) -> bool
    decreases a.len(),
{
    if a.len() == 0 {
        true
    } else if b.len() == 0 {
        false
    } else if (a[0] as u32) < (b[0] as u32) {
        true
    } else if (a[0] as u32) > (b[0] as u32) {
        false
    } else {
        text_le(a.drop_first(), b.drop_first())
    }
}

pub proof fn lemma_text_le_total(a: Seq<char>, b: Seq<char>)
    ensures
        text_le(a, b) || text_le(b, a),
    decreases a.len(),
{
    if a.len() > 0 && b.len() > 0 && a[0] as u32 == b[0] as u32 {
        lemma_text_le_total(a.drop_first(), b.drop_first());
    }
}

pub proof fn lemma_text_le_trans(a: Seq<char>, b: Seq<char>, c: Seq<char>)
    requires
        text_le(a, b),
        text_le(b, c),
    ensures
        text_le(a, c),
    decreases a.len(),
{
    if a.len() > 0 && b.len() > 0 && c.len() > 0 && a[0] as u32 == b[0] as u32 && b[0] as u32
        == c[0] as u32 {
        lemma_text_le_trans(a.drop_first(), b.drop_first(), c.drop_first());
    }
}

/// Exec `text_le`.
pub fn chars_le(a: &[char], b: &[char]) -> (r: bool)
    ensures
        r == text_le(a@, b@),
{
    let mut i: usize = 0;
    assert(a@.skip(0) =~= a@);
    assert(b@.skip(0) =~= b@);
    while i < a.len() && i < b.len()
        invariant
            i <= a.len(),
            i <= b.len(),
            text_le(a@, b@) == text_le(a@.skip(i as int), b@.skip(i as int)),
        decreases a.len() - i,
    {
        let x = a[i] as u32;
        let y = b[i] as u32;
        assert(a@.skip(i as int)[0] == a@[i as int]);
        assert(b@.skip(i as int)[0] == b@[i as int]);
        if x < y {
            return true;
        }
        if x > y {
            return false;
        }
        assert(a@.skip(i as int).drop_first() =~= a@.skip(i + 1));
        assert(b@.skip(i as int).drop_first() =~= b@.skip(i + 1));
        i += 1;
    }
    i == a.len()
}


// ── Byte-indexed prefixes ────────────────────────────────────────────────────

/// Bytes in the UTF-8 encoding of `c`.
pub open spec fn utf8_width(c: char) -> nat {
    let u = c as u32;
    if u < 0x80 {
        1
    } else if u < 0x800 {
        2
    } else if u < 0x10000 {
        3
    } else {
        4
    }
}

/// The leading characters of `s` whose UTF-8 encoding is exactly `n` bytes
/// (`str::get(..n)`), or `None` when byte `n` is past the end or inside a
/// character.
pub open spec fn str_prefix_bytes(s: Seq<char>, n: nat) -> Option<Seq<char>>
    decreases s.len(),
{
    if n == 0 {
        Some(seq![])
    } else if s.len() == 0 {
        None
    } else if utf8_width(s[0]) > n {
        None
    } else {
        match str_prefix_bytes(s.drop_first(), (n - utf8_width(s[0])) as nat) {
            Some(p) => Some(seq![s[0]] + p),
            None => None,
        }
    }
}

fn char_width(c: char) -> (w: usize)
    ensures
        w == utf8_width(c),
{
    let u = c as u32;
    if u < 0x80 {
        1
    } else if u < 0x800 {
        2
    } else if u < 0x10000 {
        3
    } else {
        4
    }
}

/// Exec `str_prefix_bytes`.
pub fn prefix_bytes(s: &[char], n: usize) -> (r: Option<Vec<char>>)
    ensures
        match r {
            Some(p) => str_prefix_bytes(s@, n as nat) == Some(p@),
            None => str_prefix_bytes(s@, n as nat) is None,
        },
{
    let mut i: usize = 0;
    let mut rem = n;
    assert(s@.skip(0) =~= s@);
    assert(s@.take(0) + s@ =~= s@);
    while rem > 0
        invariant
            i <= s.len(),
            rem <= n,
            match str_prefix_bytes(s@.skip(i as int), rem as nat) {
                Some(p) => str_prefix_bytes(s@, n as nat) == Some(s@.take(i as int) + p),
                None => str_prefix_bytes(s@, n as nat) is None,
            },
        decreases rem,
    {
        if i == s.len() {
            return None;
        }
        let w = char_width(s[i]);
        let ghost t = s@.skip(i as int);
        assert(t[0] == s@[i as int]);
        if w > rem {
            return None;
        }
        assert(t.drop_first() =~= s@.skip(i + 1));
        proof {
            match str_prefix_bytes(s@.skip(i + 1), (rem - w) as nat) {
                Some(p) => {
                    assert(s@.take(i as int) + (seq![s@[i as int]] + p) =~= s@.take(i + 1) + p);
                },
                None => {},
            }
        }
        rem = rem - w;
        i += 1;
    }
    let p = slice_chars(s, 0, i);
    assert(s@.take(i as int) + seq![] =~= p@);
    Some(p)
}


/// Bytes in the UTF-8 encoding of `s` (`str::len`).
pub open spec fn utf8_len(s: Seq<char>) -> nat
    decreases s.len(),
{
    if s.len() == 0 {
        0
    } else {
        utf8_len(s.drop_last()) + utf8_width(s.last())
    }
}

proof fn lemma_utf8_len_mono(s: Seq<char>, i: int)
    requires
        0 <= i <= s.len(),
    ensures
        utf8_len(s.take(i)) <= utf8_len(s),
    decreases s.len() - i,
{
    if i < s.len() {
        assert(s.take(i + 1).drop_last() =~= s.take(i));
        lemma_utf8_len_mono(s, i + 1);
    } else {
        assert(s.take(i) =~= s);
    }
}

/// `utf8_len(s)` when it is at most `cap`, else `cap + 1`.
pub fn byte_len_upto(s: &[char], cap: usize) -> (n: usize)
    requires
        cap < usize::MAX - 4,
    ensures
        utf8_len(s@) <= cap ==> n == utf8_len(s@),
        utf8_len(s@) > cap ==> n == cap + 1,
{
    let mut n: usize = 0;
    let mut i: usize = 0;
    while i < s.len()
        invariant
            i <= s.len(),
            cap < usize::MAX - 4,
            n == utf8_len(s@.take(i as int)),
            n <= cap,
        decreases s.len() - i,
    {
        assert(s@.take(i + 1).drop_last() =~= s@.take(i as int));
        n = n + char_width(s[i]);
        i += 1;
        if n > cap {
            proof {
                lemma_utf8_len_mono(s@, i as int);
            }
            return cap + 1;
        }
    }
    assert(s@.take(s.len() as int) =~= s@);
    n
}

pub proof fn lemma_prefix_bytes_len(s: Seq<char>, n: nat)
    ensures
        str_prefix_bytes(s, n) matches Some(p) ==> p.len() <= s.len() && p == s.take(p.len() as int),
    decreases s.len(),
{
    if n > 0 && s.len() > 0 && utf8_width(s[0]) <= n {
        lemma_prefix_bytes_len(s.drop_first(), (n - utf8_width(s[0])) as nat);
        match str_prefix_bytes(s.drop_first(), (n - utf8_width(s[0])) as nat) {
            Some(p) => {
                assert(seq![s[0]] + p =~= s.take(p.len() as int + 1));
            },
            None => {},
        }
    }
}


// ── Replacing and truncating ─────────────────────────────────────────────────

/// `str::replace(s, p, r)`: every non-overlapping occurrence of `p`, found
/// left to right, replaced by `r`; an empty `p` matches before every
/// character and at the end.
pub open spec fn replace_all(s: Seq<char>, p: Seq<char>, r: Seq<char>) -> Seq<char>
    decreases s.len(),
{
    if p.len() == 0 {
        if s.len() == 0 {
            r
        } else {
            r + seq![s[0]] + replace_all(s.drop_first(), p, r)
        }
    } else if s.len() == 0 {
        s
    } else if starts_with(s, p) {
        r + replace_all(s.skip(p.len() as int), p, r)
    } else {
        seq![s[0]] + replace_all(s.drop_first(), p, r)
    }
}

/// Whether `p` occurs in `s` at position `i`.
fn matches_at(s: &[char], i: usize, p: &[char]) -> (b: bool)
    requires
        i <= s.len(),
    ensures
        b == starts_with(s@.skip(i as int), p@),
{
    if p.len() > s.len() - i {
        return false;
    }
    let mut k: usize = 0;
    while k < p.len()
        invariant
            i + p.len() <= s.len(),
            k <= p.len(),
            forall|j: int| 0 <= j < k ==> s@[i + j] == p@[j],
        decreases p.len() - k,
    {
        if s[i + k] != p[k] {
            assert(s@.skip(i as int).take(p.len() as int)[k as int] != p@[k as int]);
            return false;
        }
        k += 1;
    }
    assert(s@.skip(i as int).take(p.len() as int) =~= p@);
    true
}

/// Whether `p` occurs somewhere in `s` (`str::contains`).
pub open spec fn contains_text(s: Seq<char>, p: Seq<char>) -> bool {
    exists|i: int| 0 <= i <= s.len() && #[trigger] starts_with(s.skip(i), p)
}

/// Exec `contains_text`.
pub fn contains_chars(s: &[char], p: &[char]) -> (b: bool)
    ensures
        b == contains_text(s@, p@),
{
    let mut i: usize = 0;
    while i < s.len()
        invariant
            i <= s.len(),
            forall|j: int| 0 <= j < i ==> !#[trigger] starts_with(s@.skip(j), p@),
        decreases s.len() - i,
    {
        if matches_at(s, i, p) {
            return true;
        }
        i += 1;
    }
    matches_at(s, s.len(), p)
}

/// Exec `replace_all`.
pub fn replace_chars(s: &[char], p: &[char], r: &[char]) -> (out: Vec<char>)
    ensures
        out@ == replace_all(s@, p@, r@),
{
    let mut out: Vec<char> = Vec::new();
    let mut i: usize = 0;
    assert(s@.skip(0) =~= s@);
    while i < s.len()
        invariant
            i <= s.len(),
            replace_all(s@, p@, r@) == out@ + replace_all(s@.skip(i as int), p@, r@),
        decreases s.len() - i,
    {
        let ghost t = s@.skip(i as int);
        assert(t[0] == s@[i as int]);
        assert(t.drop_first() =~= s@.skip(i + 1));
        if p.len() == 0 {
            let ghost before = out@;
            for k in 0..r.len()
                invariant
                    out@ == before + r@.take(k as int),
            {
                out.push(r[k]);
                assert(out@ =~= before + r@.take(k + 1));
            }
            assert(r@.take(r.len() as int) =~= r@);
            out.push(s[i]);
            assert(out@ =~= before + (r@ + seq![s@[i as int]]));
            assert(replace_all(t, p@, r@) == r@ + seq![t[0]] + replace_all(t.drop_first(), p@, r@));
            assert((before + (r@ + seq![s@[i as int]])) + replace_all(s@.skip(i + 1), p@, r@) =~= before
                + (r@ + seq![t[0]] + replace_all(t.drop_first(), p@, r@)));
            i += 1;
        } else if matches_at(s, i, p) {
            let ghost before = out@;
            for k in 0..r.len()
                invariant
                    out@ == before + r@.take(k as int),
            {
                out.push(r[k]);
                assert(out@ =~= before + r@.take(k + 1));
            }
            assert(r@.take(r.len() as int) =~= r@);
            assert(t.skip(p.len() as int) =~= s@.skip(i + p.len()));
            assert(before + r@ + replace_all(s@.skip(i + p.len()), p@, r@) =~= before + (r@
                + replace_all(t.skip(p@.len() as int), p@, r@)));
            i = i + p.len();
        } else {
            let ghost before = out@;
            out.push(s[i]);
            assert(before.push(s@[i as int]) + replace_all(s@.skip(i + 1), p@, r@) =~= before + (
            seq![t[0]] + replace_all(t.drop_first(), p@, r@)));
            i += 1;
        }
    }
    proof {
        assert(s@.skip(i as int) =~= Seq::<char>::empty());
    }
    if p.len() == 0 {
        let ghost before = out@;
        for k in 0..r.len()
            invariant
                out@ == before + r@.take(k as int),
        {
            out.push(r[k]);
            assert(out@ =~= before + r@.take(k + 1));
        }
        assert(r@.take(r.len() as int) =~= r@);
    } else {
        assert(out@ + Seq::<char>::empty() =~= out@);
    }
    out
}

/// The longest prefix of `s` whose UTF-8 encoding fits in `n` bytes.
pub open spec fn floor_prefix_bytes(s: Seq<char>, n: nat) -> Seq<char>
    decreases s.len(),
{
    if s.len() == 0 || utf8_width(s[0]) > n {
        seq![]
    } else {
        seq![s[0]] + floor_prefix_bytes(s.drop_first(), (n - utf8_width(s[0])) as nat)
    }
}

/// Exec `floor_prefix_bytes`.
pub fn floor_prefix(s: &[char], n: usize) -> (r: Vec<char>)
    ensures
        r@ == floor_prefix_bytes(s@, n as nat),
{
    let mut i: usize = 0;
    let mut rem = n;
    assert(s@.skip(0) =~= s@);
    assert(s@.take(0) + floor_prefix_bytes(s@, n as nat) =~= floor_prefix_bytes(s@, n as nat));
    while i < s.len() && char_width(s[i]) <= rem
        invariant
            i <= s.len(),
            rem <= n,
            floor_prefix_bytes(s@, n as nat) == s@.take(i as int) + floor_prefix_bytes(
                s@.skip(i as int),
                rem as nat,
            ),
        decreases s.len() - i,
    {
        let ghost t = s@.skip(i as int);
        assert(t[0] == s@[i as int]);
        assert(t.drop_first() =~= s@.skip(i + 1));
        let w = char_width(s[i]);
        assert(s@.take(i as int) + (seq![t[0]] + floor_prefix_bytes(t.drop_first(), (rem - w) as nat))
            =~= s@.take(i + 1) + floor_prefix_bytes(s@.skip(i + 1), (rem - w) as nat));
        rem = rem - w;
        i += 1;
    }
    proof {
        if i < s.len() {
            assert(s@.skip(i as int)[0] == s@[i as int]);
        }
        assert(s@.take(i as int) + Seq::<char>::empty() =~= s@.take(i as int));
    }
    slice_chars(s, 0, i)
}


// ── Lines and words ──────────────────────────────────────────────────────────

/// `l` without one trailing carriage return.
pub open spec fn strip_cr(l: Seq<char>) -> Seq<char> {
    if l.len() > 0 && l.last() == '\r' {
        l.drop_last()
    } else {
        l
    }
}

/// `str::lines`: pieces separated by `\n` (a `\r` right before it is
/// dropped); a final line ending adds no empty line.
pub open spec fn text_lines(s: Seq<char>) -> Seq<Seq<char>>
    decreases s.len(),
{
    if s.len() == 0 {
        seq![]
    } else {
        match first_index(s, '\n') {
            Some(i) => if 0 <= i < s.len() {
                seq![strip_cr(s.take(i))] + text_lines(s.skip(i + 1))
            } else {
                seq![s]
            },
            None => seq![s],
        }
    }
}

/// Exec `text_lines`.
pub fn lines_of(s: &[char]) -> (r: Vec<Vec<char>>)
    ensures
        r@.map_values(|l: Vec<char>| l@) == text_lines(s@),
    decreases s.len(),
{
    if s.len() == 0 {
        let r: Vec<Vec<char>> = Vec::new();
        assert(r@.map_values(|l: Vec<char>| l@) =~= text_lines(s@));
        return r;
    }
    match find_char(s, '\n') {
        Some(i) => {
            let mut head = slice_chars(s, 0, i);
            if head.len() > 0 && head[head.len() - 1] == '\r' {
                head.pop();
            }
            assert(head@ == strip_cr(s@.take(i as int)));
            let tail = slice_chars(s, i + 1, s.len());
            assert(tail@ =~= s@.skip(i + 1));
            let rest = lines_of(tail.as_slice());
            let mut out: Vec<Vec<char>> = Vec::new();
            out.push(head);
            let ghost rv = rest@.map_values(|l: Vec<char>| l@);
            let mut j: usize = 0;
            while j < rest.len()
                invariant
                    j <= rest.len(),
                    rv == rest@.map_values(|l: Vec<char>| l@),
                    out@.map_values(|l: Vec<char>| l@) =~= seq![strip_cr(s@.take(i as int))] + rv.take(
                        j as int,
                    ),
                decreases rest.len() - j,
            {
                let piece = slice_chars(rest[j].as_slice(), 0, rest[j].len());
                assert(piece@ =~= rest@[j as int]@);
                let ghost prev = out@;
                out.push(piece);
                proof {
                    assert(out@.map_values(|l: Vec<char>| l@) =~= prev.map_values(|l: Vec<char>| l@).push(piece@));
                    assert(rv.take(j + 1) =~= rv.take(j as int).push(rv[j as int]));
                }
                j += 1;
            }
            assert(rv.take(rest.len() as int) =~= rv);
            out
        },
        None => {
            let mut out: Vec<Vec<char>> = Vec::new();
            out.push(slice_chars(s, 0, s.len()));
            assert(s@.subrange(0, s.len() as int) =~= s@);
            assert(out@.map_values(|l: Vec<char>| l@) =~= seq![s@]);
            out
        },
    }
}

/// ASCII whitespace as `split_ascii_whitespace` sees it.
pub open spec fn is_ascii_ws(c: char) -> bool {
    c == ' ' || c == '\t' || c == '\n' || c == '\x0C' || c == '\r'
}

/// The first index at or after `i` that is not ASCII whitespace (or the end).
pub open spec fn skip_ws_from(s: Seq<char>, i: int) -> int
    decreases s.len() - i,
{
    if 0 <= i < s.len() && is_ascii_ws(s[i]) {
        skip_ws_from(s, i + 1)
    } else {
        i
    }
}

/// The first index at or after `i` that is ASCII whitespace (or the end).
pub open spec fn word_end_from(s: Seq<char>, i: int) -> int
    decreases s.len() - i,
{
    if 0 <= i < s.len() && !is_ascii_ws(s[i]) {
        word_end_from(s, i + 1)
    } else {
        i
    }
}

/// The bounds of the next whitespace-separated word at or after `i`, the
/// item `split_ascii_whitespace` yields next.
pub open spec fn next_word(s: Seq<char>, i: int) -> Option<(int, int)> {
    let a = skip_ws_from(s, i);
    if a >= s.len() {
        None
    } else {
        Some((a, word_end_from(s, a)))
    }
}

pub proof fn lemma_next_word_bounds(s: Seq<char>, i: int)
    requires
        0 <= i <= s.len(),
    ensures
        next_word(s, i) matches Some((a, b)) ==> i <= a < b <= s.len(),
    decreases s.len() - i,
{
    lemma_skip_ws_bounds(s, i);
    let a = skip_ws_from(s, i);
    if a < s.len() {
        lemma_word_end_bounds(s, a);
    }
}

proof fn lemma_skip_ws_bounds(s: Seq<char>, i: int)
    requires
        0 <= i <= s.len(),
    ensures
        i <= skip_ws_from(s, i) <= s.len(),
        skip_ws_from(s, i) < s.len() ==> !is_ascii_ws(s[skip_ws_from(s, i)]),
    decreases s.len() - i,
{
    if i < s.len() && is_ascii_ws(s[i]) {
        lemma_skip_ws_bounds(s, i + 1);
    }
}

proof fn lemma_word_end_bounds(s: Seq<char>, i: int)
    requires
        0 <= i <= s.len(),
    ensures
        i <= word_end_from(s, i) <= s.len(),
        i < s.len() && !is_ascii_ws(s[i]) ==> i < word_end_from(s, i),
    decreases s.len() - i,
{
    if i < s.len() && !is_ascii_ws(s[i]) {
        lemma_word_end_bounds(s, i + 1);
    }
}

fn ascii_ws(c: char) -> (b: bool)
    ensures
        b == is_ascii_ws(c),
{
    c == ' ' || c == '\t' || c == '\n' || c == '\x0C' || c == '\r'
}

/// Exec `next_word`.
pub fn find_word(s: &[char], i: usize) -> (r: Option<(usize, usize)>)
    requires
        i <= s.len(),
    ensures
        match r {
            Some((a, b)) => next_word(s@, i as int) == Some((a as int, b as int)) && i <= a < b <= s.len(),
            None => next_word(s@, i as int) is None,
        },
{
    let mut a = i;
    while a < s.len() && ascii_ws(s[a])
        invariant
            i <= a <= s.len(),
            skip_ws_from(s@, i as int) == skip_ws_from(s@, a as int),
        decreases s.len() - a,
    {
        a += 1;
    }
    if a >= s.len() {
        return None;
    }
    let mut b = a;
    while b < s.len() && !ascii_ws(s[b])
        invariant
            a <= b <= s.len(),
            word_end_from(s@, a as int) == word_end_from(s@, b as int),
        decreases s.len() - b,
    {
        b += 1;
    }
    proof {
        lemma_next_word_bounds(s@, i as int);
    }
    Some((a, b))
}


proof fn lemma_char_u32_injective(c: char, d: char)
    requires
        c as u32 == d as u32,
    ensures
        c == d,
{
    assert(c as int == (c as u32) as int);
}

pub proof fn lemma_text_le_antisym(a: Seq<char>, b: Seq<char>)
    requires
        text_le(a, b),
        text_le(b, a),
    ensures
        a == b,
    decreases a.len(),
{
    if a.len() > 0 && b.len() > 0 && a[0] as u32 == b[0] as u32 {
        lemma_text_le_antisym(a.drop_first(), b.drop_first());
        lemma_char_u32_injective(a[0], b[0]);
        assert(a =~= seq![a[0]] + a.drop_first());
        assert(b =~= seq![b[0]] + b.drop_first());
    } else if a.len() == 0 && b.len() == 0 {
        assert(a =~= b);
    }
}


/// Whether two string slices hold the same text.
pub fn str_eq(a: &str, b: &str) -> (r: bool)
    ensures
        r == (a@ == b@),
{
    let av = chars_of(a);
    let bv = chars_of(b);
    chars_eq(av.as_slice(), bv.as_slice())
}


/// The first index at or after `i` that is not Unicode whitespace.
pub open spec fn skip_uws_from(s: Seq<char>, i: int) -> int
    decreases s.len() - i,
{
    if 0 <= i < s.len() && is_ws(s[i]) {
        skip_uws_from(s, i + 1)
    } else {
        i
    }
}

/// The first index at or after `i` that is Unicode whitespace (or the end).
pub open spec fn uword_end_from(s: Seq<char>, i: int) -> int
    decreases s.len() - i,
{
    if 0 <= i < s.len() && !is_ws(s[i]) {
        uword_end_from(s, i + 1)
    } else {
        i
    }
}

/// The next item `split_whitespace` yields at or after `i`.
pub open spec fn next_uword(s: Seq<char>, i: int) -> Option<(int, int)> {
    let a = skip_uws_from(s, i);
    if a >= s.len() {
        None
    } else {
        Some((a, uword_end_from(s, a)))
    }
}

proof fn lemma_uword_bounds(s: Seq<char>, i: int)
    requires
        0 <= i <= s.len(),
    ensures
        i <= skip_uws_from(s, i) <= s.len(),
        skip_uws_from(s, i) <= uword_end_from(s, skip_uws_from(s, i)) <= s.len(),
    decreases s.len() - i,
{
    if i < s.len() && is_ws(s[i]) {
        lemma_uword_bounds(s, i + 1);
    } else {
        lemma_uword_end(s, i);
    }
}

proof fn lemma_uword_end(s: Seq<char>, i: int)
    requires
        0 <= i <= s.len(),
    ensures
        i <= uword_end_from(s, i) <= s.len(),
    decreases s.len() - i,
{
    if i < s.len() && !is_ws(s[i]) {
        lemma_uword_end(s, i + 1);
    }
}

/// Exec `next_uword`.
pub fn find_uword(s: &[char], i: usize) -> (r: Option<(usize, usize)>)
    requires
        i <= s.len(),
    ensures
        match r {
            Some((a, b)) => next_uword(s@, i as int) == Some((a as int, b as int)) && i <= a <= b <= s.len(),
            None => next_uword(s@, i as int) is None,
        },
{
    let mut a = i;
    while a < s.len() && is_whitespace(s[a])
        invariant
            i <= a <= s.len(),
            skip_uws_from(s@, i as int) == skip_uws_from(s@, a as int),
        decreases s.len() - a,
    {
        a += 1;
    }
    if a >= s.len() {
        return None;
    }
    let mut b = a;
    while b < s.len() && !is_whitespace(s[b])
        invariant
            a <= b <= s.len(),
            uword_end_from(s@, a as int) == uword_end_from(s@, b as int),
        decreases s.len() - b,
    {
        b += 1;
    }
    proof {
        lemma_uword_bounds(s@, i as int);
    }
    Some((a, b))
}

} // verus!
