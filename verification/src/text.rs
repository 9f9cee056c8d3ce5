//! Character-level helpers: ASCII case folding, Unicode whitespace trimming,
//! decimal numbers in and out, and the floating-point literal grammar.
use vstd::prelude::*;
use vstd::utf8::*;

verus! {

// ─── Case ────────────────────────────────────────────────────────────────────

/// ASCII upper-casing of one character: `a`..=`z` map to `A`..=`Z`, all else is kept.
pub open spec fn upper_char(c: char) -> char {
    if 'a' <= c && c <= 'z' {
        ((c as u32) - 32) as char
    } else {
        c
    }
}

/// ASCII upper-casing of a character sequence.
pub open spec fn upper(s: Seq<char>) -> Seq<char> {
    s.map_values(|c: char| upper_char(c))
}

/// Equality up to ASCII case.
pub open spec fn eq_ignore_case(a: Seq<char>, b: Seq<char>) -> bool {
    upper(a) == upper(b)
}

pub fn to_ascii_upper_char(c: char) -> (r: char)
    ensures
        r == upper_char(c),
{
    if 'a' <= c && c <= 'z' {
        let b: u8 = c as u8;
        (b - 32) as char
    } else {
        c
    }
}

/// ASCII upper-casing of a character vector.
pub fn upper_chars(s: &Vec<char>) -> (r: Vec<char>)
    ensures
        r@ == upper(s@),
{
    let mut out: Vec<char> = Vec::new();
    let n = s.len();
    for i in 0..n
        invariant
            n == s@.len(),
            out@ == upper(s@.take(i as int)),
    {
        let c = to_ascii_upper_char(s[i]);
        out.push(c);
        assert(out@ =~= upper(s@.take(i + 1)));
    }
    assert(s@.take(n as int) =~= s@);
    out
}

/// Equality of two character vectors up to ASCII case.
pub fn chars_eq_ignore_case(a: &Vec<char>, b: &Vec<char>) -> (r: bool)
    ensures
        r == eq_ignore_case(a@, b@),
{
    let ua = upper_chars(a);
    let ub = upper_chars(b);
    chars_eq(&ua, &ub)
}

/// Equality of two character vectors.
pub fn chars_eq(a: &Vec<char>, b: &Vec<char>) -> (r: bool)
    ensures
        r == (a@ == b@),
{
    if a.len() != b.len() {
        return false;
    }
    let n = a.len();
    for i in 0..n
        invariant
            n == a@.len(),
            n == b@.len(),
            forall|j: int| 0 <= j < i ==> a@[j] == b@[j],
    {
        if a[i] != b[i] {
            return false;
        }
    }
    assert(a@ =~= b@);
    true
}

// ─── Strings and characters ─────────────────────────────────────────────────

/// `String::push`: appends one character.
#[verifier::external_body]
pub fn push_char(s: &mut String, c: char)
    ensures
        final(s)@ == old(s)@.push(c),
{
    s.push(c);
}

/// `str::push_str` on a `String`: appends a string slice.
#[verifier::external_body]
pub fn push_str(s: &mut String, t: &str)
    ensures
        final(s)@ == old(s)@ + t@,
{
    s.push_str(t);
}

/// The characters of a string slice.
pub fn chars_of(s: &str) -> (r: Vec<char>)
    ensures
        r@ == s@,
{
    broadcast use vstd::string::group_string_axioms;

    let mut out: Vec<char> = Vec::new();
    for c in it: s.chars()
        invariant
            it.seq() == s@,
            out@ == s@.take(it.index() as int),
    {
        out.push(c);
        assert(out@ =~= s@.take(it.index() + 1));
    }
    assert(out@ =~= s@);
    out
}

/// A string holding the given characters.
pub fn string_of(v: &Vec<char>) -> (r: String)
    ensures
        r@ == v@,
{
    let mut s = String::new();
    let n = v.len();
    for i in 0..n
        invariant
            n == v@.len(),
            s@ == v@.take(i as int),
    {
        push_char(&mut s, v[i]);
        assert(s@ =~= v@.take(i + 1));
    }
    assert(v@.take(n as int) =~= v@);
    s
}

/// A string holding the characters `v[from..to]`.
pub fn string_of_range(v: &Vec<char>, from: usize, to: usize) -> (r: String)
    requires
        from <= to <= v@.len(),
    ensures
        r@ == v@.subrange(from as int, to as int),
{
    let mut s = String::new();
    let mut i = from;
    while i < to
        invariant
            from <= i <= to,
            to <= v@.len(),
            s@ == v@.subrange(from as int, i as int),
        decreases to - i,
    {
        push_char(&mut s, v[i]);
        assert(s@ =~= v@.subrange(from as int, i + 1));
        i = i + 1;
    }
    s
}

/// Whether the characters of `a` are exactly those of `b`.
pub fn chars_eq_str(a: &Vec<char>, b: &str) -> (r: bool)
    ensures
        r == (a@ == b@),
{
    let bv = chars_of(b);
    chars_eq(a, &bv)
}

/// `std::str::from_utf8`: the text that the bytes encode, or `None` when the
/// bytes are not valid UTF-8.
#[verifier::external_body]
pub fn utf8_decode(b: &[u8]) -> (r: Option<String>)
    ensures
        r is Some <==> valid_utf8(b@),
        r matches Some(s) ==> s@ == decode_utf8(b@),
{
    match std::str::from_utf8(b) {
        Ok(s) => Some(s.to_string()),
        Err(_) => None,
    }
}

// ─── Whitespace ─────────────────────────────────────────────────────────────

/// Unicode `White_Space`, the set that `char::is_whitespace` and `str::trim` use.
pub open spec fn is_white(c: char) -> bool {
    let u = c as u32;
    ||| 0x09 <= u <= 0x0D
    ||| u == 0x20
    ||| u == 0x85
    ||| u == 0xA0
    ||| u == 0x1680
    ||| 0x2000 <= u <= 0x200A
    ||| u == 0x2028
    ||| u == 0x2029
    ||| u == 0x202F
    ||| u == 0x205F
    ||| u == 0x3000
}

pub fn char_is_white(c: char) -> (r: bool)
    ensures
        r == is_white(c),
{
    let u = c as u32;
    (0x09 <= u && u <= 0x0D) || u == 0x20 || u == 0x85 || u == 0xA0 || u == 0x1680 || (0x2000
        <= u && u <= 0x200A) || u == 0x2028 || u == 0x2029 || u == 0x202F || u == 0x205F || u
        == 0x3000
}

/// Leading whitespace removed.
pub open spec fn trim_start(s: Seq<char>) -> Seq<char>
    decreases s.len(),
{
    if s.len() > 0 && is_white(s[0]) {
        trim_start(s.drop_first())
    } else {
        s
    }
}

/// Trailing whitespace removed.
pub open spec fn trim_end(s: Seq<char>) -> Seq<char>
    decreases s.len(),
{
    if s.len() > 0 && is_white(s.last()) {
        trim_end(s.drop_last())
    } else {
        s
    }
}

/// `str::trim`: leading and trailing whitespace removed.
pub open spec fn trim(s: Seq<char>) -> Seq<char> {
    trim_end(trim_start(s))
}

proof fn lemma_trim_start_skip(s: Seq<char>, i: int)
    requires
        0 <= i <= s.len(),
        forall|j: int| 0 <= j < i ==> is_white(s[j]),
    ensures
        trim_start(s) == trim_start(s.skip(i)),
    decreases i,
{
    if i > 0 {
        assert(is_white(s[0]));
        assert(s.drop_first().skip(i - 1) =~= s.skip(i));
        assert forall|j: int| 0 <= j < i - 1 implies is_white(s.drop_first()[j]) by {
            assert(s.drop_first()[j] == s[j + 1]);
        }
        lemma_trim_start_skip(s.drop_first(), i - 1);
    } else {
        assert(s.skip(0) =~= s);
    }
}

proof fn lemma_trim_end_take(s: Seq<char>, i: int)
    requires
        0 <= i <= s.len(),
        forall|j: int| i <= j < s.len() ==> is_white(s[j]),
    ensures
        trim_end(s) == trim_end(s.take(i)),
    decreases s.len() - i,
{
    if i < s.len() {
        assert(is_white(s[s.len() - 1]));
        assert(s.drop_last().take(i) =~= s.take(i));
        assert forall|j: int| i <= j < s.len() - 1 implies is_white(s.drop_last()[j]) by {
            assert(s.drop_last()[j] == s[j]);
        }
        lemma_trim_end_take(s.drop_last(), i);
    } else {
        assert(s.take(i) =~= s);
    }
}

pub proof fn lemma_upper_char(c: char)
    ensures
        upper_char(upper_char(c)) == upper_char(c),
        is_white(upper_char(c)) == is_white(c),
{
    if 'a' <= c && c <= 'z' {
        let u = ((c as u32) - 32) as char;
        assert('A' <= u && u <= 'Z');
    }
}

proof fn lemma_trim_start_upper(s: Seq<char>)
    ensures
        trim_start(upper(s)) == upper(trim_start(s)),
    decreases s.len(),
{
    if s.len() > 0 {
        lemma_upper_char(s[0]);
        assert(upper(s)[0] == upper_char(s[0]));
        assert(upper(s).drop_first() =~= upper(s.drop_first()));
        lemma_trim_start_upper(s.drop_first());
    }
}

proof fn lemma_trim_end_upper(s: Seq<char>)
    ensures
        trim_end(upper(s)) == upper(trim_end(s)),
    decreases s.len(),
{
    if s.len() > 0 {
        lemma_upper_char(s.last());
        assert(upper(s).last() == upper_char(s.last()));
        assert(upper(s).drop_last() =~= upper(s.drop_last()));
        lemma_trim_end_upper(s.drop_last());
    }
}

/// Upper-casing a text first changes nothing of its trimmed, upper-cased form.
pub proof fn lemma_upper_trim_upper(s: Seq<char>)
    ensures
        upper(trim(upper(s))) == upper(trim(s)),
{
    lemma_trim_start_upper(s);
    lemma_trim_end_upper(trim_start(s));
    let t = trim(s);
    assert forall|i: int| 0 <= i < t.len() implies #[trigger] upper(upper(t))[i] == upper(t)[i] by {
        lemma_upper_char(t[i]);
    }
    assert(upper(upper(t)) =~= upper(t));
}

/// Bounds of the trimmed part: `trim(v) == v[a..b]`.
pub fn trim_bounds(v: &Vec<char>) -> (r: (usize, usize))
    ensures
        r.0 <= r.1 <= v@.len(),
        trim(v@) == v@.subrange(r.0 as int, r.1 as int),
{
    let n = v.len();
    let mut a: usize = 0;
    while a < n && char_is_white(v[a])
        invariant
            a <= n,
            n == v@.len(),
            forall|j: int| 0 <= j < a ==> is_white(v@[j]),
        decreases n - a,
    {
        a = a + 1;
    }
    proof {
        lemma_trim_start_skip(v@, a as int);
        if a < n {
            assert(!is_white(v@.skip(a as int)[0]));
        }
    }
    let mut b: usize = n;
    while b > a && char_is_white(v[b - 1])
        invariant
            a <= b <= n,
            n == v@.len(),
            forall|j: int| b <= j < n ==> is_white(v@[j]),
        decreases b,
    {
        b = b - 1;
    }
    proof {
        let t = v@.skip(a as int);
        assert(trim_start(v@) == t);
        assert forall|j: int| (b - a) <= j < t.len() implies is_white(t[j]) by {
            assert(t[j] == v@[j + a]);
        }
        lemma_trim_end_take(t, (b - a) as int);
        assert(t.take((b - a) as int) =~= v@.subrange(a as int, b as int));
        let u = v@.subrange(a as int, b as int);
        if u.len() > 0 {
            assert(u.last() == v@[b - 1]);
        }
    }
    (a, b)
}

/// The trimmed characters of a string.
pub fn trimmed_chars(s: &str) -> (r: Vec<char>)
    ensures
        r@ == trim(s@),
{
    let v = chars_of(s);
    let (a, b) = trim_bounds(&v);
    let mut out: Vec<char> = Vec::new();
    let mut i = a;
    while i < b
        invariant
            a <= i <= b,
            b <= v@.len(),
            out@ == v@.subrange(a as int, i as int),
        decreases b - i,
    {
        out.push(v[i]);
        assert(out@ =~= v@.subrange(a as int, i + 1));
        i = i + 1;
    }
    out
}

// ─── Unsigned integers in text ──────────────────────────────────────────────

pub open spec fn is_digit(c: char) -> bool {
    '0' <= c && c <= '9'
}

pub open spec fn digit_val(c: char) -> nat {
    ((c as u32) - ('0' as u32)) as nat
}

pub open spec fn all_digits(s: Seq<char>) -> bool {
    forall|i: int| 0 <= i < s.len() ==> is_digit(s[i])
}

/// The number that a run of decimal digits denotes.
pub open spec fn digits_value(s: Seq<char>) -> nat
    decreases s.len(),
{
    if s.len() == 0 {
        0
    } else {
        digits_value(s.drop_last()) * 10 + digit_val(s.last())
    }
}

/// `str::parse` for an unsigned integer type whose largest value is `max`:
/// an optional `+`, then one or more ASCII digits, denoting at most `max`.
pub open spec fn parse_unsigned(s: Seq<char>, max: nat) -> Option<nat> {
    let d = if s.len() > 0 && s[0] == '+' {
        s.drop_first()
    } else {
        s
    };
    if d.len() > 0 && all_digits(d) && digits_value(d) <= max {
        Some(digits_value(d))
    } else {
        None
    }
}

proof fn lemma_digits_value_prefix(s: Seq<char>, i: int)
    requires
        0 <= i <= s.len(),
        all_digits(s),
    ensures
        digits_value(s.take(i)) <= digits_value(s),
    decreases s.len() - i,
{
    if i < s.len() {
        assert(s.drop_last().take(i) =~= s.take(i));
        assert(all_digits(s.drop_last())) by {
            assert forall|j: int| 0 <= j < s.len() - 1 implies is_digit(s.drop_last()[j]) by {
                assert(s.drop_last()[j] == s[j]);
            }
        }
        lemma_digits_value_prefix(s.drop_last(), i);
    } else {
        assert(s.take(i) =~= s);
    }
}

/// Parses `v[from..to]` as an unsigned integer of at most `max`.
pub fn parse_unsigned_range(v: &Vec<char>, from: usize, to: usize, max: u64) -> (r: Option<u64>)
    requires
        from <= to <= v@.len(),
        max <= u32::MAX,
    ensures
        match parse_unsigned(v@.subrange(from as int, to as int), max as nat) {
            Some(n) => r == Some(n as u64),
            None => r is None,
        },
{
    let ghost s = v@.subrange(from as int, to as int);
    let mut start = from;
    if from < to && v[from] == '+' {
        start = from + 1;
    }
    let ghost d = v@.subrange(start as int, to as int);
    proof {
        if from < to && v@[from as int] == '+' {
            assert(d =~= s.drop_first());
        } else {
            assert(d =~= s);
        }
    }
    if start >= to {
        return None;
    }
    assert(parse_unsigned(s, max as nat) == (if d.len() > 0 && all_digits(d) && digits_value(d)
        <= max {
        Some(digits_value(d))
    } else {
        None
    }));
    let mut acc: u64 = 0;
    let mut i = start;
    while i < to
        invariant
            start <= i <= to,
            to <= v@.len(),
            d == v@.subrange(start as int, to as int),
            parse_unsigned(v@.subrange(from as int, to as int), max as nat) == (if d.len() > 0
                && all_digits(d) && digits_value(d) <= max {
                Some(digits_value(d))
            } else {
                None
            }),
            forall|j: int| start <= j < i ==> is_digit(v@[j]),
            acc == digits_value(v@.subrange(start as int, i as int)),
            acc <= max,
            max <= u32::MAX,
        decreases to - i,
    {
        let c = v[i];
        if !('0' <= c && c <= '9') {
            proof {
                assert(!is_digit(d[i - start]));
            }
            return None;
        }
        let dv = ((c as u32) - ('0' as u32)) as u64;
        let next = acc * 10 + dv;
        proof {
            let p = v@.subrange(start as int, i + 1);
            assert(p.drop_last() =~= v@.subrange(start as int, i as int));
            assert(p.last() == c);
            assert(next == digits_value(p));
        }
        if next > max {
            proof {
                if all_digits(d) {
                    lemma_digits_value_prefix(d, i + 1 - start);
                    assert(d.take(i + 1 - start) =~= v@.subrange(start as int, i + 1));
                }
            }
            return None;
        }
        acc = next;
        i = i + 1;
    }
    assert(all_digits(d)) by {
        assert forall|j: int| 0 <= j < d.len() implies is_digit(d[j]) by {
            assert(d[j] == v@[j + start]);
        }
    }
    Some(acc)
}

/// Parses the trimmed text of `s` as an unsigned integer of at most `max`.
pub fn parse_unsigned_trimmed(s: &str, max: u64) -> (r: Option<u64>)
    requires
        max <= u32::MAX,
    ensures
        match parse_unsigned(trim(s@), max as nat) {
            Some(n) => r == Some(n as u64),
            None => r is None,
        },
{
    let v = chars_of(s);
    let (a, b) = trim_bounds(&v);
    parse_unsigned_range(&v, a, b, max)
}

// ─── Decimal output ─────────────────────────────────────────────────────────

pub open spec fn digit_char(d: nat) -> char {
    (('0' as u32) + d) as char
}

/// The decimal digits of `n`, as `to_string` writes an unsigned integer.
pub open spec fn dec(n: nat) -> Seq<char>
    decreases n,
{
    if n < 10 {
        seq![digit_char(n)]
    } else {
        dec(n / 10).push(digit_char(n % 10))
    }
}

/// `n` in decimal, left-padded with zeros to `width` characters (`{:0width$}`).
pub open spec fn dec_padded(n: nat, width: nat) -> Seq<char> {
    let d = dec(n);
    if d.len() < width {
        Seq::new((width - d.len()) as nat, |i: int| '0') + d
    } else {
        d
    }
}

/// Appends the decimal digits of `n` to `s`.
pub fn push_dec(s: &mut String, n: u64)
    ensures
        final(s)@ == old(s)@ + dec(n as nat),
    decreases n,
{
    if n < 10 {
        let c = ((n as u8) + 48) as char;
        push_char(s, c);
        assert(seq![c] =~= dec(n as nat));
    } else {
        push_dec(s, n / 10);
        let c = (((n % 10) as u8) + 48) as char;
        push_char(s, c);
        assert(final(s)@ =~= old(s)@ + dec(n as nat));
    }
}

/// The decimal digits of `n` as a string.
pub fn dec_string(n: u64) -> (r: String)
    ensures
        r@ == dec(n as nat),
{
    let mut s = String::new();
    push_dec(&mut s, n);
    assert(s@ =~= dec(n as nat));
    s
}

pub proof fn lemma_dec_len(n: nat)
    ensures
        dec(n).len() >= 1,
        n < 10 ==> dec(n).len() == 1,
        10 <= n < 100 ==> dec(n).len() == 2,
        100 <= n < 1000 ==> dec(n).len() == 3,
        1000 <= n < 10000 ==> dec(n).len() == 4,
    decreases n,
{
    if n >= 10 {
        lemma_dec_len(n / 10);
    }
}

/// The digits of `n` are decimal digits denoting `n`.
pub proof fn lemma_dec_value(n: nat)
    ensures
        all_digits(dec(n)),
        digits_value(dec(n)) == n,
    decreases n,
{
    let k = n % 10;
    assert(digit_val(digit_char(k)) == k);
    assert(is_digit(digit_char(k)));
    if n >= 10 {
        lemma_dec_value(n / 10);
        let d = dec(n);
        assert(d.drop_last() =~= dec(n / 10));
        assert(d.last() == digit_char(k));
        assert((n / 10) * 10 + n % 10 == n) by (nonlinear_arith);
        assert(digits_value(d) == digits_value(dec(n / 10)) * 10 + k);
    } else {
        assert(dec(n).drop_last() =~= Seq::<char>::empty());
        assert(digits_value(Seq::<char>::empty()) == 0);
        assert(dec(n).last() == digit_char(n));
        assert(n % 10 == n);
    }
}

proof fn lemma_zeros_value(k: nat)
    ensures
        all_digits(Seq::new(k, |i: int| '0')),
        digits_value(Seq::new(k, |i: int| '0')) == 0,
    decreases k,
{
    if k > 0 {
        lemma_zeros_value((k - 1) as nat);
        assert(Seq::new(k, |i: int| '0').drop_last() =~= Seq::new((k - 1) as nat, |i: int| '0'));
    }
}

proof fn lemma_zeros_prefix_value(z: Seq<char>, t: Seq<char>)
    requires
        all_digits(z),
        digits_value(z) == 0,
        all_digits(t),
    ensures
        all_digits(z + t),
        digits_value(z + t) == digits_value(t),
    decreases t.len(),
{
    if t.len() > 0 {
        lemma_zeros_prefix_value(z, t.drop_last());
        assert((z + t).drop_last() =~= z + t.drop_last());
    } else {
        assert(z + t =~= z);
    }
}

/// A zero-padded number is a non-empty run of decimal digits denoting the number.
pub proof fn lemma_dec_padded_value(n: nat, width: nat)
    ensures
        all_digits(dec_padded(n, width)),
        digits_value(dec_padded(n, width)) == n,
        dec_padded(n, width).len() >= 1,
{
    lemma_dec_value(n);
    lemma_dec_len(n);
    let d = dec(n);
    if d.len() < width {
        let z = Seq::new((width - d.len()) as nat, |i: int| '0');
        lemma_zeros_value((width - d.len()) as nat);
        lemma_zeros_prefix_value(z, d);
    }
}

/// Splitting text without the separator gives the text itself.
pub proof fn lemma_split_single(t: Seq<char>, c: char)
    requires
        !t.contains(c),
    ensures
        split(t, c) == seq![t],
    decreases t.len(),
{
    if t.len() > 0 {
        assert(!t.drop_last().contains(c)) by {
            if t.drop_last().contains(c) {
                let j = choose|j: int| 0 <= j < t.drop_last().len() && t.drop_last()[j] == c;
                assert(t[j] == c);
            }
        }
        lemma_split_single(t.drop_last(), c);
        assert(t.last() != c) by {
            assert(t[t.len() - 1] == t.last());
        }
        assert(t.drop_last().push(t.last()) =~= t);
        assert(split(t, c) =~= seq![t]);
    } else {
        assert(t =~= Seq::<char>::empty());
    }
}

/// Splitting `s`, the separator and text without it, gives the pieces of
/// `s` followed by that text.
pub proof fn lemma_split_append(s: Seq<char>, c: char, t: Seq<char>)
    requires
        !t.contains(c),
    ensures
        split(s + seq![c] + t, c) == split(s, c).push(t),
    decreases t.len(),
{
    if t.len() == 0 {
        let w = s + seq![c] + t;
        assert(w.drop_last() =~= s);
        assert(w.last() == c);
        assert(t =~= Seq::<char>::empty());
    } else {
        let u = t.drop_last();
        assert(!u.contains(c)) by {
            if u.contains(c) {
                let j = choose|j: int| 0 <= j < u.len() && u[j] == c;
                assert(t[j] == c);
            }
        }
        lemma_split_append(s, c, u);
        assert((s + seq![c] + t).drop_last() =~= s + seq![c] + u);
        assert(t.last() != c) by {
            assert(t[t.len() - 1] == t.last());
        }
        lemma_split_len(s, c);
        assert(u.push(t.last()) =~= t);
        let w = s + seq![c] + t;
        assert(w.last() == t.last());
        assert(split(w, c) =~= split(s, c).push(t));
    }
}

/// Appends `n` in decimal, zero-padded to `width` characters.
pub fn push_dec_padded(s: &mut String, n: u64, width: u64)
    requires
        width <= 8,
    ensures
        final(s)@ == old(s)@ + dec_padded(n as nat, width as nat),
{
    let d = dec_string(n);
    let dv = chars_of(d.as_str());
    let len = dv.len() as u64;
    if len < width {
        let mut k: u64 = 0;
        while k < width - len
            invariant
                k <= width - len,
                len < width,
                s@ == old(s)@ + Seq::new(k as nat, |i: int| '0'),
            decreases width - len - k,
        {
            push_char(s, '0');
            assert(s@ =~= old(s)@ + Seq::new((k + 1) as nat, |i: int| '0'));
            k = k + 1;
        }
    }
    let ghost before = s@;
    push_str(s, d.as_str());
    assert(dv@.len() == dec(n as nat).len());
    if len < width {
        assert(before == old(s)@ + Seq::new((width - len) as nat, |i: int| '0'));
        assert(s@ =~= old(s)@ + dec_padded(n as nat, width as nat));
    } else {
        assert(s@ =~= old(s)@ + dec_padded(n as nat, width as nat));
    }
}

// ─── Floating-point literals ────────────────────────────────────────────────

/// Length of the run of ASCII digits at the start of `s`.
pub open spec fn digit_run(s: Seq<char>) -> nat
    decreases s.len(),
{
    if s.len() > 0 && is_digit(s[0]) {
        1 + digit_run(s.drop_first())
    } else {
        0
    }
}

pub open spec fn strip_sign(s: Seq<char>) -> Seq<char> {
    if s.len() > 0 && (s[0] == '+' || s[0] == '-') {
        s.drop_first()
    } else {
        s
    }
}

/// `Exp ::= 'e' Sign? Digit+`, the whole of `s`.
pub open spec fn is_exponent(s: Seq<char>) -> bool {
    s.len() > 0 && upper_char(s[0]) == 'E' && {
        let r = strip_sign(s.drop_first());
        r.len() > 0 && all_digits(r)
    }
}

/// `Number ::= ( Digit+ | Digit+ '.' Digit* | Digit* '.' Digit+ ) Exp?`, the whole of `s`.
pub open spec fn is_number(s: Seq<char>) -> bool {
    let a = digit_run(s);
    let r = s.skip(a as int);
    if r.len() > 0 && r[0] == '.' {
        let r2 = r.drop_first();
        let b = digit_run(r2);
        let r3 = r2.skip(b as int);
        a + b > 0 && (r3.len() == 0 || is_exponent(r3))
    } else {
        a > 0 && (r.len() == 0 || is_exponent(r))
    }
}

/// The text that `f64::from_str` accepts:
/// `Sign? ( 'inf' | 'infinity' | 'nan' | Number )`, ignoring ASCII case.
pub open spec fn is_float_literal(s: Seq<char>) -> bool {
    let t = strip_sign(s);
    let u = upper(t);
    u == seq!['I', 'N', 'F'] || u == seq!['I', 'N', 'F', 'I', 'N', 'I', 'T', 'Y'] || u == seq![
        'N',
        'A',
        'N',
    ] || is_number(t)
}

proof fn lemma_digit_run(s: Seq<char>, k: int)
    requires
        0 <= k <= s.len(),
        forall|j: int| 0 <= j < k ==> is_digit(s[j]),
        k < s.len() ==> !is_digit(s[k]),
    ensures
        digit_run(s) == k,
    decreases k,
{
    if k > 0 {
        assert forall|j: int| 0 <= j < k - 1 implies is_digit(s.drop_first()[j]) by {
            assert(s.drop_first()[j] == s[j + 1]);
        }
        if k < s.len() {
            assert(s.drop_first()[k - 1] == s[k]);
        }
        lemma_digit_run(s.drop_first(), k - 1);
    }
}

/// Length of the digit run at the start of `v[a..b]`.
fn digit_run_range(v: &Vec<char>, a: usize, b: usize) -> (r: usize)
    requires
        a <= b <= v@.len(),
    ensures
        r == digit_run(v@.subrange(a as int, b as int)),
        r <= b - a,
{
    let mut k = a;
    while k < b && '0' <= v[k] && v[k] <= '9'
        invariant
            a <= k <= b,
            b <= v@.len(),
            forall|j: int| a <= j < k ==> is_digit(v@[j]),
        decreases b - k,
    {
        k = k + 1;
    }
    proof {
        let s = v@.subrange(a as int, b as int);
        assert forall|j: int| 0 <= j < k - a implies is_digit(s[j]) by {
            assert(s[j] == v@[j + a]);
        }
        if k < b {
            assert(s[k - a] == v@[k as int]);
        }
        lemma_digit_run(s, (k - a) as int);
    }
    k - a
}

/// Whether `v[a..b]` is all digits.
fn all_digits_range(v: &Vec<char>, a: usize, b: usize) -> (r: bool)
    requires
        a <= b <= v@.len(),
    ensures
        r == all_digits(v@.subrange(a as int, b as int)),
{
    let k = digit_run_range(v, a, b);
    proof {
        let s = v@.subrange(a as int, b as int);
        lemma_digit_run_prefix(s);
        if k < b - a {
            assert(!is_digit(s[k as int]));
        }
    }
    k == b - a
}

proof fn lemma_digit_run_prefix(s: Seq<char>)
    ensures
        digit_run(s) <= s.len(),
        forall|j: int| 0 <= j < digit_run(s) ==> is_digit(s[j]),
        digit_run(s) < s.len() ==> !is_digit(s[digit_run(s) as int]),
    decreases s.len(),
{
    if s.len() > 0 && is_digit(s[0]) {
        lemma_digit_run_prefix(s.drop_first());
        assert forall|j: int| 1 <= j < digit_run(s) implies is_digit(s[j]) by {
            assert(s[j] == s.drop_first()[j - 1]);
        }
        if digit_run(s) < s.len() {
            assert(s[digit_run(s) as int] == s.drop_first()[digit_run(s) - 1]);
        }
    }
}

/// Whether `v[a..b]` is an exponent part.
fn is_exponent_range(v: &Vec<char>, a: usize, b: usize) -> (r: bool)
    requires
        a <= b <= v@.len(),
    ensures
        r == is_exponent(v@.subrange(a as int, b as int)),
{
    let ghost s = v@.subrange(a as int, b as int);
    if a >= b || to_ascii_upper_char(v[a]) != 'E' {
        return false;
    }
    let mut c = a + 1;
    if c < b && (v[c] == '+' || v[c] == '-') {
        c = c + 1;
    }
    proof {
        let t = s.drop_first();
        assert(t =~= v@.subrange(a + 1, b as int));
        if a + 1 < b && (v@[a + 1] == '+' || v@[a + 1] == '-') {
            assert(strip_sign(t) =~= v@.subrange(c as int, b as int));
        } else {
            assert(strip_sign(t) =~= v@.subrange(c as int, b as int));
        }
    }
    c < b && all_digits_range(v, c, b)
}

/// Whether `v[a..b]` is a `Number` of the floating-point grammar.
fn is_number_range(v: &Vec<char>, a: usize, b: usize) -> (r: bool)
    requires
        a <= b <= v@.len(),
    ensures
        r == is_number(v@.subrange(a as int, b as int)),
{
    let ghost s = v@.subrange(a as int, b as int);
    let da = digit_run_range(v, a, b);
    let p = a + da;
    assert(s.skip(da as int) =~= v@.subrange(p as int, b as int));
    if p < b && v[p] == '.' {
        let q = p + 1;
        assert(s.skip(da as int).drop_first() =~= v@.subrange(q as int, b as int));
        let db = digit_run_range(v, q, b);
        let e = q + db;
        assert(v@.subrange(q as int, b as int).skip(db as int) =~= v@.subrange(e as int, b as int));
        da + db > 0 && (e == b || is_exponent_range(v, e, b))
    } else {
        da > 0 && (p == b || is_exponent_range(v, p, b))
    }
}

/// Whether `v[a..b]` is text that `f64::from_str` accepts.
pub fn is_float_range(v: &Vec<char>, a: usize, b: usize) -> (r: bool)
    requires
        a <= b <= v@.len(),
    ensures
        r == is_float_literal(v@.subrange(a as int, b as int)),
{
    let ghost s = v@.subrange(a as int, b as int);
    let mut c = a;
    if c < b && (v[c] == '+' || v[c] == '-') {
        c = c + 1;
    }
    assert(strip_sign(s) =~= v@.subrange(c as int, b as int));
    let mut t: Vec<char> = Vec::new();
    let mut i = c;
    while i < b
        invariant
            c <= i <= b,
            b <= v@.len(),
            t@ == upper(v@.subrange(c as int, i as int)),
        decreases b - i,
    {
        let u = to_ascii_upper_char(v[i]);
        t.push(u);
        assert(t@ =~= upper(v@.subrange(c as int, i + 1)));
        i = i + 1;
    }
    let inf = chars_eq_str(&t, "INF");
    let infinity = chars_eq_str(&t, "INFINITY");
    let nan = chars_eq_str(&t, "NAN");
    proof {
        reveal_strlit("INF");
        reveal_strlit("INFINITY");
        reveal_strlit("NAN");
        assert("INF"@ =~= seq!['I', 'N', 'F']);
        assert("INFINITY"@ =~= seq!['I', 'N', 'F', 'I', 'N', 'I', 'T', 'Y']);
        assert("NAN"@ =~= seq!['N', 'A', 'N']);
    }
    inf || infinity || nan || is_number_range(v, c, b)
}

/// Whether the trimmed text of `s` is a floating-point literal; if so, that text.
pub fn float_text_trimmed(s: &str) -> (r: Option<String>)
    ensures
        is_float_literal(trim(s@)) ==> (r matches Some(t) && t@ == trim(s@)),
        !is_float_literal(trim(s@)) ==> r is None,
{
    let v = chars_of(s);
    let (a, b) = trim_bounds(&v);
    if is_float_range(&v, a, b) {
        Some(string_of_range(&v, a, b))
    } else {
        None
    }
}

// ─── Splitting ──────────────────────────────────────────────────────────────

/// `str::split` on one character: the pieces between occurrences of `c`.
pub open spec fn split(s: Seq<char>, c: char) -> Seq<Seq<char>>
    decreases s.len(),
{
    if s.len() == 0 {
        seq![Seq::<char>::empty()]
    } else {
        let r = split(s.drop_last(), c);
        if s.last() == c {
            r.push(Seq::<char>::empty())
        } else {
            r.update(r.len() - 1, r.last().push(s.last()))
        }
    }
}

pub proof fn lemma_split_len(s: Seq<char>, c: char)
    ensures
        split(s, c).len() >= 1,
    decreases s.len(),
{
    if s.len() > 0 {
        lemma_split_len(s.drop_last(), c);
    }
}

/// The pieces of `v` between occurrences of `c`.
pub fn split_chars(v: &Vec<char>, c: char) -> (r: Vec<Vec<char>>)
    ensures
        r@.map_values(|p: Vec<char>| p@) == split(v@, c),
{
    let mut parts: Vec<Vec<char>> = Vec::new();
    parts.push(Vec::new());
    let n = v.len();
    for i in 0..n
        invariant
            n == v@.len(),
            parts@.len() >= 1,
            parts@.map_values(|p: Vec<char>| p@) == split(v@.take(i as int), c),
    {
        proof {
            assert(v@.take(i + 1).drop_last() =~= v@.take(i as int));
            lemma_split_len(v@.take(i as int), c);
        }
        let ch = v[i];
        if ch == c {
            parts.push(Vec::new());
            assert(parts@.map_values(|p: Vec<char>| p@) =~= split(v@.take(i + 1), c));
        } else {
            let last = parts.len() - 1;
            let mut cur: Vec<char> = Vec::new();
            parts.set_and_swap(last, &mut cur);
            cur.push(ch);
            parts.set_and_swap(last, &mut cur);
            assert(parts@.map_values(|p: Vec<char>| p@) =~= split(v@.take(i + 1), c));
        }
    }
    assert(v@.take(n as int) =~= v@);
    parts
}

} // verus!
