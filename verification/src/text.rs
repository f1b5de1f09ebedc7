//! Character-level string helpers shared by the command modules.
//!
//! Strings are reasoned about through their `Seq<char>` views. Exec code works
//! on `Vec<char>` copies of its inputs and builds results by pushing characters.
use vstd::prelude::*;

verus! {

/// Unicode `White_Space`, which is what `char::is_whitespace` tests.
pub open spec fn is_ws(c: char) -> bool {
    let u = c as u32;
    (0x9 <= u && u <= 0xd) || u == 0x20 || u == 0x85 || u == 0xa0 || u == 0x1680 || (0x2000 <= u
        && u <= 0x200a) || u == 0x2028 || u == 0x2029 || u == 0x202f || u == 0x205f || u == 0x3000
}

/// Number of whitespace characters at the front of `s`.
pub open spec fn leading_ws(s: Seq<char>) -> nat
    decreases s.len(),
{
    if s.len() > 0 && is_ws(s[0]) {
        1 + leading_ws(s.drop_first())
    } else {
        0
    }
}

/// Number of whitespace characters at the back of `s`.
pub open spec fn trailing_ws(s: Seq<char>) -> nat
    decreases s.len(),
{
    if s.len() > 0 && is_ws(s.last()) {
        1 + trailing_ws(s.drop_last())
    } else {
        0
    }
}

/// `str::trim`: both ends stripped of whitespace.
pub open spec fn trim_spec(s: Seq<char>) -> Seq<char> {
    let t = s.skip(leading_ws(s) as int);
    t.take(t.len() - trailing_ws(t))
}

/// `str::trim_end`.
pub open spec fn trim_end_spec(s: Seq<char>) -> Seq<char> {
    s.take(s.len() - trailing_ws(s))
}

/// Number of copies of `c` at the back of `s`.
pub open spec fn trailing_count(s: Seq<char>, c: char) -> nat
    decreases s.len(),
{
    if s.len() > 0 && s.last() == c {
        1 + trailing_count(s.drop_last(), c)
    } else {
        0
    }
}

/// `str::trim_end_matches` with a single character pattern.
pub open spec fn trim_end_char_spec(s: Seq<char>, c: char) -> Seq<char> {
    s.take(s.len() - trailing_count(s, c))
}

/// The character of a decimal digit.
pub open spec fn digit_char(d: nat) -> char {
    (48 + d) as char
}

/// Decimal rendering of a natural number, as `Display` for unsigned integers prints it.
pub open spec fn decimal(n: nat) -> Seq<char>
    decreases n,
{
    if n < 10 {
        seq![digit_char(n)]
    } else {
        decimal(n / 10).push(digit_char(n % 10))
    }
}

/// `10` to the power `k`.
pub open spec fn pow10(k: nat) -> nat
    decreases k,
{
    if k == 0 {
        1
    } else {
        10 * pow10((k - 1) as nat)
    }
}

proof fn lemma_decimal_len_pow(n: nat, k: nat)
    requires
        k >= 1,
        n < pow10(k),
    ensures
        decimal(n).len() <= k,
    decreases k,
{
    if n >= 10 {
        if k == 1 {
            assert(pow10(1) == 10 * pow10(0));
        } else {
            assert(pow10(k) == 10 * pow10((k - 1) as nat));
            lemma_decimal_len_pow(n / 10, (k - 1) as nat);
        }
    }
}

/// A number that fits in a `u64` has at most 20 decimal digits.
pub proof fn lemma_decimal_len_bound(n: nat)
    requires
        n <= u64::MAX,
    ensures
        decimal(n).len() <= 20,
{
    reveal_with_fuel(pow10, 21);
    assert(pow10(20) == 100000000000000000000nat);
    lemma_decimal_len_pow(n, 20);
}

/// The decimal rendering of `n` is a string of digits, without a sign, whose
/// value is `n`.
pub proof fn lemma_decimal_digits(n: nat)
    ensures
        decimal(n).len() > 0,
        all_digits(decimal(n)),
        digits_value(decimal(n)) == n,
        decimal(n)[0] != '+' && decimal(n)[0] != '-',
    decreases n,
{
    let d = decimal(n);
    if n < 10 {
        assert(d.drop_last() =~= Seq::<char>::empty());
        assert(digits_value(d.drop_last()) == 0);
        assert((digit_char(n) as u32) == 48 + n);
    } else {
        lemma_decimal_digits(n / 10);
        let front = decimal(n / 10);
        assert(d == front.push(digit_char(n % 10)));
        assert(d.drop_last() =~= front);
        assert((digit_char(n % 10) as u32) == 48 + n % 10);
        assert forall|i: int| 0 <= i < d.len() implies is_digit(#[trigger] d[i]) by {
            if i < front.len() {
                assert(d[i] == front[i]);
            }
        }
        assert(d[0] == front[0]);
    }
}

/// ASCII-only lowercase mapping, as `char::to_ascii_lowercase`.
pub open spec fn ascii_lower(c: char) -> char {
    if 'A' <= c && c <= 'Z' {
        ((c as u32) + 32) as char
    } else {
        c
    }
}

/// `str::eq_ignore_ascii_case`.
pub open spec fn eq_ignore_ascii_case_spec(a: Seq<char>, b: Seq<char>) -> bool {
    &&& a.len() == b.len()
    &&& forall|i: int| 0 <= i < a.len() ==> ascii_lower(#[trigger] a[i]) == ascii_lower(b[i])
}

/// The character view of an optional string argument.
pub open spec fn opt_view(o: Option<&str>) -> Option<Seq<char>> {
    match o {
        Some(t) => Some(t@),
        None => None,
    }
}

/// The character view of an optional owned string.
pub open spec fn opt_string_view(o: Option<String>) -> Option<Seq<char>> {
    match o {
        Some(t) => Some(t@),
        None => None,
    }
}

/// Copy of a `str` as a vector of its characters.
pub(crate) fn chars_of(s: &str) -> (r: Vec<char>)
    ensures
        r@ == s@,
{
    broadcast use vstd::string::axiom_spec_iter;

    let mut v: Vec<char> = Vec::new();
    for c in it: s.chars()
        invariant
            it.seq() == s@,
            v@ == s@.take(it.index() as int),
    {
        v.push(c);
        assert(s@.take(it.index() + 1) =~= s@.take(it.index() as int).push(c));
    }
    assert(v@ =~= s@);
    v
}

/// `String::push`.
#[verifier::external_body]
pub(crate) fn push_char(s: &mut String, c: char)
    ensures
        final(s)@ == old(s)@.push(c),
{
    s.push(c)
}

/// Appends `t` to `s`.
pub fn push_str(s: &mut String, t: &str)
    ensures
        final(s)@ == old(s)@ + t@,
{
    s.append(t);
}

/// An owned copy of `t`.
pub fn owned(t: &str) -> (r: String)
    ensures
        r@ == t@,
{
    t.to_owned()
}

/// Builds a `String` from the characters `v[lo..hi]`.
pub fn string_from_chars(v: &Vec<char>, lo: usize, hi: usize) -> (r: String)
    requires
        lo <= hi <= v.len(),
    ensures
        r@ == v@.subrange(lo as int, hi as int),
{
    let mut r = String::new();
    let mut i: usize = lo;
    while i < hi
        invariant
            lo <= i <= hi <= v.len(),
            r@ == v@.subrange(lo as int, i as int),
        decreases hi - i,
    {
        push_char(&mut r, v[i]);
        assert(v@.subrange(lo as int, i + 1) =~= v@.subrange(lo as int, i as int).push(v@[i as int]));
        i = i + 1;
    }
    r
}

/// `char::is_whitespace`.
pub fn char_is_ws(c: char) -> (b: bool)
    ensures
        b == is_ws(c),
{
    let u = c as u32;
    (0x9 <= u && u <= 0xd) || u == 0x20 || u == 0x85 || u == 0xa0 || u == 0x1680 || (0x2000 <= u
        && u <= 0x200a) || u == 0x2028 || u == 0x2029 || u == 0x202f || u == 0x205f || u == 0x3000
}

proof fn lemma_leading_ws_step(s: Seq<char>, i: int)
    requires
        0 <= i < s.len(),
        is_ws(s[i]),
    ensures
        leading_ws(s.skip(i)) == 1 + leading_ws(s.skip(i + 1)),
{
    assert(s.skip(i).drop_first() =~= s.skip(i + 1));
}

proof fn lemma_trailing_ws_step(s: Seq<char>, j: int)
    requires
        0 < j <= s.len(),
        is_ws(s[j - 1]),
    ensures
        trailing_ws(s.take(j)) == 1 + trailing_ws(s.take(j - 1)),
{
    assert(s.take(j).drop_last() =~= s.take(j - 1));
}

/// Index of the first non-whitespace character of `v[lo..]` (or `v.len()`).
fn skip_leading_ws(v: &Vec<char>) -> (i: usize)
    ensures
        i == leading_ws(v@),
        i <= v.len(),
{
    let mut i: usize = 0;
    proof {
        assert(v@.skip(0) =~= v@);
    }
    while i < v.len() && char_is_ws(v[i])
        invariant
            i <= v.len(),
            i + leading_ws(v@.skip(i as int)) == leading_ws(v@),
        decreases v.len() - i,
    {
        proof {
            lemma_leading_ws_step(v@, i as int);
        }
        i = i + 1;
    }
    proof {
        if i < v.len() {
            assert(v@.skip(i as int)[0] == v@[i as int]);
        }
    }
    i
}

/// The end index of `v[..hi]` once trailing whitespace is dropped.
fn skip_trailing_ws(v: &Vec<char>, lo: usize, hi: usize) -> (j: usize)
    requires
        lo <= hi <= v.len(),
    ensures
        lo <= j <= hi,
        hi - j == trailing_ws(v@.subrange(lo as int, hi as int)),
{
    let ghost t = v@.subrange(lo as int, hi as int);
    let mut j: usize = hi;
    proof {
        assert(t.take(hi - lo) =~= t);
    }
    while j > lo && char_is_ws(v[j - 1])
        invariant
            lo <= j <= hi <= v.len(),
            t == v@.subrange(lo as int, hi as int),
            (hi - j) + trailing_ws(t.take(j - lo)) == trailing_ws(t),
        decreases j,
    {
        proof {
            assert(t[j - lo - 1] == v@[j - 1]);
            lemma_trailing_ws_step(t, j - lo);
        }
        j = j - 1;
    }
    proof {
        if j > lo {
            assert(t.take(j - lo).last() == v@[j - 1]);
        }
    }
    j
}

/// `str::trim`.
pub fn trim(s: &str) -> (r: String)
    ensures
        r@ == trim_spec(s@),
{
    let v = chars_of(s);
    let lo = skip_leading_ws(&v);
    let hi = skip_trailing_ws(&v, lo, v.len());
    proof {
        let t = v@.skip(lo as int);
        assert(t =~= v@.subrange(lo as int, v.len() as int));
        assert(t.take(t.len() - trailing_ws(t)) =~= v@.subrange(lo as int, hi as int));
    }
    string_from_chars(&v, lo, hi)
}

/// `str::trim_end`.
pub fn trim_end(s: &str) -> (r: String)
    ensures
        r@ == trim_end_spec(s@),
{
    let v = chars_of(s);
    let hi = skip_trailing_ws(&v, 0, v.len());
    proof {
        assert(v@.subrange(0, v.len() as int) =~= v@);
        assert(v@.take(hi as int) =~= v@.subrange(0, hi as int));
    }
    string_from_chars(&v, 0, hi)
}

/// `str::trim_end_matches(c)`.
pub fn trim_end_char(s: &str, c: char) -> (r: String)
    ensures
        r@ == trim_end_char_spec(s@, c),
{
    let v = chars_of(s);
    let mut j: usize = v.len();
    proof {
        assert(v@.take(v.len() as int) =~= v@);
    }
    while j > 0 && v[j - 1] == c
        invariant
            j <= v.len(),
            (v.len() - j) + trailing_count(v@.take(j as int), c) == trailing_count(v@, c),
        decreases j,
    {
        proof {
            assert(v@.take(j as int).drop_last() =~= v@.take(j - 1));
        }
        j = j - 1;
    }
    proof {
        if j > 0 {
            assert(v@.take(j as int).last() == v@[j - 1]);
        }
        assert(v@.take(j as int) =~= v@.subrange(0, j as int));
    }
    string_from_chars(&v, 0, j)
}

/// Appends the decimal rendering of `n`.
pub fn push_decimal(s: &mut String, n: u64)
    ensures
        final(s)@ == old(s)@ + decimal(n as nat),
    decreases n,
{
    if n >= 10 {
        push_decimal(s, n / 10);
    }
    let d: u8 = (n % 10) as u8;
    let c = (48u8 + d) as char;
    push_char(s, c);
    proof {
        if n >= 10 {
            assert(decimal(n as nat) == decimal((n / 10) as nat).push(digit_char((n % 10) as nat)));
        }
    }
}

/// The decimal rendering of `n`, as `n.to_string()`.
pub fn decimal_string(n: u64) -> (r: String)
    ensures
        r@ == decimal(n as nat),
{
    let mut r = String::new();
    push_decimal(&mut r, n);
    r
}

/// `char::to_ascii_lowercase`.
pub fn char_ascii_lower(c: char) -> (r: char)
    ensures
        r == ascii_lower(c),
{
    if 'A' <= c && c <= 'Z' {
        let u: u32 = c as u32 + 32;
        let b: u8 = u as u8;
        b as char
    } else {
        c
    }
}

/// `str::eq_ignore_ascii_case`.
pub fn eq_ignore_ascii_case(a: &str, b: &str) -> (r: bool)
    ensures
        r == eq_ignore_ascii_case_spec(a@, b@),
{
    let va = chars_of(a);
    let vb = chars_of(b);
    if va.len() != vb.len() {
        return false;
    }
    let mut i: usize = 0;
    while i < va.len()
        invariant
            va.len() == vb.len(),
            i <= va.len(),
            va@ == a@,
            vb@ == b@,
            forall|k: int| 0 <= k < i ==> ascii_lower(#[trigger] va@[k]) == ascii_lower(vb@[k]),
        decreases va.len() - i,
    {
        if char_ascii_lower(va[i]) != char_ascii_lower(vb[i]) {
            return false;
        }
        i = i + 1;
    }
    true
}

/// Equality of two strings, character by character.
pub fn str_eq(a: &str, b: &str) -> (r: bool)
    ensures
        r == (a@ == b@),
{
    let va = chars_of(a);
    let vb = chars_of(b);
    if va.len() != vb.len() {
        return false;
    }
    let mut i: usize = 0;
    while i < va.len()
        invariant
            va.len() == vb.len(),
            i <= va.len(),
            va@ == a@,
            vb@ == b@,
            forall|k: int| 0 <= k < i ==> va@[k] == vb@[k],
        decreases va.len() - i,
    {
        if va[i] != vb[i] {
            return false;
        }
        i = i + 1;
    }
    assert(va@ =~= vb@);
    true
}

/// Whether `s` contains the character `c`.
pub fn contains_char(s: &str, c: char) -> (r: bool)
    ensures
        r == s@.contains(c),
{
    let v = chars_of(s);
    let mut i: usize = 0;
    while i < v.len()
        invariant
            i <= v.len(),
            v@ == s@,
            forall|k: int| 0 <= k < i ==> v@[k] != c,
        decreases v.len() - i,
    {
        if v[i] == c {
            assert(s@[i as int] == c);
            return true;
        }
        i = i + 1;
    }
    false
}

/// Whether `s` begins with `p`.
pub fn starts_with(s: &str, p: &str) -> (r: bool)
    ensures
        r == (p@.len() <= s@.len() && s@.take(p@.len() as int) == p@),
{
    let vs = chars_of(s);
    let vp = chars_of(p);
    if vp.len() > vs.len() {
        return false;
    }
    let mut i: usize = 0;
    while i < vp.len()
        invariant
            vp.len() <= vs.len(),
            i <= vp.len(),
            vs@ == s@,
            vp@ == p@,
            forall|k: int| 0 <= k < i ==> vs@[k] == vp@[k],
        decreases vp.len() - i,
    {
        if vs[i] != vp[i] {
            assert(s@.take(p@.len() as int)[i as int] != p@[i as int]);
            return false;
        }
        i = i + 1;
    }
    assert(s@.take(p@.len() as int) =~= p@);
    true
}

/// The views of a sequence of strings.
pub open spec fn views(v: Seq<String>) -> Seq<Seq<char>> {
    v.map_values(|x: String| x@)
}

/// The index of the first element equal to `name`.
pub open spec fn first_match(names: Seq<Seq<char>>, name: Seq<char>) -> Option<int>
    decreases names.len(),
{
    if names.len() == 0 {
        None
    } else {
        match first_match(names.drop_last(), name) {
            Some(i) => Some(i),
            None => if names.last() == name {
                Some(names.len() - 1)
            } else {
                None
            },
        }
    }
}

/// `first_match` is the least index holding `name`, and is absent exactly
/// when no element is `name`.
pub proof fn lemma_first_match(names: Seq<Seq<char>>, name: Seq<char>)
    ensures
        first_match(names, name) matches Some(i) ==> 0 <= i < names.len() && names[i] == name && (
        forall|j: int| 0 <= j < i ==> names[j] != name),
        first_match(names, name) is None ==> forall|j: int| 0 <= j < names.len() ==> names[j] != name,
    decreases names.len(),
{
    if names.len() > 0 {
        lemma_first_match(names.drop_last(), name);
        assert forall|j: int| 0 <= j < names.len() - 1 implies names[j] == names.drop_last()[j] by {}
    }
}

/// An index with `name` before which no element is `name` is the first match.
pub proof fn lemma_first_match_at(names: Seq<Seq<char>>, name: Seq<char>, i: int)
    requires
        0 <= i < names.len(),
        names[i] == name,
        forall|j: int| 0 <= j < i ==> names[j] != name,
    ensures
        first_match(names, name) == Some(i),
{
    lemma_first_match(names, name);
}

/// No element is `name`, so there is no first match.
pub proof fn lemma_first_match_none(names: Seq<Seq<char>>, name: Seq<char>)
    requires
        forall|j: int| 0 <= j < names.len() ==> names[j] != name,
    ensures
        first_match(names, name) is None,
{
    lemma_first_match(names, name);
}

/// The index of the first string equal to `name`.
pub fn position_of(names: &Vec<String>, name: &str) -> (r: Option<usize>)
    ensures
        r is None <==> first_match(views(names@), name@) is None,
        r matches Some(k) ==> first_match(views(names@), name@) == Some(k as int),
{
    let target = owned(name);
    let mut i: usize = 0;
    while i < names.len()
        invariant
            i <= names.len(),
            target@ == name@,
            forall|j: int| 0 <= j < i ==> #[trigger] views(names@)[j] != name@,
        decreases names.len() - i,
    {
        if names[i] == target {
            proof {
                lemma_first_match_at(views(names@), name@, i as int);
            }
            return Some(i);
        }
        i = i + 1;
    }
    proof {
        lemma_first_match_none(views(names@), name@);
    }
    None
}

/// An ASCII decimal digit.
pub open spec fn is_digit(c: char) -> bool {
    '0' <= c && c <= '9'
}

/// Whether every character of `s` is a decimal digit.
pub open spec fn all_digits(s: Seq<char>) -> bool {
    forall|i: int| 0 <= i < s.len() ==> is_digit(#[trigger] s[i])
}

/// The value of a string of decimal digits.
pub open spec fn digits_value(s: Seq<char>) -> nat
    decreases s.len(),
{
    if s.len() == 0 {
        0
    } else {
        digits_value(s.drop_last()) * 10 + ((s.last() as u32) - 48) as nat
    }
}

/// The digits of an unsigned number, without an optional leading `+`.
pub open spec fn unsigned_body(s: Seq<char>) -> Seq<char> {
    if s.len() > 0 && s[0] == '+' {
        s.drop_first()
    } else {
        s
    }
}

/// `str::parse` for an unsigned integer type whose largest value is `max`:
/// an optional `+` and at least one digit, with a value that fits.
pub open spec fn parse_unsigned_spec(s: Seq<char>, max: nat) -> Option<nat> {
    let b = unsigned_body(s);
    if b.len() > 0 && all_digits(b) && digits_value(b) <= max {
        Some(digits_value(b))
    } else {
        None
    }
}

/// A longer prefix of digits never has a smaller value.
pub proof fn lemma_digits_monotone(s: Seq<char>, i: int, j: int)
    requires
        0 <= i <= j <= s.len(),
        all_digits(s),
    ensures
        digits_value(s.take(i)) <= digits_value(s.take(j)),
    decreases j - i,
{
    if i < j {
        lemma_digits_monotone(s, i, j - 1);
        assert(s.take(j).drop_last() =~= s.take(j - 1));
        assert(is_digit(s[j - 1]));
    }
}

/// `s.parse::<usize>()`, with `None` for every error.
pub fn parse_usize(s: &str) -> (r: Option<usize>)
    ensures
        r is Some <==> parse_unsigned_spec(s@, usize::MAX as nat) is Some,
        r matches Some(n) ==> parse_unsigned_spec(s@, usize::MAX as nat) == Some(n as nat),
{
    let v = chars_of(s);
    let mut i: usize = 0;
    if v.len() > 0 && v[0] == '+' {
        i = 1;
    }
    let start = i;
    let ghost b = unsigned_body(s@);
    proof {
        assert(b =~= v@.skip(start as int));
    }
    if start == v.len() {
        return None;
    }
    let mut acc: usize = 0;
    while i < v.len()
        invariant
            start <= i <= v.len(),
            v@ == s@,
            b == v@.skip(start as int),
            b == unsigned_body(s@),
            all_digits(b.take(i - start)),
            acc as nat == digits_value(b.take(i - start)),
        decreases v.len() - i,
    {
        let c = v[i];
        if !('0' <= c && c <= '9') {
            assert(b[i - start] == c);
            assert(!is_digit(b[i - start]));
            assert(!all_digits(b));
            return None;
        }
        let d: usize = (c as u32 - 48) as usize;
        proof {
            assert(b.take(i - start + 1).drop_last() =~= b.take(i - start));
            assert(b.take(i - start + 1).last() == c);
            assert(digits_value(b.take(i - start + 1)) == acc * 10 + d);
            assert forall|k: int| 0 <= k < i - start + 1 implies is_digit(#[trigger] b.take(i - start + 1)[k]) by {
                if k < i - start {
                    assert(b.take(i - start + 1)[k] == b.take(i - start)[k]);
                }
            }
        }
        match acc.checked_mul(10) {
            Some(m) => match m.checked_add(d) {
                Some(n) => {
                    acc = n;
                },
                None => {
                    proof {
                        lemma_overflow_stays(b, i - start + 1, usize::MAX as nat);
                    }
                    return None;
                },
            },
            None => {
                proof {
                    lemma_overflow_stays(b, i - start + 1, usize::MAX as nat);
                }
                return None;
            },
        }
        i = i + 1;
    }
    assert(b.take(i - start) =~= b);
    Some(acc)
}

/// `s.parse::<u64>()`, with `None` for every error.
pub fn parse_u64(s: &str) -> (r: Option<u64>)
    ensures
        r is Some <==> parse_unsigned_spec(s@, u64::MAX as nat) is Some,
        r matches Some(n) ==> parse_unsigned_spec(s@, u64::MAX as nat) == Some(n as nat),
{
    let v = chars_of(s);
    let mut i: usize = 0;
    if v.len() > 0 && v[0] == '+' {
        i = 1;
    }
    let start = i;
    let ghost b = unsigned_body(s@);
    proof {
        assert(b =~= v@.skip(start as int));
    }
    if start == v.len() {
        return None;
    }
    let mut acc: u64 = 0;
    while i < v.len()
        invariant
            start <= i <= v.len(),
            v@ == s@,
            b == v@.skip(start as int),
            b == unsigned_body(s@),
            all_digits(b.take(i - start)),
            acc as nat == digits_value(b.take(i - start)),
        decreases v.len() - i,
    {
        let c = v[i];
        if !('0' <= c && c <= '9') {
            assert(b[i - start] == c);
            assert(!is_digit(b[i - start]));
            assert(!all_digits(b));
            return None;
        }
        let d: u64 = (c as u32 - 48) as u64;
        proof {
            assert(b.take(i - start + 1).drop_last() =~= b.take(i - start));
            assert(b.take(i - start + 1).last() == c);
            assert(digits_value(b.take(i - start + 1)) == acc * 10 + d);
            assert forall|k: int| 0 <= k < i - start + 1 implies is_digit(#[trigger] b.take(i - start + 1)[k]) by {
                if k < i - start {
                    assert(b.take(i - start + 1)[k] == b.take(i - start)[k]);
                }
            }
        }
        match acc.checked_mul(10) {
            Some(m) => match m.checked_add(d) {
                Some(n) => {
                    acc = n;
                },
                None => {
                    proof {
                        lemma_overflow_stays(b, i - start + 1, u64::MAX as nat);
                    }
                    return None;
                },
            },
            None => {
                proof {
                    lemma_overflow_stays(b, i - start + 1, u64::MAX as nat);
                }
                return None;
            },
        }
        i = i + 1;
    }
    assert(b.take(i - start) =~= b);
    Some(acc)
}

/// Once a prefix of digits exceeds `max`, the whole string does, or holds a
/// non-digit.
proof fn lemma_overflow_stays(b: Seq<char>, k: int, max: nat)
    requires
        0 < k <= b.len(),
        all_digits(b.take(k)),
        digits_value(b.take(k)) > max,
    ensures
        !(all_digits(b) && digits_value(b) <= max),
{
    if all_digits(b) {
        lemma_digits_monotone(b, k, b.len() as int);
        assert(b.take(b.len() as int) =~= b);
    }
}

/// The elements of `parts` separated by `sep`.
pub open spec fn join_with(parts: Seq<Seq<char>>, sep: Seq<char>) -> Seq<char>
    decreases parts.len(),
{
    if parts.len() == 0 {
        seq![]
    } else if parts.len() == 1 {
        parts[0]
    } else {
        join_with(parts.drop_last(), sep) + sep + parts.last()
    }
}

/// `parts.join(sep)`.
pub fn join_strings(parts: &Vec<String>, sep: &str) -> (r: String)
    ensures
        r@ == join_with(views(parts@), sep@),
{
    let mut r = String::new();
    let mut i: usize = 0;
    while i < parts.len()
        invariant
            i <= parts.len(),
            r@ == join_with(views(parts@.take(i as int)), sep@),
        decreases parts.len() - i,
    {
        if i > 0 {
            push_str(&mut r, sep);
        }
        push_str(&mut r, parts[i].as_str());
        proof {
            let p = views(parts@.take(i + 1));
            assert(p.drop_last() =~= views(parts@.take(i as int)));
            assert(p.last() == parts@[i as int]@);
            if i == 0 {
                assert(p.len() == 1);
            }
            assert(r@ =~= join_with(p, sep@));
        }
        i = i + 1;
    }
    proof {
        assert(parts@.take(parts.len() as int) =~= parts@);
    }
    r
}

/// `s` with every `from` replaced by `to`.
pub open spec fn replace_char_spec(s: Seq<char>, from: char, to: char) -> Seq<char> {
    s.map_values(|c: char| if c == from { to } else { c })
}

/// `str::replace` with single-character pattern and replacement.
pub fn replace_char(s: &str, from: char, to: char) -> (r: String)
    ensures
        r@ == replace_char_spec(s@, from, to),
{
    let v = chars_of(s);
    let mut r = String::new();
    let mut i: usize = 0;
    while i < v.len()
        invariant
            i <= v.len(),
            v@ == s@,
            r@ == replace_char_spec(v@.take(i as int), from, to),
        decreases v.len() - i,
    {
        let c = v[i];
        if c == from {
            push_char(&mut r, to);
        } else {
            push_char(&mut r, c);
        }
        assert(replace_char_spec(v@.take(i + 1), from, to) =~= replace_char_spec(
            v@.take(i as int),
            from,
            to,
        ).push(if c == from { to } else { c }));
        i = i + 1;
    }
    assert(v@.take(v.len() as int) =~= v@);
    r
}

/// `n` spaces.
pub open spec fn spaces(n: nat) -> Seq<char> {
    Seq::new(n, |i: int| ' ')
}

/// `format!("{:>w$}", s)`: `s` right-aligned in `w` characters.
pub open spec fn pad_left_spec(s: Seq<char>, w: nat) -> Seq<char> {
    if s.len() < w {
        spaces((w - s.len()) as nat) + s
    } else {
        s
    }
}

/// `format!("{:<w$}", s)`: `s` left-aligned in `w` characters.
pub open spec fn pad_right_spec(s: Seq<char>, w: nat) -> Seq<char> {
    if s.len() < w {
        s + spaces((w - s.len()) as nat)
    } else {
        s
    }
}

/// Appends `n` spaces.
pub fn push_spaces(s: &mut String, n: usize)
    ensures
        final(s)@ == old(s)@ + spaces(n as nat),
{
    let mut i: usize = 0;
    while i < n
        invariant
            i <= n,
            s@ == old(s)@ + spaces(i as nat),
        decreases n - i,
    {
        push_char(s, ' ');
        assert(spaces((i + 1) as nat) =~= spaces(i as nat).push(' '));
        i = i + 1;
    }
}

/// Appends `t` right-aligned in `w` characters.
pub fn push_padded_left(s: &mut String, t: &str, w: usize)
    ensures
        final(s)@ == old(s)@ + pad_left_spec(t@, w as nat),
{
    let n = t.unicode_len();
    if n < w {
        push_spaces(s, w - n);
    }
    push_str(s, t);
}

/// Appends `t` left-aligned in `w` characters.
pub fn push_padded_right(s: &mut String, t: &str, w: usize)
    ensures
        final(s)@ == old(s)@ + pad_right_spec(t@, w as nat),
{
    let n = t.unicode_len();
    push_str(s, t);
    if n < w {
        push_spaces(s, w - n);
    }
}

/// Lexicographic order of strings by code point, as `String`'s `Ord`.
pub open spec fn lex_lt(a: Seq<char>, b: Seq<char>) -> bool
    decreases a.len(),
{
    if a.len() == 0 {
        b.len() > 0
    } else if b.len() == 0 {
        false
    } else if a[0] != b[0] {
        (a[0] as u32) < (b[0] as u32)
    } else {
        lex_lt(a.drop_first(), b.drop_first())
    }
}

/// `a < b` for strings.
pub fn str_lt(a: &str, b: &str) -> (r: bool)
    ensures
        r == lex_lt(a@, b@),
{
    let va = chars_of(a);
    let vb = chars_of(b);
    let mut i: usize = 0;
    proof {
        assert(a@.skip(0) =~= a@);
        assert(b@.skip(0) =~= b@);
    }
    while i < va.len() && i < vb.len() && va[i] == vb[i]
        invariant
            i <= va.len(),
            i <= vb.len(),
            va@ == a@,
            vb@ == b@,
            lex_lt(a@, b@) == lex_lt(a@.skip(i as int), b@.skip(i as int)),
        decreases va.len() - i,
    {
        proof {
            assert(a@.skip(i as int).drop_first() =~= a@.skip(i + 1));
            assert(b@.skip(i as int).drop_first() =~= b@.skip(i + 1));
        }
        i = i + 1;
    }
    proof {
        if i < va.len() {
            assert(a@.skip(i as int)[0] == va@[i as int]);
        }
        if i < vb.len() {
            assert(b@.skip(i as int)[0] == vb@[i as int]);
        }
    }
    if i == va.len() {
        i < vb.len()
    } else if i == vb.len() {
        false
    } else {
        (va[i] as u32) < (vb[i] as u32)
    }
}

/// The words of `s` joined by single spaces, as
/// `s.split_whitespace().collect::<Vec<_>>().join(" ")`; the flag tells
/// whether whitespace follows the last word.
pub open spec fn collapse_state(s: Seq<char>) -> (Seq<char>, bool)
    decreases s.len(),
{
    if s.len() == 0 {
        (seq![], false)
    } else {
        let (o, p) = collapse_state(s.drop_last());
        let c = s.last();
        if is_ws(c) {
            (o, o.len() > 0)
        } else if p {
            (o.push(' ').push(c), false)
        } else {
            (o.push(c), false)
        }
    }
}

/// The words of `s` joined by single spaces.
pub open spec fn collapse_ws(s: Seq<char>) -> Seq<char> {
    collapse_state(s).0
}

/// `s.split_whitespace().collect::<Vec<_>>().join(" ")`.
pub fn collapse_whitespace(s: &str) -> (r: Vec<char>)
    ensures
        r@ == collapse_ws(s@),
{
    let v = chars_of(s);
    let mut out: Vec<char> = Vec::new();
    let mut pending = false;
    let mut i: usize = 0;
    while i < v.len()
        invariant
            i <= v.len(),
            v@ == s@,
            (out@, pending) == collapse_state(v@.take(i as int)),
        decreases v.len() - i,
    {
        let c = v[i];
        proof {
            assert(v@.take(i + 1).drop_last() =~= v@.take(i as int));
            assert(v@.take(i + 1).last() == c);
        }
        if char_is_ws(c) {
            pending = out.len() > 0;
        } else {
            if pending {
                out.push(' ');
            }
            out.push(c);
            pending = false;
        }
        i = i + 1;
    }
    proof {
        assert(v@.take(v.len() as int) =~= v@);
    }
    out
}

/// The number of bytes of the UTF-8 encoding of `c`.
pub open spec fn char_utf8_len(c: char) -> nat {
    let u = c as u32;
    if u < 0x80 {
        1
    } else if u < 0x800 {
        2
    } else if u < 0x10000 {
        3
    } else {
        4
    }
}

/// The number of bytes of the UTF-8 encoding of `s`, which is what `str::len` counts.
pub open spec fn utf8_len(s: Seq<char>) -> nat
    decreases s.len(),
{
    if s.len() == 0 {
        0
    } else {
        utf8_len(s.drop_last()) + char_utf8_len(s.last())
    }
}

/// `char::len_utf8`.
pub fn char_len_utf8(c: char) -> (r: usize)
    ensures
        r == char_utf8_len(c),
{
    let u = c as u32;
    if u < 0x80 {
        1
    } else if u < 0x800 {
        2
    } else if u < 0x10000 {
        3
    } else {
        4
    }
}

/// The UTF-8 length of a concatenation is the sum of the lengths.
pub proof fn lemma_utf8_len_concat(a: Seq<char>, b: Seq<char>)
    ensures
        utf8_len(a + b) == utf8_len(a) + utf8_len(b),
    decreases b.len(),
{
    if b.len() > 0 {
        lemma_utf8_len_concat(a, b.drop_last());
        assert((a + b).drop_last() =~= a + b.drop_last());
        assert((a + b).last() == b.last());
    } else {
        assert(a + b =~= a);
    }
}

/// `utf8_len` never decreases along prefixes.
pub proof fn lemma_utf8_len_prefix(s: Seq<char>, i: int, j: int)
    requires
        0 <= i <= j <= s.len(),
    ensures
        utf8_len(s.take(i)) <= utf8_len(s.take(j)),
    decreases j - i,
{
    if i < j {
        lemma_utf8_len_prefix(s, i, j - 1);
        assert(s.take(j).drop_last() =~= s.take(j - 1));
    }
}

/// `str::parse::<i64>`: an optional sign and at least one digit, with a value
/// that fits.
pub open spec fn parse_i64_spec(s: Seq<char>) -> Option<int> {
    let neg = s.len() > 0 && s[0] == '-';
    let b = if s.len() > 0 && (s[0] == '+' || s[0] == '-') {
        s.drop_first()
    } else {
        s
    };
    if b.len() > 0 && all_digits(b) {
        let v = if neg {
            -(digits_value(b) as int)
        } else {
            digits_value(b) as int
        };
        if i64::MIN <= v && v <= i64::MAX {
            Some(v)
        } else {
            None
        }
    } else {
        None
    }
}

/// Once a prefix of digits exceeds `bound`, the whole string does.
proof fn lemma_prefix_exceeds(b: Seq<char>, k: int, bound: int)
    requires
        0 < k <= b.len(),
        all_digits(b.take(k)),
        digits_value(b.take(k)) > bound,
        all_digits(b),
    ensures
        digits_value(b) > bound,
{
    lemma_digits_monotone(b, k, b.len() as int);
    assert(b.take(b.len() as int) =~= b);
}

/// `s.parse::<i64>()`, with `None` for every error.
pub fn parse_i64(s: &str) -> (r: Option<i64>)
    ensures
        r is Some <==> parse_i64_spec(s@) is Some,
        r matches Some(n) ==> parse_i64_spec(s@) == Some(n as int),
{
    let v = chars_of(s);
    let mut i: usize = 0;
    let mut neg = false;
    if v.len() > 0 && (v[0] == '+' || v[0] == '-') {
        neg = v[0] == '-';
        i = 1;
    }
    let start = i;
    let ghost b = if s@.len() > 0 && (s@[0] == '+' || s@[0] == '-') {
        s@.drop_first()
    } else {
        s@
    };
    proof {
        assert(b =~= v@.skip(start as int));
    }
    if start == v.len() {
        return None;
    }
    let mut acc: u64 = 0;
    while i < v.len()
        invariant
            start <= i <= v.len(),
            v@ == s@,
            b == v@.skip(start as int),
            b == (if s@.len() > 0 && (s@[0] == '+' || s@[0] == '-') {
                s@.drop_first()
            } else {
                s@
            }),
            neg == (s@.len() > 0 && s@[0] == '-'),
            all_digits(b.take(i - start)),
            acc as nat == digits_value(b.take(i - start)),
        decreases v.len() - i,
    {
        let c = v[i];
        if !('0' <= c && c <= '9') {
            assert(b[i - start] == c);
            assert(!all_digits(b));
            return None;
        }
        let d: u64 = (c as u32 - 48) as u64;
        proof {
            assert(b.take(i - start + 1).drop_last() =~= b.take(i - start));
            assert(b.take(i - start + 1).last() == c);
            assert(digits_value(b.take(i - start + 1)) == acc * 10 + d);
            assert forall|k: int| 0 <= k < i - start + 1 implies is_digit(#[trigger] b.take(i - start + 1)[k]) by {
                if k < i - start {
                    assert(b.take(i - start + 1)[k] == b.take(i - start)[k]);
                }
            }
        }
        match acc.checked_mul(10) {
            Some(m) => match m.checked_add(d) {
                Some(n) => {
                    acc = n;
                },
                None => {
                    proof {
                        if all_digits(b) {
                            lemma_prefix_exceeds(b, i - start + 1, u64::MAX as int);
                        }
                    }
                    return None;
                },
            },
            None => {
                proof {
                    if all_digits(b) {
                        lemma_prefix_exceeds(b, i - start + 1, u64::MAX as int);
                    }
                }
                return None;
            },
        }
        i = i + 1;
    }
    assert(b.take(i - start) =~= b);
    if neg {
        if acc > 9223372036854775808u64 {
            None
        } else if acc == 9223372036854775808u64 {
            Some(i64::MIN)
        } else {
            Some(-(acc as i64))
        }
    } else {
        if acc > 9223372036854775807u64 {
            None
        } else {
            Some(acc as i64)
        }
    }
}

} // verus!
