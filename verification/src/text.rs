//! Character-level text helpers: scanning, trimming, substring search and
//! decimal formatting, all specified over `Seq<char>`.

use vstd::prelude::*;

verus! {

/// Relies on `String::push`: appends exactly the given character.
#[verifier::external_body]
pub(crate) fn push_char(s: &mut String, c: char)
    ensures
        final(s)@ == old(s)@.push(c),
{
    s.push(c);
}

/// The characters of a string, as a vector.
pub fn chars_of(s: &str) -> (v: Vec<char>)
    ensures
        v@ == s@,
{
    let n = s.unicode_len();
    let mut v: Vec<char> = Vec::new();
    let mut i: usize = 0;
    while i < n
        invariant
            i <= n,
            n == s@.len(),
            v@ == s@.take(i as int),
        decreases n - i,
    {
        let c = s.get_char(i);
        v.push(c);
        i = i + 1;
        proof {
            assert(v@ =~= s@.take(i as int));
        }
    }
    proof {
        assert(v@ =~= s@);
    }
    v
}

/// Whether two texts hold the same characters.
pub fn str_eq(a: &str, b: &str) -> (r: bool)
    ensures
        r == (a@ == b@),
{
    let n = a.unicode_len();
    if n != b.unicode_len() {
        proof {
            assert(a@ != b@);
        }
        return false;
    }
    let mut i: usize = 0;
    while i < n
        invariant
            i <= n,
            n == a@.len() && n == b@.len(),
            forall|k: int| 0 <= k < i ==> a@[k] == b@[k],
        decreases n - i,
    {
        if a.get_char(i) != b.get_char(i) {
            return false;
        }
        i = i + 1;
    }
    proof {
        assert(a@ =~= b@);
    }
    true
}

/// Whitespace recognized by trimming: space, tab, line feed, carriage
/// return.
pub open spec fn is_space(c: char) -> bool {
    c == ' ' || c == '\t' || c == '\n' || c == '\r'
}

/// Executable form of `is_space`.
pub fn space_char(c: char) -> (b: bool)
    ensures
        b == is_space(c),
{
    c == ' ' || c == '\t' || c == '\n' || c == '\r'
}

/// A text without its leading whitespace.
pub open spec fn drop_front_spaces(s: Seq<char>) -> Seq<char>
    decreases s.len(),
{
    if s.len() > 0 && is_space(s[0]) {
        drop_front_spaces(s.drop_first())
    } else {
        s
    }
}

/// A text without its trailing whitespace.
pub open spec fn drop_back_spaces(s: Seq<char>) -> Seq<char>
    decreases s.len(),
{
    if s.len() > 0 && is_space(s[s.len() - 1]) {
        drop_back_spaces(s.drop_last())
    } else {
        s
    }
}

/// A text without leading and trailing whitespace.
pub open spec fn trim_of(s: Seq<char>) -> Seq<char> {
    drop_back_spaces(drop_front_spaces(s))
}

/// The bounds of the trimmed portion: `trim_of(v@)` is `v@` between the
/// returned start (inclusive) and end (exclusive).
pub fn trim_bounds(v: &Vec<char>) -> (r: (usize, usize))
    ensures
        r.0 <= r.1 <= v@.len(),
        trim_of(v@) == v@.subrange(r.0 as int, r.1 as int),
{
    let n = v.len();
    proof {
        assert(v@.skip(0) =~= v@);
    }
    let mut a: usize = 0;
    while a < n && space_char(v[a])
        invariant
            a <= n,
            n == v@.len(),
            drop_front_spaces(v@) == drop_front_spaces(v@.skip(a as int)),
        decreases n - a,
    {
        proof {
            assert(v@.skip(a as int).drop_first() =~= v@.skip(a as int + 1));
        }
        a = a + 1;
    }
    proof {
        assert(drop_front_spaces(v@.skip(a as int)) == v@.skip(a as int)) by {
            if a < n {
                assert(!is_space(v@.skip(a as int)[0]));
            }
        }
    }
    let mut b: usize = n;
    while b > a && space_char(v[b - 1])
        invariant
            a <= b <= n,
            n == v@.len(),
            drop_front_spaces(v@) == v@.skip(a as int),
            drop_back_spaces(v@.skip(a as int)) == drop_back_spaces(
                v@.subrange(a as int, b as int),
            ),
        decreases b,
    {
        proof {
            assert(v@.subrange(a as int, b as int).drop_last() =~= v@.subrange(
                a as int,
                b as int - 1,
            ));
        }
        b = b - 1;
    }
    proof {
        let cur = v@.subrange(a as int, b as int);
        assert(drop_back_spaces(cur) == cur) by {
            if b > a {
                assert(!is_space(cur[cur.len() - 1]));
            }
        }
    }
    (a, b)
}

/// The pattern `p` occurs in `s` at position `i`.
pub open spec fn starts_at(s: Seq<char>, p: Seq<char>, i: int) -> bool {
    &&& 0 <= i
    &&& i + p.len() <= s.len()
    &&& s.subrange(i, i + p.len()) == p
}

/// Whether `p` occurs in `v` at position `i`.
pub fn match_at(v: &Vec<char>, p: &Vec<char>, i: usize) -> (b: bool)
    ensures
        b == starts_at(v@, p@, i as int),
{
    if p.len() > v.len() || i > v.len() - p.len() {
        proof {
            assert(!starts_at(v@, p@, i as int));
        }
        return false;
    }
    let n = v.len();
    let mut j: usize = 0;
    while j < p.len()
        invariant
            j <= p@.len(),
            i + p@.len() <= v@.len(),
            n == v@.len(),
            forall|k: int| 0 <= k < j ==> v@[i + k] == p@[k],
        decreases p@.len() - j,
    {
        if v[i + j] != p[j] {
            proof {
                assert(v@.subrange(i as int, i + p@.len())[j as int] == v@[i + j]);
            }
            return false;
        }
        j = j + 1;
    }
    proof {
        assert(v@.subrange(i as int, i + p@.len()) =~= p@);
    }
    true
}

/// First position at or after `from` where `p` occurs in `s`.
pub open spec fn find_sub_spec(s: Seq<char>, p: Seq<char>, from: int) -> Option<int>
    decreases s.len() + 1 - from
        when 0 <= from
{
    if from + p.len() > s.len() {
        None
    } else if starts_at(s, p, from) {
        Some(from)
    } else {
        find_sub_spec(s, p, from + 1)
    }
}

/// The pattern `p` occurs somewhere in `s`.
pub open spec fn contains_seq(s: Seq<char>, p: Seq<char>) -> bool {
    find_sub_spec(s, p, 0) is Some
}

/// Finds the first occurrence of `p` in `v` at or after `from`.
pub fn find_sub_from(v: &Vec<char>, p: &Vec<char>, from: usize) -> (r: Option<usize>)
    ensures
        (r is Some <==> find_sub_spec(v@, p@, from as int) is Some),
        r matches Some(i) ==> find_sub_spec(v@, p@, from as int) == Some(i as int) && from <= i
            && starts_at(v@, p@, i as int),
{
    let mut i: usize = from;
    loop
        invariant
            from <= i,
            find_sub_spec(v@, p@, from as int) == find_sub_spec(v@, p@, i as int),
        decreases v@.len() + 1 - i,
    {
        if p.len() > v.len() || i > v.len() - p.len() {
            return None;
        }
        if match_at(v, p, i) {
            return Some(i);
        }
        proof {
            assert(p@.len() > 0) by {
                if p@.len() == 0 {
                    assert(v@.subrange(i as int, i as int) =~= p@);
                }
            }
        }
        i = i + 1;
    }
}

/// Whether `p` occurs somewhere in `v`.
pub fn contains_sub(v: &Vec<char>, p: &Vec<char>) -> (b: bool)
    ensures
        b == contains_seq(v@, p@),
{
    match find_sub_from(v, p, 0) {
        Some(_) => true,
        None => false,
    }
}

/// First position at or after `from` holding the character `c`.
pub open spec fn find_char_spec(s: Seq<char>, c: char, from: int) -> Option<int>
    decreases s.len() - from
        when 0 <= from <= s.len()
{
    if from >= s.len() {
        None
    } else if s[from] == c {
        Some(from)
    } else {
        find_char_spec(s, c, from + 1)
    }
}

/// Finds the first occurrence of the character `c` in `v` at or after
/// `from`.
pub fn find_char_from(v: &Vec<char>, c: char, from: usize) -> (r: Option<usize>)
    requires
        from <= v@.len(),
    ensures
        (r is Some <==> find_char_spec(v@, c, from as int) is Some),
        r matches Some(i) ==> find_char_spec(v@, c, from as int) == Some(i as int) && from <= i
            < v@.len() && v@[i as int] == c,
{
    let mut i: usize = from;
    while i < v.len()
        invariant
            from <= i <= v@.len(),
            find_char_spec(v@, c, from as int) == find_char_spec(v@, c, i as int),
        decreases v@.len() - i,
    {
        if v[i] == c {
            return Some(i);
        }
        i = i + 1;
    }
    None
}

/// `s` with every leading repetition of the non-empty pattern `p`
/// removed.
pub open spec fn strip_rep(s: Seq<char>, p: Seq<char>) -> Seq<char>
    decreases s.len()
        when p.len() > 0
{
    if p.len() > 0 && starts_at(s, p, 0) && p.len() <= s.len() {
        strip_rep(s.skip(p.len() as int), p)
    } else {
        s
    }
}

/// Number of characters stripped from the front of `v@.skip(from)` by
/// removing every leading repetition of `p`; the result counts from the
/// start of `v`.
pub fn strip_rep_from(v: &Vec<char>, p: &Vec<char>, from: usize) -> (r: usize)
    requires
        from <= v@.len(),
        p@.len() > 0,
    ensures
        from <= r <= v@.len(),
        strip_rep(v@.skip(from as int), p@) == v@.skip(r as int),
{
    let n = v.len();
    let mut i: usize = from;
    loop
        invariant
            from <= i <= v@.len(),
            n == v@.len(),
            p@.len() > 0,
            strip_rep(v@.skip(from as int), p@) == strip_rep(v@.skip(i as int), p@),
        decreases v@.len() - i,
    {
        if match_at(v, p, i) {
            proof {
                let cur = v@.skip(i as int);
                assert(starts_at(cur, p@, 0)) by {
                    assert(cur.subrange(0, p@.len() as int) =~= v@.subrange(
                        i as int,
                        i + p@.len(),
                    ));
                }
                assert(cur.skip(p@.len() as int) =~= v@.skip(i + p@.len()));
            }
            i = i + p.len();
        } else {
            proof {
                let cur = v@.skip(i as int);
                assert(!starts_at(cur, p@, 0)) by {
                    if starts_at(cur, p@, 0) {
                        assert(cur.subrange(0, p@.len() as int) =~= v@.subrange(
                            i as int,
                            i + p@.len(),
                        ));
                    }
                }
            }
            return i;
        }
    }
}

/// The characters of `v` between `a` (inclusive) and `b` (exclusive).
pub fn subvec(v: &Vec<char>, a: usize, b: usize) -> (r: Vec<char>)
    requires
        a <= b <= v@.len(),
    ensures
        r@ == v@.subrange(a as int, b as int),
{
    let mut r: Vec<char> = Vec::new();
    let mut i: usize = a;
    while i < b
        invariant
            a <= i <= b <= v@.len(),
            r@ == v@.subrange(a as int, i as int),
        decreases b - i,
    {
        r.push(v[i]);
        i = i + 1;
        proof {
            assert(r@ =~= v@.subrange(a as int, i as int));
        }
    }
    r
}

/// A string holding the characters of `v` between `a` (inclusive) and `b`
/// (exclusive).
pub fn string_from_range(v: &Vec<char>, a: usize, b: usize) -> (r: String)
    requires
        a <= b <= v@.len(),
    ensures
        r@ == v@.subrange(a as int, b as int),
{
    let mut r = String::new();
    let mut i: usize = a;
    while i < b
        invariant
            a <= i <= b <= v@.len(),
            r@ == v@.subrange(a as int, i as int),
        decreases b - i,
    {
        push_char(&mut r, v[i]);
        i = i + 1;
        proof {
            assert(r@ =~= v@.subrange(a as int, i as int));
        }
    }
    r
}

/// The parts joined with the separator between each neighbouring pair.
pub open spec fn join_seq(parts: Seq<Seq<char>>, sep: Seq<char>) -> Seq<char>
    decreases parts.len(),
{
    if parts.len() == 0 {
        Seq::empty()
    } else if parts.len() == 1 {
        parts[0]
    } else {
        join_seq(parts.drop_last(), sep) + sep + parts.last()
    }
}

/// Joins the parts with the separator between each neighbouring pair.
pub fn join_with(parts: &Vec<String>, sep: &str) -> (r: String)
    ensures
        r@ == join_seq(parts@.map_values(|p: String| p@), sep@),
{
    let ghost views = parts@.map_values(|p: String| p@);
    let mut r = String::new();
    let mut i: usize = 0;
    while i < parts.len()
        invariant
            i <= parts@.len(),
            views == parts@.map_values(|p: String| p@),
            r@ == join_seq(views.take(i as int), sep@),
        decreases parts@.len() - i,
    {
        if i > 0 {
            r.append(sep);
        }
        r.append(parts[i].as_str());
        i = i + 1;
        proof {
            assert(views.take(i as int).drop_last() =~= views.take(i as int - 1));
            assert(views.take(i as int).last() == parts@[i as int - 1]@);
        }
    }
    proof {
        assert(views.take(parts@.len() as int) =~= views);
    }
    r
}

/// The decimal digit character for a value below ten.
pub open spec fn digit_char(d: int) -> char {
    ((48 + d) as u8) as char
}

/// The decimal digits of a number, most significant first.
pub open spec fn u64_digits(n: int) -> Seq<char>
    decreases n,
{
    if n < 10 {
        seq![digit_char(n)]
    } else {
        u64_digits(n / 10).push(digit_char(n % 10))
    }
}

/// The decimal rendering of a signed number: a minus sign, if negative,
/// then the digits of its magnitude.
pub open spec fn i32_digits(p: int) -> Seq<char> {
    if p < 0 {
        seq!['-'] + u64_digits(-p)
    } else {
        u64_digits(p)
    }
}

fn digit(n: u64) -> (c: char)
    requires
        n < 10,
    ensures
        c == digit_char(n as int),
{
    (48 + n as u8) as char
}

/// Writes the decimal digits of `n` onto the end of `out`.
fn push_u64_digits(out: &mut String, n: u64)
    ensures
        final(out)@ == old(out)@ + u64_digits(n as int),
    decreases n,
{
    if n < 10 {
        push_char(out, digit(n));
        proof {
            assert(final(out)@ =~= old(out)@ + u64_digits(n as int));
        }
    } else {
        push_u64_digits(out, n / 10);
        push_char(out, digit(n % 10));
        proof {
            assert(final(out)@ =~= old(out)@ + u64_digits(n as int));
        }
    }
}

/// The decimal rendering of an unsigned number.
pub fn u64_to_string(n: u64) -> (r: String)
    ensures
        r@ == u64_digits(n as int),
{
    let mut s = String::new();
    push_u64_digits(&mut s, n);
    proof {
        assert(s@ =~= u64_digits(n as int));
    }
    s
}

/// The decimal rendering of a signed number.
pub fn i32_to_string(p: i32) -> (r: String)
    ensures
        r@ == i32_digits(p as int),
{
    let mut s = String::new();
    if p < 0 {
        push_char(&mut s, '-');
        let mag: u64 = (-(p as i64)) as u64;
        push_u64_digits(&mut s, mag);
        proof {
            assert(s@ =~= i32_digits(p as int));
        }
    } else {
        push_u64_digits(&mut s, p as u64);
        proof {
            assert(s@ =~= i32_digits(p as int));
        }
    }
    s
}

/// A decimal digit character.
pub open spec fn is_digit(c: char) -> bool {
    '0' <= c && c <= '9'
}

/// Every character is a decimal digit.
pub open spec fn all_digits(s: Seq<char>) -> bool {
    forall|i: int| 0 <= i < s.len() ==> is_digit(#[trigger] s[i])
}

/// The value of a digit string, most significant digit first.
pub open spec fn digits_value(s: Seq<char>) -> int
    decreases s.len(),
{
    if s.len() == 0 {
        0
    } else {
        digits_value(s.drop_last()) * 10 + (s.last() as int - 48)
    }
}

/// A digit string's value is never negative.
pub proof fn lemma_digits_value_nonneg(s: Seq<char>)
    requires
        all_digits(s),
    ensures
        digits_value(s) >= 0,
    decreases s.len(),
{
    if s.len() > 0 {
        assert(all_digits(s.drop_last())) by {
            assert(forall|i: int| 0 <= i < s.len() - 1 ==> s.drop_last()[i] == s[i]);
        }
        lemma_digits_value_nonneg(s.drop_last());
    }
}

/// Extending a digit string never shrinks its value.
pub proof fn lemma_digits_value_prefix(s: Seq<char>, i: int)
    requires
        all_digits(s),
        0 <= i <= s.len(),
    ensures
        digits_value(s.take(i)) <= digits_value(s),
    decreases s.len() - i,
{
    if i < s.len() {
        lemma_digits_value_prefix(s, i + 1);
        assert(s.take(i + 1).drop_last() =~= s.take(i));
        assert(all_digits(s.take(i))) by {
            assert(forall|k: int| 0 <= k < i ==> s.take(i)[k] == s[k]);
        }
        lemma_digits_value_nonneg(s.take(i));
    } else {
        assert(s.take(i) =~= s);
    }
}

/// The digits of a number read back as that number.
pub proof fn lemma_u64_digits_value(n: int)
    requires
        0 <= n,
    ensures
        u64_digits(n).len() > 0,
        all_digits(u64_digits(n)),
        digits_value(u64_digits(n)) == n,
    decreases n,
{
    if n < 10 {
        let s = u64_digits(n);
        assert(s =~= seq![digit_char(n)]);
        assert(s.drop_last() =~= Seq::<char>::empty());
        assert(s.last() == digit_char(n));
        assert(digit_char(n) as int == 48 + n);
        assert(digits_value(s) == digits_value(s.drop_last()) * 10 + (s.last() as int - 48));
        assert(digits_value(Seq::<char>::empty()) == 0);
        assert(digits_value(s) == n);
    } else {
        lemma_u64_digits_value(n / 10);
        let whole = u64_digits(n);
        assert(whole == u64_digits(n / 10).push(digit_char(n % 10)));
        assert(whole.drop_last() =~= u64_digits(n / 10));
        assert(digit_char(n % 10) as int == 48 + n % 10);
        assert(all_digits(whole)) by {
            assert(forall|i: int|
                0 <= i < whole.len() - 1 ==> #[trigger] whole[i] == u64_digits(n / 10)[i]);
            assert(is_digit(whole[whole.len() - 1]));
        }
        assert(digits_value(whole) == digits_value(whole.drop_last()) * 10 + (whole.last() as int
            - 48));
        assert(digits_value(whole) == (n / 10) * 10 + n % 10);
        assert(n == (n / 10) * 10 + n % 10) by (nonlinear_arith)
            requires n >= 10;
    }
}

/// The value a signed decimal string holds: an optional minus sign, then
/// at least one digit, the value fitting the type.
pub open spec fn spec_parse_i32(s: Seq<char>) -> Option<i32> {
    let neg = s.len() > 0 && s[0] == '-';
    let ds = if neg {
        s.drop_first()
    } else {
        s
    };
    if ds.len() == 0 || !all_digits(ds) {
        None
    } else {
        let v = if neg {
            -digits_value(ds)
        } else {
            digits_value(ds)
        };
        if i32::MIN <= v <= i32::MAX {
            Some(v as i32)
        } else {
            None
        }
    }
}

/// Parses a signed decimal string: an optional minus sign, then digits,
/// rejecting anything else and any value outside the type.
pub fn parse_i32(s: &str) -> (r: Option<i32>)
    ensures
        r == spec_parse_i32(s@),
{
    let v = chars_of(s);
    let neg = v.len() > 0 && v[0] == '-';
    let start: usize = if neg {
        1
    } else {
        0
    };
    let ghost ds = if neg {
        s@.drop_first()
    } else {
        s@
    };
    proof {
        assert(ds =~= v@.skip(start as int));
    }
    if v.len() == start {
        return None;
    }
    let mut acc: i64 = 0;
    let mut i: usize = start;
    while i < v.len()
        invariant
            start <= i <= v@.len(),
            v@ == s@,
            neg == (s@.len() > 0 && s@[0] == '-'),
            start == (if neg {
                1int
            } else {
                0int
            }),
            ds == (if neg {
                s@.drop_first()
            } else {
                s@
            }),
            ds == v@.skip(start as int),
            0 <= acc <= 0x8000_0000i64,
            acc == digits_value(ds.take(i - start)),
            all_digits(ds.take(i - start)),
        decreases v@.len() - i,
    {
        let c = v[i];
        if c < '0' || c > '9' {
            proof {
                assert(ds[i - start] == c);
                assert(!all_digits(ds));
            }
            return None;
        }
        let d: i64 = (c as u32 as i64) - 48;
        proof {
            assert(ds.take(i + 1 - start).drop_last() =~= ds.take(i - start));
            assert(ds.take(i + 1 - start).last() == c);
            assert(all_digits(ds.take(i + 1 - start))) by {
                assert(forall|k: int|
                    0 <= k < i - start ==> #[trigger] ds.take(i + 1 - start)[k] == ds.take(
                        i - start,
                    )[k]);
            }
        }
        acc = acc * 10 + d;
        i = i + 1;
        if acc > 0x8000_0000i64 {
            proof {
                if all_digits(ds) {
                    lemma_digits_value_prefix(ds, i - start);
                    assert(digits_value(ds) > 0x8000_0000);
                }
            }
            return None;
        }
    }
    proof {
        assert(ds.take(ds.len() as int) =~= ds);
    }
    if neg {
        let r: i64 = -acc;
        if r < -0x8000_0000i64 {
            return None;
        }
        Some(r as i32)
    } else {
        if acc > 0x7fff_ffffi64 {
            return None;
        }
        Some(acc as i32)
    }
}

/// The value a boolean string holds.
pub open spec fn spec_parse_bool(s: Seq<char>) -> Option<bool> {
    if s == "true"@ {
        Some(true)
    } else if s == "false"@ {
        Some(false)
    } else {
        None
    }
}

/// Parses a boolean string: exactly `true` or `false`.
pub fn parse_bool(s: &str) -> (r: Option<bool>)
    ensures
        r == spec_parse_bool(s@),
{
    if str_eq(s, "true") {
        Some(true)
    } else if str_eq(s, "false") {
        Some(false)
    } else {
        None
    }
}

/// A rendered signed number parses back to itself: the decimal formatting
/// and parsing round-trip.
pub proof fn lemma_i32_round_trip(p: i32)
    ensures
        spec_parse_i32(i32_digits(p as int)) == Some(p),
{
    if p >= 0 {
        lemma_u64_digits_value(p as int);
        let s = i32_digits(p as int);
        assert(s == u64_digits(p as int));
        assert(s[0] as int >= 48);
        assert(s[0] != '-');
    } else {
        lemma_u64_digits_value(-(p as int));
        let s = i32_digits(p as int);
        assert(s == seq!['-'] + u64_digits(-(p as int)));
        assert(s[0] == '-');
        assert(s.drop_first() =~= u64_digits(-(p as int)));
    }
}

} // verus!
