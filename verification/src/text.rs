//! Character-level text helpers used across the library: comparison,
//! splitting, line breaking, trimming and decimal rendering, each stated over
//! the character sequence that a string views as.

use vstd::prelude::*;

verus! {

/// The character views of a sequence of strings.
pub open spec fn views(v: Seq<String>) -> Seq<Seq<char>> {
    v.map_values(|s: String| s@)
}

/// Compares two string slices character by character.
pub fn str_eq(a: &str, b: &str) -> (r: bool)
    ensures
        r == (a@ == b@),
{
    let n = a.unicode_len();
    let m = b.unicode_len();
    if n != m {
        return false;
    }
    let mut i: usize = 0;
    while i < n
        invariant
            n == a@.len(),
            m == b@.len(),
            n == m,
            i <= n,
            forall|j: int| 0 <= j < i ==> a@[j] == b@[j],
        decreases n - i,
    {
        if a.get_char(i) != b.get_char(i) {
            return false;
        }
        i = i + 1;
    }
    assert(a@ =~= b@);
    true
}

/// Whether `p` is a prefix of `s`.
pub open spec fn is_prefix(p: Seq<char>, s: Seq<char>) -> bool {
    p.len() <= s.len() && s.subrange(0, p.len() as int) == p
}

/// Tests whether `s` starts with `p`.
pub fn starts_with(s: &str, p: &str) -> (r: bool)
    ensures
        r == is_prefix(p@, s@),
{
    let n = s.unicode_len();
    let m = p.unicode_len();
    if m > n {
        return false;
    }
    let mut i: usize = 0;
    while i < m
        invariant
            n == s@.len(),
            m == p@.len(),
            m <= n,
            i <= m,
            forall|j: int| 0 <= j < i ==> s@[j] == p@[j],
        decreases m - i,
    {
        if s.get_char(i) != p.get_char(i) {
            assert(s@.subrange(0, m as int)[i as int] != p@[i as int]);
            return false;
        }
        i = i + 1;
    }
    assert(s@.subrange(0, m as int) =~= p@);
    true
}

/// A fresh string holding the characters of `a` followed by those of `b`.
pub fn concat2(a: &str, b: &str) -> (r: String)
    ensures
        r@ == a@ + b@,
{
    let mut r = String::from_str(a);
    r.append(b);
    r
}

/// A fresh string holding the characters of `a`, `b` and `c` in turn.
pub fn concat3(a: &str, b: &str, c: &str) -> (r: String)
    ensures
        r@ == a@ + b@ + c@,
{
    let mut r = String::from_str(a);
    r.append(b);
    r.append(c);
    r
}

// ---------------------------------------------------------------------------
// Splitting on a separator character
// ---------------------------------------------------------------------------

/// The pieces of `s` between occurrences of `sep`: there is always at least
/// one piece, and `k` separators give `k + 1` pieces (some possibly empty).
pub open spec fn split_on(s: Seq<char>, sep: char) -> Seq<Seq<char>>
    decreases s.len(),
{
    if s.len() == 0 {
        seq![Seq::<char>::empty()]
    } else {
        let rest = split_on(s.drop_last(), sep);
        if s.last() == sep {
            rest.push(Seq::<char>::empty())
        } else {
            rest.update(rest.len() - 1, rest.last().push(s.last()))
        }
    }
}

pub proof fn lemma_split_on_nonempty(s: Seq<char>, sep: char)
    ensures
        split_on(s, sep).len() >= 1,
    decreases s.len(),
{
    if s.len() > 0 {
        lemma_split_on_nonempty(s.drop_last(), sep);
    }
}

/// The pieces `ps` put back together with `sep` between neighbours.
pub open spec fn join_on(ps: Seq<Seq<char>>, sep: char) -> Seq<char>
    decreases ps.len(),
{
    if ps.len() <= 1 {
        if ps.len() == 1 {
            ps[0]
        } else {
            Seq::<char>::empty()
        }
    } else {
        join_on(ps.drop_last(), sep).push(sep) + ps.last()
    }
}

/// Splitting loses nothing: joining the pieces with the separator gives
/// back the text.
pub proof fn lemma_join_split(s: Seq<char>, sep: char)
    ensures
        join_on(split_on(s, sep), sep) == s,
    decreases s.len(),
{
    if s.len() == 0 {
        assert(split_on(s, sep) =~= seq![Seq::<char>::empty()]);
        assert(s =~= Seq::<char>::empty());
    } else {
        let rest = split_on(s.drop_last(), sep);
        lemma_join_split(s.drop_last(), sep);
        lemma_split_on_nonempty(s.drop_last(), sep);
        let c = s.last();
        if c == sep {
            let ps = rest.push(Seq::<char>::empty());
            assert(ps.drop_last() =~= rest);
            assert(join_on(ps, sep) =~= s.drop_last().push(sep) + Seq::<char>::empty());
            assert(s.drop_last().push(sep) =~= s);
        } else {
            let ps = rest.update(rest.len() - 1, rest.last().push(c));
            if rest.len() == 1 {
                assert(join_on(ps, sep) == ps[0]);
                assert(join_on(rest, sep) == rest[0]);
                assert(ps[0] =~= s.drop_last().push(c));
            } else {
                assert(ps.drop_last() =~= rest.drop_last());
                assert(join_on(ps, sep) =~= join_on(rest.drop_last(), sep).push(sep) + rest.last().push(c));
                assert(join_on(rest, sep) =~= join_on(rest.drop_last(), sep).push(sep) + rest.last());
                assert(join_on(ps, sep) =~= join_on(rest, sep).push(c));
            }
            assert(s.drop_last().push(c) =~= s);
        }
    }
}

/// Text without the separator is a single piece.
pub proof fn lemma_split_without_sep(s: Seq<char>, sep: char)
    requires
        !s.contains(sep),
    ensures
        split_on(s, sep) == seq![s],
    decreases s.len(),
{
    if s.len() == 0 {
        assert(s =~= Seq::<char>::empty());
    } else {
        assert(!s.drop_last().contains(sep)) by {
            if s.drop_last().contains(sep) {
                let i = choose|i: int| 0 <= i < s.drop_last().len() && s.drop_last()[i] == sep;
                assert(s[i] == sep);
            }
        }
        lemma_split_without_sep(s.drop_last(), sep);
        assert(s.last() != sep) by {
            assert(s[s.len() - 1] == s.last());
        }
        assert(s.drop_last().push(s.last()) =~= s);
    }
}

/// Appending the separator and then text without it adds that text as one
/// more piece.
pub proof fn lemma_split_append_piece(x: Seq<char>, y: Seq<char>, sep: char)
    requires
        !y.contains(sep),
    ensures
        split_on(x.push(sep) + y, sep) == split_on(x, sep).push(y),
    decreases y.len(),
{
    if y.len() == 0 {
        assert(y =~= Seq::<char>::empty());
        assert(x.push(sep) + y =~= x.push(sep));
        assert((x.push(sep)).drop_last() =~= x);
        assert((x.push(sep)).last() == sep);
        assert(split_on(x.push(sep), sep) == split_on(x, sep).push(Seq::<char>::empty()));
    } else {
        let s = x.push(sep) + y;
        assert(!y.drop_last().contains(sep)) by {
            if y.drop_last().contains(sep) {
                let i = choose|i: int| 0 <= i < y.drop_last().len() && y.drop_last()[i] == sep;
                assert(y[i] == sep);
            }
        }
        lemma_split_append_piece(x, y.drop_last(), sep);
        assert(s.drop_last() =~= x.push(sep) + y.drop_last());
        assert(s.last() == y.last());
        assert(y.last() != sep) by {
            assert(y[y.len() - 1] == y.last());
        }
        assert(y.drop_last().push(y.last()) =~= y);
        assert(split_on(s, sep) =~= split_on(x, sep).push(y));
    }
}

/// Splits `s` at every occurrence of `sep`.
pub fn split_char(s: &str, sep: char) -> (parts: Vec<String>)
    ensures
        views(parts@) == split_on(s@, sep),
{
    let n = s.unicode_len();
    let mut parts: Vec<String> = Vec::new();
    let mut start: usize = 0;
    let mut i: usize = 0;
    proof {
        assert(s@.take(0) =~= Seq::<char>::empty());
    }
    while i < n
        invariant
            n == s@.len(),
            start <= i <= n,
            views(parts@) + seq![s@.subrange(start as int, i as int)] == split_on(
                s@.take(i as int),
                sep,
            ),
        decreases n - i,
    {
        let c = s.get_char(i);
        let ghost prev = s@.take(i as int);
        assert(s@.take(i + 1).drop_last() =~= prev);
        assert(s@.take(i + 1).last() == c);
        proof {
            lemma_split_on_nonempty(prev, sep);
        }
        if c == sep {
            let piece = String::from_str(s.substring_char(start, i));
            let ghost old_parts = parts@;
            parts.push(piece);
            assert(views(parts@) =~= views(old_parts).push(s@.subrange(start as int, i as int)));
            start = i + 1;
            assert(s@.subrange(start as int, (i + 1) as int) =~= Seq::<char>::empty());
            assert(views(parts@) + seq![s@.subrange(start as int, (i + 1) as int)] =~= split_on(
                s@.take(i + 1),
                sep,
            ));
        } else {
            assert(s@.subrange(start as int, (i + 1) as int) =~= s@.subrange(
                start as int,
                i as int,
            ).push(c));
            assert(views(parts@) + seq![s@.subrange(start as int, (i + 1) as int)] =~= split_on(
                s@.take(i + 1),
                sep,
            ));
        }
        i = i + 1;
    }
    let last = String::from_str(s.substring_char(start, n));
    let ghost old_parts = parts@;
    parts.push(last);
    assert(s@.take(n as int) =~= s@);
    assert(views(parts@) =~= views(old_parts) + seq![s@.subrange(start as int, n as int)]);
    parts
}

// ---------------------------------------------------------------------------
// Lines
// ---------------------------------------------------------------------------

/// `l` without one trailing carriage return, if it has one.
pub open spec fn strip_cr(l: Seq<char>) -> Seq<char> {
    if l.len() > 0 && l.last() == '\r' {
        l.drop_last()
    } else {
        l
    }
}

/// The lines of `s`: it is split at `"\n"` (a `"\r"` just before the `"\n"`
/// belongs to the line ending), and a final line ending is optional, so an
/// empty last piece is not a line.
pub open spec fn lines_of(s: Seq<char>) -> Seq<Seq<char>> {
    let pieces = split_on(s, '\n');
    let body = pieces.take(pieces.len() - 1).map_values(|l: Seq<char>| strip_cr(l));
    if pieces.last().len() == 0 {
        body
    } else {
        body.push(pieces.last())
    }
}

/// The lines of `s`, as `str::lines` yields them.
pub fn lines(s: &str) -> (r: Vec<String>)
    ensures
        views(r@) == lines_of(s@),
{
    let pieces = split_char(s, '\n');
    proof {
        lemma_split_on_nonempty(s@, '\n');
    }
    let ghost ps = views(pieces@);
    let k = pieces.len() - 1;
    let mut out: Vec<String> = Vec::new();
    let mut i: usize = 0;
    while i < k
        invariant
            ps == views(pieces@),
            ps == split_on(s@, '\n'),
            k == pieces.len() - 1,
            i <= k,
            views(out@) == ps.take(i as int).map_values(|l: Seq<char>| strip_cr(l)),
        decreases k - i,
    {
        let p = pieces[i].as_str();
        let len = p.unicode_len();
        let ghost old_out = out@;
        assert(p@ == ps[i as int]);
        if len > 0 && p.get_char(len - 1) == '\r' {
            let stripped = String::from_str(p.substring_char(0, len - 1));
            assert(stripped@ =~= strip_cr(p@));
            out.push(stripped);
        } else {
            out.push(String::from_str(p));
        }
        assert(views(out@) =~= views(old_out).push(strip_cr(ps[i as int])));
        assert(ps.take(i + 1).map_values(|l: Seq<char>| strip_cr(l)) =~= ps.take(
            i as int,
        ).map_values(|l: Seq<char>| strip_cr(l)).push(strip_cr(ps[i as int])));
        i = i + 1;
    }
    let last = pieces[k].as_str();
    assert(last@ == ps.last());
    if last.unicode_len() > 0 {
        let ghost old_out = out@;
        out.push(String::from_str(last));
        assert(views(out@) =~= views(old_out).push(last@));
    }
    out
}

// ---------------------------------------------------------------------------
// Whitespace and trimming
// ---------------------------------------------------------------------------

/// Characters with the Unicode `White_Space` property.
pub open spec fn is_white_space(c: char) -> bool {
    let u = c as u32;
    (0x9 <= u <= 0xd) || u == 0x20 || u == 0x85 || u == 0xa0 || u == 0x1680 || (0x2000 <= u
        <= 0x200a) || u == 0x2028 || u == 0x2029 || u == 0x202f || u == 0x205f || u == 0x3000
}

/// Whether `c` has the Unicode `White_Space` property (as `char::is_whitespace`).
pub fn char_is_white_space(c: char) -> (r: bool)
    ensures
        r == is_white_space(c),
{
    let u = c as u32;
    (0x9 <= u && u <= 0xd) || u == 0x20 || u == 0x85 || u == 0xa0 || u == 0x1680 || (0x2000 <= u
        && u <= 0x200a) || u == 0x2028 || u == 0x2029 || u == 0x202f || u == 0x205f || u == 0x3000
}

/// `s[a..b]` is what is left of `s` once leading and trailing whitespace is
/// removed.
pub open spec fn trim_bounds(s: Seq<char>, a: int, b: int) -> bool {
    &&& 0 <= a <= b <= s.len()
    &&& forall|i: int| 0 <= i < a ==> is_white_space(#[trigger] s[i])
    &&& forall|i: int| b <= i < s.len() ==> is_white_space(#[trigger] s[i])
    &&& a < b ==> !is_white_space(s[a]) && !is_white_space(s[b - 1])
}

/// `s` without its leading and trailing whitespace.
pub open spec fn trimmed(s: Seq<char>) -> Seq<char> {
    let (a, b) = choose|a: int, b: int| trim_bounds(s, a, b);
    s.subrange(a, b)
}

/// Any pair of trim bounds cuts out the same text.
pub proof fn lemma_trim_bounds_unique(s: Seq<char>, a: int, b: int, c: int, d: int)
    requires
        trim_bounds(s, a, b),
        trim_bounds(s, c, d),
    ensures
        s.subrange(a, b) == s.subrange(c, d),
{
    if a < b {
        if c < d {
            assert(a == c) by {
                if a < c {
                    assert(is_white_space(s[a]));
                } else if c < a {
                    assert(is_white_space(s[c]));
                }
            }
            assert(b == d) by {
                if b < d {
                    assert(is_white_space(s[d - 1]));
                } else if d < b {
                    assert(is_white_space(s[b - 1]));
                }
            }
        } else {
            assert(!is_white_space(s[a]));
            if a < c {
                assert(is_white_space(s[a]));
            } else {
                assert(is_white_space(s[a]));
            }
        }
    } else if c < d {
        assert(!is_white_space(s[c]));
        if c < a {
            assert(is_white_space(s[c]));
        } else {
            assert(is_white_space(s[c]));
        }
    }
    assert(s.subrange(a, b) =~= s.subrange(c, d));
}

/// `trimmed(s)` is the text between any trim bounds of `s`.
pub proof fn lemma_trimmed(s: Seq<char>, a: int, b: int)
    requires
        trim_bounds(s, a, b),
    ensures
        trimmed(s) == s.subrange(a, b),
{
    let (c, d) = choose|c: int, d: int| trim_bounds(s, c, d);
    lemma_trim_bounds_unique(s, a, b, c, d);
}

/// Trim bounds exist for every string.
pub proof fn lemma_trim_exists(s: Seq<char>)
    ensures
        exists|a: int, b: int| trim_bounds(s, a, b),
    decreases s.len(),
{
    if s.len() == 0 {
        assert(trim_bounds(s, 0, 0));
    } else {
        let t = s.drop_first();
        lemma_trim_exists(t);
        let (a, b) = choose|a: int, b: int| trim_bounds(t, a, b);
        assert(forall|i: int| 0 <= i < t.len() ==> t[i] == s[i + 1]);
        if is_white_space(s[0]) {
            assert(trim_bounds(s, a + 1, b + 1)) by {
                assert forall|i: int| 0 <= i < a + 1 implies is_white_space(#[trigger] s[i]) by {
                    if i > 0 {
                        assert(s[i] == t[i - 1]);
                    }
                }
                assert forall|i: int| b + 1 <= i < s.len() implies is_white_space(#[trigger] s[i]) by {
                    assert(s[i] == t[i - 1]);
                }
            }
        } else if a < b {
            assert(trim_bounds(s, 0, b + 1)) by {
                assert forall|i: int| b + 1 <= i < s.len() implies is_white_space(#[trigger] s[i]) by {
                    assert(s[i] == t[i - 1]);
                }
                assert(s[b] == t[b - 1]);
            }
        } else {
            assert(trim_bounds(s, 0, 1)) by {
                assert forall|i: int| 1 <= i < s.len() implies is_white_space(#[trigger] s[i]) by {
                    assert(s[i] == t[i - 1]);
                    if i - 1 < a {
                    } else {
                    }
                }
            }
        }
    }
}

/// A string trims to nothing exactly when every character is whitespace.
pub proof fn lemma_trimmed_empty(s: Seq<char>)
    ensures
        trimmed(s).len() == 0 <==> forall|i: int| 0 <= i < s.len() ==> is_white_space(
            #[trigger] s[i],
        ),
{
    lemma_trim_exists(s);
    let (a, b) = choose|a: int, b: int| trim_bounds(s, a, b);
    lemma_trimmed(s, a, b);
    if a == b {
        assert forall|i: int| 0 <= i < s.len() implies is_white_space(#[trigger] s[i]) by {
            if i < a {
            } else {
            }
        }
    } else {
        assert(!is_white_space(s[a]));
    }
}

/// `s` without leading and trailing whitespace (as `str::trim`).
pub fn trim(s: &str) -> (r: String)
    ensures
        r@ == trimmed(s@),
{
    let n = s.unicode_len();
    let mut a: usize = 0;
    while a < n && char_is_white_space(s.get_char(a))
        invariant
            n == s@.len(),
            a <= n,
            forall|i: int| 0 <= i < a ==> is_white_space(#[trigger] s@[i]),
        decreases n - a,
    {
        a = a + 1;
    }
    let mut b: usize = n;
    while b > a && char_is_white_space(s.get_char(b - 1))
        invariant
            n == s@.len(),
            a <= b <= n,
            forall|i: int| b <= i < n ==> is_white_space(#[trigger] s@[i]),
        decreases b,
    {
        b = b - 1;
    }
    proof {
        if a < b {
            assert(!is_white_space(s@[a as int]));
            assert(!is_white_space(s@[b - 1]));
        }
        assert(trim_bounds(s@, a as int, b as int));
        lemma_trimmed(s@, a as int, b as int);
    }
    String::from_str(s.substring_char(a, b))
}

// ---------------------------------------------------------------------------
// Decimal rendering
// ---------------------------------------------------------------------------

/// The ASCII digit for `d < 10`.
pub open spec fn digit_char(d: nat) -> char {
    if d == 0 { '0' }
    else if d == 1 { '1' }
    else if d == 2 { '2' }
    else if d == 3 { '3' }
    else if d == 4 { '4' }
    else if d == 5 { '5' }
    else if d == 6 { '6' }
    else if d == 7 { '7' }
    else if d == 8 { '8' }
    else { '9' }
}

/// The decimal representation of `n`, without sign or leading zeros.
pub open spec fn decimal(n: nat) -> Seq<char>
    decreases n,
{
    if n < 10 {
        seq![digit_char(n)]
    } else {
        decimal(n / 10).push(digit_char(n % 10))
    }
}

/// The number that a string of decimal digits denotes.
pub open spec fn digits_value(s: Seq<char>) -> int
    decreases s.len(),
{
    if s.len() == 0 {
        0
    } else {
        10 * digits_value(s.drop_last()) + (s.last() as int - '0' as int)
    }
}

/// `decimal(n)` is the decimal numeral of `n`: a non-empty run of the
/// digits `0` to `9` that denotes `n`, starting with `0` only for zero.
pub proof fn lemma_decimal_denotes(n: nat)
    ensures
        decimal(n).len() > 0,
        forall|i: int| 0 <= i < decimal(n).len() ==> '0' <= #[trigger] decimal(n)[i] && decimal(n)[i] <= '9',
        digits_value(decimal(n)) == n,
        decimal(n)[0] == '0' ==> n == 0,
    decreases n,
{
    if n < 10 {
        assert(decimal(n) == seq![digit_char(n)]);
        assert(decimal(n).drop_last() =~= Seq::<char>::empty());
        assert(digit_char(n) as int == '0' as int + n);
        assert(digits_value(decimal(n).drop_last()) == 0);
        assert(decimal(n).last() == digit_char(n));
    } else {
        lemma_decimal_denotes(n / 10);
        let d = n % 10;
        assert(digit_char(d) as int == '0' as int + d);
        let s = decimal(n / 10).push(digit_char(d));
        assert(decimal(n) == s);
        assert(s.drop_last() =~= decimal(n / 10));
        assert(n == 10 * (n / 10) + d);
        assert(s.last() == digit_char(d));
        assert(digits_value(s) == 10 * digits_value(decimal(n / 10)) + d);
        assert forall|i: int| 0 <= i < s.len() implies '0' <= #[trigger] s[i] && s[i] <= '9' by {
            if i < s.len() - 1 {
                assert(s[i] == decimal(n / 10)[i]);
            }
        }
        assert(s[0] == decimal(n / 10)[0]);
    }
}

fn digit_str(d: u64) -> (r: &'static str)
    requires
        d < 10,
    ensures
        r@ == seq![digit_char(d as nat)],
{
    proof {
        reveal_strlit("0");
        reveal_strlit("1");
        reveal_strlit("2");
        reveal_strlit("3");
        reveal_strlit("4");
        reveal_strlit("5");
        reveal_strlit("6");
        reveal_strlit("7");
        reveal_strlit("8");
        reveal_strlit("9");
    }
    let r = if d == 0 { "0" }
    else if d == 1 { "1" }
    else if d == 2 { "2" }
    else if d == 3 { "3" }
    else if d == 4 { "4" }
    else if d == 5 { "5" }
    else if d == 6 { "6" }
    else if d == 7 { "7" }
    else if d == 8 { "8" }
    else { "9" };
    assert(r@ =~= seq![digit_char(d as nat)]);
    r
}

/// Renders `n` in decimal, as `Display` does for unsigned integers.
pub fn decimal_string(n: u64) -> (r: String)
    ensures
        r@ == decimal(n as nat),
    decreases n,
{
    if n < 10 {
        String::from_str(digit_str(n))
    } else {
        let mut r = decimal_string(n / 10);
        r.append(digit_str(n % 10));
        r
    }
}

} // verus!
