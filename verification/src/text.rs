//! Text as sequences of characters: the small string vocabulary that paths,
//! shard names and dataset identifiers are built from.

use vstd::prelude::*;

verus! {

/// The characters of a string, in order (`str::chars`, collected).
#[verifier::external_body]
pub(crate) fn chars_of(s: &str) -> (r: Vec<char>)
    ensures
        r@ == s@,
{
    s.chars().collect()
}

/// The string made of the given characters (`String::from_iter`).
#[verifier::external_body]
pub(crate) fn string_of(v: &Vec<char>) -> (r: String)
    ensures
        r@ == v@,
{
    String::from_iter(v.iter())
}

/// `p` stands in `s` at offset `i`.
pub open spec fn occurs_at(s: Seq<char>, i: int, p: Seq<char>) -> bool {
    0 <= i && i + p.len() <= s.len() && s.subrange(i, i + p.len()) == p
}

/// `s` begins with `p`.
pub open spec fn has_prefix(s: Seq<char>, p: Seq<char>) -> bool {
    occurs_at(s, 0, p)
}

/// `s` ends with `p`.
pub open spec fn has_suffix(s: Seq<char>, p: Seq<char>) -> bool {
    occurs_at(s, s.len() - p.len(), p)
}

/// `s` with every occurrence of `pat` replaced by `to`, found left to right
/// without overlap. An empty `pat` occurs nowhere.
pub open spec fn replaced(s: Seq<char>, pat: Seq<char>, to: Seq<char>) -> Seq<char>
    decreases s.len(),
{
    if pat.len() == 0 || s.len() < pat.len() {
        s
    } else if has_prefix(s, pat) {
        to + replaced(s.skip(pat.len() as int), pat, to)
    } else {
        seq![s[0]] + replaced(s.skip(1), pat, to)
    }
}

/// `s` without the run of `c` at its end.
pub open spec fn trimmed_end(s: Seq<char>, c: char) -> Seq<char>
    decreases s.len(),
{
    if s.len() > 0 && s.last() == c {
        trimmed_end(s.drop_last(), c)
    } else {
        s
    }
}

/// The character of a decimal digit.
pub open spec fn digit_char(d: int) -> char {
    ((48 + d) as u8) as char
}

/// `n` in decimal, without sign or padding.
pub open spec fn decimal(n: nat) -> Seq<char>
    decreases n,
{
    if n < 10 {
        seq![digit_char(n as int)]
    } else {
        decimal(n / 10).push(digit_char((n % 10) as int))
    }
}

/// `n` in decimal, padded with zeros on the left to at least `width` characters.
pub open spec fn zero_padded(n: nat, width: nat) -> Seq<char> {
    let d = decimal(n);
    if d.len() >= width {
        d
    } else {
        Seq::new((width - d.len()) as nat, |i: int| '0') + d
    }
}

/// Whether `char::is_whitespace` holds of a character.
pub uninterp spec fn white_space(c: char) -> bool;

/// What `str::to_lowercase` gives: the text in lower case.
pub uninterp spec fn lowercased(s: Seq<char>) -> Seq<char>;

/// `s` without the white space that it begins with.
pub open spec fn without_leading_space(s: Seq<char>) -> Seq<char>
    decreases s.len(),
{
    if s.len() > 0 && white_space(s[0]) {
        without_leading_space(s.skip(1))
    } else {
        s
    }
}

/// `s` without the white space that it ends with.
pub open spec fn without_trailing_space(s: Seq<char>) -> Seq<char>
    decreases s.len(),
{
    if s.len() > 0 && white_space(s.last()) {
        without_trailing_space(s.drop_last())
    } else {
        s
    }
}

/// The text without the white space at its ends.
pub open spec fn trimmed(s: Seq<char>) -> Seq<char> {
    without_trailing_space(without_leading_space(s))
}

/// `char::is_whitespace`.
#[verifier::external_body]
pub(crate) fn is_whitespace(c: char) -> (r: bool)
    ensures
        r == white_space(c),
{
    c.is_whitespace()
}

/// `str::trim`, copied: the text without the white space at its ends,
/// white space being what `char::is_whitespace` tells.
#[verifier::external_body]
pub(crate) fn trim(s: &str) -> (r: String)
    ensures
        r@ == trimmed(s@),
{
    s.trim().to_string()
}

/// `str::to_lowercase`.
#[verifier::external_body]
pub(crate) fn lowercase(s: &str) -> (r: String)
    ensures
        r@ == lowercased(s@),
{
    s.to_lowercase()
}

/// The offset of the first `c` in `s`, or the length of `s` where there is none.
pub open spec fn first_at(s: Seq<char>, c: char) -> int
    decreases s.len(),
{
    if s.len() == 0 || s[0] == c {
        0
    } else {
        1 + first_at(s.skip(1), c)
    }
}

/// `s` without the copies of `p` that it begins with.
pub open spec fn trimmed_start(s: Seq<char>, p: Seq<char>) -> Seq<char>
    decreases s.len(),
{
    if p.len() > 0 && has_prefix(s, p) {
        trimmed_start(s.skip(p.len() as int), p)
    } else {
        s
    }
}

/// `a` comes before `b` in the order of strings: character by character, a
/// proper prefix first.
pub open spec fn lex_less(a: Seq<char>, b: Seq<char>) -> bool
    decreases a.len(),
{
    if b.len() == 0 {
        false
    } else if a.len() == 0 {
        true
    } else if a[0] != b[0] {
        (a[0] as u32) < (b[0] as u32)
    } else {
        lex_less(a.skip(1), b.skip(1))
    }
}

pub proof fn lemma_first_at_bounds(s: Seq<char>, c: char)
    ensures
        0 <= first_at(s, c) <= s.len(),
        first_at(s, c) < s.len() ==> s[first_at(s, c)] == c,
        forall|k: int| 0 <= k < first_at(s, c) ==> s[k] != c,
    decreases s.len(),
{
    if s.len() > 0 && s[0] != c {
        lemma_first_at_bounds(s.skip(1), c);
        assert forall|k: int| 0 <= k < first_at(s, c) implies s[k] != c by {
            if k > 0 {
                assert(s.skip(1)[k - 1] == s[k]);
            }
        }
    }
}

/// The index of the first `c` at or after `from`, or the length of `s`.
pub fn find_from(s: &Vec<char>, from: usize, c: char) -> (r: usize)
    requires
        from <= s.len(),
    ensures
        r == from + first_at(s@.skip(from as int), c),
        from <= r <= s.len(),
{
    let mut i: usize = from;
    proof {
        lemma_first_at_bounds(s@.skip(from as int), c);
    }
    while i < s.len() && s[i] != c
        invariant
            from <= i <= s.len(),
            from + first_at(s@.skip(from as int), c) == i + first_at(s@.skip(i as int), c),
        decreases s.len() - i,
    {
        assert(s@.skip(i as int).skip(1) =~= s@.skip(i + 1));
        i += 1;
    }
    proof {
        lemma_first_at_bounds(s@.skip(i as int), c);
    }
    i
}

/// The characters of `s` from `from` up to `to`.
pub fn slice(s: &Vec<char>, from: usize, to: usize) -> (r: Vec<char>)
    requires
        from <= to <= s.len(),
    ensures
        r@ == s@.subrange(from as int, to as int),
{
    let mut out: Vec<char> = Vec::new();
    let mut i: usize = from;
    while i < to
        invariant
            from <= i <= to <= s.len(),
            out@ == s@.subrange(from as int, i as int),
        decreases to - i,
    {
        out.push(s[i]);
        assert(s@.subrange(from as int, i as int).push(s@[i as int]) =~= s@.subrange(
            from as int,
            i + 1,
        ));
        i += 1;
    }
    out
}

/// `s` without the copies of `p` that it begins with.
pub fn trim_start(s: &Vec<char>, p: &Vec<char>) -> (r: Vec<char>)
    ensures
        r@ == trimmed_start(s@, p@),
{
    let mut i: usize = 0;
    assert(s@.skip(0) =~= s@);
    if p.len() > 0 {
        while occurs_at_index(s, i, p)
            invariant
                p.len() > 0,
                i <= s.len(),
                trimmed_start(s@, p@) == trimmed_start(s@.skip(i as int), p@),
            decreases s.len() - i,
        {
            proof {
                lemma_skip_prefix(s@, i as int, p@);
                assert(s@.skip(i as int).skip(p@.len() as int) =~= s@.skip(i + p@.len()));
            }
            i += p.len();
        }
        proof {
            lemma_skip_prefix(s@, i as int, p@);
        }
    }
    let r = slice(s, i, s.len());
    assert(s@.subrange(i as int, s@.len() as int) =~= s@.skip(i as int));
    r
}

/// Nothing comes before itself.
pub proof fn lemma_lex_less_irreflexive(a: Seq<char>)
    ensures
        !lex_less(a, a),
    decreases a.len(),
{
    if a.len() > 0 {
        lemma_lex_less_irreflexive(a.skip(1));
    }
}

/// What comes before something that comes before a third comes before the third.
pub proof fn lemma_lex_less_transitive(a: Seq<char>, b: Seq<char>, c: Seq<char>)
    requires
        lex_less(a, b),
        lex_less(b, c),
    ensures
        lex_less(a, c),
    decreases a.len(),
{
    if a.len() > 0 && b.len() > 0 && c.len() > 0 {
        if a[0] == b[0] && b[0] == c[0] {
            lemma_lex_less_transitive(a.skip(1), b.skip(1), c.skip(1));
        }
    }
}

/// Whether `a` comes before `b` in the order of strings.
pub fn less_than(a: &Vec<char>, b: &Vec<char>) -> (r: bool)
    ensures
        r == lex_less(a@, b@),
{
    let mut i: usize = 0;
    assert(a@.skip(0) =~= a@);
    assert(b@.skip(0) =~= b@);
    while i < a.len() && i < b.len() && a[i] == b[i]
        invariant
            i <= a.len(),
            i <= b.len(),
            lex_less(a@, b@) == lex_less(a@.skip(i as int), b@.skip(i as int)),
        decreases a.len() - i,
    {
        assert(a@.skip(i as int).skip(1) =~= a@.skip(i + 1));
        assert(b@.skip(i as int).skip(1) =~= b@.skip(i + 1));
        i += 1;
    }
    if i >= b.len() {
        false
    } else if i >= a.len() {
        true
    } else {
        (a[i] as u32) < (b[i] as u32)
    }
}

/// The views of a vector of texts.
pub open spec fn views(items: Seq<Vec<char>>) -> Seq<Seq<char>> {
    items.map_values(|t: Vec<char>| t@)
}

/// No text comes before one that stands earlier.
pub open spec fn ascending(items: Seq<Seq<char>>) -> bool {
    forall|i: int, j: int| 0 <= i < j < items.len() ==> !lex_less(#[trigger] items[j], #[trigger] items[i])
}

/// The texts in the order of strings; equal texts keep their order.
pub fn sort_texts(items: &Vec<Vec<char>>) -> (r: Vec<Vec<char>>)
    ensures
        ascending(views(r@)),
        views(r@).to_multiset() == views(items@).to_multiset(),
{
    broadcast use vstd::seq_lib::group_to_multiset_ensures;

    let mut out: Vec<Vec<char>> = Vec::new();
    let mut k: usize = 0;
    assert(views(items@).take(0) =~= Seq::<Seq<char>>::empty());
    assert(views(out@) =~= Seq::<Seq<char>>::empty());
    while k < items.len()
        invariant
            k <= items@.len(),
            ascending(views(out@)),
            views(out@).to_multiset() == views(items@).take(k as int).to_multiset(),
        decreases items@.len() - k,
    {
        let item = slice(&items[k], 0, items[k].len());
        assert(item@ =~= items@[k as int]@);
        let mut p: usize = 0;
        while p < out.len() && !less_than(&item, &out[p])
            invariant
                p <= out@.len(),
                forall|i: int| 0 <= i < p ==> !lex_less(item@, #[trigger] out@[i]@),
            decreases out@.len() - p,
        {
            p += 1;
        }
        let ghost before = views(out@);
        let ghost taken = views(items@).take(k as int);
        out.insert(p, item);
        proof {
            let after = views(out@);
            assert(after =~= before.insert(p as int, item@));
            assert(after.remove(p as int) =~= before);
            vstd::seq_lib::to_multiset_remove(after, p as int);
            assert(after.to_multiset().count(item@) > 0) by {
                assert(after[p as int] == item@);
                assert(after.contains(item@));
                after.to_multiset_ensures();
            }
            taken.to_multiset_ensures();
            assert(after.to_multiset() =~= before.to_multiset().insert(item@));
            let next = views(items@).take(k + 1);
            assert(next =~= taken.push(item@));
            assert forall|i: int, j: int| 0 <= i < j < after.len() implies !lex_less(
                #[trigger] after[j],
                #[trigger] after[i],
            ) by {
                if j == p {
                    assert(after[i] == before[i]);
                } else if i == p {
                    assert(after[j] == before[j - 1]);
                    if p < before.len() {
                        assert(lex_less(item@, before[p as int]));
                        if lex_less(before[j - 1], item@) {
                            lemma_lex_less_transitive(before[j - 1], item@, before[p as int]);
                            lemma_lex_less_irreflexive(before[p as int]);
                            if j - 1 > p {
                                assert(!lex_less(before[j - 1], before[p as int]));
                            }
                        }
                    }
                } else {
                    let a = if i < p {
                        i
                    } else {
                        i - 1
                    };
                    let b = if j < p {
                        j
                    } else {
                        j - 1
                    };
                    assert(after[i] == before[a]);
                    assert(after[j] == before[b]);
                }
            }
        }
        k += 1;
    }
    assert(views(items@).take(items@.len() as int) =~= views(items@));
    out
}


pub fn occurs_at_index(s: &Vec<char>, i: usize, p: &Vec<char>) -> (r: bool)
    ensures
        r == occurs_at(s@, i as int, p@),
{
    if p.len() > s.len() || i > s.len() - p.len() {
        return false;
    }
    let mut j: usize = 0;
    while j < p.len()
        invariant
            j <= p.len(),
            i + p.len() <= s.len(),
            forall|k: int| 0 <= k < j ==> s@[i + k] == p@[k],
        decreases p.len() - j,
    {
        if s[i + j] != p[j] {
            assert(s@.subrange(i as int, i + p@.len())[j as int] == s@[i + j]);
            return false;
        }
        j += 1;
    }
    assert(s@.subrange(i as int, i + p@.len()) =~= p@);
    true
}

pub fn starts_with(s: &Vec<char>, p: &Vec<char>) -> (r: bool)
    ensures
        r == has_prefix(s@, p@),
{
    occurs_at_index(s, 0, p)
}

pub fn ends_with(s: &Vec<char>, p: &Vec<char>) -> (r: bool)
    ensures
        r == has_suffix(s@, p@),
{
    if p.len() > s.len() {
        return false;
    }
    occurs_at_index(s, s.len() - p.len(), p)
}

/// Whether the string `s` ends with the string `p`.
pub fn str_ends_with(s: &str, p: &str) -> (r: bool)
    ensures
        r == has_suffix(s@, p@),
{
    let sv = chars_of(s);
    let pv = chars_of(p);
    ends_with(&sv, &pv)
}

/// Whether the string `s` begins with the string `p`.
pub fn str_starts_with(s: &str, p: &str) -> (r: bool)
    ensures
        r == has_prefix(s@, p@),
{
    let sv = chars_of(s);
    let pv = chars_of(p);
    starts_with(&sv, &pv)
}

/// Whether two strings hold the same characters.
pub fn str_eq(a: &str, b: &str) -> (r: bool)
    ensures
        r == (a@ == b@),
{
    let av = chars_of(a);
    let bv = chars_of(b);
    if av.len() != bv.len() {
        return false;
    }
    let r = occurs_at_index(&av, 0, &bv);
    proof {
        assert(av@.subrange(0, av@.len() as int) =~= av@);
    }
    r
}

pub proof fn lemma_skip_prefix(s: Seq<char>, i: int, p: Seq<char>)
    requires
        0 <= i <= s.len(),
    ensures
        has_prefix(s.skip(i), p) == occurs_at(s, i, p),
{
    if i + p.len() <= s.len() {
        assert(s.skip(i).subrange(0, p.len() as int) =~= s.subrange(i, i + p.len()));
    }
}

pub fn replace_all(s: &Vec<char>, pat: &Vec<char>, to: &Vec<char>) -> (r: Vec<char>)
    ensures
        r@ == replaced(s@, pat@, to@),
{
    let mut out: Vec<char> = Vec::new();
    if pat.len() == 0 {
        out.extend_from_slice(s.as_slice());
        assert(out@ =~= s@);
        return out;
    }
    let mut i: usize = 0;
    assert(s@.skip(0) =~= s@);
    while i < s.len()
        invariant
            pat.len() > 0,
            i <= s.len(),
            replaced(s@, pat@, to@) == out@ + replaced(s@.skip(i as int), pat@, to@),
        decreases s.len() - i,
    {
        let ghost rest = s@.skip(i as int);
        proof {
            lemma_skip_prefix(s@, i as int, pat@);
        }
        if occurs_at_index(s, i, pat) {
            let ghost before = out@;
            out.extend_from_slice(to.as_slice());
            proof {
                assert(rest.skip(pat@.len() as int) =~= s@.skip(i + pat@.len()));
                assert((before + to@) + replaced(s@.skip(i + pat@.len()), pat@, to@) =~= before + (
                to@ + replaced(s@.skip(i + pat@.len()), pat@, to@)));
            }
            i += pat.len();
        } else {
            let ghost before = out@;
            out.push(s[i]);
            proof {
                assert(rest.skip(1) =~= s@.skip(i + 1));
                if rest.len() < pat@.len() {
                    lemma_replaced_short(rest, pat@, to@);
                    lemma_replaced_short(s@.skip(i + 1), pat@, to@);
                    assert(rest =~= seq![s@[i as int]] + s@.skip(i + 1));
                }
                assert(before.push(s@[i as int]) + replaced(s@.skip(i + 1), pat@, to@) =~= before
                    + (seq![s@[i as int]] + replaced(s@.skip(i + 1), pat@, to@)));
            }
            i += 1;
        }
    }
    proof {
        assert(s@.skip(s@.len() as int) =~= Seq::<char>::empty());
        assert(out@ + Seq::<char>::empty() =~= out@);
    }
    out
}

proof fn lemma_replaced_short(s: Seq<char>, pat: Seq<char>, to: Seq<char>)
    requires
        s.len() < pat.len(),
    ensures
        replaced(s, pat, to) == s,
{
}

pub fn trim_end(s: &Vec<char>, c: char) -> (r: Vec<char>)
    ensures
        r@ == trimmed_end(s@, c),
{
    let mut n: usize = s.len();
    assert(s@.subrange(0, n as int) =~= s@);
    while n > 0 && s[n - 1] == c
        invariant
            n <= s.len(),
            trimmed_end(s@, c) == trimmed_end(s@.subrange(0, n as int), c),
        decreases n,
    {
        assert(s@.subrange(0, n as int).drop_last() =~= s@.subrange(0, n - 1));
        n -= 1;
    }
    let mut out: Vec<char> = Vec::new();
    let mut i: usize = 0;
    while i < n
        invariant
            i <= n <= s.len(),
            out@ == s@.subrange(0, i as int),
        decreases n - i,
    {
        out.push(s[i]);
        assert(s@.subrange(0, i as int).push(s@[i as int]) =~= s@.subrange(0, i + 1));
        i += 1;
    }
    out
}

/// `n` in decimal.
pub fn decimal_digits(n: usize) -> (r: Vec<char>)
    ensures
        r@ == decimal(n as nat),
{
    let mut out: Vec<char> = Vec::new();
    let mut m: usize = n;
    while m >= 10
        invariant
            decimal(n as nat) == decimal(m as nat) + out@,
        decreases m,
    {
        let d: u8 = (m % 10) as u8;
        let c: char = (48u8 + d) as char;
        let ghost lower = out@;
        out.insert(0, c);
        assert(decimal((m / 10) as nat) + out@ =~= decimal((m / 10) as nat).push(c) + lower);
        m = m / 10;
    }
    let d: u8 = m as u8;
    let c: char = (48u8 + d) as char;
    let ghost lower = out@;
    out.insert(0, c);
    assert(out@ =~= seq![c] + lower);
    out
}

/// `n` in decimal, padded with zeros on the left to at least `width` characters.
pub fn zero_padded_digits(n: usize, width: usize) -> (r: Vec<char>)
    ensures
        r@ == zero_padded(n as nat, width as nat),
{
    let digits = decimal_digits(n);
    if digits.len() >= width {
        return digits;
    }
    let pad: usize = width - digits.len();
    let mut out: Vec<char> = Vec::new();
    let mut i: usize = 0;
    while i < pad
        invariant
            i <= pad,
            out@ == Seq::new(i as nat, |k: int| '0'),
        decreases pad - i,
    {
        out.push('0');
        assert(out@ =~= Seq::new((i + 1) as nat, |k: int| '0'));
        i += 1;
    }
    out.extend_from_slice(digits.as_slice());
    out
}

} // verus!
