//! Shard name patterns: templates with the placeholders `{shard_id}`,
//! `{shard_id:WIDTH}` and `{ext}`.

use vstd::prelude::*;
use crate::text::{chars_of, decimal, decimal_digits, has_prefix, has_suffix, lemma_skip_prefix, occurs_at_index, zero_padded, zero_padded_digits};

verus! {

/// Whether a character is a decimal digit.
pub open spec fn is_digit(c: char) -> bool {
    '0' <= c <= '9'
}

/// The number of digits that `s` begins with.
pub open spec fn digits_len(s: Seq<char>) -> int
    decreases s.len(),
{
    if s.len() == 0 || !is_digit(s[0]) {
        0
    } else {
        1 + digits_len(s.skip(1))
    }
}

/// The number that the digits of `s` write in decimal.
pub open spec fn digits_value(s: Seq<char>) -> nat
    decreases s.len(),
{
    if s.len() == 0 {
        0
    } else {
        digits_value(s.drop_last()) * 10 + ((s.last() as u32 - '0' as u32) as nat)
    }
}

/// The placeholder of the extension.
pub open spec fn ext_mark() -> Seq<char> {
    seq!['{', 'e', 'x', 't', '}']
}

/// The placeholder of the shard number.
pub open spec fn id_mark() -> Seq<char> {
    seq!['{', 's', 'h', 'a', 'r', 'd', '_', 'i', 'd', '}']
}

/// The beginning of the placeholder of the padded shard number.
pub open spec fn padded_mark() -> Seq<char> {
    seq!['{', 's', 'h', 'a', 'r', 'd', '_', 'i', 'd', ':']
}

/// The width of the placeholder `{shard_id:WIDTH}` that `p` begins with:
/// `WIDTH` is one digit or more and fits the machine's word.
pub open spec fn padded_placeholder(p: Seq<char>) -> Option<(nat, int)> {
    if has_prefix(p, padded_mark()) {
        let w = digits_len(p.skip(10));
        if w > 0 && 10 + w < p.len() && p[10 + w] == '}' && digits_value(p.subrange(10, 10 + w))
            <= usize::MAX {
            Some((digits_value(p.subrange(10, 10 + w)), 10 + w + 1))
        } else {
            None
        }
    } else {
        None
    }
}

/// The pattern with its placeholders filled in, read from left to right:
/// `{ext}` becomes `ext`, `{shard_id}` the shard number in decimal, and
/// `{shard_id:WIDTH}` the shard number padded with zeros to `WIDTH` digits.
/// Any other text stands for itself.
pub open spec fn expanded(p: Seq<char>, ext: Seq<char>, id: nat) -> Seq<char>
    decreases p.len(),
{
    if p.len() == 0 {
        p
    } else if has_prefix(p, ext_mark()) {
        ext + expanded(p.skip(5), ext, id)
    } else if has_prefix(p, id_mark()) {
        decimal(id) + expanded(p.skip(10), ext, id)
    } else {
        match padded_placeholder(p) {
            Some((width, len)) => zero_padded(id, width) + expanded(p.skip(len), ext, id),
            None => seq![p[0]] + expanded(p.skip(1), ext, id),
        }
    }
}

/// A file name under a directory: `name` itself where it begins at the root
/// or the directory is empty, else the directory, a slash where it ends in
/// none, and `name`.
pub open spec fn path_under(base: Seq<char>, name: Seq<char>) -> Seq<char> {
    if base.len() == 0 || has_prefix(name, "/"@) {
        name
    } else if has_suffix(base, "/"@) {
        base + name
    } else {
        base.push('/') + name
    }
}

proof fn lemma_digits_len_bounds(s: Seq<char>)
    ensures
        0 <= digits_len(s) <= s.len(),
        forall|k: int| 0 <= k < digits_len(s) ==> is_digit(s[k]),
        digits_len(s) < s.len() ==> !is_digit(s[digits_len(s)]),
    decreases s.len(),
{
    if s.len() > 0 && is_digit(s[0]) {
        lemma_digits_len_bounds(s.skip(1));
        assert forall|k: int| 0 <= k < digits_len(s) implies is_digit(s[k]) by {
            if k > 0 {
                assert(s.skip(1)[k - 1] == s[k]);
            }
        }
    }
}

/// Reads the width of a padded placeholder that begins at `at`.
fn read_padded(p: &Vec<char>, at: usize) -> (r: Option<(usize, usize)>)
    requires
        at <= p.len(),
    ensures
        match r {
            Some((width, len)) => padded_placeholder(p@.skip(at as int)) == Some((width as nat, len as int))
                && at + len <= p.len() && len > 0,
            None => padded_placeholder(p@.skip(at as int)) is None,
        },
{
    let open: Vec<char> = vec!['{', 's', 'h', 'a', 'r', 'd', '_', 'i', 'd', ':'];
    let ghost rest = p@.skip(at as int);
    proof {
        assert(open@ =~= padded_mark());
        lemma_skip_prefix(p@, at as int, open@);
    }
    if !occurs_at_index(p, at, &open) {
        return None;
    }
    let start: usize = at + 10;
    let ghost tail = rest.skip(10);
    proof {
        assert(tail =~= p@.skip(start as int));
        lemma_digits_len_bounds(tail);
    }
    let mut j: usize = start;
    let mut value: usize = 0;
    let mut fits = true;
    assert(rest.subrange(10, 10) =~= Seq::<char>::empty());
    while j < p.len() && '0' <= p[j] && p[j] <= '9'
        invariant
            start == at + 10,
            start <= j <= p.len(),
            rest == p@.skip(at as int),
            tail == rest.skip(10),
            tail == p@.skip(start as int),
            j - start <= digits_len(tail),
            forall|k: int| 0 <= k < j - start ==> is_digit(tail[k]),
            fits ==> value == digits_value(rest.subrange(10, 10 + (j - start))),
            !fits ==> digits_value(rest.subrange(10, 10 + (j - start))) > usize::MAX,
        decreases p.len() - j,
    {
        let d: usize = (p[j] as u32 - '0' as u32) as usize;
        let ghost before = rest.subrange(10, 10 + (j - start));
        let ghost after = rest.subrange(10, 10 + (j + 1 - start));
        proof {
            assert(after.drop_last() =~= before);
            assert(after.last() == p@[j as int]);
            assert(tail[j - start] == p@[j as int]);
            lemma_digit_run(tail, j - start);
        }
        if fits {
            match value.checked_mul(10) {
                Some(tens) => match tens.checked_add(d) {
                    Some(v) => {
                        value = v;
                    },
                    None => {
                        fits = false;
                    },
                },
                None => {
                    fits = false;
                },
            }
        }
        j += 1;
    }
    let w: usize = j - start;
    proof {
        lemma_digits_len_bounds(tail);
        if j < p.len() {
            assert(tail[j - start] == p@[j as int]);
            lemma_digit_run_stops(tail, j - start);
        } else {
            assert(digits_len(tail) <= tail.len());
        }
        assert(digits_len(tail) == w);
    }
    if w == 0 || j >= p.len() || p[j] != '}' || !fits {
        proof {
            if j < p.len() {
                assert(rest[10 + w] == p@[j as int]);
            }
        }
        return None;
    }
    proof {
        assert(rest[10 + w] == p@[j as int]);
    }
    Some((value, 10 + w + 1))
}

/// Where the first `n` characters are digits, the run of digits is at
/// least `n + 1` long if the next one is a digit too.
proof fn lemma_digit_run(s: Seq<char>, n: int)
    requires
        0 <= n < s.len(),
        forall|k: int| 0 <= k <= n ==> is_digit(s[k]),
    ensures
        digits_len(s) >= n + 1,
    decreases n,
{
    lemma_digits_len_bounds(s.skip(1));
    if n > 0 {
        assert forall|k: int| 0 <= k <= n - 1 implies is_digit(s.skip(1)[k]) by {
            assert(s.skip(1)[k] == s[k + 1]);
        }
        lemma_digit_run(s.skip(1), n - 1);
    }
}

/// Where the first `n` characters are digits and the next is none, the run
/// of digits is `n` long.
proof fn lemma_digit_run_stops(s: Seq<char>, n: int)
    requires
        0 <= n < s.len(),
        forall|k: int| 0 <= k < n ==> is_digit(s[k]),
        !is_digit(s[n]),
    ensures
        digits_len(s) == n,
    decreases n,
{
    if n > 0 {
        assert forall|k: int| 0 <= k < n - 1 implies is_digit(s.skip(1)[k]) by {
            assert(s.skip(1)[k] == s[k + 1]);
        }
        assert(s.skip(1)[n - 1] == s[n]);
        lemma_digit_run_stops(s.skip(1), n - 1);
    }
}

/// Fills the placeholders of a shard name pattern.
pub fn expand_pattern(pattern: &Vec<char>, ext: &Vec<char>, shard_id: usize) -> (r: Vec<char>)
    ensures
        r@ == expanded(pattern@, ext@, shard_id as nat),
{
    let ext_mark: Vec<char> = vec!['{', 'e', 'x', 't', '}'];
    let id_mark: Vec<char> = vec!['{', 's', 'h', 'a', 'r', 'd', '_', 'i', 'd', '}'];
    proof {
        assert(ext_mark@ =~= self::ext_mark());
        assert(id_mark@ =~= self::id_mark());
    }
    let mut out: Vec<char> = Vec::new();
    let mut i: usize = 0;
    assert(pattern@.skip(0) =~= pattern@);
    while i < pattern.len()
        invariant
            i <= pattern.len(),
            ext_mark@ == self::ext_mark(),
            id_mark@ == self::id_mark(),
            expanded(pattern@, ext@, shard_id as nat) == out@ + expanded(
                pattern@.skip(i as int),
                ext@,
                shard_id as nat,
            ),
        decreases pattern.len() - i,
    {
        let ghost rest = pattern@.skip(i as int);
        let ghost before = out@;
        proof {
            lemma_skip_prefix(pattern@, i as int, ext_mark@);
            lemma_skip_prefix(pattern@, i as int, id_mark@);
        }
        if occurs_at_index(pattern, i, &ext_mark) {
            out.extend_from_slice(ext.as_slice());
            proof {
                assert(rest.skip(5) =~= pattern@.skip(i + 5));
                let tail = expanded(pattern@.skip(i + 5), ext@, shard_id as nat);
                assert((before + ext@) + tail =~= before + (ext@ + tail));
            }
            i += 5;
        } else if occurs_at_index(pattern, i, &id_mark) {
            let digits = decimal_digits(shard_id);
            out.extend_from_slice(digits.as_slice());
            proof {
                assert(rest.skip(10) =~= pattern@.skip(i + 10));
                let tail = expanded(pattern@.skip(i + 10), ext@, shard_id as nat);
                assert((before + digits@) + tail =~= before + (digits@ + tail));
            }
            i += 10;
        } else {
            match read_padded(pattern, i) {
                Some((width, len)) => {
                    let digits = zero_padded_digits(shard_id, width);
                    out.extend_from_slice(digits.as_slice());
                    proof {
                        assert(rest.skip(len as int) =~= pattern@.skip(i + len));
                        let tail = expanded(pattern@.skip(i + len), ext@, shard_id as nat);
                        assert((before + digits@) + tail =~= before + (digits@ + tail));
                    }
                    i += len;
                },
                None => {
                    out.push(pattern[i]);
                    proof {
                        assert(rest.skip(1) =~= pattern@.skip(i + 1));
                        let tail = expanded(pattern@.skip(i + 1), ext@, shard_id as nat);
                        assert(before.push(pattern@[i as int]) + tail =~= before + (seq![rest[0]] + tail));
                    }
                    i += 1;
                },
            }
        }
    }
    proof {
        assert(pattern@.skip(pattern@.len() as int) =~= Seq::<char>::empty());
        assert(out@ + Seq::<char>::empty() =~= out@);
    }
    out
}

/// The path of a file name under a directory.
pub fn join_path(base: &Vec<char>, name: &Vec<char>) -> (r: Vec<char>)
    ensures
        r@ == path_under(base@, name@),
{
    let slash = chars_of("/");
    proof {
        reveal_strlit("/");
    }
    let mut out: Vec<char> = Vec::new();
    if base.len() == 0 || crate::text::starts_with(name, &slash) {
        out.extend_from_slice(name.as_slice());
        assert(out@ =~= name@);
        return out;
    }
    out.extend_from_slice(base.as_slice());
    if !crate::text::ends_with(base, &slash) {
        out.push('/');
    }
    out.extend_from_slice(name.as_slice());
    out
}

} // verus!
