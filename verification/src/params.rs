//! Parsing of CSI parameter strings: splitting on `;` and reading unsigned
//! decimal numbers the way `str::parse` for unsigned integers does (an
//! optional leading `+`, then decimal digits, rejecting overflow).

use vstd::prelude::*;

verus! {

pub open spec fn is_digit_char(c: char) -> bool {
    '0' <= c && c <= '9'
}

pub open spec fn digit_val(c: char) -> int {
    c as int - '0' as int
}

pub open spec fn all_digits(s: Seq<char>) -> bool {
    forall|i: int| 0 <= i < s.len() ==> is_digit_char(#[trigger] s[i])
}

/// The value of a sequence of decimal digits, most significant first.
pub open spec fn digits_val(s: Seq<char>) -> int
    decreases s.len(),
{
    if s.len() == 0 {
        0
    } else {
        digits_val(s.drop_last()) * 10 + digit_val(s.last())
    }
}

/// The digits of a number literal: everything after an optional leading `+`.
pub open spec fn sign_stripped(s: Seq<char>) -> Seq<char> {
    if s.len() > 0 && s[0] == '+' {
        s.drop_first()
    } else {
        s
    }
}

/// What `str::parse` returns for an unsigned integer type with maximum value
/// `bound`: an optional `+` sign, then at least one digit, and the value must
/// not exceed `bound`.
pub open spec fn parse_uint(s: Seq<char>, bound: int) -> Option<int> {
    let body = sign_stripped(s);
    if body.len() == 0 || !all_digits(body) {
        None
    } else if digits_val(body) > bound {
        None
    } else {
        Some(digits_val(body))
    }
}

/// Index of the first `;` in `s`, or -1 if there is none.
pub open spec fn find_semi(s: Seq<char>) -> int
    decreases s.len(),
{
    if s.len() == 0 {
        -1
    } else if s[0] == ';' {
        0
    } else {
        let r = find_semi(s.drop_first());
        if r < 0 {
            -1
        } else {
            r + 1
        }
    }
}

/// `s` split on `;`: always at least one part, and `n` separators give
/// `n + 1` parts.
pub open spec fn split_semis(s: Seq<char>) -> Seq<Seq<char>>
    decreases s.len(),
{
    let i = find_semi(s);
    if i < 0 || i >= s.len() {
        seq![s]
    } else {
        seq![s.take(i)] + split_semis(s.skip(i + 1))
    }
}

pub proof fn lemma_find_semi_none(s: Seq<char>)
    requires
        forall|i: int| 0 <= i < s.len() ==> s[i] != ';',
    ensures
        find_semi(s) == -1,
    decreases s.len(),
{
    if s.len() > 0 {
        assert(forall|i: int| 0 <= i < s.drop_first().len() ==> s.drop_first()[i] == s[i + 1]);
        lemma_find_semi_none(s.drop_first());
    }
}

pub proof fn lemma_find_semi_at(s: Seq<char>, k: int)
    requires
        0 <= k < s.len(),
        s[k] == ';',
        forall|i: int| 0 <= i < k ==> s[i] != ';',
    ensures
        find_semi(s) == k,
    decreases s.len(),
{
    if k > 0 {
        assert(forall|i: int| 0 <= i < s.drop_first().len() ==> s.drop_first()[i] == s[i + 1]);
        lemma_find_semi_at(s.drop_first(), k - 1);
    }
}

/// Splitting a string whose first separator stands at `k` yields the prefix
/// before `k` and then the split of what follows `k`.
pub proof fn lemma_split_at_semi(s: Seq<char>, k: int)
    requires
        0 <= k < s.len(),
        s[k] == ';',
        forall|i: int| 0 <= i < k ==> s[i] != ';',
    ensures
        split_semis(s) == seq![s.take(k)] + split_semis(s.skip(k + 1)),
{
    lemma_find_semi_at(s, k);
}

pub proof fn lemma_split_no_semi(s: Seq<char>)
    requires
        forall|i: int| 0 <= i < s.len() ==> s[i] != ';',
    ensures
        split_semis(s) == seq![s],
{
    lemma_find_semi_none(s);
}

/// Digit strings denote non-negative values.
pub proof fn lemma_digits_val_nonneg(s: Seq<char>)
    requires
        all_digits(s),
    ensures
        digits_val(s) >= 0,
    decreases s.len(),
{
    if s.len() > 0 {
        assert(all_digits(s.drop_last()));
        lemma_digits_val_nonneg(s.drop_last());
        assert(digit_val(s.last()) >= 0);
    }
}

/// Reading further digits never shrinks the value.
pub proof fn lemma_digits_val_prefix_le(s: Seq<char>, k: int)
    requires
        all_digits(s),
        0 <= k <= s.len(),
    ensures
        digits_val(s.take(k)) <= digits_val(s),
    decreases s.len() - k,
{
    if k < s.len() {
        let t = s.take(k + 1);
        assert(t.drop_last() =~= s.take(k));
        assert(all_digits(s.take(k)));
        lemma_digits_val_nonneg(s.take(k));
        assert(digits_val(t) == digits_val(s.take(k)) * 10 + digit_val(t.last()));
        assert(digit_val(t.last()) >= 0);
        assert(digits_val(s.take(k)) * 10 >= digits_val(s.take(k))) by (nonlinear_arith)
            requires digits_val(s.take(k)) >= 0;
        lemma_digits_val_prefix_le(s, k + 1);
    } else {
        assert(s.take(k) =~= s);
    }
}

/// Parses an unsigned decimal number out of `s`, exactly as `parse_uint`
/// describes; `bound` is the largest admissible value.
pub fn parse_uint_chars(s: &Vec<char>, bound: u64) -> (r: Option<u64>)
    ensures
        match r {
            Some(v) => parse_uint(s@, bound as int) == Some(v as int),
            None => parse_uint(s@, bound as int) is None,
        },
{
    let ghost body: Seq<char> = sign_stripped(s@);
    let mut i: usize = 0;
    if s.len() > 0 && s[0] == '+' {
        i = 1;
    }
    let start: usize = i;
    proof {
        assert(body =~= s@.skip(start as int));
    }
    if i == s.len() {
        return None;
    }
    let mut val: u64 = 0;
    while i < s.len()
        invariant
            start <= i <= s.len(),
            body == sign_stripped(s@),
            body =~= s@.skip(start as int),
            all_digits(body.take(i - start)),
            val == digits_val(body.take(i - start)),
            val <= bound,
        decreases s.len() - i,
    {
        let c = s[i];
        if !('0' <= c && c <= '9') {
            proof {
                assert(!is_digit_char(body[i - start]));
                assert(!all_digits(body));
            }
            return None;
        }
        let d: u32 = (c as u32) - ('0' as u32);
        let wide: u128 = (val as u128) * 10 + (d as u128);
        proof {
            let t = body.take(i - start + 1);
            assert(t.drop_last() =~= body.take(i - start));
            assert(t.last() == body[i - start]);
            assert(digits_val(t) == val * 10 + d);
        }
        if wide > bound as u128 {
            proof {
                if all_digits(body) {
                    lemma_digits_val_prefix_le(body, i - start + 1);
                }
            }
            return None;
        }
        val = (wide as u64);
        i = i + 1;
    }
    proof {
        assert(body.take(i - start) =~= body);
    }
    Some(val)
}

/// Splits `s` on `;`, as `split_semis` describes.
pub fn split_params(s: &Vec<char>) -> (parts: Vec<Vec<char>>)
    ensures
        parts@.map_values(|p: Vec<char>| p@) == split_semis(s@),
{
    let mut parts: Vec<Vec<char>> = Vec::new();
    let mut cur: Vec<char> = Vec::new();
    let mut i: usize = 0;
    let ghost mut st: int = 0;
    proof {
        assert(s@.skip(0) =~= s@);
        assert(parts@.map_values(|p: Vec<char>| p@) =~= Seq::<Seq<char>>::empty());
        assert(parts@.map_values(|p: Vec<char>| p@) + split_semis(s@) =~= split_semis(s@));
    }
    while i < s.len()
        invariant
            0 <= st <= i <= s.len(),
            cur@ =~= s@.subrange(st, i as int),
            forall|j: int| st <= j < i ==> s@[j] != ';',
            split_semis(s@) == parts@.map_values(|p: Vec<char>| p@) + split_semis(
                s@.skip(st),
            ),
        decreases s.len() - i,
    {
        let c = s[i];
        if c == ';' {
            proof {
                let rest = s@.skip(st);
                let k = i - st;
                assert(rest[k] == s@[i as int]);
                assert(forall|j: int| 0 <= j < k ==> rest[j] == s@[j + st] && rest[j] != ';');
                lemma_split_at_semi(rest, k);
                assert(rest.take(k) =~= cur@);
                assert(rest.skip(k + 1) =~= s@.skip(i + 1));
                assert((parts@.push(cur)).map_values(|p: Vec<char>| p@) =~= parts@.map_values(
                    |p: Vec<char>| p@,
                ).push(cur@));
            }
            parts.push(cur);
            cur = Vec::new();
            proof {
                st = i + 1;
            }
        } else {
            cur.push(c);
            proof {
                assert(cur@ =~= s@.subrange(st, i + 1));
            }
        }
        i = i + 1;
    }
    proof {
        let rest = s@.skip(st);
        assert(forall|j: int| 0 <= j < rest.len() ==> rest[j] == s@[j + st] && rest[j] != ';');
        lemma_split_no_semi(rest);
        assert(rest =~= cur@);
        assert((parts@.push(cur)).map_values(|p: Vec<char>| p@) =~= parts@.map_values(
            |p: Vec<char>| p@,
        ).push(cur@));
    }
    parts.push(cur);
    parts
}

} // verus!
