//! Reading numbers and fixed-shape records out of the text of a resource.
//!
//! Each reader works on bytes and states, over spec functions on `Seq<u8>`,
//! exactly which text it accepts and what it takes from it.
use vstd::prelude::*;
use crate::error::{is_parse_error_of, Error};

verus! {

pub open spec fn is_digit(b: u8) -> bool {
    48 <= b <= 57
}

/// ASCII white space: space, tab, line feed, vertical tab, form feed, carriage return.
pub open spec fn is_space(b: u8) -> bool {
    b == 32 || (9 <= b <= 13)
}

/// Number of digits in the run that starts at `i`.
pub open spec fn digit_run(s: Seq<u8>, i: int) -> nat
    decreases s.len() - i,
{
    if 0 <= i < s.len() && is_digit(s[i]) {
        1 + digit_run(s, i + 1)
    } else {
        0
    }
}

/// Number of white-space bytes in the run that starts at `i`.
pub open spec fn space_run(s: Seq<u8>, i: int) -> nat
    decreases s.len() - i,
{
    if 0 <= i < s.len() && is_space(s[i]) {
        1 + space_run(s, i + 1)
    } else {
        0
    }
}

/// The value of a sequence of decimal digits.
pub open spec fn digits_value(s: Seq<u8>) -> nat
    decreases s.len(),
{
    if s.len() == 0 {
        0
    } else {
        digits_value(s.drop_last()) * 10 + (s.last() - 48) as nat
    }
}

/// The number written at `i` (a non-empty run of digits, read whole) and where it ends.
pub open spec fn number_at(s: Seq<u8>, i: int) -> Option<(nat, int)> {
    let d = digit_run(s, i);
    if d == 0 {
        None
    } else {
        Some((digits_value(s.subrange(i, i + d)), i + d))
    }
}

/// White space then a number, at `i`: the number and where it ends.
pub open spec fn field_at(s: Seq<u8>, i: int) -> Option<(nat, int)> {
    let w = space_run(s, i);
    if w == 0 {
        None
    } else {
        number_at(s, i + w)
    }
}

/// `n` fields one after the other from `i`: their numbers and where the last ends.
pub open spec fn fields_at(s: Seq<u8>, i: int, n: nat) -> Option<(Seq<nat>, int)>
    decreases n,
{
    if n == 0 {
        Some((Seq::empty(), i))
    } else {
        match field_at(s, i) {
            None => None,
            Some((v, e)) => match fields_at(s, e, (n - 1) as nat) {
                None => None,
                Some((rest, end)) => Some((seq![v] + rest, end)),
            },
        }
    }
}

/// `word` stands in `s` at `i`.
pub open spec fn word_at(s: Seq<u8>, i: int, word: Seq<u8>) -> bool {
    0 <= i && i + word.len() <= s.len() && s.subrange(i, i + word.len()) == word
}

/// The first `i` in `from..to` at which `p` holds.
pub open spec fn leftmost(p: spec_fn(int) -> bool, from: int, to: int) -> Option<int>
    decreases to - from,
{
    if from >= to {
        None
    } else if p(from) {
        Some(from)
    } else {
        leftmost(p, from + 1, to)
    }
}

/// Each number is below 2^64.
pub open spec fn all_fit(vs: Seq<nat>) -> bool {
    forall|k: int| 0 <= k < vs.len() ==> vs[k] <= u64::MAX
}

/// `v` holds the numbers `vs`.
pub open spec fn holds_values(v: Seq<u64>, vs: Seq<nat>) -> bool {
    v.len() == vs.len() && forall|k: int| 0 <= k < vs.len() ==> v[k] as nat == vs[k]
}

pub proof fn lemma_leftmost_found(p: spec_fn(int) -> bool, from: int, to: int, i: int)
    requires
        from <= i < to,
        p(i),
        forall|j: int| from <= j < i ==> !#[trigger] p(j),
    ensures
        leftmost(p, from, to) == Some(i),
    decreases i - from,
{
    if from < i {
        lemma_leftmost_found(p, from + 1, to, i);
    }
}

pub proof fn lemma_leftmost_none(p: spec_fn(int) -> bool, from: int, to: int)
    requires
        forall|j: int| from <= j < to ==> !#[trigger] p(j),
    ensures
        leftmost(p, from, to) == None::<int>,
    decreases to - from,
{
    if from < to {
        lemma_leftmost_none(p, from + 1, to);
    }
}

proof fn lemma_leftmost_some(p: spec_fn(int) -> bool, from: int, to: int)
    ensures
        leftmost(p, from, to) matches Some(i) ==> from <= i < to && p(i),
    decreases to - from,
{
    if from < to && !p(from) {
        lemma_leftmost_some(p, from + 1, to);
    }
}

proof fn lemma_digit_run_bound(s: Seq<u8>, i: int)
    requires
        0 <= i <= s.len(),
    ensures
        i + digit_run(s, i) <= s.len(),
        forall|k: int| i <= k < i + digit_run(s, i) ==> is_digit(#[trigger] s[k]),
        i + digit_run(s, i) < s.len() ==> !is_digit(s[i + digit_run(s, i)]),
    decreases s.len() - i,
{
    if i < s.len() && is_digit(s[i]) {
        lemma_digit_run_bound(s, i + 1);
    }
}

proof fn lemma_digit_run_from(s: Seq<u8>, i: int, k: int)
    requires
        0 <= i <= k <= s.len(),
        forall|m: int| i <= m < k ==> is_digit(#[trigger] s[m]),
    ensures
        digit_run(s, i) == (k - i) + digit_run(s, k),
    decreases k - i,
{
    if i < k {
        lemma_digit_run_from(s, i + 1, k);
    }
}

proof fn lemma_space_run_from(s: Seq<u8>, i: int, k: int)
    requires
        0 <= i <= k <= s.len(),
        forall|m: int| i <= m < k ==> is_space(#[trigger] s[m]),
    ensures
        space_run(s, i) == (k - i) + space_run(s, k),
    decreases k - i,
{
    if i < k {
        lemma_space_run_from(s, i + 1, k);
    }
}

proof fn lemma_space_run_bound(s: Seq<u8>, i: int)
    requires
        0 <= i <= s.len(),
    ensures
        i + space_run(s, i) <= s.len(),
    decreases s.len() - i,
{
    if i < s.len() && is_space(s[i]) {
        lemma_space_run_bound(s, i + 1);
    }
}

proof fn lemma_digits_value_step(s: Seq<u8>, i: int, k: int)
    requires
        0 <= i <= k < s.len(),
    ensures
        digits_value(s.subrange(i, k + 1)) == digits_value(s.subrange(i, k)) * 10 + (s[k] - 48) as nat,
{
    assert(s.subrange(i, k + 1).drop_last() =~= s.subrange(i, k));
}

/// `n` fields give `n` numbers.
pub proof fn lemma_fields_len(s: Seq<u8>, i: int, n: nat)
    ensures
        fields_at(s, i, n) matches Some((vs, _)) ==> vs.len() == n,
    decreases n,
{
    if n > 0 {
        if let Some((_, e)) = field_at(s, i) {
            lemma_fields_len(s, e, (n - 1) as nat);
        }
    }
}

/// Reads the run of digits at `i`: where it ends, and its value if that fits in a `u64`.
pub fn read_digits(b: &[u8], i: usize) -> (r: (usize, Option<u64>))
    requires
        i <= b@.len(),
    ensures
        r.0 == i + digit_run(b@, i as int),
        r.1 matches Some(v) ==> v as nat == digits_value(b@.subrange(i as int, r.0 as int)),
        r.1 is None <==> digits_value(b@.subrange(i as int, r.0 as int)) > u64::MAX,
{
    let mut k: usize = i;
    let mut val: Option<u64> = Some(0);
    proof {
        assert(b@.subrange(i as int, i as int) =~= Seq::<u8>::empty());
    }
    while k < b.len() && b[k] >= 48 && b[k] <= 57
        invariant
            i <= k <= b@.len(),
            forall|m: int| i <= m < k ==> is_digit(#[trigger] b@[m]),
            val matches Some(v) ==> v as nat == digits_value(b@.subrange(i as int, k as int)),
            val is None <==> digits_value(b@.subrange(i as int, k as int)) > u64::MAX,
        decreases b@.len() - k,
    {
        proof {
            lemma_digits_value_step(b@, i as int, k as int);
        }
        let d = (b[k] - 48) as u64;
        val = match val {
            Some(v) => {
                if v <= (u64::MAX - d) / 10 {
                    Some(v * 10 + d)
                } else {
                    None
                }
            },
            None => None,
        };
        k = k + 1;
    }
    proof {
        lemma_digit_run_from(b@, i as int, k as int);
        if k < b@.len() {
            assert(digit_run(b@, k as int) == 0);
        } else {
            assert(digit_run(b@, k as int) == 0);
        }
    }
    (k, val)
}

/// Skips the run of white space at `i`.
fn skip_space(b: &[u8], i: usize) -> (r: usize)
    requires
        i <= b@.len(),
    ensures
        r == i + space_run(b@, i as int),
{
    let mut k: usize = i;
    while k < b.len() && (b[k] == 32 || (b[k] >= 9 && b[k] <= 13))
        invariant
            i <= k <= b@.len(),
            forall|m: int| i <= m < k ==> is_space(#[trigger] b@[m]),
        decreases b@.len() - k,
    {
        k = k + 1;
    }
    proof {
        lemma_space_run_from(b@, i as int, k as int);
    }
    k
}

/// Reads white space then a number at `i`: `None` if either is missing, else
/// where the number ends and its value if it fits in a `u64`.
fn read_field(b: &[u8], i: usize) -> (r: Option<(usize, Option<u64>)>)
    requires
        i <= b@.len(),
    ensures
        match r {
            None => field_at(b@, i as int) is None,
            Some((e, v)) => field_at(b@, i as int) matches Some((n, e2)) && e2 == e
                && (v matches Some(x) ==> x as nat == n)
                && (v is None <==> n > u64::MAX),
        },
        r matches Some((e, _)) ==> e <= b@.len(),
{
    let j = skip_space(b, i);
    if j == i {
        return None;
    }
    proof {
        lemma_space_run_bound(b@, i as int);
    }
    let (e, v) = read_digits(b, j);
    if e == j {
        return None;
    }
    proof {
        lemma_digit_run_bound(b@, j as int);
    }
    Some((e, v))
}

/// Reads `n` fields from `i`: `None` if the text does not have them, else
/// where the last ends and their values if all fit in a `u64`.
pub fn read_fields(b: &[u8], i: usize, n: usize) -> (r: Option<(usize, Option<Vec<u64>>)>)
    requires
        i <= b@.len(),
    ensures
        match r {
            None => fields_at(b@, i as int, n as nat) is None,
            Some((e, v)) => fields_at(b@, i as int, n as nat) matches Some((vs, e2)) && e2 == e
                && (v matches Some(x) ==> holds_values(x@, vs))
                && (v is None <==> !all_fit(vs)),
        },
    decreases n,
{
    if n == 0 {
        let v: Vec<u64> = Vec::new();
        proof {
            assert(holds_values(v@, Seq::<nat>::empty()));
        }
        return Some((i, Some(v)));
    }
    let (e, first) = match read_field(b, i) {
        None => return None,
        Some(x) => x,
    };
    let (end, rest) = match read_fields(b, e, n - 1) {
        None => return None,
        Some(x) => x,
    };
    proof {
        let (v0, e0) = field_at(b@, i as int).unwrap();
        let (vs, e1) = fields_at(b@, e as int, (n - 1) as nat).unwrap();
        assert(fields_at(b@, i as int, n as nat) == Some((seq![v0] + vs, e1)));
        let all = seq![v0] + vs;
        assert(all_fit(all) <==> v0 <= u64::MAX && all_fit(vs)) by {
            if all_fit(all) {
                assert(all[0] == v0);
                assert forall|k: int| 0 <= k < vs.len() implies vs[k] <= u64::MAX by {
                    assert(all[k + 1] == vs[k]);
                }
            }
        }
    }
    match (first, rest) {
        (Some(f), Some(rv)) => {
            let mut out: Vec<u64> = Vec::new();
            out.push(f);
            let mut k: usize = 0;
            let ghost vs = fields_at(b@, e as int, (n - 1) as nat).unwrap().0;
            while k < rv.len()
                invariant
                    0 <= k <= rv@.len(),
                    holds_values(rv@, vs),
                    out@.len() == k + 1,
                    out@[0] == f,
                    forall|m: int| 0 <= m < k ==> out@[m + 1] == rv@[m],
                decreases rv@.len() - k,
            {
                out.push(rv[k]);
                k = k + 1;
            }
            proof {
                let v0 = field_at(b@, i as int).unwrap().0;
                let all = seq![v0] + vs;
                assert forall|m: int| 0 <= m < all.len() implies out@[m] as nat == all[m] by {
                    if m > 0 {
                        assert(out@[(m - 1) + 1] == rv@[m - 1]);
                    }
                }
            }
            Some((end, Some(out)))
        },
        _ => Some((end, None)),
    }
}

/// `word` stands in `b` at `i`.
pub fn word_matches(b: &[u8], i: usize, word: &[u8]) -> (r: bool)
    ensures
        r == word_at(b@, i as int, word@),
{
    if i > b.len() || word.len() > b.len() - i {
        return false;
    }
    let n = b.len();
    let mut k: usize = 0;
    while k < word.len()
        invariant
            n == b@.len(),
            i + word@.len() <= b@.len(),
            0 <= k <= word@.len(),
            forall|m: int| 0 <= m < k ==> b@[i + m] == word@[m],
        decreases word@.len() - k,
    {
        if b[i + k] != word[k] {
            proof {
                assert(b@.subrange(i as int, i + word@.len())[k as int] != word@[k as int]);
            }
            return false;
        }
        k = k + 1;
    }
    assert(b@.subrange(i as int, i + word@.len()) =~= word@);
    true
}

/// `word` then white space then a number, at `j`: the number and where it ends.
pub open spec fn word_field_at(s: Seq<u8>, j: int, word: Seq<u8>) -> Option<(nat, int)> {
    if word_at(s, j, word) {
        field_at(s, j + word.len())
    } else {
        None
    }
}

/// The first place at or after `from` where `word` and a number stand.
pub open spec fn first_word_field(s: Seq<u8>, from: int, word: Seq<u8>) -> Option<int> {
    leftmost(|j: int| word_field_at(s, j, word) is Some, from, s.len() as int)
}

/// Finds the first place at or after `from` where `word`, white space and a
/// number stand: that place, where the number ends, and its value if it fits
/// in a `u64`.
pub fn find_word_field(b: &[u8], from: usize, word: &[u8]) -> (r: Option<(usize, usize, Option<u64>)>)
    ensures
        match r {
            None => first_word_field(b@, from as int, word@) is None,
            Some((j, e, v)) => {
                &&& first_word_field(b@, from as int, word@) == Some(j as int)
                &&& word_field_at(b@, j as int, word@) matches Some((n, e2)) && e2 == e
                && (v matches Some(x) ==> x as nat == n)
                && (v is None <==> n > u64::MAX)
            },
        },
        r matches Some((_, e, _)) ==> e <= b@.len(),
{
    let ghost p = |j: int| word_field_at(b@, j, word@) is Some;
    let mut j: usize = from;
    while j < b.len()
        invariant
            from <= j,
            from >= b@.len() ==> j == from,
            from < b@.len() ==> j <= b@.len(),
            p == (|j: int| word_field_at(b@, j, word@) is Some),
            forall|k: int| from <= k < j ==> !#[trigger] p(k),
        decreases b@.len() - j,
    {
        if word_matches(b, j, word) {
            if let Some((e, v)) = read_field(b, j + word.len()) {
                proof {
                    lemma_leftmost_found(p, from as int, b@.len() as int, j as int);
                }
                return Some((j, e, v));
            }
        }
        j = j + 1;
    }
    proof {
        lemma_leftmost_none(p, from as int, b@.len() as int);
    }
    None
}

/// White space as `char::is_whitespace` has it: the Unicode `White_Space` characters.
pub open spec fn is_white_space(c: char) -> bool {
    let u = c as u32;
    (0x09 <= u <= 0x0d) || u == 0x20 || u == 0x85 || u == 0xa0 || u == 0x1680 || (0x2000 <= u
        <= 0x200a) || u == 0x2028 || u == 0x2029 || u == 0x202f || u == 0x205f || u == 0x3000
}

fn white_space(c: char) -> (r: bool)
    ensures
        r == is_white_space(c),
{
    let u = c as u32;
    (0x09 <= u && u <= 0x0d) || u == 0x20 || u == 0x85 || u == 0xa0 || u == 0x1680 || (0x2000 <= u
        && u <= 0x200a) || u == 0x2028 || u == 0x2029 || u == 0x202f || u == 0x205f || u == 0x3000
}

/// Number of white-space characters from `i` on.
pub open spec fn lead_space(s: Seq<char>, i: int) -> nat
    decreases s.len() - i,
{
    if 0 <= i < s.len() && is_white_space(s[i]) {
        1 + lead_space(s, i + 1)
    } else {
        0
    }
}

/// Number of white-space characters just before `j`.
pub open spec fn trail_space(s: Seq<char>, j: int) -> nat
    decreases j,
{
    if 0 < j <= s.len() && is_white_space(s[j - 1]) {
        1 + trail_space(s, j - 1)
    } else {
        0
    }
}

/// `s` without white space at either end, as `str::trim` gives it.
pub open spec fn trimmed_text(s: Seq<char>) -> Seq<char> {
    let a = lead_space(s, 0) as int;
    let e = s.len() - trail_space(s, s.len() as int);
    if e <= a {
        Seq::empty()
    } else {
        s.subrange(a, e)
    }
}

proof fn lemma_lead_space_from(s: Seq<char>, i: int, k: int)
    requires
        0 <= i <= k <= s.len(),
        forall|m: int| i <= m < k ==> is_white_space(#[trigger] s[m]),
    ensures
        lead_space(s, i) == (k - i) + lead_space(s, k),
    decreases k - i,
{
    if i < k {
        lemma_lead_space_from(s, i + 1, k);
    }
}

proof fn lemma_trail_space_from(s: Seq<char>, k: int, j: int)
    requires
        0 <= k <= j <= s.len(),
        forall|m: int| k <= m < j ==> is_white_space(#[trigger] s[m]),
    ensures
        trail_space(s, j) == (j - k) + trail_space(s, k),
    decreases j - k,
{
    if k < j {
        lemma_trail_space_from(s, k, j - 1);
    }
}

/// Where the text between the white space at both ends starts and ends, in characters.
pub fn trim_bounds(s: &str) -> (r: (usize, usize))
    ensures
        r.0 <= r.1 <= s@.len(),
        trimmed_text(s@) == s@.subrange(r.0 as int, r.1 as int),
{
    let n = s.unicode_len();
    let mut a: usize = 0;
    while a < n && white_space(s.get_char(a))
        invariant
            n == s@.len(),
            a <= n,
            forall|m: int| 0 <= m < a ==> is_white_space(#[trigger] s@[m]),
        decreases n - a,
    {
        a = a + 1;
    }
    proof {
        lemma_lead_space_from(s@, 0, a as int);
        if a < n {
            assert(lead_space(s@, a as int) == 0);
        }
    }
    let mut e: usize = n;
    while e > a && white_space(s.get_char(e - 1))
        invariant
            n == s@.len(),
            a <= e <= n,
            a == lead_space(s@, 0),
            forall|m: int| e <= m < n ==> is_white_space(#[trigger] s@[m]),
        decreases e,
    {
        e = e - 1;
    }
    proof {
        lemma_trail_space_from(s@, e as int, n as int);
        if e > a {
            assert(trail_space(s@, e as int) == 0);
        } else {
            assert(s@.subrange(a as int, e as int) =~= Seq::<char>::empty());
        }
    }
    (a, e)
}

pub open spec fn is_ascii_digit(c: char) -> bool {
    48 <= (c as u32) <= 57
}

/// The value of a sequence of ASCII digits.
pub open spec fn char_digits_value(t: Seq<char>) -> nat
    decreases t.len(),
{
    if t.len() == 0 {
        0
    } else {
        char_digits_value(t.drop_last()) * 10 + ((t.last() as u32) - 48) as nat
    }
}

/// `t` without a leading `+`.
pub open spec fn unsigned_part(t: Seq<char>) -> Seq<char> {
    if t.len() > 0 && t[0] == '+' {
        t.drop_first()
    } else {
        t
    }
}

pub open spec fn all_digits(d: Seq<char>) -> bool {
    forall|k: int| 0 <= k < d.len() ==> is_ascii_digit(#[trigger] d[k])
}

/// The number that the whole text writes: white space around it, an optional
/// `+`, then one or more ASCII digits, as `u64`'s `FromStr` reads a trimmed text.
pub open spec fn number_text(s: Seq<char>) -> Option<nat> {
    let d = unsigned_part(trimmed_text(s));
    if d.len() > 0 && all_digits(d) {
        Some(char_digits_value(d))
    } else {
        None
    }
}

/// The number that the whole text holds, if it fits in a `u64`.
pub open spec fn number_reading(s: Seq<char>) -> Option<u64> {
    match number_text(s) {
        Some(n) => if n <= u64::MAX { Some(n as u64) } else { None },
        None => None,
    }
}

/// Reads a file's text that holds one number (such as a charge or a
/// brightness), with white space around it allowed.
pub fn parse_number(name: &'static str, s: &str) -> (r: Result<u64, Error>)
    ensures
        match number_reading(s@) {
            Some(n) => r == Ok::<u64, Error>(n),
            None => r matches Err(e) && is_parse_error_of(e, name),
        },
{
    let (a0, e) = trim_bounds(s);
    let ghost t = s@.subrange(a0 as int, e as int);
    let mut a = a0;
    if a < e && s.get_char(a) == '+' {
        a = a + 1;
    }
    let ghost d = s@.subrange(a as int, e as int);
    proof {
        if t.len() > 0 && t[0] == '+' {
            assert(d =~= t.drop_first());
        } else {
            assert(d =~= t);
        }
    }
    if a == e {
        return Err(Error::parse(name, "expected a number"));
    }
    let mut k: usize = a;
    let mut val: Option<u64> = Some(0);
    proof {
        assert(s@.subrange(a as int, a as int) =~= Seq::<char>::empty());
    }
    while k < e
        invariant
            a <= k <= e <= s@.len(),
            d == s@.subrange(a as int, e as int),
            trimmed_text(s@) == t,
            d == unsigned_part(t),
            forall|m: int| a <= m < k ==> is_ascii_digit(#[trigger] s@[m]),
            val matches Some(v) ==> v as nat == char_digits_value(s@.subrange(a as int, k as int)),
            val is None <==> char_digits_value(s@.subrange(a as int, k as int)) > u64::MAX,
        decreases e - k,
    {
        let c = s.get_char(k);
        let u = c as u32;
        if u < 48 || u > 57 {
            proof {
                let idx = k as int - a as int;
                assert(d[idx] == c);
                assert(!is_ascii_digit(d[idx]));
                assert(!all_digits(d));
                assert(number_text(s@) is None);
            }
            return Err(Error::parse(name, "expected a number"));
        }
        proof {
            assert(s@.subrange(a as int, k + 1).drop_last() =~= s@.subrange(a as int, k as int));
        }
        let digit = (u - 48) as u64;
        val = match val {
            Some(v) => {
                if v <= (u64::MAX - digit) / 10 {
                    Some(v * 10 + digit)
                } else {
                    None
                }
            },
            None => None,
        };
        k = k + 1;
    }
    proof {
        assert forall|m: int| 0 <= m < d.len() implies is_ascii_digit(#[trigger] d[m]) by {
            assert(d[m] == s@[a + m]);
        }
        assert(all_digits(d));
    }
    match val {
        Some(x) => Ok(x),
        None => Err(Error::parse(name, "number too large")),
    }
}

} // verus!
