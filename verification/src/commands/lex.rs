//! Lexical groundwork for the command grammar: the whitespace class,
//! trimming, whitespace tokenization, and integer literals.

use vstd::prelude::*;

use vstd::string::StrSliceExecFns;

verus! {

/// The characters the grammar treats as whitespace: the Unicode
/// `White_Space` class, which is also what `str::trim` and
/// `str::split_whitespace` use.
pub open spec fn is_space(c: char) -> bool {
    let u = c as u32;
    (0x09 <= u && u <= 0x0D) || u == 0x20 || u == 0x85 || u == 0xA0 || u == 0x1680 || (0x2000
        <= u && u <= 0x200A) || u == 0x2028 || u == 0x2029 || u == 0x202F || u == 0x205F || u
        == 0x3000
}

/// Whitespace test on one character.
pub fn char_is_space(c: char) -> (r: bool)
    ensures
        r == is_space(c),
{
    let u = c as u32;
    (0x09 <= u && u <= 0x0D) || u == 0x20 || u == 0x85 || u == 0xA0 || u == 0x1680 || (0x2000
        <= u && u <= 0x200A) || u == 0x2028 || u == 0x2029 || u == 0x202F || u == 0x205F || u
        == 0x3000
}

/// The text with its leading whitespace removed.
pub open spec fn trim_start(s: Seq<char>) -> Seq<char>
    decreases s.len(),
{
    if s.len() == 0 {
        s
    } else if is_space(s[0]) {
        trim_start(s.drop_first())
    } else {
        s
    }
}

/// The text with its trailing whitespace removed.
pub open spec fn trim_end(s: Seq<char>) -> Seq<char>
    decreases s.len(),
{
    if s.len() == 0 {
        s
    } else if is_space(s.last()) {
        trim_end(s.drop_last())
    } else {
        s
    }
}

/// The text with whitespace removed at both ends.
pub open spec fn trim(s: Seq<char>) -> Seq<char> {
    trim_end(trim_start(s))
}

/// `trim_start` drops exactly the maximal whitespace prefix.
pub proof fn lemma_trim_start_skip(s: Seq<char>, i: int)
    requires
        0 <= i <= s.len(),
        forall|j: int| 0 <= j < i ==> is_space(#[trigger] s[j]),
        i == s.len() || !is_space(s[i]),
    ensures
        trim_start(s) == s.skip(i),
    decreases i,
{
    if i == 0 {
        assert(s.skip(0) =~= s);
    } else {
        lemma_trim_start_skip(s.drop_first(), i - 1);
        assert(s.drop_first().skip(i - 1) =~= s.skip(i));
    }
}

/// `trim_end` drops exactly the maximal whitespace suffix.
pub proof fn lemma_trim_end_take(s: Seq<char>, k: int)
    requires
        0 <= k <= s.len(),
        forall|j: int| k <= j < s.len() ==> is_space(#[trigger] s[j]),
        k == 0 || !is_space(s[k - 1]),
    ensures
        trim_end(s) == s.take(k),
    decreases s.len() - k,
{
    if k == s.len() {
        assert(s.take(k) =~= s);
    } else {
        lemma_trim_end_take(s.drop_last(), k);
        assert(s.drop_last().take(k) =~= s.take(k));
    }
}

/// Length of the maximal non-whitespace prefix.
pub open spec fn token_len(s: Seq<char>) -> nat
    decreases s.len(),
{
    if s.len() == 0 || is_space(s[0]) {
        0
    } else {
        1 + token_len(s.drop_first())
    }
}

/// The token prefix never extends past the end of the text.
pub proof fn lemma_token_len_le(s: Seq<char>)
    ensures
        token_len(s) <= s.len(),
    decreases s.len(),
{
    if s.len() == 0 || is_space(s[0]) {
    } else {
        lemma_token_len_le(s.drop_first());
    }
}

/// The whitespace-separated tokens of the text, in order.
pub open spec fn tokens(s: Seq<char>) -> Seq<Seq<char>>
    decreases s.len(),
    via tokens_decreases
{
    if s.len() == 0 {
        Seq::empty()
    } else if is_space(s[0]) {
        tokens(s.drop_first())
    } else {
        seq![s.take(token_len(s) as int)] + tokens(s.skip(token_len(s) as int))
    }
}

#[via_fn]
proof fn tokens_decreases(s: Seq<char>) {
    lemma_token_len_le(s);
}

/// A maximal run of `k` non-whitespace characters at the front is the
/// token prefix.
pub proof fn lemma_token_len_run(s: Seq<char>, k: int)
    requires
        0 <= k <= s.len(),
        forall|j: int| 0 <= j < k ==> !is_space(#[trigger] s[j]),
        k == s.len() || is_space(s[k]),
    ensures
        token_len(s) == k,
    decreases k,
{
    if k == 0 {
    } else {
        lemma_token_len_run(s.drop_first(), k - 1);
    }
}

/// Leading whitespace contributes no token.
pub proof fn lemma_tokens_space(s: Seq<char>)
    requires
        s.len() > 0,
        is_space(s[0]),
    ensures
        tokens(s) == tokens(s.skip(1)),
{
    assert(s.drop_first() =~= s.skip(1));
}

/// A maximal non-whitespace run at the front is the first token, and the
/// rest of the tokens follow it.
pub proof fn lemma_tokens_run(s: Seq<char>, k: int)
    requires
        0 < k <= s.len(),
        forall|j: int| 0 <= j < k ==> !is_space(#[trigger] s[j]),
        k == s.len() || is_space(s[k]),
    ensures
        tokens(s) == seq![s.take(k)] + tokens(s.skip(k)),
{
    lemma_token_len_run(s, k);
}

/// Splits the text into its whitespace-separated tokens.
pub fn tokenize(s: &str) -> (r: Vec<String>)
    ensures
        r@.len() == tokens(s@).len(),
        forall|i: int| 0 <= i < r@.len() ==> (#[trigger] r@[i])@ == tokens(s@)[i],
{
    let n = s.unicode_len();
    let mut out: Vec<String> = Vec::new();
    let ghost mut done = Seq::<Seq<char>>::empty();
    let mut i: usize = 0;
    proof {
        assert(s@.skip(0) =~= s@);
    }
    while i < n
        invariant
            i <= n,
            n == s@.len(),
            tokens(s@) == done + tokens(s@.skip(i as int)),
            out@.len() == done.len(),
            forall|j: int| 0 <= j < out@.len() ==> (#[trigger] out@[j])@ == done[j],
        decreases n - i,
    {
        let c = s.get_char(i);
        if char_is_space(c) {
            proof {
                lemma_tokens_space(s@.skip(i as int));
                assert(s@.skip(i as int).skip(1) =~= s@.skip(i + 1));
            }
            i = i + 1;
        } else {
            let start = i;
            let mut j = i + 1;
            while j < n && !char_is_space(s.get_char(j))
                invariant
                    start < j <= n,
                    n == s@.len(),
                    forall|m: int| start <= m < j ==> !is_space(#[trigger] s@[m]),
                decreases n - j,
            {
                j = j + 1;
            }
            let tok = s.substring_char(start, j).to_owned();
            proof {
                let rem = s@.skip(start as int);
                let k = j - start;
                assert(forall|m: int| 0 <= m < k ==> !is_space(#[trigger] rem[m]));
                lemma_tokens_run(rem, k);
                assert(rem.take(k) =~= s@.subrange(start as int, j as int));
                assert(rem.skip(k) =~= s@.skip(j as int));
            }
            out.push(tok);
            proof {
                let tk = s@.subrange(start as int, j as int);
                assert(done + (seq![tk] + tokens(s@.skip(j as int))) =~= done.push(tk) + tokens(
                    s@.skip(j as int),
                ));
                done = done.push(tk);
            }
            i = j;
        }
    }
    proof {
        assert(s@.skip(n as int) =~= Seq::<char>::empty());
        assert(tokens(s@) =~= done);
    }
    out
}

/// A decimal digit.
pub open spec fn is_digit(c: char) -> bool {
    0x30 <= c as u32 && c as u32 <= 0x39
}

/// Numeric value of a decimal digit.
pub open spec fn digit_val(c: char) -> int {
    c as u32 - 0x30
}

/// Whether every character of the text is a decimal digit.
pub open spec fn all_digits(s: Seq<char>) -> bool {
    forall|i: int| 0 <= i < s.len() ==> is_digit(#[trigger] s[i])
}

/// Value of a digit string, most significant digit first.
pub open spec fn digits_val(s: Seq<char>) -> int
    decreases s.len(),
{
    if s.len() == 0 {
        0
    } else {
        digits_val(s.drop_last()) * 10 + digit_val(s.last())
    }
}

/// A digit string never has a negative value.
pub proof fn lemma_digits_val_nonneg(s: Seq<char>)
    requires
        all_digits(s),
    ensures
        digits_val(s) >= 0,
    decreases s.len(),
{
    if s.len() == 0 {
    } else {
        assert(forall|i: int|
            0 <= i < s.drop_last().len() ==> is_digit(#[trigger] s.drop_last()[i]));
        lemma_digits_val_nonneg(s.drop_last());
    }
}

/// Reading one more digit multiplies the prefix value by ten and adds it.
pub proof fn lemma_digits_val_step(s: Seq<char>, m: int)
    requires
        0 <= m < s.len(),
    ensures
        digits_val(s.take(m + 1)) == digits_val(s.take(m)) * 10 + digit_val(s[m]),
{
    assert(s.take(m + 1).drop_last() =~= s.take(m));
    assert(s.take(m + 1).last() == s[m]);
}

/// The value of a digit string is at least the value of any prefix.
pub proof fn lemma_digits_val_monotone(s: Seq<char>, m: int)
    requires
        all_digits(s),
        0 <= m <= s.len(),
    ensures
        digits_val(s) >= digits_val(s.take(m)),
    decreases s.len() - m,
{
    if m == s.len() {
        assert(s.take(m) =~= s);
    } else {
        lemma_digits_val_step(s, m);
        assert(forall|i: int| 0 <= i < m ==> is_digit(#[trigger] s.take(m)[i]));
        lemma_digits_val_nonneg(s.take(m));
        lemma_digits_val_monotone(s, m + 1);
    }
}

/// What parsing a 64-bit signed integer literal accepts and yields: an
/// optional sign, then one or more decimal digits, whose signed value
/// fits the type; anything else is rejected.
pub open spec fn spec_parse_i64(s: Seq<char>) -> Option<i64> {
    if s.len() == 0 {
        None
    } else {
        let ds = if s[0] == '-' || s[0] == '+' {
            s.drop_first()
        } else {
            s
        };
        let v = if s[0] == '-' {
            -digits_val(ds)
        } else {
            digits_val(ds)
        };
        if ds.len() == 0 || !all_digits(ds) {
            None
        } else if i64::MIN <= v && v <= i64::MAX {
            Some(v as i64)
        } else {
            None
        }
    }
}

/// Parses a 64-bit signed integer literal.
pub fn parse_i64(s: &str) -> (r: Option<i64>)
    ensures
        r == spec_parse_i64(s@),
{
    let n = s.unicode_len();
    if n == 0 {
        return None;
    }
    let c0 = s.get_char(0);
    let neg = c0 == '-';
    let start: usize = if c0 == '-' || c0 == '+' {
        1
    } else {
        0
    };
    if n - start == 0 {
        return None;
    }
    let ghost ds = if s@[0] == '-' || s@[0] == '+' {
        s@.drop_first()
    } else {
        s@
    };
    proof {
        assert(ds =~= s@.skip(start as int));
    }
    let mut acc: u64 = 0;
    let mut idx = start;
    while idx < n
        invariant
            start <= idx <= n,
            start <= 1,
            n == s@.len(),
            neg == (s@[0] == '-'),
            ds == s@.skip(start as int),
            ds == (if s@[0] == '-' || s@[0] == '+' {
                s@.drop_first()
            } else {
                s@
            }),
            ds.len() == n - start,
            forall|m: int| 0 <= m < idx - start ==> is_digit(#[trigger] ds[m]),
            acc == digits_val(ds.take(idx - start)),
            acc <= if neg {
                9223372036854775808u64
            } else {
                9223372036854775807u64
            },
        decreases n - idx,
    {
        let c = s.get_char(idx);
        let u = c as u32;
        if u < 0x30 || u > 0x39 {
            proof {
                assert(ds[idx - start] == s@[idx as int]);
                assert(!all_digits(ds));
            }
            return None;
        }
        let d = (u - 0x30) as u64;
        let t: u64 = 922337203685477580;
        let rmax: u64 = if neg {
            8
        } else {
            7
        };
        if acc > t || (acc == t && d > rmax) {
            proof {
                lemma_digits_val_step(ds, idx - start);
                if all_digits(ds) {
                    lemma_digits_val_monotone(ds, idx - start + 1);
                }
            }
            return None;
        }
        proof {
            lemma_digits_val_step(ds, idx - start);
        }
        acc = acc * 10 + d;
        idx = idx + 1;
    }
    proof {
        assert(ds.take(ds.len() as int) =~= ds);
    }
    if neg {
        if acc == 9223372036854775808u64 {
            Some(i64::MIN)
        } else {
            Some(-(acc as i64))
        }
    } else {
        Some(acc as i64)
    }
}

/// Character-for-character equality of two pieces of text.
pub fn str_chars_eq(a: &str, b: &str) -> (r: bool)
    ensures
        r == (a@ == b@),
{
    let n = a.unicode_len();
    let m = b.unicode_len();
    if n != m {
        return false;
    }
    let mut i: usize = 0;
    while i < n
        invariant
            i <= n,
            n == a@.len(),
            n == b@.len(),
            forall|j: int| 0 <= j < i ==> a@[j] == b@[j],
        decreases n - i,
    {
        if a.get_char(i) != b.get_char(i) {
            return false;
        }
        i = i + 1;
    }
    proof {
        assert(a@ =~= b@);
    }
    true
}

} // verus!
