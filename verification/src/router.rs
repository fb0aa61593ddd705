use crate::digits::{dec_val, digit_val, is_digit};
use vstd::prelude::*;
use vstd::string::StrSliceExecFns;

verus! {

/// The position of the `k`-th slash (zero-based) at or after `start`, or
/// minus one where fewer than `k + 1` slashes follow.
pub open spec fn nth_slash_from(s: Seq<char>, k: int, start: int) -> int
    decreases s.len() - start,
{
    if start < 0 || start >= s.len() {
        -1
    } else if s[start] == '/' {
        if k == 0 {
            start
        } else {
            nth_slash_from(s, k - 1, start + 1)
        }
    } else {
        nth_slash_from(s, k, start + 1)
    }
}

/// A segment with its optional leading plus sign removed: the sign that a
/// decimal read of the segment accepts.
pub open spec fn strip_plus(seg: Seq<char>) -> Seq<char> {
    if seg.len() > 0 && seg[0] == '+' {
        seg.drop_first()
    } else {
        seg
    }
}

/// Whether a decimal read of the segment succeeds: after the optional plus
/// sign, at least one character, all of them digits, denoting a value that
/// fits the identifier type.
pub open spec fn valid_u32_dec(seg: Seq<char>) -> bool {
    let digits = strip_plus(seg);
    &&& digits.len() > 0
    &&& forall|i: int| 0 <= i < digits.len() ==> is_digit(#[trigger] digits[i])
    &&& dec_val(digits) <= u32::MAX
}

/// The post identifier a request path carries: the fourth slash-separated
/// segment, read as a decimal number. Zero — no row ever carries it — where
/// the path has no such segment or the read fails.
pub open spec fn spec_get_post_id(s: Seq<char>) -> u32 {
    let a = nth_slash_from(s, 2, 0);
    if a == -1 {
        0
    } else {
        let b0 = nth_slash_from(s, 0, a + 1);
        let b = if b0 == -1 {
            s.len() as int
        } else {
            b0
        };
        let seg = s.subrange(a + 1, b);
        if valid_u32_dec(seg) {
            dec_val(strip_plus(seg)) as u32
        } else {
            0
        }
    }
}

/// The position of the `k`-th slash at or after `start`, executably.
fn find_slash(path: &str, n: usize, k: u32, start: usize) -> (r: Option<usize>)
    requires
        n == path@.len(),
        start <= n,
    ensures
        r is Some ==> start <= r->0 < n && r->0 as int == nth_slash_from(
            path@,
            k as int,
            start as int,
        ),
        r is None ==> nth_slash_from(path@, k as int, start as int) == -1,
    decreases n - start,
{
    if start >= n {
        return None;
    }
    let c = path.get_char(start);
    if c == '/' {
        if k == 0 {
            Some(start)
        } else {
            find_slash(path, n, k - 1, start + 1)
        }
    } else {
        find_slash(path, n, k, start + 1)
    }
}

/// Every character of an all-digit string contributes non-negatively.
proof fn lemma_dec_val_nonneg(s: Seq<char>)
    requires
        forall|i: int| 0 <= i < s.len() ==> is_digit(#[trigger] s[i]),
    ensures
        dec_val(s) >= 0,
    decreases s.len(),
{
    if s.len() > 0 {
        lemma_dec_val_nonneg(s.drop_last());
    }
}

/// Extending an all-digit string with further digits never shrinks its
/// value.
proof fn lemma_dec_val_prefix_le(s: Seq<char>, m: int)
    requires
        0 <= m <= s.len(),
        forall|i: int| 0 <= i < s.len() ==> is_digit(#[trigger] s[i]),
    ensures
        dec_val(s.take(m)) <= dec_val(s),
    decreases s.len() - m,
{
    if m < s.len() {
        lemma_dec_val_prefix_le(s, m + 1);
        assert(s.take(m + 1).drop_last() =~= s.take(m));
        assert(s.take(m + 1).last() == s[m]);
        lemma_dec_val_nonneg(s.take(m));
        assert(dec_val(s.take(m + 1)) == dec_val(s.take(m)) * 10 + digit_val(s[m]));
    } else {
        assert(s.take(m) =~= s);
    }
}

/// Reads the characters between `from` and `to` as a decimal number, zero
/// where the read fails.
fn parse_u32_seg(path: &str, n: usize, from: usize, to: usize) -> (r: u32)
    requires
        n == path@.len(),
        from <= to <= n,
    ensures
        ({
            let seg = path@.subrange(from as int, to as int);
            r == if valid_u32_dec(seg) {
                dec_val(strip_plus(seg)) as u32
            } else {
                0
            }
        }),
{
    let ghost seg = path@.subrange(from as int, to as int);
    if from == to {
        return 0;
    }
    let mut i = from;
    if path.get_char(from) == '+' {
        i = from + 1;
        if i == to {
            proof {
                assert(strip_plus(seg) =~= Seq::<char>::empty());
            }
            return 0;
        }
    }
    proof {
        assert(strip_plus(seg) =~= path@.subrange(i as int, to as int));
    }
    let ghost digits = path@.subrange(i as int, to as int);
    let start = i;
    let mut acc: u64 = 0;
    let mut j = i;
    while j < to
        invariant
            n == path@.len(),
            start <= j <= to <= n,
            digits == path@.subrange(start as int, to as int),
            seg == path@.subrange(from as int, to as int),
            strip_plus(seg) == digits,
            acc <= u32::MAX,
            acc == dec_val(path@.subrange(start as int, j as int)),
            forall|m: int| start <= m < j ==> is_digit(#[trigger] path@[m]),
        decreases to - j,
    {
        let c = path.get_char(j);
        let v = c as u32;
        if v < 48 || v > 57 {
            proof {
                assert(digits[j - start] == path@[j as int]);
                assert(!is_digit(digits[j - start]));
            }
            return 0;
        }
        let d = v - 48;
        let next_acc = acc * 10 + d as u64;
        proof {
            assert(path@.subrange(start as int, j + 1).drop_last() =~= path@.subrange(
                start as int,
                j as int,
            ));
            assert(path@.subrange(start as int, j + 1).last() == path@[j as int]);
            assert(digit_val(path@[j as int]) == d);
        }
        if next_acc > u32::MAX as u64 {
            proof {
                if forall|m: int| 0 <= m < digits.len() ==> is_digit(#[trigger] digits[m]) {
                    assert forall|m: int| start <= m < to implies is_digit(
                        #[trigger] path@[m],
                    ) by {
                        assert(digits[m - start] == path@[m]);
                    }
                    lemma_dec_val_prefix_le(digits, j + 1 - start);
                    assert(digits.take(j + 1 - start) =~= path@.subrange(start as int, j + 1));
                    assert(dec_val(digits) > u32::MAX);
                }
            }
            return 0;
        }
        acc = next_acc;
        j += 1;
    }
    proof {
        assert(digits =~= path@.subrange(start as int, j as int));
        assert forall|m: int| 0 <= m < digits.len() implies is_digit(#[trigger] digits[m]) by {
            assert(digits[m] == path@[m + start]);
        }
        assert(valid_u32_dec(seg));
    }
    acc as u32
}

/// The post identifier carried by a request path, read from its fourth
/// slash-separated segment; zero where the path carries none.
pub fn get_post_id(path: &str) -> (r: u32)
    ensures
        r == spec_get_post_id(path@),
{
    let n = path.unicode_len();
    match find_slash(path, n, 2, 0) {
        None => 0,
        Some(a) => {
            let b = match find_slash(path, n, 0, a + 1) {
                Some(b0) => b0,
                None => n,
            };
            parse_u32_seg(path, n, a + 1, b)
        },
    }
}

} // verus!
