//! Extracting an item identifier from a URL.
//!
//! A keep-list entry names its item only through a URL; the identifier is the
//! first run of at least four consecutive decimal digits in it, extended to
//! the end of that digit run. A URL without such a run names no item; a run
//! whose value does not fit in 64 bits is reported as such.

use vstd::prelude::*;

verus! {

use vstd::string::StrSliceExecFns;

/// Whether `c` is a decimal digit.
pub open spec fn is_digit(c: char) -> bool {
    48 <= c as int && c as int <= 57
}

/// Whether four digits begin at index `i`.
pub open spec fn run_starts_at(s: Seq<char>, i: int) -> bool {
    0 <= i && i + 4 <= s.len() && forall|j: int| i <= j < i + 4 ==> is_digit(#[trigger] s[j])
}

/// The first index at or after `i` where four digits begin, or `s.len()`
/// if there is none.
pub open spec fn run_start_from(s: Seq<char>, i: int) -> int
    recommends
        0 <= i <= s.len(),
    decreases s.len() - i,
{
    if i < 0 || i + 4 > s.len() {
        s.len() as int
    } else if run_starts_at(s, i) {
        i
    } else {
        run_start_from(s, i + 1)
    }
}

/// The first index at or after `i` that is past the end or holds a
/// non-digit.
pub open spec fn run_end_from(s: Seq<char>, i: int) -> int
    recommends
        0 <= i <= s.len(),
    decreases s.len() - i,
{
    if i < 0 || i >= s.len() {
        s.len() as int
    } else if !is_digit(s[i]) {
        i
    } else {
        run_end_from(s, i + 1)
    }
}

/// The value of a digit string, most significant digit first.
pub open spec fn digits_val(s: Seq<char>) -> int
    decreases s.len(),
{
    if s.len() == 0 {
        0
    } else {
        digits_val(s.drop_last()) * 10 + (s.last() as int - 48)
    }
}

/// The outcome of scanning a URL for an item identifier.
#[derive(Clone, Copy, Debug, PartialEq, Eq, Structural)]
pub enum IdScan {
    /// The first digit run of length four or more, as a value.
    Found(u64),
    /// A digit run exists but its value does not fit in 64 bits.
    TooLarge,
    /// No run of four consecutive digits occurs.
    Missing,
}

/// What scanning a URL yields: the value of the first digit run of length
/// at least four, extended to the whole run.
pub open spec fn spec_scan(s: Seq<char>) -> IdScan {
    let a = run_start_from(s, 0);
    if a == s.len() {
        IdScan::Missing
    } else {
        let b = run_end_from(s, a);
        let v = digits_val(s.subrange(a, b));
        if v > u64::MAX {
            IdScan::TooLarge
        } else {
            IdScan::Found(v as u64)
        }
    }
}

/// A longer digit prefix never has a smaller value.
proof fn lemma_digits_val_monotone(s: Seq<char>, k: int)
    requires
        0 <= k <= s.len(),
        forall|j: int| 0 <= j < s.len() ==> is_digit(#[trigger] s[j]),
    ensures
        digits_val(s.subrange(0, k)) <= digits_val(s),
        digits_val(s) >= 0,
    decreases s.len() - k,
{
    if k == s.len() {
        assert(s.subrange(0, k) =~= s);
        lemma_digits_val_nonneg(s);
    } else {
        lemma_digits_val_monotone(s, k + 1);
        let p = s.subrange(0, k);
        let q = s.subrange(0, k + 1);
        assert(q.drop_last() =~= p);
        assert(q.last() == s[k]);
        lemma_digits_val_nonneg(p);
    }
}

/// The value of a digit string is never negative.
proof fn lemma_digits_val_nonneg(s: Seq<char>)
    requires
        forall|j: int| 0 <= j < s.len() ==> is_digit(#[trigger] s[j]),
    ensures
        digits_val(s) >= 0,
    decreases s.len(),
{
    if s.len() > 0 {
        assert(forall|j: int|
            0 <= j < s.drop_last().len() ==> is_digit(#[trigger] s.drop_last()[j]));
        lemma_digits_val_nonneg(s.drop_last());
    }
}

/// Whether the character at index `i` of `s` is a decimal digit.
fn digit_at(s: &str, i: usize) -> (r: bool)
    requires
        i < s@.len(),
    ensures
        r == is_digit(s@[i as int]),
{
    let c = s.get_char(i);
    let u = c as u32;
    48 <= u && u <= 57
}

/// Whether four digits begin at index `i` of `url`.
fn run_at(url: &str, len: usize, i: usize) -> (r: bool)
    requires
        len == url@.len(),
        i <= len,
    ensures
        r == run_starts_at(url@, i as int),
{
    if len < 4 || i > len - 4 {
        return false;
    }
    let mut j: usize = 0;
    while j < 4
        invariant
            i + 4 <= len == url@.len(),
            j <= 4,
            forall|t: int| i <= t < i + j ==> is_digit(#[trigger] url@[t]),
        decreases 4 - j,
    {
        let c = url.get_char(i + j);
        let u = c as u32;
        if u < 48 || u > 57 {
            return false;
        }
        j += 1;
    }
    true
}

/// Scan a URL for the first run of four or more consecutive decimal digits
/// and parse the whole run as an identifier.
pub fn extract_mod_id(url: &str) -> (r: IdScan)
    ensures
        r == spec_scan(url@),
{
    let n = url.unicode_len();
    let ghost sv = url@;

    // Find the first run start.
    let mut a: usize = 0;
    while a < n && !run_at(url, n, a)
        invariant
            a <= n,
            n == sv.len(),
            sv == url@,
            run_start_from(sv, 0) == run_start_from(sv, a as int),
        decreases n - a,
    {
        proof {
            assert(run_start_from(sv, a as int) == run_start_from(sv, a as int + 1));
        }
        a += 1;
    }
    if a >= n {
        proof {
            assert(run_start_from(sv, 0) == sv.len());
        }
        return IdScan::Missing;
    }
    proof {
        assert(run_start_from(sv, a as int) == a as int);
    }

    // Find the end of the digit run.
    let mut b: usize = a;
    while b < n && digit_at(url, b)
        invariant
            a <= b <= n,
            a < n,
            n == sv.len(),
            sv == url@,
            run_start_from(sv, 0) == a as int,
            run_end_from(sv, a as int) == run_end_from(sv, b as int),
            forall|j: int| a <= j < b ==> is_digit(#[trigger] sv[j]),
        decreases n - b,
    {
        proof {
            assert(run_end_from(sv, b as int) == run_end_from(sv, b as int + 1));
        }
        b += 1;
    }
    proof {
        assert(run_end_from(sv, b as int) == b as int);
        assert(run_end_from(sv, a as int) == b as int);
    }

    // Parse the run, watching for overflow.
    let ghost run = sv.subrange(a as int, b as int);
    proof {
        assert(forall|j: int| 0 <= j < run.len() ==> is_digit(#[trigger] run[j]));
    }
    let mut v: u64 = 0;
    let mut j: usize = a;
    while j < b
        invariant
            a <= j <= b <= n,
            a < n,
            n == sv.len(),
            sv == url@,
            run_start_from(sv, 0) == a as int,
            run_end_from(sv, a as int) == b as int,
            run == sv.subrange(a as int, b as int),
            forall|t: int| 0 <= t < run.len() ==> is_digit(#[trigger] run[t]),
            v as int == digits_val(run.subrange(0, j - a)),
        decreases b - j,
    {
        let c = url.get_char(j);
        let u = c as u32;
        proof {
            assert(run[j - a] == sv[j as int]);
            assert(is_digit(sv[j as int]));
        }
        let d = (u - 48) as u64;
        if v > (u64::MAX - d) / 10 {
            proof {
                let p = run.subrange(0, j - a + 1);
                assert(p.drop_last() =~= run.subrange(0, j - a));
                assert(p.last() == run[j - a]);
                assert(digits_val(p) == v as int * 10 + d);
                assert(v as int * 10 + d > u64::MAX) by (nonlinear_arith)
                    requires
                        v > (u64::MAX - d) / 10,
                        0 <= d <= 9,
                        v >= 0,
                ;
                lemma_digits_val_monotone(run, j - a + 1);
                assert(digits_val(run) > u64::MAX);
            }
            return IdScan::TooLarge;
        }
        proof {
            assert(v as int * 10 + d <= u64::MAX) by (nonlinear_arith)
                requires
                    v <= (u64::MAX - d) / 10,
                    0 <= d <= 9,
                    v >= 0,
            ;
        }
        v = v * 10 + d;
        proof {
            let p = run.subrange(0, j - a + 1);
            assert(p.drop_last() =~= run.subrange(0, j - a));
            assert(p.last() == run[j - a]);
        }
        j += 1;
    }
    proof {
        assert(run.subrange(0, b - a) =~= run);
    }
    IdScan::Found(v)
}

} // verus!
