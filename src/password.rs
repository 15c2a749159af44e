use vstd::prelude::*;

verus! {

/// Digits `i` and `i + 1` are equal and form a group of exactly two.
pub open spec fn exact_pair_at(d: Seq<u32>, i: int) -> bool {
    &&& 0 <= i
    &&& i + 1 < d.len()
    &&& d[i] == d[i + 1]
    &&& (i == 0 || d[i - 1] != d[i])
    &&& (i + 2 == d.len() || d[i + 2] != d[i])
}

pub open spec fn has_exact_pair(d: Seq<u32>) -> bool {
    exists|i: int| exact_pair_at(d, i)
}

/// The six decimal digits of `v`, most significant first.
pub open spec fn digits_of(v: u32) -> Seq<u32> {
    seq![
        (v / 100000 % 10) as u32,
        (v / 10000 % 10) as u32,
        (v / 1000 % 10) as u32,
        (v / 100 % 10) as u32,
        (v / 10 % 10) as u32,
        (v % 10) as u32,
    ]
}

/// A password: six digits, none zero, never decreasing, with two adjacent
/// digits equal (`part_1`) or with a group of exactly two equal digits.
pub open spec fn valid_password(v: u32, part_1: bool) -> bool {
    let d = digits_of(v);
    &&& 100000 <= v <= 999999
    &&& d[0] >= 1
    &&& forall|i: int| 0 <= i < 5 ==> #[trigger] d[i] <= d[i + 1]
    &&& if part_1 {
        exists|i: int| 0 <= i < 5 && #[trigger] d[i] == d[i + 1]
    } else {
        has_exact_pair(d)
    }
}

/// How many values below `n` lie in `[begin, end]` and are valid passwords.
pub open spec fn count_below(begin: u32, end: u32, part_1: bool, n: int) -> nat
    decreases n,
{
    if n <= 0 {
        0
    } else {
        count_below(begin, end, part_1, n - 1) + if begin <= n - 1 <= end && valid_password(
            (n - 1) as u32,
            part_1,
        ) {
            1nat
        } else {
            0nat
        }
    }
}

/// Whether the digits hold a group of exactly two equal adjacent digits.
pub fn part_2_validate(digits: &[u32]) -> (r: bool)
    ensures
        r == has_exact_pair(digits@),
{
    let n = digits.len();
    let mut i: usize = 0;
    while i < n && n - i > 1
        invariant
            n == digits@.len(),
            i <= n,
            forall|k: int| 0 <= k < i ==> !exact_pair_at(digits@, k),
        decreases n - i,
    {
        if digits[i] == digits[i + 1] && (i == 0 || digits[i - 1] != digits[i]) && (i + 2 == n
            || digits[i + 2] != digits[i]) {
            assert(exact_pair_at(digits@, i as int));
            return true;
        }
        i = i + 1;
    }
    assert forall|k: int| !exact_pair_at(digits@, k) by {
        if 0 <= k < i {
        }
    }
    false
}

/// How many valid passwords lie between `range_begin` and `range_end`.
pub fn count_valid_passwords(range_begin: u32, range_end: u32, part_1: bool) -> (r: u32)
    ensures
        r == count_below(range_begin, range_end, part_1, 1000000),
{
    let mut count: u32 = 0;
    let mut v: u32 = 0;
    while v < 1000000
        invariant
            v <= 1000000,
            count <= v,
            count == count_below(range_begin, range_end, part_1, v as int),
        decreases 1000000 - v,
    {
        let d: Vec<u32> = vec![v / 100000 % 10, v / 10000 % 10, v / 1000 % 10, v / 100 % 10, v / 10 % 10, v % 10];
        assert(d@ =~= digits_of(v));
        let mut ok = 100000 <= v && d[0] >= 1;
        let mut i: usize = 0;
        while i < 5
            invariant
                i <= 5,
                d@ == digits_of(v),
                ok == (100000 <= v && d@[0] >= 1 && forall|k: int| 0 <= k < i ==> #[trigger] d@[k] <= d@[k + 1]),
            decreases 5 - i,
        {
            ok = ok && d[i] <= d[i + 1];
            i = i + 1;
        }
        if ok {
            if part_1 {
                let mut pair = false;
                let mut j: usize = 0;
                while j < 5
                    invariant
                        j <= 5,
                        d@ == digits_of(v),
                        pair == (exists|k: int| 0 <= k < j && #[trigger] d@[k] == d@[k + 1]),
                    decreases 5 - j,
                {
                    if d[j] == d[j + 1] {
                        pair = true;
                        assert(d@[j as int] == d@[j + 1]);
                    }
                    j = j + 1;
                }
                ok = pair;
            } else {
                ok = part_2_validate(d.as_slice());
            }
        }
        if range_begin <= v && v <= range_end && ok {
            count = count + 1;
        }
        v = v + 1;
    }
    count
}

} // verus!
