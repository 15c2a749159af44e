use vstd::prelude::*;

verus! {

/// The multiplier of input `i` for output `j`: the base pattern 0, 1, 0,
/// -1 with each value repeated `j + 1` times, shifted left by one.
pub open spec fn pattern(j: int, i: int) -> int {
    let q = ((i + 1) / (j + 1)) % 4;
    if q == 1 {
        1
    } else if q == 3 {
        -1
    } else {
        0
    }
}

/// The weighted sum of the first `n` inputs for output `j`.
pub open spec fn weighted(d: Seq<i32>, j: int, n: int) -> int
    decreases n,
{
    if n <= 0 {
        0
    } else {
        weighted(d, j, n - 1) + d[n - 1] * pattern(j, n - 1)
    }
}

/// Output `j` of a phase: the last digit of the weighted sum's magnitude.
pub open spec fn phase_digit(d: Seq<i32>, j: int) -> int {
    let s = weighted(d, j, d.len() as int);
    (if s < 0 {
        -s
    } else {
        s
    }) % 10
}

/// One phase of the flawed frequency transmission on a list of digits.
pub fn fft(digits: &[i32]) -> (r: Vec<i32>)
    requires
        digits@.len() <= 0xffff_ffff,
        forall|i: int| 0 <= i < digits@.len() ==> 0 <= #[trigger] digits@[i] <= 9,
    ensures
        r@.len() == digits@.len(),
        forall|j: int| 0 <= j < r@.len() ==> #[trigger] r@[j] as int == phase_digit(digits@, j),
{
    let n = digits.len();
    let mut result: Vec<i32> = Vec::new();
    let mut j: usize = 0;
    while j < n
        invariant
            n == digits@.len(),
            n <= 0xffff_ffff,
            forall|i: int| 0 <= i < digits@.len() ==> 0 <= #[trigger] digits@[i] <= 9,
            j <= n,
            result@.len() == j,
            forall|x: int| 0 <= x < j ==> #[trigger] result@[x] as int == phase_digit(digits@, x),
        decreases n - j,
    {
        let mut sum: i64 = 0;
        let mut i: usize = 0;
        while i < n
            invariant
                n == digits@.len(),
                n <= 0xffff_ffff,
                forall|k: int| 0 <= k < digits@.len() ==> 0 <= #[trigger] digits@[k] <= 9,
                j < n,
                i <= n,
                sum == weighted(digits@, j as int, i as int),
                -9 * (i as int) <= sum <= 9 * (i as int),
            decreases n - i,
        {
            let q = ((i as u64 + 1) / (j as u64 + 1)) % 4;
            let d = digits[i] as i64;
            if q == 1 {
                sum = sum + d;
            } else if q == 3 {
                sum = sum - d;
            }
            i = i + 1;
        }
        let magnitude: i64 = if sum < 0 {
            -sum
        } else {
            sum
        };
        result.push((magnitude % 10) as i32);
        j = j + 1;
    }
    result
}

} // verus!
