//! Column widths: an even split of the container, corrected by per-column offsets.

use vstd::prelude::*;

verus! {

/// The quotient of `width` by `size`, rounded toward zero.
pub open spec fn each_width(width: int, size: int) -> int {
    if width >= 0 {
        width / size
    } else {
        -((-width) / size)
    }
}

/// The width of column `i` before any offset: every column gets the even share,
/// and the last one also takes what the division left over.
pub open spec fn base_width(width: int, size: int, i: int) -> int {
    if i == size - 1 {
        width - each_width(width, size) * (size - 1)
    } else {
        each_width(width, size)
    }
}

/// The offset that `deltas` holds for column `i`; zero where it holds none.
pub open spec fn delta_at(deltas: Seq<i64>, i: int) -> int {
    if 0 <= i < deltas.len() {
        deltas[i] as int
    } else {
        0
    }
}

/// The final width of column `i`: its base width, then the committed offset,
/// then the live one.
pub open spec fn column_width(
    width: int,
    size: int,
    changed: Seq<i64>,
    moving: Seq<i64>,
    i: int,
) -> int {
    base_width(width, size, i) + delta_at(changed, i) + delta_at(moving, i)
}

/// Every final width is a value of `i64`.
pub open spec fn widths_fit(width: int, size: int, changed: Seq<i64>, moving: Seq<i64>) -> bool {
    forall|i: int|
        0 <= i < size ==> i64::MIN <= #[trigger] column_width(width, size, changed, moving, i)
            <= i64::MAX
}

/// The sum of the entries of `s`.
pub open spec fn total(s: Seq<i64>) -> int
    decreases s.len(),
{
    if s.len() == 0 {
        0
    } else {
        total(s.drop_last()) + s.last()
    }
}

/// `s` holds nothing but zeros.
pub open spec fn all_zero(s: Seq<i64>) -> bool {
    forall|i: int| 0 <= i < s.len() ==> s[i] == 0
}

/// A sequence of zeros sums to zero.
pub proof fn lemma_total_of_zeros(s: Seq<i64>)
    requires
        all_zero(s),
    ensures
        total(s) == 0,
    decreases s.len(),
{
    if s.len() > 0 {
        lemma_total_of_zeros(s.drop_last());
    }
}

proof fn lemma_total_take_step(s: Seq<i64>, n: int)
    requires
        0 < n <= s.len(),
    ensures
        total(s.take(n)) == total(s.take(n - 1)) + s[n - 1],
{
    assert(s.take(n).drop_last() =~= s.take(n - 1));
}

proof fn lemma_prefix_total(
    w: Seq<i64>,
    width: int,
    size: int,
    changed: Seq<i64>,
    moving: Seq<i64>,
    n: int,
)
    requires
        size >= 1,
        w.len() == size,
        changed.len() <= size,
        moving.len() <= size,
        forall|i: int| 0 <= i < size ==> w[i] == column_width(width, size, changed, moving, i),
        0 <= n < size,
    ensures
        total(w.take(n)) == each_width(width, size) * n + total(
            changed.take(if n <= changed.len() { n } else { changed.len() as int }),
        ) + total(moving.take(if n <= moving.len() { n } else { moving.len() as int })),
    decreases n,
{
    let each = each_width(width, size);
    if n == 0 {
        assert(each * 0 == 0);
    } else {
        lemma_prefix_total(w, width, size, changed, moving, n - 1);
        lemma_total_take_step(w, n);
        if n <= changed.len() {
            lemma_total_take_step(changed, n);
        }
        if n <= moving.len() {
            lemma_total_take_step(moving, n);
        }
        assert(w[n - 1] == column_width(width, size, changed, moving, n - 1));
        assert(each * n == each * (n - 1) + each) by (nonlinear_arith);
    }
}

/// The final widths add up to the container's width and all the offsets.
pub proof fn lemma_widths_total(
    w: Seq<i64>,
    width: int,
    size: int,
    changed: Seq<i64>,
    moving: Seq<i64>,
)
    requires
        size >= 1,
        w.len() == size,
        changed.len() <= size,
        moving.len() <= size,
        forall|i: int| 0 <= i < size ==> w[i] == column_width(width, size, changed, moving, i),
    ensures
        total(w) == width + total(changed) + total(moving),
{
    let n = size - 1;
    lemma_prefix_total(w, width, size, changed, moving, n);
    assert(w.take(size) =~= w);
    lemma_total_take_step(w, size);
    assert(w[n] == column_width(width, size, changed, moving, n));
    if changed.len() == size {
        lemma_total_take_step(changed, size);
        assert(changed.take(size) =~= changed);
    } else {
        assert(changed.take(changed.len() as int) =~= changed);
    }
    if moving.len() == size {
        lemma_total_take_step(moving, size);
        assert(moving.take(size) =~= moving);
    } else {
        assert(moving.take(moving.len() as int) =~= moving);
    }
}

/// With no offset at all the widths add up to the container's width exactly:
/// what the division leaves over lands on the last column.
pub proof fn lemma_plain_widths_total(w: Seq<i64>, width: int, size: int, zeros: Seq<i64>)
    requires
        size >= 1,
        w.len() == size,
        zeros.len() <= size,
        all_zero(zeros),
        forall|i: int| 0 <= i < size ==> w[i] == column_width(width, size, zeros, zeros, i),
    ensures
        total(w) == width,
        forall|i: int| 0 <= i < size - 1 ==> w[i] == each_width(width, size),
        w[size - 1] == width - each_width(width, size) * (size - 1),
{
    lemma_widths_total(w, width, size, zeros, zeros);
    lemma_total_of_zeros(zeros);
    assert forall|i: int| 0 <= i < size - 1 implies w[i] == each_width(width, size) by {
        assert(w[i] == column_width(width, size, zeros, zeros, i));
    }
    assert(w[size - 1] == column_width(width, size, zeros, zeros, size - 1));
}

proof fn lemma_share_bounds(width: i64, size: int)
    requires
        size >= 1,
    ensures
        i64::MIN <= each_width(width as int, size) <= i64::MAX,
        i64::MIN <= each_width(width as int, size) * (size - 1) <= i64::MAX,
        i64::MIN <= width - each_width(width as int, size) * (size - 1) <= i64::MAX,
{
    let w = width as int;
    let s = size;
    let each = each_width(w, s);
    let a = if w >= 0 {
        w
    } else {
        -w
    };
    assert(0 <= a / s <= a) by (nonlinear_arith)
        requires
            a >= 0,
            s >= 1,
    ;
    assert(0 <= (a / s) * (s - 1) <= a) by (nonlinear_arith)
        requires
            a >= 0,
            s >= 1,
    ;
    if w < 0 {
        assert(each * (s - 1) == -((a / s) * (s - 1))) by (nonlinear_arith)
            requires
                each == -(a / s),
        ;
    }
}

/// Plain widths always fit: the even share is no larger than the container's
/// width, and the last column's width lies between the share and the width.
pub proof fn lemma_plain_widths_fit(width: i64, size: int, zeros: Seq<i64>)
    requires
        size >= 1,
        all_zero(zeros),
    ensures
        widths_fit(width as int, size, zeros, zeros),
{
    lemma_share_bounds(width, size);
    assert forall|i: int| 0 <= i < size implies i64::MIN <= #[trigger] column_width(
        width as int,
        size,
        zeros,
        zeros,
        i,
    ) <= i64::MAX by {}
}

/// Whether every final width is a value of `i64`.
pub fn widths_in_range(
    width: i64,
    size: u64,
    changed_widths: &Vec<i64>,
    real_moving_widths: &Vec<i64>,
) -> (fit: bool)
    requires
        size >= 1,
    ensures
        fit == widths_fit(width as int, size as int, changed_widths@, real_moving_widths@),
{
    proof {
        lemma_share_bounds(width, size as int);
    }
    let each: i64 = (width as i128 / size as i128) as i64;
    let last: i128 = width as i128 - (each as i128) * ((size - 1) as i128);
    let n: usize = if changed_widths.len() >= real_moving_widths.len() {
        changed_widths.len()
    } else {
        real_moving_widths.len()
    };
    let mut k: usize = 0;
    // Columns past both offset vectors have their base width, which always fits.
    while k < n
        invariant
            size >= 1,
            k <= n,
            n >= changed_widths@.len(),
            n >= real_moving_widths@.len(),
            each == each_width(width as int, size as int),
            last == width - each * (size - 1),
            i64::MIN <= each * (size - 1) <= i64::MAX,
            forall|i: int|
                0 <= i < k && i < size ==> i64::MIN <= #[trigger] column_width(
                    width as int,
                    size as int,
                    changed_widths@,
                    real_moving_widths@,
                    i,
                ) <= i64::MAX,
        decreases n - k,
    {
        if (k as u64) < size {
            let base: i128 = if k as u64 == size - 1 {
                last
            } else {
                each as i128
            };
            let c: i128 = if k < changed_widths.len() {
                changed_widths[k] as i128
            } else {
                0
            };
            let m: i128 = if k < real_moving_widths.len() {
                real_moving_widths[k] as i128
            } else {
                0
            };
            let sum: i128 = base + c + m;
            assert(sum == column_width(
                width as int,
                size as int,
                changed_widths@,
                real_moving_widths@,
                k as int,
            ));
            if sum < i64::MIN as i128 || sum > i64::MAX as i128 {
                return false;
            }
        }
        k = k + 1;
    }
    proof {
        let zeros = Seq::<i64>::empty();
        lemma_plain_widths_fit(width, size as int, zeros);
        assert forall|i: int| 0 <= i < size implies i64::MIN <= #[trigger] column_width(
            width as int,
            size as int,
            changed_widths@,
            real_moving_widths@,
            i,
        ) <= i64::MAX by {
            if i >= k {
                assert(column_width(width as int, size as int, zeros, zeros, i) == column_width(
                    width as int,
                    size as int,
                    changed_widths@,
                    real_moving_widths@,
                    i,
                ));
            }
        }
    }
    true
}

/// The pixel width of each of `size` columns in a container `width` wide.
///
/// Every column gets `width / size`; the last one absorbs the remainder, so that
/// the base widths add up to `width`. Then each column's committed offset is
/// added, then its live offset. An offset vector may be shorter than `size`:
/// the columns it does not reach get no offset from it.
pub fn column_widths(
    width: i64,
    size: u64,
    changed_widths: &Vec<i64>,
    real_moving_widths: &Vec<i64>,
) -> (widths: Vec<i64>)
    requires
        size >= 1,
        changed_widths@.len() <= size,
        real_moving_widths@.len() <= size,
        widths_fit(width as int, size as int, changed_widths@, real_moving_widths@),
    ensures
        widths@.len() == size,
        forall|i: int|
            0 <= i < size ==> widths@[i] == column_width(
                width as int,
                size as int,
                changed_widths@,
                real_moving_widths@,
                i,
            ),
        total(widths@) == width + total(changed_widths@) + total(real_moving_widths@),
{
    let mut widths: Vec<i64> = Vec::new();
    proof {
        lemma_share_bounds(width, size as int);
    }
    let each: i64 = (width as i128 / size as i128) as i64;
    let last: i128 = width as i128 - (each as i128) * ((size - 1) as i128);
    let mut i: u64 = 0;
    while i < size
        invariant
            size >= 1,
            0 <= i <= size,
            widths@.len() == i,
            each == each_width(width as int, size as int),
            last == width - each * (size - 1),
            i64::MIN <= each * (size - 1) <= i64::MAX,
            widths_fit(width as int, size as int, changed_widths@, real_moving_widths@),
            forall|j: int|
                0 <= j < i ==> widths@[j] == column_width(
                    width as int,
                    size as int,
                    changed_widths@,
                    real_moving_widths@,
                    j,
                ),
        decreases size - i,
    {
        let k: usize = widths.len();
        let base: i128 = if i == size - 1 {
            last
        } else {
            each as i128
        };
        let c: i128 = if k < changed_widths.len() {
            changed_widths[k] as i128
        } else {
            0
        };
        let m: i128 = if k < real_moving_widths.len() {
            real_moving_widths[k] as i128
        } else {
            0
        };
        let sum: i128 = base + c + m;
        assert(sum == column_width(
            width as int,
            size as int,
            changed_widths@,
            real_moving_widths@,
            i as int,
        ));
        widths.push(sum as i64);
        i = i + 1;
    }
    proof {
        lemma_widths_total(
            widths@,
            width as int,
            size as int,
            changed_widths@,
            real_moving_widths@,
        );
    }
    widths
}

/// The pixel width of each of `size` columns in a container `width` wide, with
/// the committed offsets `changed_widths` and the live offsets
/// `real_moving_widths`: the even share, the remainder on the last column, then
/// both offsets. The widths add up to the container's width and the offsets.
pub fn cal_widths(
    width: i64,
    size: i64,
    changed_widths: Vec<i64>,
    real_moving_widths: Vec<i64>,
) -> (widths: Vec<i64>)
    requires
        size >= 1,
        changed_widths@.len() <= size,
        real_moving_widths@.len() <= size,
        widths_fit(width as int, size as int, changed_widths@, real_moving_widths@),
    ensures
        widths@.len() == size,
        forall|i: int|
            0 <= i < size ==> widths@[i] == column_width(
                width as int,
                size as int,
                changed_widths@,
                real_moving_widths@,
                i,
            ),
        total(widths@) == width + total(changed_widths@) + total(real_moving_widths@),
{
    column_widths(width, size as u64, &changed_widths, &real_moving_widths)
}

} // verus!
