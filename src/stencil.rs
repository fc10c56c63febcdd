//! A 3x3 stencil over a row-major image and the convolution of its windows
//! with a fixed kernel. Positions above or left of the image read as the
//! marker value, and a window holding the marker convolves to the marker.
use vstd::prelude::*;

verus! {

/// The value read for positions outside the image.
pub const MARKER: i32 = 253;

/// The largest magnitude of a window value whose convolution fits in an `i32`.
pub const MAX_WINDOW_MAGNITUDE: i32 = 134217727;

/// The input at row `r`, column `c`, or the marker above or left of the image.
pub open spec fn input_at(inputs: Seq<i32>, row_size: int, r: int, c: int) -> i32 {
    if r < 0 || c < 0 {
        MARKER
    } else {
        inputs[r * row_size + c]
    }
}

/// Reads the input at row `r`, column `c`.
fn get_input(inputs_2d: &Vec<i32>, row_size: i32, r: i32, c: i32) -> (v: i32)
    requires
        r < 0 || c < 0 || 0 <= r * row_size + c < inputs_2d@.len(),
        r < 0 || c < 0 || r * row_size + c <= i32::MAX,
    ensures
        v == input_at(inputs_2d@, row_size as int, r as int, c as int),
{
    if r < 0 || c < 0 {
        MARKER
    } else {
        inputs_2d[(r * row_size + c) as usize]
    }
}

/// `window` is the 3x3 window of pixel `w` of an image with `row_size`
/// columns: its row `a`, column `b` is the input at
/// `(w / row_size - 2 + a, w % row_size - 2 + b)`.
pub open spec fn window_at(inputs: Seq<i32>, row_size: int, w: int, window: Seq<Vec<i32>>) -> bool {
    &&& window.len() == 3
    &&& forall|a: int|
        0 <= a < 3 ==> {
            &&& #[trigger] window[a]@.len() == 3
            &&& forall|b: int|
                0 <= b < 3 ==> #[trigger] window[a]@[b] == input_at(
                    inputs,
                    row_size,
                    w / row_size - 2 + a,
                    w % row_size - 2 + b,
                )
        }
}

/// The 3x3 windows of an image with `row_size` columns, one per pixel of its
/// complete rows, in row-major order; none for a negative row size.
pub fn stencil_generator(row_size: i32, inputs_2d: &Vec<i32>) -> (out: Vec<Vec<Vec<i32>>>)
    requires
        row_size != 0,
        inputs_2d@.len() <= i32::MAX,
    ensures
        out@.len() == if row_size > 0 {
            (inputs_2d@.len() as int / row_size as int) * row_size
        } else {
            0
        },
        forall|w: int|
            0 <= w < out@.len() ==> window_at(inputs_2d@, row_size as int, w, #[trigger] out@[w]@),
{
    if row_size < 0 {
        return Vec::new();
    }
    let num_rows = inputs_2d.len() as i32 / row_size;
    let num_cols = row_size;
    let ghost rs = row_size as int;
    let ghost len = inputs_2d@.len() as int;
    proof {
        assert(num_rows * rs <= len) by (nonlinear_arith)
            requires
                num_rows == len / rs,
                rs > 0,
                len >= 0,
        ;
        assert(0 <= num_rows) by (nonlinear_arith)
            requires
                num_rows == len / rs,
                rs > 0,
                len >= 0,
        ;
    }
    let mut result: Vec<Vec<Vec<i32>>> = Vec::new();
    let mut r: i32 = 0;
    while r < num_rows
        invariant
            0 <= r <= num_rows,
            num_rows == len / rs,
            num_cols == row_size,
            rs == row_size,
            rs > 0,
            num_rows * rs <= len,
            len == inputs_2d@.len(),
            len <= i32::MAX,
            result@.len() == r * rs,
            forall|w: int| 0 <= w < result@.len() ==> window_at(inputs_2d@, rs, w, #[trigger] result@[w]@),
        decreases num_rows - r,
    {
        proof {
            assert((r + 1) * rs <= num_rows * rs) by (nonlinear_arith)
                requires
                    r + 1 <= num_rows,
                    rs > 0,
            ;
            assert((r + 1) * rs == r * rs + rs) by (nonlinear_arith);
        }
        let mut c: i32 = 0;
        while c < num_cols
            invariant
                0 <= r < num_rows,
                0 <= c <= num_cols,
                num_cols == row_size,
                rs == row_size,
                rs > 0,
                r * rs + rs <= len,
                len == inputs_2d@.len(),
                len <= i32::MAX,
                result@.len() == r * rs + c,
                forall|w: int| 0 <= w < result@.len() ==> window_at(inputs_2d@, rs, w, #[trigger] result@[w]@),
            decreases num_cols - c,
        {
            let mut window: Vec<Vec<i32>> = Vec::new();
            let mut a: i32 = 0;
            while a < 3
                invariant
                    0 <= a <= 3,
                    0 <= r < num_rows,
                    0 <= c < num_cols,
                    num_cols == row_size,
                    rs == row_size,
                    r * rs + rs <= len,
                    len == inputs_2d@.len(),
                    len <= i32::MAX,
                    window@.len() == a,
                    forall|a2: int|
                        0 <= a2 < a ==> {
                            &&& #[trigger] window@[a2]@.len() == 3
                            &&& forall|b: int|
                                0 <= b < 3 ==> #[trigger] window@[a2]@[b] == input_at(
                                    inputs_2d@,
                                    rs,
                                    r - 2 + a2,
                                    c - 2 + b,
                                )
                        },
                decreases 3 - a,
            {
                let mut line: Vec<i32> = Vec::new();
                let mut b: i32 = 0;
                while b < 3
                    invariant
                        0 <= b <= 3,
                        0 <= a < 3,
                        0 <= r < num_rows,
                        0 <= c < num_cols,
                        num_cols == row_size,
                        rs == row_size,
                        r * rs + rs <= len,
                        len == inputs_2d@.len(),
                        len <= i32::MAX,
                        line@.len() == b,
                        forall|b2: int|
                            0 <= b2 < b ==> #[trigger] line@[b2] == input_at(
                                inputs_2d@,
                                rs,
                                r - 2 + a,
                                c - 2 + b2,
                            ),
                    decreases 3 - b,
                {
                    let rr = r - 2 + a;
                    let cc = c - 2 + b;
                    proof {
                        if rr >= 0 && cc >= 0 {
                            assert(rr * rs + cc < r * rs + rs) by (nonlinear_arith)
                                requires
                                    0 <= rr <= r,
                                    0 <= cc < rs,
                            ;
                            assert(0 <= rr * rs) by (nonlinear_arith)
                                requires
                                    0 <= rr,
                                    rs > 0,
                            ;
                        }
                    }
                    line.push(get_input(inputs_2d, row_size, rr, cc));
                    b = b + 1;
                }
                window.push(line);
                a = a + 1;
            }
            proof {
                let w = r * rs + c;
                vstd::arithmetic::div_mod::lemma_fundamental_div_mod_converse(w, rs, r as int, c as int);
                assert(window_at(inputs_2d@, rs, w, window@));
            }
            result.push(window);
            c = c + 1;
        }
        r = r + 1;
    }
    result
}

/// The weights of the kernel, row by row.
pub open spec fn kernel() -> Seq<int> {
    seq![1, 2, 1, 2, 4, 2, 1, 2, 1]
}

/// The rows of a window one after another.
pub open spec fn window_flat(window: Seq<Vec<i32>>) -> Seq<i32>
    decreases window.len(),
{
    if window.len() == 0 {
        Seq::empty()
    } else {
        window_flat(window.drop_last()) + window.last()@
    }
}

/// The weighted sum of the first `k` values of a flattened window.
pub open spec fn mac(flat: Seq<i32>, k: nat) -> int
    decreases k,
{
    if k == 0 {
        0
    } else {
        mac(flat, (k - 1) as nat) + kernel()[k - 1] * flat[k - 1]
    }
}

/// What a window convolves to: the marker if the window holds it, else the
/// weighted sum of its first nine values.
pub open spec fn convolved(window: Seq<Vec<i32>>) -> int {
    if window_flat(window).contains(MARKER) {
        MARKER as int
    } else {
        mac(window_flat(window), 9)
    }
}

/// A window that can be convolved without reading past its end or
/// overflowing: it holds the marker, or nine values of bounded magnitude.
pub open spec fn convolvable(window: Seq<Vec<i32>>) -> bool {
    window_flat(window).contains(MARKER) || (window_flat(window).len() >= 9 && forall|i: int|
        0 <= i < 9 ==> -MAX_WINDOW_MAGNITUDE <= #[trigger] window_flat(window)[i] <= MAX_WINDOW_MAGNITUDE)
}

/// The kernel weights of the first `k` positions sum to at most sixteen.
proof fn lemma_mac_partial(flat: Seq<i32>, k: nat)
    requires
        k <= 9,
        flat.len() >= 9,
        forall|i: int| 0 <= i < 9 ==> -MAX_WINDOW_MAGNITUDE <= #[trigger] flat[i] <= MAX_WINDOW_MAGNITUDE,
    ensures
        -kernel_weight(k) * MAX_WINDOW_MAGNITUDE <= mac(flat, k) <= kernel_weight(k) * MAX_WINDOW_MAGNITUDE,
        kernel_weight(k) <= 16,
    decreases k,
{
    reveal_with_fuel(kernel_weight, 10);
    if k > 0 {
        lemma_mac_partial(flat, (k - 1) as nat);
        let w = kernel()[k - 1];
        let x = flat[k - 1] as int;
        assert(-w * MAX_WINDOW_MAGNITUDE <= w * x <= w * MAX_WINDOW_MAGNITUDE) by (nonlinear_arith)
            requires
                0 <= w,
                -MAX_WINDOW_MAGNITUDE <= x <= MAX_WINDOW_MAGNITUDE,
        ;
    }
}

/// The sum of the first `k` kernel weights.
spec fn kernel_weight(k: nat) -> int
    decreases k,
{
    if k == 0 {
        0
    } else {
        kernel_weight((k - 1) as nat) + kernel()[k - 1]
    }
}

/// Convolves each window with the kernel `[1,2,1,2,4,2,1,2,1]`; a window that
/// holds the marker gives the marker.
pub fn conv_generator(stencil_2d_output: Vec<Vec<Vec<i32>>>) -> (result: Vec<i32>)
    requires
        forall|w: int| 0 <= w < stencil_2d_output@.len() ==> convolvable(#[trigger] stencil_2d_output@[w]@),
    ensures
        result@.len() == stencil_2d_output@.len(),
        forall|w: int| 0 <= w < result@.len() ==> #[trigger] result@[w] == convolved(stencil_2d_output@[w]@),
{
    let hask_kernel: [i32; 9] = [1, 2, 1, 2, 4, 2, 1, 2, 1];
    assert(kernel() =~= hask_kernel@.map_values(|x: i32| x as int));
    let mut result: Vec<i32> = Vec::new();
    let mut w: usize = 0;
    while w < stencil_2d_output.len()
        invariant
            0 <= w <= stencil_2d_output@.len(),
            kernel() == hask_kernel@.map_values(|x: i32| x as int),
            forall|w: int| 0 <= w < stencil_2d_output@.len() ==> convolvable(#[trigger] stencil_2d_output@[w]@),
            result@.len() == w,
            forall|w2: int| 0 <= w2 < w ==> #[trigger] result@[w2] == convolved(stencil_2d_output@[w2]@),
        decreases stencil_2d_output@.len() - w,
    {
        let window = &stencil_2d_output[w];
        let mut flat_window: Vec<i32> = Vec::new();
        let mut a: usize = 0;
        while a < window.len()
            invariant
                0 <= a <= window@.len(),
                flat_window@ == window_flat(window@.subrange(0, a as int)),
            decreases window@.len() - a,
        {
            let line = &window[a];
            let mut b: usize = 0;
            let ghost start = flat_window@;
            while b < line.len()
                invariant
                    0 <= b <= line@.len(),
                    flat_window@ == start + line@.subrange(0, b as int),
                decreases line@.len() - b,
            {
                flat_window.push(line[b]);
                b = b + 1;
                assert(flat_window@ =~= start + line@.subrange(0, b as int));
            }
            assert(window@.subrange(0, a + 1).drop_last() =~= window@.subrange(0, a as int));
            assert(line@.subrange(0, b as int) =~= line@);
            a = a + 1;
        }
        assert(window@.subrange(0, window@.len() as int) =~= window@);
        let mut has_marker = false;
        let mut k: usize = 0;
        while k < flat_window.len()
            invariant
                0 <= k <= flat_window@.len(),
                has_marker == exists|i: int| 0 <= i < k && flat_window@[i] == MARKER,
            decreases flat_window@.len() - k,
        {
            if flat_window[k] == MARKER {
                has_marker = true;
            }
            k = k + 1;
        }
        assert(has_marker == flat_window@.contains(MARKER));
        if has_marker {
            result.push(MARKER);
        } else {
            let mut mac_acc: i32 = 0;
            let mut i: usize = 0;
            while i < 9
                invariant
                    0 <= i <= 9,
                    kernel() == hask_kernel@.map_values(|x: i32| x as int),
                    flat_window@.len() >= 9,
                    forall|j: int| 0 <= j < 9 ==> -MAX_WINDOW_MAGNITUDE <= #[trigger] flat_window@[j] <= MAX_WINDOW_MAGNITUDE,
                    mac_acc == mac(flat_window@, i as nat),
                decreases 9 - i,
            {
                proof {
                    lemma_mac_partial(flat_window@, (i + 1) as nat);
                    let kw = kernel()[i as int];
                    let x = flat_window@[i as int] as int;
                    assert(hask_kernel@[i as int] as int == kw);
                    assert(0 <= kw <= 4);
                    assert(-4 * MAX_WINDOW_MAGNITUDE <= kw * x <= 4 * MAX_WINDOW_MAGNITUDE) by (nonlinear_arith)
                        requires
                            0 <= kw <= 4,
                            -MAX_WINDOW_MAGNITUDE <= x <= MAX_WINDOW_MAGNITUDE,
                    ;
                }
                mac_acc = mac_acc + hask_kernel[i] * flat_window[i];
                i = i + 1;
            }
            result.push(mac_acc);
        }
        w = w + 1;
    }
    result
}

} // verus!
