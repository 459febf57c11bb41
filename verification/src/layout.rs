//! The pane tiling algorithm. The terminal width is divided evenly among
//! the panes; the division's remainder goes entirely to the first pane;
//! and a selected pane that is not the leftmost steals one column from its
//! left neighbour so its border can overlay it. The widths always sum to
//! the terminal width exactly.

use vstd::prelude::*;
use vstd::arithmetic::div_mod::lemma_fundamental_div_mod;
use vstd::arithmetic::mul::{lemma_mul_inequality, lemma_mul_is_distributive_add};

verus! {

/// The even share of the width every pane starts from.
pub open spec fn pane_base(width: u16, n: int) -> int {
    width as int / n
}

/// What the even division leaves over; it goes to the first pane.
pub open spec fn pane_rf(width: u16, n: int) -> int {
    width as int - pane_base(width, n) * n
}

/// The column the pane `i` of `n` starts at, when pane `sel` is selected.
pub open spec fn pane_x(width: u16, n: int, sel: int, i: int) -> int {
    let x0 = if i == 0 {
        0
    } else {
        pane_base(width, n) * i + pane_rf(width, n)
    };
    if sel > 0 && i == sel {
        x0 - 1
    } else {
        x0
    }
}

/// The width of the pane `i` of `n`, when pane `sel` is selected.
pub open spec fn pane_w(width: u16, n: int, sel: int, i: int) -> int {
    let w0 = if i == 0 {
        pane_base(width, n) + pane_rf(width, n)
    } else {
        pane_base(width, n)
    };
    if sel > 0 && i == sel - 1 {
        w0 - 1
    } else if sel > 0 && i == sel {
        w0 + 1
    } else {
        w0
    }
}

/// The sum of the widths of a computed layout.
pub open spec fn widths_sum(s: Seq<(u16, u16)>) -> int
    decreases s.len(),
{
    if s.len() == 0 {
        0
    } else {
        widths_sum(s.drop_last()) + s.last().1
    }
}

/// The panes tile the terminal: the first pane starts at column zero,
/// every pane starts where its left neighbour ends, the last pane ends at
/// the terminal's right edge, and every pane lies inside the terminal.
pub proof fn lemma_pane_grid(width: u16, n: int, sel: int)
    requires
        1 <= n <= width as int,
        0 <= sel < n,
    ensures
        1 <= pane_base(width, n),
        0 <= pane_rf(width, n) < n,
        pane_x(width, n, sel, 0) == 0,
        forall|i: int|
            0 <= i < n - 1 ==> #[trigger] pane_x(width, n, sel, i) + pane_w(width, n, sel, i)
                == pane_x(width, n, sel, i + 1),
        pane_x(width, n, sel, n - 1) + pane_w(width, n, sel, n - 1) == width as int,
        forall|i: int|
            0 <= i < n ==> 0 <= #[trigger] pane_w(width, n, sel, i) && 0 <= pane_x(width, n, sel, i)
                && pane_x(width, n, sel, i) + pane_w(width, n, sel, i) <= width as int,
{
    let base = pane_base(width, n);
    let rf = pane_rf(width, n);
    lemma_fundamental_div_mod(width as int, n);
    assert(n * base == base * n) by (nonlinear_arith);
    assert(rf == width as int % n);
    assert(0 <= rf < n);
    assert(base >= 1) by {
        if base <= 0 {
            assert(base * n <= 0) by (nonlinear_arith)
                requires
                    base <= 0,
                    n >= 1,
            ;
        }
    }
    assert forall|i: int| 0 <= i < n - 1 implies #[trigger] pane_x(width, n, sel, i) + pane_w(
        width,
        n,
        sel,
        i,
    ) == pane_x(width, n, sel, i + 1) by {
        lemma_mul_is_distributive_add(base, i, 1);
        assert(base * 1 == base) by (nonlinear_arith);
    }
    assert(pane_x(width, n, sel, n - 1) + pane_w(width, n, sel, n - 1) == width as int) by {
        lemma_mul_is_distributive_add(base, n - 1, 1);
        assert(base * 1 == base) by (nonlinear_arith);
    }
    assert forall|i: int| 0 <= i < n implies 0 <= #[trigger] pane_w(width, n, sel, i) && 0
        <= pane_x(width, n, sel, i) && pane_x(width, n, sel, i) + pane_w(width, n, sel, i)
        <= width as int by {
        if i > 0 {
            lemma_mul_inequality(1, i, base);
            assert(base * 1 == base) by (nonlinear_arith);
            assert(base * i == i * base) by (nonlinear_arith);
        }
        lemma_mul_is_distributive_add(base, i, 1);
        lemma_mul_inequality(i + 1, n, base);
        assert(base * (i + 1) == (i + 1) * base) by (nonlinear_arith);
        assert(base * n == n * base) by (nonlinear_arith);
    }
}

/// Computes the tiling: for each pane its starting column and width, in
/// pane order. The widths always sum exactly to the terminal width, for
/// every pane count from one up to the terminal width.
pub fn layout(terminal_width: u16, pane_count: usize, selected: usize) -> (r: Vec<(u16, u16)>)
    requires
        1 <= pane_count,
        pane_count <= terminal_width as usize,
        selected < pane_count,
    ensures
        r@.len() == pane_count,
        forall|i: int|
            0 <= i < pane_count ==> (#[trigger] r@[i]).0 as int == pane_x(
                terminal_width,
                pane_count as int,
                selected as int,
                i,
            ) && r@[i].1 as int == pane_w(terminal_width, pane_count as int, selected as int, i),
        widths_sum(r@) == terminal_width as int,
{
    let ghost n = pane_count as int;
    let ghost sel = selected as int;
    proof {
        lemma_pane_grid(terminal_width, n, sel);
    }
    let width_us: usize = terminal_width as usize;
    let base: usize = width_us / pane_count;
    assert(base == pane_base(terminal_width, n));
    assert(base * pane_count <= width_us) by {
        assert(pane_base(terminal_width, n) * n <= terminal_width as int);
    }
    let rf: usize = width_us - base * pane_count;
    assert(rf == pane_rf(terminal_width, n));
    let mut r: Vec<(u16, u16)> = Vec::new();
    let mut x: usize = 0;
    let mut i: usize = 0;
    while i < pane_count
        invariant
            i <= pane_count,
            n == pane_count as int,
            sel == selected as int,
            1 <= pane_count <= terminal_width as usize,
            selected < pane_count,
            base == pane_base(terminal_width, n),
            rf == pane_rf(terminal_width, n),
            r@.len() == i,
            forall|j: int|
                0 <= j < i ==> (#[trigger] r@[j]).0 as int == pane_x(terminal_width, n, sel, j)
                    && r@[j].1 as int == pane_w(terminal_width, n, sel, j),
            x as int == if i < pane_count {
                pane_x(terminal_width, n, sel, i as int)
            } else {
                terminal_width as int
            },
            widths_sum(r@) == x as int,
        decreases pane_count - i,
    {
        proof {
            lemma_pane_grid(terminal_width, n, sel);
        }
        let mut w: usize = base;
        if i == 0 {
            w = w + rf;
        }
        if selected > 0 {
            if i == selected - 1 {
                w = w - 1;
            } else if i == selected {
                w = w + 1;
            }
        }
        assert(w as int == pane_w(terminal_width, n, sel, i as int));
        let ghost r_before = r@;
        r.push((x as u16, w as u16));
        proof {
            assert(r@.drop_last() =~= r_before);
        }
        x = x + w;
        i = i + 1;
    }
    r
}

/// The border flags of the pane `i` of `pane_count` when `selected` is
/// selected: the top border always; the left border only on a selected
/// pane that is not leftmost; the right border unless the pane is last or
/// its right neighbour is selected.
pub fn border_flags(pane_count: usize, selected: usize, i: usize) -> (r: (bool, bool, bool))
    requires
        i < pane_count,
        selected < pane_count,
    ensures
        r.0 == true,
        r.1 == (i != 0 && i == selected),
        r.2 == (i != pane_count - 1 && i + 1 != selected),
{
    let top = true;
    let left = i != 0 && i == selected;
    let right = i != pane_count - 1 && i + 1 != selected;
    (top, left, right)
}

} // verus!
