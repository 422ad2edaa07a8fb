use vstd::prelude::*;

verus! {

/// A grid stored column by column, as nested sequences.
pub open spec fn grid_view<T>(g: Seq<Vec<T>>) -> Seq<Seq<T>> {
    g.map_values(|col: Vec<T>| col@)
}

/// `w` columns of `h` cells each.
pub open spec fn grid_shaped<T>(g: Seq<Seq<T>>, w: int, h: int) -> bool {
    &&& g.len() == w
    &&& forall|x: int| 0 <= x < w ==> (#[trigger] g[x]).len() == h
}

/// A `w` by `h` grid with every cell set to `v`.
pub fn new_grid<T: Copy>(w: usize, h: usize, v: T) -> (g: Vec<Vec<T>>)
    ensures
        grid_shaped(grid_view(g@), w as int, h as int),
        forall|x: int, y: int|
            0 <= x < w && 0 <= y < h ==> #[trigger] grid_view(g@)[x][y] == v,
{
    let mut g: Vec<Vec<T>> = Vec::new();
    let mut x: usize = 0;
    while x < w
        invariant
            x <= w,
            g@.len() == x,
            forall|i: int| 0 <= i < x ==> (#[trigger] g@[i])@ == Seq::new(h as nat, |j: int| v),
        decreases w - x,
    {
        let mut col: Vec<T> = Vec::new();
        let mut y: usize = 0;
        while y < h
            invariant
                y <= h,
                col@ == Seq::new(y as nat, |j: int| v),
            decreases h - y,
        {
            col.push(v);
            y = y + 1;
        }
        g.push(col);
        x = x + 1;
    }
    g
}

/// Sets cell `(x, y)` of the grid to `v`.
pub fn set_cell<T>(g: &mut Vec<Vec<T>>, x: usize, y: usize, v: T)
    requires
        x < old(g)@.len(),
        y < old(g)@[x as int]@.len(),
    ensures
        grid_view(final(g)@) == grid_view(old(g)@).update(
            x as int,
            grid_view(old(g)@)[x as int].update(y as int, v),
        ),
{
    g[x].set(y, v);
    assert(grid_view(g@) =~= grid_view(old(g)@).update(
        x as int,
        grid_view(old(g)@)[x as int].update(y as int, v),
    ));
}

} // verus!
