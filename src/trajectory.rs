use vstd::prelude::*;

verus! {

/// Append-only history of the positions a body has occupied, one entry per tick.
pub struct Trajectory<V>(Vec<V>);

impl<V> View for Trajectory<V> {
    type V = Seq<V>;

    closed spec fn view(&self) -> Seq<V> {
        self.0@
    }
}

impl<V: Copy> Trajectory<V> {
    /// An empty history.
    pub fn new() -> (r: Self)
        ensures
            r@ == Seq::<V>::empty(),
    {
        Trajectory(Vec::new())
    }

    /// Appends one position at the end; earlier entries are kept as they are.
    pub fn record(&mut self, p: V)
        ensures
            final(self)@ == old(self)@.push(p),
    {
        self.0.push(p);
    }

    /// Number of recorded positions.
    pub fn len(&self) -> (r: usize)
        ensures
            r == self@.len(),
    {
        self.0.len()
    }

    /// The `k`-th recorded position, oldest first.
    pub fn get(&self, k: usize) -> (r: V)
        requires
            k < self@.len(),
        ensures
            r == self@[k as int],
    {
        self.0[k]
    }

    /// The line segments joining consecutive recorded positions, in order:
    /// segment `k` runs from entry `k` to entry `k + 1`.
    pub fn segments(&self) -> (r: Vec<(V, V)>)
        ensures
            r@.len() == (if self@.len() == 0 { 0 } else { self@.len() - 1 }),
            forall|k: int|
                0 <= k < r@.len() ==> #[trigger] r@[k] == (self@[k], self@[k + 1]),
    {
        let n = self.0.len();
        let mut r: Vec<(V, V)> = Vec::new();
        if n == 0 {
            return r;
        }
        let mut k: usize = 0;
        while k + 1 < n
            invariant
                n == self@.len(),
                n > 0,
                k < n,
                r@.len() == k,
                forall|i: int| 0 <= i < k ==> #[trigger] r@[i] == (self@[i], self@[i + 1]),
            decreases n - k,
        {
            r.push((self.0[k], self.0[k + 1]));
            k = k + 1;
        }
        r
    }
}

} // verus!
