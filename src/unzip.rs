use vstd::prelude::*;

verus! {

/// Splits a sequence of 4-tuples into four sequences, one per position.
pub trait Unzip4<A, B, C, D>: Sized {
    /// The tuples, in order.
    spec fn tuples(&self) -> Seq<(A, B, C, D)>;

    fn unzip4(self) -> (r: (Vec<A>, Vec<B>, Vec<C>, Vec<D>))
        ensures
            r.0@.len() == self.tuples().len(),
            r.1@.len() == self.tuples().len(),
            r.2@.len() == self.tuples().len(),
            r.3@.len() == self.tuples().len(),
            forall|i: int|
                0 <= i < self.tuples().len() ==> #[trigger] r.0@[i] == self.tuples()[i].0,
            forall|i: int|
                0 <= i < self.tuples().len() ==> #[trigger] r.1@[i] == self.tuples()[i].1,
            forall|i: int|
                0 <= i < self.tuples().len() ==> #[trigger] r.2@[i] == self.tuples()[i].2,
            forall|i: int|
                0 <= i < self.tuples().len() ==> #[trigger] r.3@[i] == self.tuples()[i].3,
    ;
}

impl<A, B, C, D> Unzip4<A, B, C, D> for Vec<(A, B, C, D)> {
    open spec fn tuples(&self) -> Seq<(A, B, C, D)> {
        self@
    }

    fn unzip4(self) -> (r: (Vec<A>, Vec<B>, Vec<C>, Vec<D>)) {
        let ghost t = self@;
        let n = self.len();
        let mut rest = self;
        // The tuples taken so far, last first.
        let mut reversed: Vec<(A, B, C, D)> = Vec::new();
        while rest.len() > 0
            invariant
                rest@ == t.take(rest.len() as int),
                rest.len() + reversed.len() == n,
                n == t.len(),
                forall|k: int|
                    0 <= k < reversed.len() ==> #[trigger] reversed@[k] == t[n - 1 - k],
            decreases rest.len(),
        {
            match rest.pop() {
                Some(x) => {
                    reversed.push(x);
                    assert(rest@ =~= t.take(rest.len() as int));
                },
                None => {},
            }
        }
        let mut ts: Vec<A> = Vec::new();
        let mut us: Vec<B> = Vec::new();
        let mut vs: Vec<C> = Vec::new();
        let mut ws: Vec<D> = Vec::new();
        while reversed.len() > 0
            invariant
                n == t.len(),
                ts.len() + reversed.len() == n,
                us.len() == ts.len(),
                vs.len() == ts.len(),
                ws.len() == ts.len(),
                forall|k: int|
                    0 <= k < reversed.len() ==> #[trigger] reversed@[k] == t[n - 1 - k],
                forall|i: int|
                    0 <= i < ts.len() ==> {
                        &&& #[trigger] ts@[i] == t[i].0
                        &&& us@[i] == t[i].1
                        &&& vs@[i] == t[i].2
                        &&& ws@[i] == t[i].3
                    },
            decreases reversed.len(),
        {
            match reversed.pop() {
                Some((a, b, c, d)) => {
                    ts.push(a);
                    us.push(b);
                    vs.push(c);
                    ws.push(d);
                },
                None => {},
            }
        }
        assert forall|i: int| 0 <= i < t.len() implies #[trigger] us@[i] == t[i].1 by {
            assert(ts@[i] == t[i].0);
        }
        assert forall|i: int| 0 <= i < t.len() implies #[trigger] vs@[i] == t[i].2 by {
            assert(ts@[i] == t[i].0);
        }
        assert forall|i: int| 0 <= i < t.len() implies #[trigger] ws@[i] == t[i].3 by {
            assert(ts@[i] == t[i].0);
        }
        (ts, us, vs, ws)
    }
}

} // verus!
