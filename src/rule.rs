//! The vertex rule of the chaos game: a window over the last vertices
//! chosen, which forbids some vertices once the window holds one vertex only.
use vstd::prelude::*;

verus! {

/// Remainder that takes the sign of the dividend, as `%` does on Rust's
/// signed integers.
pub open spec fn trunc_rem(a: int, n: int) -> int {
    let m = if n < 0 { -n } else { n };
    if a >= 0 {
        a % m
    } else {
        -((-a) % m)
    }
}

/// Every vertex of the window is the same, in a window of two or more.
pub open spec fn all_same(h: Seq<i32>) -> bool {
    h.len() > 1 && forall|i: int| 0 <= i < h.len() - 1 ==> #[trigger] h[i] == h[i + 1]
}

/// The oldest vertex of the window, or -1 for an empty window.
pub open spec fn oldest(h: Seq<i32>) -> int {
    if h.len() > 0 {
        h[0] as int
    } else {
        -1
    }
}

/// Rust's `%` on an `i64` dividend of moderate size and an `i32` divisor.
fn rem_toward_zero(a: i64, n: i32) -> (r: i64)
    requires
        n != 0,
        -0x2_0000_0000 <= a <= 0x2_0000_0000,
    ensures
        r == trunc_rem(a as int, n as int),
{
    let m: u64 = if n < 0 {
        (-(n as i64)) as u64
    } else {
        n as u64
    };
    if a >= 0 {
        ((a as u64) % m) as i64
    } else {
        let q = ((-a) as u64) % m;
        -(q as i64)
    }
}

/// A window of the last `length` vertices chosen, with the offset that is
/// forbidden from the oldest one once they are all the same.
#[derive(Clone, Debug)]
pub struct Rule {
    heap: Vec<i32>,
    length: usize,
    offset: i32,
    sign: i32,
    symmetry: bool,
}

impl Rule {
    /// The window, oldest vertex first.
    pub closed spec fn history(&self) -> Seq<i32> {
        self.heap@
    }

    /// The forbidden distance, without its sign.
    pub closed spec fn spec_offset(&self) -> int {
        self.offset as int
    }

    /// The direction in which the distance is counted: 1 or -1.
    pub closed spec fn spec_sign(&self) -> int {
        self.sign as int
    }

    /// Whether the distance is forbidden in both directions.
    pub closed spec fn spec_symmetry(&self) -> bool {
        self.symmetry
    }

    pub closed spec fn wf(&self) -> bool {
        &&& self.heap@.len() == self.length
        &&& self.offset >= 0
        &&& self.sign == 1 || self.sign == -1
    }

    /// Whether the rule forbids vertex `index` of a polygon of `n` vertices.
    pub open spec fn forbids(&self, n: int, index: int) -> bool {
        let h = self.history();
        let d = index - oldest(h);
        all_same(h) && if self.spec_symmetry() {
            trunc_rem(d, n) == self.spec_offset() || trunc_rem(-d, n) == self.spec_offset()
        } else {
            trunc_rem(self.spec_sign() * d, n) == self.spec_offset()
        }
    }

    /// A rule over a window of `length` vertices, none chosen yet (-1). The
    /// sign of `offset` becomes the direction, its magnitude the distance.
    pub fn new(length: usize, offset: i32, symmetry: bool) -> (r: Rule)
        requires
            offset != i32::MIN,
        ensures
            r.wf(),
            r.history() == Seq::new(length as nat, |i: int| -1i32),
            r.spec_offset() == if offset < 0 { -offset } else { offset as int },
            r.spec_sign() == if offset < 0 { -1int } else { 1int },
            r.spec_symmetry() == symmetry,
    {
        let heap = vec![-1i32; length];
        let r = Rule {
            heap,
            length,
            offset: if offset < 0 { -offset } else { offset },
            sign: if offset < 0 { -1 } else { 1 },
            symmetry,
        };
        assert(r.history() =~= Seq::new(length as nat, |i: int| -1i32));
        r
    }

    /// Pushes the vertex just chosen into the window, dropping the oldest.
    /// A window of length 0 stays empty.
    pub fn add(&mut self, element: i32)
        requires
            old(self).wf(),
        ensures
            final(self).wf(),
            final(self).spec_offset() == old(self).spec_offset(),
            final(self).spec_sign() == old(self).spec_sign(),
            final(self).spec_symmetry() == old(self).spec_symmetry(),
            final(self).history() == if old(self).history().len() > 0 {
                old(self).history().drop_first().push(element)
            } else {
                old(self).history()
            },
    {
        if self.length > 0 {
            let ghost before = self.heap@;
            let n = self.length;
            for i in 0..n - 1
                invariant
                    n == self.length,
                    self.offset == old(self).offset,
                    self.sign == old(self).sign,
                    self.symmetry == old(self).symmetry,
                    n == before.len(),
                    n > 0,
                    self.heap@.len() == n,
                    forall|j: int| 0 <= j < i ==> self.heap@[j] == before[j + 1],
                    forall|j: int| i <= j < n ==> self.heap@[j] == before[j],
            {
                let next = self.heap[i + 1];
                self.heap.set(i, next);
            }
            self.heap.set(n - 1, element);
            assert(self.heap@ =~= before.drop_first().push(element));
        }
    }

    /// Whether vertex `index` of a polygon of `vertex_count` vertices may
    /// not be chosen next.
    pub fn check(&self, vertex_count: i32, index: i32) -> (r: bool)
        requires
            self.wf(),
            vertex_count != 0,
        ensures
            r == self.forbids(vertex_count as int, index as int),
    {
        if !self.all_equal() {
            return false;
        }
        let reference = self.get();
        let d: i64 = index as i64 - reference as i64;
        if self.symmetry {
            rem_toward_zero(d, vertex_count) == self.offset as i64 || rem_toward_zero(
                -d,
                vertex_count,
            ) == self.offset as i64
        } else {
            let ghost dist = index as int - oldest(self.history());
            assert(d as int == dist);
            let directed: i64 = if self.sign < 0 {
                assert(-(d as int) == self.spec_sign() * dist) by (nonlinear_arith)
                    requires
                        self.spec_sign() == -1,
                        d as int == dist,
                ;
                -d
            } else {
                assert(d as int == self.spec_sign() * dist) by (nonlinear_arith)
                    requires
                        self.spec_sign() == 1,
                        d as int == dist,
                ;
                d
            };
            rem_toward_zero(directed, vertex_count) == self.offset as i64
        }
    }

    /// The oldest vertex of the window, or -1 for an empty window.
    fn get(&self) -> (r: i32)
        requires
            self.wf(),
        ensures
            r == oldest(self.history()),
    {
        if self.length > 0 {
            self.heap[0]
        } else {
            -1
        }
    }

    /// Whether the window holds two or more vertices, all the same.
    fn all_equal(&self) -> (r: bool)
        requires
            self.wf(),
        ensures
            r == all_same(self.history()),
    {
        if self.length <= 1 {
            return false;
        }
        for i in 0..self.length - 1
            invariant
                self.wf(),
                self.length > 1,
                forall|j: int| 0 <= j < i ==> #[trigger] self.heap@[j] == self.heap@[j + 1],
        {
            if self.heap[i] != self.heap[i + 1] {
                return false;
            }
        }
        true
    }
}

} // verus!
