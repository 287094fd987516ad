//! The structured reference string: shared commitment parameters sized to a
//! maximum polynomial degree, with a lazily extended cache of per-domain
//! evaluation (Lagrange) bases keyed by domain size.
//!
//! The cache is the one mutable part of the whole core. Extension is
//! idempotent: asking again for a cached domain size leaves the string
//! untouched. Sharing one string across several proving indexes, and
//! serializing concurrent extensions, is the embedding application's duty.

use vstd::prelude::*;

use crate::gate::FieldElem;

verus! {

/// Limb-mixing constants of the deterministic parameter generator.
pub const GEN_MIX_1: u64 = 0x9e37_79b9_7f4a_7c15;

pub const GEN_MIX_2: u64 = 0xbf58_476d_1ce4_e5b9;

pub const GEN_MIX_3: u64 = 0x94d0_49bb_1331_11eb;

/// The `i`-th commitment parameter of a reference string.
pub open spec fn srs_elem(i: u64) -> FieldElem {
    FieldElem { c0: i, c1: i ^ GEN_MIX_1, c2: i ^ GEN_MIX_2, c3: i ^ GEN_MIX_3 }
}

/// The `i`-th element of the evaluation basis for domain size `n`, derived
/// from the `i`-th commitment parameter.
pub open spec fn basis_elem(g: FieldElem, n: u64) -> FieldElem {
    FieldElem { c0: g.c0 ^ n, c1: g.c1 ^ n, c2: g.c2 ^ n, c3: g.c3 ^ n }
}

/// The full evaluation basis for domain size `n` over the given commitment
/// parameters: one element per domain point.
pub open spec fn basis_elems(elements: Seq<FieldElem>, n: u64) -> Seq<FieldElem>
    recommends
        n <= elements.len(),
{
    Seq::new(n as nat, |i: int| basis_elem(elements[i], n))
}

/// A cached evaluation basis for one domain size.
#[derive(Clone, PartialEq, Eq, Debug)]
pub struct LagrangeBasis {
    pub domain_size: u64,
    pub elems: Vec<FieldElem>,
}

/// Mathematical value of a [`LagrangeBasis`].
#[verifier::ext_equal]
pub struct BasisView {
    pub domain_size: u64,
    pub elems: Seq<FieldElem>,
}

impl View for LagrangeBasis {
    type V = BasisView;

    open spec fn view(&self) -> BasisView {
        BasisView { domain_size: self.domain_size, elems: self.elems@ }
    }
}

/// The views of a sequence of cached bases.
pub open spec fn bases_view(bases: Seq<LagrangeBasis>) -> Seq<BasisView> {
    bases.map(|i: int, b: LagrangeBasis| b@)
}

/// The structured reference string: its commitment parameters (the maximum
/// supported degree is their count) and the cached evaluation bases.
#[derive(Debug)]
pub struct Srs {
    pub elements: Vec<FieldElem>,
    pub bases: Vec<LagrangeBasis>,
}

/// Mathematical value of an [`Srs`].
#[verifier::ext_equal]
pub struct SrsView {
    pub elements: Seq<FieldElem>,
    pub bases: Seq<BasisView>,
}

impl View for Srs {
    type V = SrsView;

    open spec fn view(&self) -> SrsView {
        SrsView { elements: self.elements@, bases: bases_view(self.bases@) }
    }
}

impl SrsView {
    /// Whether a basis for domain size `n` is cached.
    pub open spec fn has_basis(self, n: u64) -> bool {
        exists|i: int| 0 <= i < self.bases.len() && (#[trigger] self.bases[i]).domain_size == n
    }

    /// The string after a basis-ensure for domain size `n`: unchanged when a
    /// basis for `n` is cached, else extended by exactly that basis.
    pub open spec fn ensure_basis_spec(self, n: u64) -> SrsView {
        if self.has_basis(n) {
            self
        } else {
            SrsView {
                elements: self.elements,
                bases: self.bases.push(
                    BasisView { domain_size: n, elems: basis_elems(self.elements, n) },
                ),
            }
        }
    }

    /// Internal consistency: every cached basis belongs to a distinct
    /// in-range domain size and holds exactly the derived basis elements.
    pub open spec fn wf(self) -> bool {
        &&& forall|i: int|
            0 <= i < self.bases.len() ==> {
                &&& 1 <= (#[trigger] self.bases[i]).domain_size
                &&& self.bases[i].domain_size <= self.elements.len()
                &&& self.bases[i].elems == basis_elems(self.elements, self.bases[i].domain_size)
            }
        &&& forall|i: int, j: int|
            0 <= i < j < self.bases.len() ==> (#[trigger] self.bases[i]).domain_size != (
            #[trigger] self.bases[j]).domain_size
    }
}

/// Copies a vector of field elements.
fn copy_elems(v: &Vec<FieldElem>) -> (r: Vec<FieldElem>)
    ensures
        r@ == v@,
{
    let mut out: Vec<FieldElem> = Vec::new();
    let mut i: usize = 0;
    while i < v.len()
        invariant
            i <= v.len(),
            out@ == v@.take(i as int),
        decreases v.len() - i,
    {
        out.push(v[i]);
        proof {
            assert(out@ =~= v@.take(i + 1));
        }
        i = i + 1;
    }
    proof {
        assert(out@ =~= v@);
    }
    out
}

impl Srs {
    /// Creates a reference string of the given maximum degree, with the
    /// deterministic commitment parameters and an empty basis cache.
    pub fn create(depth: usize) -> (r: Srs)
        ensures
            r@.elements.len() == depth,
            forall|i: int| 0 <= i < depth ==> r@.elements[i] == srs_elem(i as u64),
            r@.bases.len() == 0,
            r@.wf(),
    {
        let mut elements: Vec<FieldElem> = Vec::new();
        let mut i: usize = 0;
        while i < depth
            invariant
                i <= depth,
                elements@.len() == i,
                forall|j: int| 0 <= j < i ==> elements@[j] == srs_elem(j as u64),
            decreases depth - i,
        {
            let k = i as u64;
            elements.push(
                FieldElem { c0: k, c1: k ^ GEN_MIX_1, c2: k ^ GEN_MIX_2, c3: k ^ GEN_MIX_3 },
            );
            i = i + 1;
        }
        Srs { elements, bases: Vec::new() }
    }

    /// The maximum polynomial degree this string supports.
    pub fn max_degree(&self) -> (r: usize)
        ensures
            r == self@.elements.len(),
    {
        self.elements.len()
    }

    /// Copies the whole string, basis cache included.
    pub fn duplicate(&self) -> (r: Srs)
        ensures
            r@ == self@,
    {
        let elements = copy_elems(&self.elements);
        let mut bases: Vec<LagrangeBasis> = Vec::new();
        let mut i: usize = 0;
        while i < self.bases.len()
            invariant
                i <= self.bases.len(),
                bases@.len() == i,
                forall|j: int| 0 <= j < i ==> #[trigger] bases@[j]@ == self.bases@[j]@,
            decreases self.bases.len() - i,
        {
            let b = &self.bases[i];
            let copied = LagrangeBasis { domain_size: b.domain_size, elems: copy_elems(&b.elems) };
            proof {
                assert(copied@ =~= self.bases@[i as int]@);
            }
            bases.push(copied);
            i = i + 1;
        }
        let r = Srs { elements, bases };
        proof {
            assert forall|j: int| 0 <= j < self.bases@.len() implies bases_view(bases@)[j]
                == bases_view(self.bases@)[j] by {
                assert(bases_view(bases@)[j] == bases@[j]@);
                assert(bases_view(self.bases@)[j] == self.bases@[j]@);
            }
            assert(bases_view(bases@) =~= bases_view(self.bases@));
            assert(r@ =~= self@);
        }
        r
    }

    /// Ensures the evaluation basis for domain size `n` is cached: a no-op
    /// when it already is (the string is left exactly as it was), else the
    /// derived basis for `n` is appended to the cache.
    pub fn ensure_lagrange_basis(&mut self, n: u64)
        requires
            old(self)@.wf(),
            1 <= n,
            n <= old(self)@.elements.len(),
        ensures
            final(self)@ == old(self)@.ensure_basis_spec(n),
            final(self)@.wf(),
            final(self)@.has_basis(n),
            old(self)@.has_basis(n) ==> final(self)@ == old(self)@,
    {
        let mut i: usize = 0;
        while i < self.bases.len()
            invariant
                i <= self.bases.len(),
                self@.wf(),
                forall|j: int| 0 <= j < i ==> (#[trigger] self@.bases[j]).domain_size != n,
            decreases self.bases.len() - i,
        {
            if self.bases[i].domain_size == n {
                proof {
                    assert(self@.bases[i as int].domain_size == n);
                    assert(self@.has_basis(n));
                }
                return ;
            }
            proof {
                assert(self@.bases[i as int] == self.bases@[i as int]@);
            }
            i = i + 1;
        }
        proof {
            assert(!self@.has_basis(n));
        }
        let ghost pre = self@;
        let mut elems: Vec<FieldElem> = Vec::new();
        let cap: usize = self.elements.len();
        let mut k: usize = 0;
        while (k as u64) < n
            invariant
                k as nat <= n as nat,
                n <= self.elements@.len(),
                cap == self.elements@.len(),
                k <= cap,
                elems@.len() == k,
                forall|j: int|
                    0 <= j < k ==> #[trigger] elems@[j] == basis_elem(self.elements@[j], n),
                self@ == pre,
                pre.elements == self.elements@,
            decreases n - k,
        {
            let g = self.elements[k];
            elems.push(FieldElem { c0: g.c0 ^ n, c1: g.c1 ^ n, c2: g.c2 ^ n, c3: g.c3 ^ n });
            k = k + 1;
        }
        proof {
            assert(elems@ =~= basis_elems(pre.elements, n));
        }
        let fresh = LagrangeBasis { domain_size: n, elems };
        proof {
            assert(fresh@ =~= BasisView { domain_size: n, elems: basis_elems(pre.elements, n) });
        }
        self.bases.push(fresh);
        proof {
            let old_bases = pre.bases;
            assert forall|j: int| 0 <= j < self@.bases.len() implies self@.bases[j] == (
            if j < old_bases.len() {
                old_bases[j]
            } else {
                fresh@
            }) by {
                assert(self@.bases[j] == self.bases@[j]@);
            }
            assert(self@.bases =~= old_bases.push(fresh@));
            assert(self@ =~~= pre.ensure_basis_spec(n));
            assert(self@.bases[old_bases.len() as int].domain_size == n);
            assert(self@.has_basis(n));
            assert forall|a: int, b: int| 0 <= a < b < self@.bases.len() implies (
            #[trigger] self@.bases[a]).domain_size != (#[trigger] self@.bases[b]).domain_size by {
                if b == old_bases.len() {
                    assert(self@.bases[a] == old_bases[a]);
                    if self@.bases[a].domain_size == n {
                        assert(pre.has_basis(n));
                    }
                }
            }
            assert(self@.wf());
        }
    }

    /// The cached basis for domain size `n`, if one is present.
    pub fn lagrange_basis(&self, n: u64) -> (r: Option<&LagrangeBasis>)
        ensures
            self@.has_basis(n) <==> r is Some,
            (r matches Some(b) ==> {
                &&& b@.domain_size == n
                &&& self@.wf() ==> b@.elems == basis_elems(self@.elements, n)
            }),
    {
        let mut i: usize = 0;
        while i < self.bases.len()
            invariant
                i <= self.bases.len(),
                forall|j: int| 0 <= j < i ==> (#[trigger] self@.bases[j]).domain_size != n,
            decreases self.bases.len() - i,
        {
            if self.bases[i].domain_size == n {
                proof {
                    assert(self@.bases[i as int].domain_size == n);
                    assert(self@.has_basis(n));
                }
                return Some(&self.bases[i]);
            }
            proof {
                assert(self@.bases[i as int] == self.bases@[i as int]@);
            }
            i = i + 1;
        }
        None
    }
}

/// Idempotent basis binding: ensuring a basis twice for the same domain size
/// leaves the reference string, cached basis included, exactly as one ensure
/// leaves it.
pub proof fn lemma_basis_binding_idempotent(s: SrsView, n: u64)
    ensures
        s.ensure_basis_spec(n).ensure_basis_spec(n) == s.ensure_basis_spec(n),
{
    let s1 = s.ensure_basis_spec(n);
    if s.has_basis(n) {
    } else {
        assert(s1.bases[s.bases.len() as int].domain_size == n);
        assert(s1.has_basis(n));
    }
}

} // verus!
