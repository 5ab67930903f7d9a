use vstd::prelude::*;
use crate::errors::VynError;
use crate::ir::{spec_def, spec_uses, VReg, VynIROpCode};
use crate::span::Span;

verus! {

/// No virtual register appears twice among the pairs.
pub open spec fn keys_unique(s: Seq<(VReg, u8)>) -> bool {
    forall|i: int, j: int| 0 <= i < j < s.len() ==> #[trigger] s[i].0 != #[trigger] s[j].0
}

/// The map that a list of (virtual, physical) pairs describes.
pub open spec fn pairs_map(s: Seq<(VReg, u8)>) -> Map<VReg, u8>
    decreases s.len(),
{
    if s.len() == 0 {
        Map::empty()
    } else {
        pairs_map(s.drop_last()).insert(s.last().0, s.last().1)
    }
}

/// Membership and lookup in the map of a list of pairs with unique keys.
pub proof fn lemma_pairs_map(s: Seq<(VReg, u8)>, k: VReg)
    requires
        keys_unique(s),
    ensures
        pairs_map(s).contains_key(k) <==> exists|i: int| 0 <= i < s.len() && #[trigger] s[i].0 == k,
        forall|i: int| 0 <= i < s.len() && #[trigger] s[i].0 == k ==> pairs_map(s)[k] == s[i].1,
    decreases s.len(),
{
    if s.len() > 0 {
        let t = s.drop_last();
        assert(keys_unique(t)) by {
            assert forall|i: int, j: int| 0 <= i < j < t.len() implies #[trigger] t[i].0 != #[trigger] t[j].0 by {
                assert(t[i] == s[i] && t[j] == s[j]);
            }
        }
        lemma_pairs_map(t, k);
        if pairs_map(s).contains_key(k) && k != s.last().0 {
            let i = choose|i: int| 0 <= i < t.len() && #[trigger] t[i].0 == k;
            assert(s[i].0 == k);
        }
        assert forall|i: int| 0 <= i < s.len() && #[trigger] s[i].0 == k implies pairs_map(s)[k] == s[i].1 by {
            if i < s.len() - 1 {
                assert(t[i] == s[i]);
                assert(s[i].0 != s[s.len() - 1].0);
            }
        }
        if exists|i: int| 0 <= i < s.len() && #[trigger] s[i].0 == k {
            let i = choose|i: int| 0 <= i < s.len() && #[trigger] s[i].0 == k;
            if i < s.len() - 1 {
                assert(t[i] == s[i]);
            }
        }
    }
}

/// What the allocator's decisions depend on: its (virtual, physical) pairs
/// in the order they were made, and the physical registers in use.
pub struct AllocModel {
    pub pairs: Seq<(VReg, u8)>,
    pub used: Set<u8>,
}

/// Some physical register below `max` is not in use.
pub open spec fn model_has_free(m: AllocModel, max: u8) -> bool {
    exists|p: u8| p < max && !m.used.contains(p)
}

/// The lowest physical register below `max` not in use.
pub open spec fn model_least_free(m: AllocModel, max: u8) -> u8 {
    choose|p: u8| p < max && !m.used.contains(p) && forall|q: u8| q < p ==> #[trigger] m.used.contains(q)
}

/// The physical register of the first pair from `i` on whose virtual
/// register is not in `live`.
pub open spec fn first_dead(pairs: Seq<(VReg, u8)>, live: Set<VReg>, i: int) -> Option<u8>
    decreases pairs.len() - i,
{
    if 0 <= i < pairs.len() {
        if !live.contains(pairs[i].0) {
            Some(pairs[i].1)
        } else {
            first_dead(pairs, live, i + 1)
        }
    } else {
        None
    }
}

/// The pairs whose physical register is not `p`, in order.
pub open spec fn without_phys(pairs: Seq<(VReg, u8)>, p: u8) -> Seq<(VReg, u8)>
    decreases pairs.len(),
{
    if pairs.len() == 0 {
        pairs
    } else {
        let rest = without_phys(pairs.drop_last(), p);
        if pairs.last().1 != p {
            rest.push(pairs.last())
        } else {
            rest
        }
    }
}

/// What allocating `d` does, with `live` the registers still needed: keep a
/// register it has; else take the lowest free one; else take over the first
/// pair whose virtual register is dead (dropping every pair on that
/// physical register); else fail (`None`).
pub open spec fn model_allocate(m: AllocModel, d: VReg, live: Set<VReg>, max: u8) -> Option<AllocModel> {
    if pairs_map(m.pairs).contains_key(d) {
        Some(m)
    } else if model_has_free(m, max) {
        let p = model_least_free(m, max);
        Some(AllocModel { pairs: m.pairs.push((d, p)), used: m.used.insert(p) })
    } else {
        match first_dead(m.pairs, live, 0) {
            Some(p) => Some(AllocModel { pairs: without_phys(m.pairs, p).push((d, p)), used: m.used }),
            None => None,
        }
    }
}

/// What freeing `v` does, with `live` the registers still needed: its
/// physical register is no longer in use when `v` has one and is dead.
pub open spec fn model_free(m: AllocModel, v: VReg, live: Set<VReg>) -> AllocModel {
    if !live.contains(v) && pairs_map(m.pairs).contains_key(v) {
        AllocModel { pairs: m.pairs, used: m.used.remove(pairs_map(m.pairs)[v]) }
    } else {
        m
    }
}

/// Maps virtual registers to the physical registers of the machine, reusing
/// a physical register once the virtual one it holds is no longer live.
pub struct RegisterAllocator {
    allocation: Vec<(VReg, u8)>,
    used_physical: Vec<u8>,
    live_ranges: Vec<Vec<VReg>>,
    max_registers: u8,
    peak: usize,
}

impl RegisterAllocator {
    /// The allocator's own invariant.
    pub closed spec fn wf(&self) -> bool {
        &&& keys_unique(self.allocation@)
        &&& self.used_physical@.no_duplicates()
        &&& forall|i: int| 0 <= i < self.allocation@.len() ==> #[trigger] self.allocation@[i].1 < self.max_registers
        &&& forall|i: int| 0 <= i < self.used_physical@.len() ==> #[trigger] self.used_physical@[i] < self.max_registers
        &&& self.peak >= self.used_physical@.len()
    }

    /// The pairs made and the registers in use.
    pub closed spec fn model(&self) -> AllocModel {
        AllocModel { pairs: self.allocation@, used: self.used_view() }
    }

    /// The map view is the map of the pairs.
    pub proof fn lemma_model_view(&self)
        ensures
            self.alloc_view() == pairs_map(self.model().pairs),
    {
    }

    /// The virtual registers live after instruction `i`.
    pub open spec fn live_set(&self, i: int) -> Set<VReg> {
        Set::new(|v: VReg| self.is_live(i, v))
    }

    /// Which physical register each allocated virtual register holds.
    pub closed spec fn alloc_view(&self) -> Map<VReg, u8> {
        pairs_map(self.allocation@)
    }

    /// The physical registers in use.
    pub closed spec fn used_view(&self) -> Set<u8> {
        self.used_physical@.to_set()
    }

    /// The number of physical registers in use.
    pub closed spec fn used_count(&self) -> nat {
        self.used_physical@.len()
    }

    /// The most physical registers in use at once so far.
    pub closed spec fn peak_count(&self) -> nat {
        self.peak as nat
    }

    /// The number of program points liveness is known for.
    pub closed spec fn live_len(&self) -> nat {
        self.live_ranges@.len()
    }

    /// `v` is live after instruction `i`: a later instruction reads it before
    /// any instruction writes it again.
    pub closed spec fn is_live(&self, i: int, v: VReg) -> bool {
        self.live_ranges@[i]@.contains(v)
    }

    /// The number of physical registers available.
    pub closed spec fn max_regs(&self) -> u8 {
        self.max_registers
    }

    /// Some physical register below the maximum is free.
    pub open spec fn has_free(&self) -> bool {
        exists|p: u8| p < self.max_regs() && !self.used_view().contains(p)
    }

    /// The lowest free physical register.
    pub open spec fn least_free(&self) -> u8 {
        choose|p: u8|
            p < self.max_regs() && !self.used_view().contains(p) && forall|q: u8|
                q < p ==> #[trigger] self.used_view().contains(q)
    }

    /// Some allocated virtual register is dead after instruction `i`.
    pub open spec fn has_spillable(&self, i: int) -> bool {
        exists|w: VReg| #[trigger] self.alloc_view().contains_key(w) && !self.is_live(i, w)
    }

    /// An empty allocator with `max_registers` physical registers.
    pub fn new(max_registers: u8) -> (r: RegisterAllocator)
        ensures
            r.wf(),
            r.alloc_view() == Map::<VReg, u8>::empty(),
            r.used_view() == Set::<u8>::empty(),
            r.used_count() == 0,
            r.live_len() == 0,
            r.max_regs() == max_registers,
            r.peak_count() == 0,
            r.model() == (AllocModel { pairs: Seq::empty(), used: Set::empty() }),
    {
        let r = RegisterAllocator {
            allocation: Vec::new(),
            used_physical: Vec::new(),
            live_ranges: Vec::new(),
            max_registers,
            peak: 0,
        };
        proof {
            assert(r.used_physical@.to_set() =~= Set::<u8>::empty());
        }
        r
    }

    /// Computes the virtual registers live after each instruction. Walking
    /// backwards, the registers needed on entry to instruction `j` are those
    /// needed on entry to `j + 1`, without the one `j` writes, plus the ones
    /// it reads; what is live after instruction `i` is what is needed on
    /// entry to `i + 1`. Index `n` (past the last instruction) is empty.
    pub fn analyze_liveness(&mut self, instructions: &[VynIROpCode])
        requires
            old(self).wf(),
            instructions@.len() < usize::MAX,
        ensures
            final(self).wf(),
            final(self).alloc_view() == old(self).alloc_view(),
            final(self).used_view() == old(self).used_view(),
            final(self).used_count() == old(self).used_count(),
            final(self).max_regs() == old(self).max_regs(),
            final(self).peak_count() == old(self).peak_count(),
            final(self).model() == old(self).model(),
            final(self).live_len() == instructions@.len() + 1,
            forall|i: int, v: VReg|
                0 <= i <= instructions@.len() ==> (#[trigger] final(self).is_live(i, v) <==> read_later(
                    instructions@, i, v)),
    {
        let n = instructions.len();
        let mut ranges: Vec<Vec<VReg>> = Vec::new();
        let mut k: usize = 0;
        while k <= n
            invariant
                n < usize::MAX,
                0 <= k <= n + 1,
                ranges@.len() == k,
                forall|j: int| 0 <= j < k ==> (#[trigger] ranges@[j])@.len() == 0,
            decreases n + 1 - k,
        {
            ranges.push(Vec::new());
            k = k + 1;
        }
        let mut i: usize = n;
        while i > 0
            invariant
                n == instructions@.len(),
                0 <= i <= n,
                ranges@.len() == n + 1,
                ranges@[n as int]@.len() == 0,
                forall|j: int, v: VReg|
                    i <= j < n ==> (#[trigger] ranges@[j]@.contains(v) <==> (ranges@[j + 1]@.contains(v)
                        && spec_def(instructions@[j].node) != Some(v)) || spec_uses(instructions@[j].node).contains(v)),
            decreases i,
        {
            i = i - 1;
            let def = instructions[i].node.get_def();
            let uses = instructions[i].node.get_uses();
            let mut live: Vec<VReg> = Vec::new();
            let mut a: usize = 0;
            let next_len = ranges[i + 1].len();
            while a < next_len
                invariant
                    i < n,
                    ranges@.len() == n + 1,
                    next_len == ranges@[i + 1]@.len(),
                    def == spec_def(instructions@[i as int].node),
                    0 <= a <= next_len,
                    forall|v: VReg| live@.contains(v) <==> (exists|b: int| 0 <= b < a && #[trigger] ranges@[i + 1]@[b] == v) && def != Some(v),
                decreases next_len - a,
            {
                let x = ranges[i + 1][a];
                let keep = match def {
                    Some(d) => x != d,
                    None => true,
                };
                let ghost prev = live@;
                if keep {
                    live.push(x);
                }
                proof {
                    assert forall|v: VReg| live@.contains(v) <==> (exists|b: int| 0 <= b < a + 1 && #[trigger] ranges@[i + 1]@[b] == v) && def != Some(v) by {
                        if keep {
                            assert(live@ == prev.push(x));
                            assert(live@[prev.len() as int] == x);
                            if live@.contains(v) && v != x {
                                let c = choose|c: int| 0 <= c < live@.len() && live@[c] == v;
                                assert(prev[c] == v);
                            }
                            if prev.contains(v) {
                                let c = choose|c: int| 0 <= c < prev.len() && prev[c] == v;
                                assert(live@[c] == v);
                            }
                        }
                        if (exists|b: int| 0 <= b < a + 1 && #[trigger] ranges@[i + 1]@[b] == v) && v != x {
                            let b = choose|b: int| 0 <= b < a + 1 && #[trigger] ranges@[i + 1]@[b] == v;
                            assert(b < a);
                        }
                        if v == x {
                            assert(ranges@[i + 1]@[a as int] == v);
                        }
                    }
                }
                a = a + 1;
            }
            let mut b: usize = 0;
            while b < uses.len()
                invariant
                    0 <= b <= uses@.len(),
                    forall|v: VReg| live@.contains(v) <==> ((ranges@[i + 1]@.contains(v) && def != Some(v)) || exists|c: int| 0 <= c < b && #[trigger] uses@[c] == v),
                decreases uses@.len() - b,
            {
                let ghost prev = live@;
                let u = uses[b];
                live.push(u);
                proof {
                    assert forall|v: VReg| live@.contains(v) <==> ((ranges@[i + 1]@.contains(v) && def != Some(v)) || exists|c: int| 0 <= c < b + 1 && #[trigger] uses@[c] == v) by {
                        assert(live@ == prev.push(u));
                        assert(live@[prev.len() as int] == u);
                        if live@.contains(v) && v != u {
                            let c = choose|c: int| 0 <= c < live@.len() && live@[c] == v;
                            assert(prev[c] == v);
                        }
                        if prev.contains(v) {
                            let c = choose|c: int| 0 <= c < prev.len() && prev[c] == v;
                            assert(live@[c] == v);
                        }
                        if (exists|c: int| 0 <= c < b + 1 && #[trigger] uses@[c] == v) && v != u {
                            let c = choose|c: int| 0 <= c < b + 1 && #[trigger] uses@[c] == v;
                            assert(c < b);
                        }
                        if v == u {
                            assert(uses@[b as int] == v);
                        }
                    }
                }
                b = b + 1;
            }
            proof {
                assert forall|v: VReg| live@.contains(v) <==> ((ranges@[i + 1]@.contains(v) && def != Some(v)) || uses@.contains(v)) by {
                    if uses@.contains(v) {
                        let c = choose|c: int| 0 <= c < uses@.len() && uses@[c] == v;
                        assert(uses@[c] == v);
                    }
                }
            }
            ranges.set(i, live);
        }
        proof {
            let ghost entry = ranges@;
            assert forall|j: int, v: VReg| 0 <= j <= n implies (#[trigger] entry[j]@.contains(v) <==> read_later(
                instructions@, j - 1, v)) by {
                lemma_backward_liveness(instructions@, |k: int, w: VReg| entry[k]@.contains(w), j, v);
            }
        }
        let ghost entry = ranges@;
        ranges.remove(0);
        ranges.push(Vec::new());
        proof {
            assert forall|i: int, v: VReg| 0 <= i <= n implies (#[trigger] ranges@[i]@.contains(v) <==> read_later(
                instructions@, i, v)) by {
                if i < n {
                    assert(ranges@[i] == entry[i + 1]);
                    assert(entry[i + 1]@.contains(v) <==> read_later(instructions@, i + 1 - 1, v));
                } else {
                    assert(ranges@[i]@.len() == 0);
                }
            }
        }
        self.live_ranges = ranges;
    }


    /// `virtual_reg` has a physical register.
    pub fn is_allocated(&self, virtual_reg: VReg) -> (b: bool)
        requires
            self.wf(),
        ensures
            b == self.alloc_view().contains_key(virtual_reg),
    {
        lookup(&self.allocation, virtual_reg).is_some()
    }

    /// The number of program points liveness is known for.
    pub fn num_live_ranges(&self) -> (n: usize)
        ensures
            n == self.live_len(),
    {
        self.live_ranges.len()
    }

    /// What `get` gives for `v`: its physical register, or an error when it
    /// has none.
    pub open spec fn lookup_result(&self, v: VReg) -> Result<u8, VynError> {
        if self.alloc_view().contains_key(v) {
            Ok(self.alloc_view()[v])
        } else {
            Err(VynError::RegisterOverflow { span: Span::zero() })
        }
    }

    /// The physical register holding `virtual_reg`; a register that was never
    /// allocated is an error.
    pub fn get(&self, virtual_reg: VReg) -> (r: Result<u8, VynError>)
        requires
            self.wf(),
        ensures
            r == self.lookup_result(virtual_reg),
    {
        proof {
            lemma_pairs_map(self.allocation@, virtual_reg);
        }
        let mut i: usize = 0;
        while i < self.allocation.len()
            invariant
                self.wf(),
                0 <= i <= self.allocation@.len(),
                forall|j: int| 0 <= j < i ==> #[trigger] self.allocation@[j].0 != virtual_reg,
                self.alloc_view().contains_key(virtual_reg) ==> exists|j: int| 0 <= j < self.allocation@.len() && #[trigger] self.allocation@[j].0 == virtual_reg,
            decreases self.allocation@.len() - i,
        {
            if self.allocation[i].0 == virtual_reg {
                proof {
                    lemma_pairs_map(self.allocation@, virtual_reg);
                    assert(self.allocation@[i as int].0 == virtual_reg);
                }
                return Ok(self.allocation[i].1);
            }
            i = i + 1;
        }
        proof {
            if self.alloc_view().contains_key(virtual_reg) {
                let j = choose|j: int| 0 <= j < self.allocation@.len() && #[trigger] self.allocation@[j].0 == virtual_reg;
                assert(false);
            }
        }
        Err(VynError::RegisterOverflow { span: Span::default_span() })
    }

    /// Marks the physical register of `virtual_reg` free when `virtual_reg`
    /// is not live after instruction `inst_index`. The mapping itself is kept.
    pub fn free(&mut self, virtual_reg: VReg, inst_index: usize)
        requires
            old(self).wf(),
            inst_index < old(self).live_len(),
        ensures
            final(self).wf(),
            final(self).alloc_view() == old(self).alloc_view(),
            final(self).live_len() == old(self).live_len(),
            forall|i: int, v: VReg| final(self).is_live(i, v) == old(self).is_live(i, v),
            final(self).max_regs() == old(self).max_regs(),
            final(self).peak_count() == old(self).peak_count(),
            final(self).model() == model_free(old(self).model(), virtual_reg, old(self).live_set(inst_index as int)),
            if !old(self).is_live(inst_index as int, virtual_reg) && old(self).alloc_view().contains_key(virtual_reg) {
                &&& final(self).used_view() == old(self).used_view().remove(old(self).alloc_view()[virtual_reg])
                &&& final(self).used_count() == if old(self).used_view().contains(old(self).alloc_view()[virtual_reg]) {
                    old(self).used_count() - 1
                } else {
                    old(self).used_count() as int
                }
            } else {
                final(self).used_view() == old(self).used_view() && final(self).used_count() == old(self).used_count()
            },
    {
        if !vec_contains(&self.live_ranges[inst_index], virtual_reg) {
            match lookup(&self.allocation, virtual_reg) {
                Some(phys) => {
                    proof {
                        lemma_pairs_map(self.allocation@, virtual_reg);
                    }
                    remove_u8(&mut self.used_physical, phys);
                },
                None => {},
            }
        }
    }

    /// Assigns a physical register to `virtual_reg`: the one it already has;
    /// else the lowest free one; else one whose virtual register is dead after
    /// instruction `inst_index` (every mapping to it is dropped); else fails
    /// with a register overflow at `span`.
    pub fn allocate(&mut self, virtual_reg: VReg, inst_index: usize, span: Span) -> (r: Result<u8, VynError>)
        requires
            old(self).wf(),
            !old(self).alloc_view().contains_key(virtual_reg) && !old(self).has_free() ==> inst_index < old(self).live_len(),
        ensures
            final(self).wf(),
            final(self).live_len() == old(self).live_len(),
            forall|i: int, v: VReg| final(self).is_live(i, v) == old(self).is_live(i, v),
            final(self).max_regs() == old(self).max_regs(),
            final(self).peak_count() == if final(self).used_count() > old(self).peak_count() {
                final(self).used_count()
            } else {
                old(self).peak_count()
            },
            r matches Ok(p) ==> p < final(self).max_regs() && final(self).alloc_view().contains_key(virtual_reg)
                && final(self).alloc_view()[virtual_reg] == p,
            match model_allocate(old(self).model(), virtual_reg, old(self).live_set(inst_index as int), old(self).max_regs()) {
                Some(m) => r is Ok && final(self).model() == m,
                None => r is Err && final(self).model() == old(self).model(),
            },
            old(self).alloc_view().contains_key(virtual_reg) ==> {
                &&& r == Ok::<u8, VynError>(old(self).alloc_view()[virtual_reg])
                &&& final(self).alloc_view() == old(self).alloc_view()
                &&& final(self).used_view() == old(self).used_view()
                &&& final(self).used_count() == old(self).used_count()
            },
            !old(self).alloc_view().contains_key(virtual_reg) && old(self).has_free() ==> {
                &&& r == Ok::<u8, VynError>(old(self).least_free())
                &&& final(self).alloc_view() == old(self).alloc_view().insert(virtual_reg, old(self).least_free())
                &&& final(self).used_view() == old(self).used_view().insert(old(self).least_free())
                &&& final(self).used_count() == old(self).used_count() + 1
            },
            !old(self).alloc_view().contains_key(virtual_reg) && !old(self).has_free() && old(self).has_spillable(inst_index as int) ==> {
                &&& r is Ok
                &&& exists|w: VReg| #[trigger] old(self).alloc_view().contains_key(w) && !old(self).is_live(inst_index as int, w)
                    && old(self).alloc_view()[w] == r->Ok_0
                &&& final(self).alloc_view() == Map::new(
                    |k: VReg| old(self).alloc_view().contains_key(k) && old(self).alloc_view()[k] != r->Ok_0,
                    |k: VReg| old(self).alloc_view()[k],
                ).insert(virtual_reg, r->Ok_0)
                &&& final(self).used_view() == old(self).used_view()
                &&& final(self).used_count() == old(self).used_count()
            },
            !old(self).alloc_view().contains_key(virtual_reg) && !old(self).has_free() && !old(self).has_spillable(inst_index as int) ==> {
                &&& r == Err::<u8, VynError>(VynError::RegisterOverflow { span })
                &&& final(self).alloc_view() == old(self).alloc_view()
                &&& final(self).used_view() == old(self).used_view()
                &&& final(self).used_count() == old(self).used_count()
            },
    {
        proof {
            lemma_pairs_map(self.allocation@, virtual_reg);
        }
        match lookup(&self.allocation, virtual_reg) {
            Some(phys) => {
                proof {
                    let j = choose|j: int| 0 <= j < self.allocation@.len() && #[trigger] self.allocation@[j].0 == virtual_reg;
                    assert(self.allocation@[j].1 < self.max_registers);
                }
                return Ok(phys);
            },
            None => {},
        }
        let mut phys: u8 = 0;
        while phys < self.max_registers
            invariant
                *old(self) == *self,
                self.wf(),
                !self.alloc_view().contains_key(virtual_reg),
                0 <= phys <= self.max_registers,
                forall|q: u8| q < phys ==> #[trigger] self.used_view().contains(q),
            decreases self.max_registers - phys,
        {
            if !vec_contains_u8(&self.used_physical, phys) {
                let ghost old_alloc = self.allocation@;
                let ghost old_used = self.used_physical@;
                proof {
                    assert(self.used_view().contains(phys) == self.used_physical@.contains(phys));
                }
                self.allocation.push((virtual_reg, phys));
                self.used_physical.push(phys);
                proof {
                    assert(self.allocation@.drop_last() == old_alloc);
                    assert(keys_unique(self.allocation@)) by {
                        assert forall|i: int, j: int| 0 <= i < j < self.allocation@.len() implies #[trigger] self.allocation@[i].0
                            != #[trigger] self.allocation@[j].0 by {
                            if j == old_alloc.len() {
                                assert(old_alloc[i] == self.allocation@[i]);
                                lemma_pairs_map(old_alloc, self.allocation@[i].0);
                            } else {
                                assert(old_alloc[i] == self.allocation@[i] && old_alloc[j] == self.allocation@[j]);
                            }
                        }
                    }
                    assert(self.used_physical@.no_duplicates()) by {
                        assert forall|i: int, j: int| 0 <= i < self.used_physical@.len() && 0 <= j < self.used_physical@.len() && i != j
                            implies self.used_physical@[i] != self.used_physical@[j] by {
                            if i < old_used.len() && j < old_used.len() {
                                assert(old_used[i] == self.used_physical@[i] && old_used[j] == self.used_physical@[j]);
                            } else if i < old_used.len() {
                                assert(old_used[i] == self.used_physical@[i]);
                                assert(old_used.contains(old_used[i]));
                            } else {
                                assert(old_used[j] == self.used_physical@[j]);
                                assert(old_used.contains(old_used[j]));
                            }
                        }
                    }
                    assert(self.used_physical@.to_set() =~= old_used.to_set().insert(phys)) by {
                        assert forall|q: u8| #[trigger] self.used_physical@.contains(q) <==> old_used.contains(q) || q == phys by {
                            if self.used_physical@.contains(q) && q != phys {
                                let c = choose|c: int| 0 <= c < self.used_physical@.len() && self.used_physical@[c] == q;
                                assert(old_used[c] == q);
                            }
                            if old_used.contains(q) {
                                let c = choose|c: int| 0 <= c < old_used.len() && old_used[c] == q;
                                assert(self.used_physical@[c] == q);
                            }
                            assert(self.used_physical@[old_used.len() as int] == phys);
                        }
                    }
                    assert(old(self).least_free() == phys) by {
                        let lf = old(self).least_free();
                        assert(phys < old(self).max_regs() && !old(self).used_view().contains(phys) && forall|q: u8| q < phys ==> #[trigger] old(self).used_view().contains(q));
                        if lf < phys {
                            assert(old(self).used_view().contains(lf));
                        }
                        if phys < lf {
                            assert(old(self).used_view().contains(phys));
                        }
                    }
                }
                if self.used_physical.len() > self.peak {
                    self.peak = self.used_physical.len();
                }
                return Ok(phys);
            }
            proof {
                assert(self.used_view().contains(phys) == self.used_physical@.contains(phys));
            }
            phys = phys + 1;
        }
        proof {
            assert(!old(self).has_free()) by {
                if self.has_free() {
                    let p = choose|p: u8| p < self.max_regs() && !self.used_view().contains(p);
                    assert(self.used_view().contains(p));
                }
            }
        }
        match self.find_spillable_register(inst_index) {
            Some(phys) => {
                let ghost old_map = self.alloc_view();
                let kept = remove_phys(&self.allocation, phys);
                let ghost kept_map = pairs_map(kept@);
                self.allocation = kept;
                proof {
                    lemma_pairs_map(self.allocation@, virtual_reg);
                    assert(!kept_map.contains_key(virtual_reg));
                }
                let ghost before_push = self.allocation@;
                self.allocation.push((virtual_reg, phys));
                proof {
                    assert(self.allocation@.drop_last() == before_push);
                    assert(keys_unique(self.allocation@)) by {
                        assert forall|i: int, j: int| 0 <= i < j < self.allocation@.len() implies #[trigger] self.allocation@[i].0
                            != #[trigger] self.allocation@[j].0 by {
                            if j == before_push.len() {
                                assert(before_push[i] == self.allocation@[i]);
                                lemma_pairs_map(before_push, self.allocation@[i].0);
                            } else {
                                assert(before_push[i] == self.allocation@[i] && before_push[j] == self.allocation@[j]);
                            }
                        }
                    }
                    let w = choose|w: VReg| #[trigger] old_map.contains_key(w) && !old(self).is_live(inst_index as int, w) && old_map[w] == phys;
                    lemma_pairs_map(old(self).allocation@, w);
                    let wi = choose|j: int| 0 <= j < old(self).allocation@.len() && #[trigger] old(self).allocation@[j].0 == w;
                    assert(old(self).allocation@[wi].1 < old(self).max_registers);
                    assert(phys < old(self).max_registers);
                    assert(!old(self).has_free());
                    assert(old(self).used_view().contains(phys));
                }
                if !vec_contains_u8(&self.used_physical, phys) {
                    self.used_physical.push(phys);
                }
                if self.used_physical.len() > self.peak {
                    self.peak = self.used_physical.len();
                }
                Ok(phys)
            },
            None => Err(VynError::RegisterOverflow { span }),
        }
    }

    /// The number of physical registers in use.
    pub fn num_used_registers(&self) -> (n: usize)
        ensures
            n == self.used_count(),
    {
        self.used_physical.len()
    }

    /// The most physical registers that were ever in use at once.
    pub fn peak_register_usage(&self) -> (n: usize)
        ensures
            n == self.peak_count(),
    {
        self.peak
    }

    /// A physical register holding a virtual register that is dead after
    /// instruction `inst_index`, if there is one.
    fn find_spillable_register(&self, inst_index: usize) -> (r: Option<u8>)
        requires
            self.wf(),
            inst_index < self.live_len(),
        ensures
            r is None <==> !self.has_spillable(inst_index as int),
            r matches Some(p) ==> exists|w: VReg| #[trigger] self.alloc_view().contains_key(w) && !self.is_live(inst_index as int, w) && self.alloc_view()[w] == p,
            r == first_dead(self.allocation@, self.live_set(inst_index as int), 0),
    {
        let live = &self.live_ranges[inst_index];
        let ghost ls = self.live_set(inst_index as int);
        let mut i: usize = 0;
        while i < self.allocation.len()
            invariant
                self.wf(),
                live@ == self.live_ranges@[inst_index as int]@,
                ls == self.live_set(inst_index as int),
                0 <= i <= self.allocation@.len(),
                forall|j: int| 0 <= j < i ==> live@.contains(#[trigger] self.allocation@[j].0),
                first_dead(self.allocation@, ls, 0) == first_dead(self.allocation@, ls, i as int),
            decreases self.allocation@.len() - i,
        {
            let (virt, phys) = self.allocation[i];
            if !vec_contains(live, virt) {
                proof {
                    lemma_pairs_map(self.allocation@, virt);
                    assert(self.allocation@[i as int].0 == virt);
                    assert(self.alloc_view().contains_key(virt));
                    assert(!self.is_live(inst_index as int, virt));
                }
                return Some(phys);
            }
            proof {
                assert(ls.contains(virt));
            }
            i = i + 1;
        }
        proof {
            assert forall|w: VReg| #[trigger] self.alloc_view().contains_key(w) implies self.is_live(inst_index as int, w) by {
                lemma_pairs_map(self.allocation@, w);
                let j = choose|j: int| 0 <= j < self.allocation@.len() && #[trigger] self.allocation@[j].0 == w;
                assert(live@.contains(self.allocation@[j].0));
            }
        }
        None
    }
}


/// One thing done to the allocator: freeing or allocating a virtual
/// register, with the registers live at that point.
pub enum AllocOp {
    Free(VReg, Set<VReg>),
    Allocate(VReg, Set<VReg>),
}

/// The allocator state after `ops`, or `None` if an allocation fails.
pub open spec fn apply_ops(m: AllocModel, ops: Seq<AllocOp>, max: u8) -> Option<AllocModel>
    decreases ops.len(),
{
    if ops.len() == 0 {
        Some(m)
    } else {
        let next = match ops[0] {
            AllocOp::Free(v, live) => Some(model_free(m, v, live)),
            AllocOp::Allocate(d, live) => model_allocate(m, d, live, max),
        };
        match next {
            Some(m2) => apply_ops(m2, ops.drop_first(), max),
            None => None,
        }
    }
}

/// No allocation among `ops` takes over physical register `p` from the
/// virtual register holding it.
pub open spec fn never_takes(m: AllocModel, ops: Seq<AllocOp>, max: u8, p: u8) -> bool
    decreases ops.len(),
{
    if ops.len() == 0 {
        true
    } else {
        match ops[0] {
            AllocOp::Free(v, live) => never_takes(model_free(m, v, live), ops.drop_first(), max, p),
            AllocOp::Allocate(d, live) => {
                let spills = !pairs_map(m.pairs).contains_key(d) && !model_has_free(m, max);
                &&& !(spills && first_dead(m.pairs, live, 0) == Some(p))
                &&& match model_allocate(m, d, live, max) {
                    Some(m2) => never_takes(m2, ops.drop_first(), max, p),
                    None => true,
                }
            },
        }
    }
}

/// Dropping the pairs on another physical register keeps a mapping.
proof fn lemma_without_keeps(s: Seq<(VReg, u8)>, q: u8, v: VReg)
    requires
        pairs_map(s).contains_key(v),
        pairs_map(s)[v] != q,
    ensures
        pairs_map(without_phys(s, q)).contains_key(v),
        pairs_map(without_phys(s, q))[v] == pairs_map(s)[v],
    decreases s.len(),
{
    assert(s.len() > 0);
    let t = s.drop_last();
    let w = without_phys(t, q);
    assert(pairs_map(s) == pairs_map(t).insert(s.last().0, s.last().1));
    if s.last().0 != v {
        lemma_without_keeps(t, q, v);
        if s.last().1 != q {
            assert(without_phys(s, q) == w.push(s.last()));
            assert(w.push(s.last()).drop_last() =~= w);
            assert(pairs_map(w.push(s.last())) == pairs_map(w).insert(s.last().0, s.last().1));
        } else {
            assert(without_phys(s, q) == w);
        }
    } else {
        assert(without_phys(s, q) == w.push(s.last()));
        assert(w.push(s.last()).drop_last() =~= w);
        assert(pairs_map(w.push(s.last())) == pairs_map(w).insert(s.last().0, s.last().1));
    }
}

/// `get` gives back what `allocate` handed out, after any frees and
/// allocations, as long as no allocation takes that physical register over
/// (`get` reads the map of the pairs, see `lemma_model_view`).
pub proof fn law_allocate_then_get(m: AllocModel, v: VReg, live: Set<VReg>, max: u8, ops: Seq<AllocOp>)
    requires
        model_allocate(m, v, live, max) is Some,
        apply_ops(model_allocate(m, v, live, max)->Some_0, ops, max) is Some,
        never_takes(model_allocate(m, v, live, max)->Some_0, ops, max,
            pairs_map(model_allocate(m, v, live, max)->Some_0.pairs)[v]),
    ensures
        pairs_map(model_allocate(m, v, live, max)->Some_0.pairs).contains_key(v),
        pairs_map(apply_ops(model_allocate(m, v, live, max)->Some_0, ops, max)->Some_0.pairs).contains_key(v),
        pairs_map(apply_ops(model_allocate(m, v, live, max)->Some_0, ops, max)->Some_0.pairs)[v]
            == pairs_map(model_allocate(m, v, live, max)->Some_0.pairs)[v],
{
    let m1 = model_allocate(m, v, live, max)->Some_0;
    if !pairs_map(m.pairs).contains_key(v) && !model_has_free(m, max) {
        let p = first_dead(m.pairs, live, 0)->Some_0;
        assert(without_phys(m.pairs, p).push((v, p)).last() == (v, p));
    }
    lemma_ops_keep(m1, ops, max, v, pairs_map(m1.pairs)[v]);
}

/// Frees and allocations that never take `p` over keep `v` on `p`.
proof fn lemma_ops_keep(m: AllocModel, ops: Seq<AllocOp>, max: u8, v: VReg, p: u8)
    requires
        pairs_map(m.pairs).contains_key(v),
        pairs_map(m.pairs)[v] == p,
        apply_ops(m, ops, max) is Some,
        never_takes(m, ops, max, p),
    ensures
        pairs_map(apply_ops(m, ops, max)->Some_0.pairs).contains_key(v),
        pairs_map(apply_ops(m, ops, max)->Some_0.pairs)[v] == p,
    decreases ops.len(),
{
    if ops.len() > 0 {
        match ops[0] {
            AllocOp::Free(w, l) => {
                lemma_ops_keep(model_free(m, w, l), ops.drop_first(), max, v, p);
            },
            AllocOp::Allocate(d, l) => {
                assert(model_allocate(m, d, l, max) is Some);
                let m2 = model_allocate(m, d, l, max)->Some_0;
                if !pairs_map(m.pairs).contains_key(d) {
                    assert(d != v);
                    if model_has_free(m, max) {
                        let f = model_least_free(m, max);
                        assert(m2.pairs == m.pairs.push((d, f)));
                        assert(m.pairs.push((d, f)).drop_last() =~= m.pairs);
                        assert(pairs_map(m2.pairs) == pairs_map(m.pairs).insert(d, f));
                    } else {
                        let q = first_dead(m.pairs, l, 0)->Some_0;
                        assert(q != p);
                        lemma_without_keeps(m.pairs, q, v);
                        let w = without_phys(m.pairs, q);
                        assert(m2.pairs == w.push((d, q)));
                        assert(w.push((d, q)).drop_last() =~= w);
                        assert(pairs_map(m2.pairs) == pairs_map(w).insert(d, q));
                    }
                }
                lemma_ops_keep(m2, ops.drop_first(), max, v, p);
            },
        }
    }
}

/// Instruction `j`, after `i`, reads `v`, and no instruction between them
/// writes it.
pub open spec fn read_later(instrs: Seq<VynIROpCode>, i: int, v: VReg) -> bool {
    exists|j: int|
        i < j < instrs.len() && #[trigger] spec_uses(instrs[j].node).contains(v) && forall|k: int|
            i < k < j ==> #[trigger] spec_def(instrs[k].node) != Some(v)
}

/// A set of registers per program point built backwards (needed on entry to
/// `j` = needed on entry to `j + 1`, less what `j` writes, plus what `j`
/// reads; nothing past the end) holds at `j` exactly what some instruction
/// from `j` on reads before it is written again.
proof fn lemma_backward_liveness(instrs: Seq<VynIROpCode>, live: spec_fn(int, VReg) -> bool, j: int, v: VReg)
    requires
        0 <= j <= instrs.len(),
        forall|w: VReg| !#[trigger] live(instrs.len() as int, w),
        forall|k: int, w: VReg|
            0 <= k < instrs.len() ==> (#[trigger] live(k, w) <==> (live(k + 1, w) && spec_def(instrs[k].node) != Some(w))
                || spec_uses(instrs[k].node).contains(w)),
    ensures
        live(j, v) <==> read_later(instrs, j - 1, v),
    decreases instrs.len() - j,
{
    if j == instrs.len() {
        assert(!live(j, v));
        if read_later(instrs, j - 1, v) {
            let m = choose|m: int| j - 1 < m < instrs.len() && #[trigger] spec_uses(instrs[m].node).contains(v)
                && forall|k: int| j - 1 < k < m ==> #[trigger] spec_def(instrs[k].node) != Some(v);
            assert(false);
        }
    } else {
        lemma_backward_liveness(instrs, live, j + 1, v);
        assert(live(j, v) <==> (live(j + 1, v) && spec_def(instrs[j].node) != Some(v))
            || spec_uses(instrs[j].node).contains(v));
        if read_later(instrs, j - 1, v) {
            let m = choose|m: int| j - 1 < m < instrs.len() && #[trigger] spec_uses(instrs[m].node).contains(v)
                && forall|k: int| j - 1 < k < m ==> #[trigger] spec_def(instrs[k].node) != Some(v);
            if m > j {
                assert(spec_def(instrs[j].node) != Some(v));
                assert(read_later(instrs, j, v));
            }
        }
        if spec_uses(instrs[j].node).contains(v) {
            assert(read_later(instrs, j - 1, v));
        } else if live(j + 1, v) && spec_def(instrs[j].node) != Some(v) {
            let m = choose|m: int| j < m < instrs.len() && #[trigger] spec_uses(instrs[m].node).contains(v)
                && forall|k: int| j < k < m ==> #[trigger] spec_def(instrs[k].node) != Some(v);
            assert forall|k: int| j - 1 < k < m implies #[trigger] spec_def(instrs[k].node) != Some(v) by {
                if k > j {
                }
            }
            assert(read_later(instrs, j - 1, v));
        }
    }
}

/// The physical register paired with `v`, if any.
fn lookup(s: &Vec<(VReg, u8)>, v: VReg) -> (r: Option<u8>)
    requires
        keys_unique(s@),
    ensures
        r is Some <==> pairs_map(s@).contains_key(v),
        r matches Some(p) ==> pairs_map(s@)[v] == p,
{
    proof {
        lemma_pairs_map(s@, v);
    }
    let mut i: usize = 0;
    while i < s.len()
        invariant
            keys_unique(s@),
            0 <= i <= s@.len(),
            forall|j: int| 0 <= j < i ==> #[trigger] s@[j].0 != v,
        decreases s@.len() - i,
    {
        if s[i].0 == v {
            proof {
                lemma_pairs_map(s@, v);
                assert(s@[i as int].0 == v);
            }
            return Some(s[i].1);
        }
        i = i + 1;
    }
    None
}

/// `v` occurs in `s`.
fn vec_contains_u8(s: &Vec<u8>, v: u8) -> (b: bool)
    ensures
        b == s@.contains(v),
{
    let mut i: usize = 0;
    while i < s.len()
        invariant
            0 <= i <= s@.len(),
            forall|j: int| 0 <= j < i ==> s@[j] != v,
        decreases s@.len() - i,
    {
        if s[i] == v {
            return true;
        }
        i = i + 1;
    }
    false
}

/// Removes `v` from a list without duplicates.
fn remove_u8(s: &mut Vec<u8>, v: u8)
    requires
        old(s)@.no_duplicates(),
    ensures
        final(s)@.no_duplicates(),
        final(s)@.to_set() == old(s)@.to_set().remove(v),
        forall|j: int| 0 <= j < final(s)@.len() ==> old(s)@.contains(#[trigger] final(s)@[j]),
        final(s)@.len() == if old(s)@.contains(v) { old(s)@.len() - 1 } else { old(s)@.len() as int },
{
    let mut i: usize = 0;
    while i < s.len()
        invariant
            s@ == old(s)@,
            old(s)@.no_duplicates(),
            0 <= i <= s@.len(),
            forall|j: int| 0 <= j < i ==> s@[j] != v,
        decreases s@.len() - i,
    {
        if s[i] == v {
            let ghost before = s@;
            s.remove(i);
            proof {
                assert(s@ == before.remove(i as int));
                assert(before.no_duplicates());
                assert(before[i as int] == v);
                assert forall|a: int, b: int| 0 <= a < s@.len() && 0 <= b < s@.len() && a != b implies s@[a] != s@[b] by {
                    let a2 = if a < i { a } else { a + 1 };
                    let b2 = if b < i { b } else { b + 1 };
                    assert(s@[a] == before[a2] && s@[b] == before[b2]);
                }
                assert forall|q: u8| #[trigger] s@.contains(q) <==> before.contains(q) && q != v by {
                    if s@.contains(q) {
                        let c = choose|c: int| 0 <= c < s@.len() && s@[c] == q;
                        let c2 = if c < i { c } else { c + 1 };
                        assert(before[c2] == q);
                        assert(c2 != i);
                        assert(before[c2] != before[i as int]);
                    }
                    if before.contains(q) && q != v {
                        let c = choose|c: int| 0 <= c < before.len() && before[c] == q;
                        assert(c != i);
                        if c < i {
                            assert(s@[c] == q);
                        } else {
                            assert(s@[c - 1] == q);
                        }
                    }
                }
                assert(s@.to_set() =~= before.to_set().remove(v));
                assert forall|j: int| 0 <= j < s@.len() implies before.contains(#[trigger] s@[j]) by {
                    let j2 = if j < i { j } else { j + 1 };
                    assert(before[j2] == s@[j]);
                }
            }
            return;
        }
        i = i + 1;
    }
    proof {
        assert(s@.to_set() =~= old(s)@.to_set().remove(v));
    }
}

/// The pairs of `a` whose physical register is not `p`, in order.
#[verifier::spinoff_prover]
fn remove_phys(a: &Vec<(VReg, u8)>, p: u8) -> (r: Vec<(VReg, u8)>)
    requires
        keys_unique(a@),
    ensures
        r@ == without_phys(a@, p),
        keys_unique(r@),
        forall|j: int| 0 <= j < r@.len() ==> exists|jj: int| 0 <= jj < a@.len() && a@[jj] == #[trigger] r@[j],
        pairs_map(r@) == Map::new(
            |k: VReg| pairs_map(a@).contains_key(k) && pairs_map(a@)[k] != p,
            |k: VReg| pairs_map(a@)[k],
        ),
{
    let mut r: Vec<(VReg, u8)> = Vec::new();
    let ghost mut idx: Seq<int> = Seq::empty();
    let mut i: usize = 0;
    proof {
        assert(a@.take(0) =~= Seq::<(VReg, u8)>::empty());
    }
    while i < a.len()
        invariant
            keys_unique(a@),
            0 <= i <= a@.len(),
            idx.len() == r@.len(),
            forall|j: int| 0 <= j < r@.len() ==> 0 <= #[trigger] idx[j] < i,
            forall|j: int| 0 <= j < r@.len() ==> a@[idx[j]] == #[trigger] r@[j] && a@[idx[j]].1 != p,
            forall|x: int, y: int| 0 <= x < y < r@.len() ==> #[trigger] idx[x] < #[trigger] idx[y],
            forall|jj: int| 0 <= jj < i && #[trigger] a@[jj].1 != p ==> exists|j: int| 0 <= j < r@.len() && idx[j] == jj,
            r@ == without_phys(a@.take(i as int), p),
        decreases a@.len() - i,
    {
        let e = a[i];
        proof {
            assert(a@.take(i + 1).drop_last() =~= a@.take(i as int));
            assert(a@.take(i + 1).last() == e);
        }
        if e.1 != p {
            let ghost before = r@;
            let ghost before_idx = idx;
            r.push(e);
            proof {
                idx = idx.push(i as int);
                assert forall|jj: int| 0 <= jj < i + 1 && #[trigger] a@[jj].1 != p implies exists|j: int| 0 <= j < r@.len() && idx[j] == jj by {
                    if jj < i {
                        let j = choose|j: int| 0 <= j < before.len() && before_idx[j] == jj;
                        assert(idx[j] == jj);
                    } else {
                        assert(idx[before.len() as int] == jj);
                    }
                }
                assert forall|j: int| 0 <= j < r@.len() implies a@[idx[j]] == #[trigger] r@[j] && a@[idx[j]].1 != p by {
                    if j < before.len() {
                        assert(r@[j] == before[j]);
                    }
                }
            }
        }
        i = i + 1;
    }
    proof {
        assert(a@.take(a@.len() as int) =~= a@);
        assert(keys_unique(r@)) by {
            assert forall|x: int, y: int| 0 <= x < y < r@.len() implies #[trigger] r@[x].0 != #[trigger] r@[y].0 by {
                assert(idx[x] < idx[y]);
                assert(a@[idx[x]] == r@[x]);
                assert(a@[idx[y]] == r@[y]);
            }
        }
        assert forall|j: int| 0 <= j < r@.len() implies exists|jj: int| 0 <= jj < a@.len() && a@[jj] == #[trigger] r@[j] by {
            assert(a@[idx[j]] == r@[j]);
        }
        assert forall|k: VReg| #[trigger] pairs_map(r@).contains_key(k) == (pairs_map(a@).contains_key(k) && pairs_map(a@)[k] != p) by {
            lemma_pairs_map(r@, k);
            lemma_pairs_map(a@, k);
            if pairs_map(r@).contains_key(k) {
                let j = choose|j: int| 0 <= j < r@.len() && #[trigger] r@[j].0 == k;
                assert(a@[idx[j]] == r@[j]);
                assert(a@[idx[j]].0 == k);
            }
            if pairs_map(a@).contains_key(k) && pairs_map(a@)[k] != p {
                let jj = choose|jj: int| 0 <= jj < a@.len() && #[trigger] a@[jj].0 == k;
                assert(a@[jj].1 != p);
                let j = choose|j: int| 0 <= j < r@.len() && idx[j] == jj;
                assert(r@[j] == a@[jj]);
                assert(r@[j].0 == k);
            }
        }
        assert forall|k: VReg| #[trigger] pairs_map(r@).contains_key(k) implies pairs_map(r@)[k] == pairs_map(a@)[k] by {
            lemma_pairs_map(r@, k);
            lemma_pairs_map(a@, k);
            let j = choose|j: int| 0 <= j < r@.len() && #[trigger] r@[j].0 == k;
            assert(a@[idx[j]] == r@[j]);
            assert(a@[idx[j]].0 == k);
        }
        assert(pairs_map(r@) =~= Map::new(
            |k: VReg| pairs_map(a@).contains_key(k) && pairs_map(a@)[k] != p,
            |k: VReg| pairs_map(a@)[k],
        ));
    }
    r
}

/// `v` occurs in `s`.
fn vec_contains(s: &Vec<VReg>, v: VReg) -> (b: bool)
    ensures
        b == s@.contains(v),
{
    let mut i: usize = 0;
    while i < s.len()
        invariant
            0 <= i <= s@.len(),
            forall|j: int| 0 <= j < i ==> s@[j] != v,
        decreases s@.len() - i,
    {
        if s[i] == v {
            return true;
        }
        i = i + 1;
    }
    false
}

} // verus!
