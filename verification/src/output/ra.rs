//! Register allocation: numbering the score and NBT registers of a block
//! with as few fake players and storage entries as possible.
use vstd::prelude::*;

use std::collections::HashSet;

use crate::common::ty::DataType;
use crate::common::Register;
use crate::lir::LIRBlock;
use crate::lower::{cleaned, cleanup_fn_id};
use crate::strutil::{str_eq, string_views};

use super::text::{format_local_storage_entry, format_reg_fake_player, prefixed_name};

verus! {

broadcast use vstd::std_specs::hash::group_hash_axioms;

/// What an allocator holds: the number of registers handed out so far, and
/// the registers given back, the most recent last
pub type AllocState = (u32, Seq<u32>);

/// The register that the next allocation hands out
pub open spec fn alloc_result(s: AllocState) -> u32 {
    if s.1.len() > 0 {
        s.1.last()
    } else {
        s.0
    }
}

/// The allocator after one allocation
pub open spec fn alloc_state(s: AllocState) -> AllocState {
    if s.1.len() > 0 {
        (s.0, s.1.drop_last())
    } else {
        ((s.0 + 1) as u32, s.1)
    }
}

/// The allocator after a register is given back; giving back a register that
/// is already free changes nothing
pub open spec fn finish_state(s: AllocState, reg: u32) -> AllocState {
    if s.1.contains(reg) {
        s
    } else {
        (s.0, s.1.push(reg))
    }
}

/// An allocator for a single register type
#[derive(Debug)]
pub struct RegAllocator {
    count: u32,
    available: HashSet<u32>,
    available_ordered: Vec<u32>,
}

impl View for RegAllocator {
    type V = AllocState;

    closed spec fn view(&self) -> AllocState {
        (self.count, self.available_ordered@)
    }
}

impl RegAllocator {
    /// The set of free registers agrees with their list, which has no repeats
    pub closed spec fn wf(&self) -> bool {
        &&& self.available@ == self.available_ordered@.to_set()
        &&& self.available_ordered@.no_duplicates()
    }

    pub fn new() -> (r: Self)
        ensures
            r.wf(),
            r@ == (0u32, Seq::<u32>::empty()),
    {
        let r = RegAllocator { count: 0, available: HashSet::new(), available_ordered: Vec::new() };
        assert(r.available_ordered@.to_set() =~= Set::empty());
        r
    }

    /// Hands out the most recently given back register, or a new one
    pub fn allocate(&mut self) -> (reg: u32)
        requires
            old(self).wf(),
            old(self)@.1.len() > 0 || old(self)@.0 < u32::MAX,
        ensures
            final(self).wf(),
            reg == alloc_result(old(self)@),
            final(self)@ == alloc_state(old(self)@),
    {
        // If an existing register number is available because it was finished,
        // then we use that. Otherwise, increase the count.
        if let Some(reg) = self.available_ordered.pop() {
            let ghost before = old(self).available_ordered@;
            self.available.remove(&reg);
            proof {
                assert(before.drop_last() == self.available_ordered@);
                assert(before == self.available_ordered@.push(reg));
                assert forall|x: u32| self.available_ordered@.contains(x) implies x != reg by {
                    let i = choose|i: int|
                        0 <= i < self.available_ordered@.len() && self.available_ordered@[i] == x;
                    assert(before[i] == x);
                    assert(before[before.len() - 1] == reg);
                }
                assert(self.available@ =~= self.available_ordered@.to_set()) by {
                    assert forall|x: u32| #[trigger] self.available_ordered@.contains(x) implies before.contains(x) by {
                        let i = choose|i: int|
                            0 <= i < self.available_ordered@.len() && self.available_ordered@[i] == x;
                        assert(before[i] == x);
                    }
                    assert forall|x: u32| before.contains(x) && x != reg implies #[trigger] self.available_ordered@.contains(x) by {
                        let i = choose|i: int| 0 <= i < before.len() && before[i] == x;
                        if i == before.len() - 1 {
                        } else {
                            assert(self.available_ordered@[i] == x);
                        }
                    }
                }
            }
            reg
        } else {
            let old_count = self.count;
            self.count = self.count + 1;
            old_count
        }
    }

    /// Gives a register back so that a later allocation can reuse it
    pub fn finish_using(&mut self, reg: u32)
        requires
            old(self).wf(),
        ensures
            final(self).wf(),
            final(self)@ == finish_state(old(self)@, reg),
    {
        let not_already_in = self.available.insert(reg);
        if not_already_in {
            self.available_ordered.push(reg);
            proof {
                let before = old(self).available_ordered@;
                assert(!before.contains(reg)) by {
                    if before.contains(reg) {
                        assert(before.to_set().contains(reg));
                    }
                }
                assert(self.available_ordered@ == before.push(reg));
                assert forall|i: int, j: int|
                    0 <= i < self.available_ordered@.len() && 0 <= j < self.available_ordered@.len()
                        && i != j implies self.available_ordered@[i] != self.available_ordered@[j] by {
                    if i < before.len() && j < before.len() {
                        assert(before[i] == self.available_ordered@[i]);
                        assert(before[j] == self.available_ordered@[j]);
                    } else if i < before.len() {
                        assert(before[i] == self.available_ordered@[i]);
                        assert(before.contains(before[i]));
                    } else if j < before.len() {
                        assert(before[j] == self.available_ordered@[j]);
                        assert(before.contains(before[j]));
                    }
                }
                assert(self.available@ =~= self.available_ordered@.to_set()) by {
                    assert forall|x: u32| #[trigger] self.available_ordered@.contains(x) implies (before.contains(x) || x == reg) by {
                        let i = choose|i: int|
                            0 <= i < self.available_ordered@.len() && self.available_ordered@[i] == x;
                        if i < before.len() {
                            assert(before[i] == x);
                        }
                    }
                    assert forall|x: u32| before.contains(x) implies #[trigger] self.available_ordered@.contains(x) by {
                        let i = choose|i: int| 0 <= i < before.len() && before[i] == x;
                        assert(self.available_ordered@[i] == x);
                    }
                    assert(self.available_ordered@[before.len() as int] == reg);
                }
            }
        } else {
            assert(self.available@ =~= old(self).available@);
        }
    }

    /// Forgets every register, as at the start
    pub fn finish_using_all(&mut self)
        requires
            old(self).wf(),
        ensures
            final(self).wf(),
            final(self)@ == (0u32, Seq::<u32>::empty()),
    {
        self.available.clear();
        self.available_ordered.clear();
        self.count = 0;
        assert(self.available_ordered@.to_set() =~= Set::empty());
    }

    /// The number of registers handed out so far
    pub fn get_count(&self) -> (r: u32)
        ensures
            r == self@.0,
    {
        self.count
    }
}

/// The registers in use and the allocator agree: everything in use was
/// handed out, and no register in use is on the free list
pub open spec fn alloc_safe(s: AllocState, in_use: Set<u32>) -> bool {
    &&& s.1.no_duplicates()
    &&& forall|r: u32| in_use.contains(r) ==> r < s.0
    &&& forall|i: int| 0 <= i < s.1.len() ==> s.1[i] < s.0 && !in_use.contains(#[trigger] s.1[i])
}

/// An allocation never hands out a register that is in use, and the
/// allocator stays in agreement with the registers in use
pub proof fn lemma_alloc_fresh(s: AllocState, in_use: Set<u32>)
    requires
        alloc_safe(s, in_use),
        s.1.len() > 0 || s.0 < u32::MAX,
    ensures
        !in_use.contains(alloc_result(s)),
        alloc_safe(alloc_state(s), in_use.insert(alloc_result(s))),
{
    if s.1.len() > 0 {
        let r = alloc_result(s);
        assert(r == s.1[s.1.len() - 1]);
        let t = alloc_state(s).1;
        assert forall|i: int| 0 <= i < t.len() implies t[i] < s.0 && !in_use.insert(r).contains(#[trigger] t[i]) by {
            assert(t[i] == s.1[i]);
            assert(s.1[i] != s.1[s.1.len() - 1]);
        }
        assert forall|i: int, j: int| 0 <= i < t.len() && 0 <= j < t.len() && i != j implies t[i] != t[j] by {
            assert(t[i] == s.1[i] && t[j] == s.1[j]);
        }
    }
}

/// Giving back a register in use keeps the allocator in agreement with the
/// registers still in use
pub proof fn lemma_finish_safe(s: AllocState, in_use: Set<u32>, reg: u32)
    requires
        alloc_safe(s, in_use),
        in_use.contains(reg),
    ensures
        alloc_safe(finish_state(s, reg), in_use.remove(reg)),
{
    if !s.1.contains(reg) {
        let t = s.1.push(reg);
        assert forall|i: int, j: int| 0 <= i < t.len() && 0 <= j < t.len() && i != j implies t[i] != t[j] by {
            if i < s.1.len() && j < s.1.len() {
                assert(s.1[i] == t[i] && s.1[j] == t[j]);
            } else if i < s.1.len() {
                assert(s.1[i] == t[i]);
                assert(s.1.contains(s.1[i]));
            } else if j < s.1.len() {
                assert(s.1[j] == t[j]);
                assert(s.1.contains(s.1[j]));
            }
        }
        assert forall|i: int| 0 <= i < t.len() implies t[i] < s.0 && !in_use.remove(reg).contains(#[trigger] t[i]) by {
            if i < s.1.len() {
                assert(s.1[i] == t[i]);
            }
        }
    }
}

/// A register that was just given back is the next one handed out
pub proof fn lemma_finish_then_alloc(s: AllocState, reg: u32)
    ensures
        alloc_result(finish_state(s, reg)) == reg || s.1.contains(reg),
{
}

/// Whether some instruction after `i` uses register `r`
pub open spec fn used_after(uses: Seq<Seq<Seq<char>>>, i: int, r: Seq<char>) -> bool {
    exists|j: int| i < j < uses.len() && #[trigger] uses[j].contains(r)
}

/// The registers that instruction `i` uses for the last time, in the order
/// in which it uses them
pub open spec fn last_uses_at(uses: Seq<Seq<Seq<char>>>, i: int) -> Seq<Seq<char>> {
    uses[i].filter(|r: Seq<char>| !used_after(uses, i, r))
}

/// Whether a list of strings holds one equal to `s`
fn contains_str(v: &Vec<String>, s: &str) -> (r: bool)
    ensures
        r == string_views(v@).contains(s@),
{
    let mut i: usize = 0;
    while i < v.len()
        invariant
            i <= v@.len(),
            forall|j: int| 0 <= j < i ==> v@[j]@ != s@,
        decreases v.len() - i,
    {
        if str_eq(v[i].as_str(), s) {
            assert(string_views(v@)[i as int] == s@);
            return true;
        }
        i = i + 1;
    }
    proof {
        if string_views(v@).contains(s@) {
            let k = choose|k: int| 0 <= k < string_views(v@).len() && string_views(v@)[k] == s@;
            assert(v@[k]@ == s@);
        }
    }
    false
}

/// For each instruction of a block, the registers that it uses for the
/// last time
pub fn analyze_last_register_uses(block: &LIRBlock) -> (r: Vec<Vec<String>>)
    ensures
        r@.len() == block.contents@.len(),
        forall|i: int|
            0 <= i < r@.len() ==> string_views(#[trigger] r@[i]@) == last_uses_at(block.uses(), i),
{
    let ghost uses = block.uses();
    let n = block.contents.len();
    let mut spent: Vec<String> = Vec::new();
    let mut rev: Vec<Vec<String>> = Vec::new();
    let mut k: usize = 0;
    while k < n
        invariant
            n == block.contents@.len(),
            uses == block.uses(),
            k <= n,
            rev@.len() == k,
            forall|j: int|
                0 <= j < k ==> string_views(#[trigger] rev@[j]@) == last_uses_at(uses, n - 1 - j),
            forall|r: Seq<char>|
                string_views(spent@).contains(r) <==> used_after(uses, n - 1 - k, r),
        decreases n - k,
    {
        let i = n - 1 - k;
        let used = block.contents[i].get_used_regs();
        let ghost pred = |r: Seq<char>| !used_after(uses, i as int, r);
        assert(uses[i as int] == block.contents@[i as int].used_regs());
        let mut last: Vec<String> = Vec::new();
        let mut m: usize = 0;
        while m < used.len()
            invariant
                m <= used@.len(),
                string_views(used@) == uses[i as int],
                pred == (|r: Seq<char>| !used_after(uses, i as int, r)),
                forall|r: Seq<char>|
                    string_views(spent@).contains(r) <==> used_after(uses, i as int, r),
                string_views(last@) == string_views(used@).take(m as int).filter(pred),
            decreases used.len() - m,
        {
            let ghost before = string_views(last@);
            let already = contains_str(&spent, used[m].as_str());
            if !already {
                last.push(used[m].clone());
            }
            proof {
                let t = string_views(used@).take(m as int + 1);
                assert(t.drop_last() =~= string_views(used@).take(m as int));
                assert(t.last() == used@[m as int]@);
                reveal(Seq::filter);
                assert(t.filter(pred) == (if pred(t.last()) {
                    t.drop_last().filter(pred).push(t.last())
                } else {
                    t.drop_last().filter(pred)
                }));
                assert(string_views(last@) =~= t.filter(pred));
            }
            m = m + 1;
        }
        assert(string_views(used@).take(used@.len() as int) =~= string_views(used@));
        let mut j: usize = 0;
        let ghost spent_before = string_views(spent@);
        while j < used.len()
            invariant
                j <= used@.len(),
                string_views(spent@) == spent_before + string_views(used@).take(j as int),
            decreases used.len() - j,
        {
            let ghost old_spent = spent@;
            spent.push(used[j].clone());
            assert(string_views(spent@) =~= string_views(old_spent).push(used@[j as int]@));
            assert(string_views(used@).take(j as int + 1) =~= string_views(used@).take(j as int).push(
                used@[j as int]@,
            ));
            assert(string_views(spent@) =~= spent_before + string_views(used@).take(j as int + 1));
            j = j + 1;
        }
        proof {
            assert(string_views(used@).take(used@.len() as int) =~= string_views(used@));
            assert forall|r: Seq<char>|
                string_views(spent@).contains(r) <==> used_after(uses, n - 1 - (k + 1), r) by {
                let sv = string_views(spent@);
                if sv.contains(r) {
                    let q = choose|q: int| 0 <= q < sv.len() && sv[q] == r;
                    if q < spent_before.len() {
                        assert(spent_before[q] == r);
                        assert(spent_before.contains(r));
                        let jj = choose|jj: int| i < jj < uses.len() && #[trigger] uses[jj].contains(r);
                        assert(uses[jj].contains(r));
                    } else {
                        assert(uses[i as int][q - spent_before.len()] == r);
                        assert(uses[i as int].contains(r));
                    }
                }
                if used_after(uses, n - 1 - (k + 1), r) {
                    let jj = choose|jj: int| i - 1 < jj < uses.len() && #[trigger] uses[jj].contains(r);
                    if jj == i {
                        let q = choose|q: int| 0 <= q < uses[i as int].len() && uses[i as int][q] == r;
                        assert(sv[spent_before.len() + q] == r);
                    } else {
                        assert(used_after(uses, i as int, r));
                        let q = choose|q: int| 0 <= q < spent_before.len() && spent_before[q] == r;
                        assert(sv[q] == r);
                    }
                }
            }
        }
        rev.push(last);
        k = k + 1;
    }
    let mut out: Vec<Vec<String>> = Vec::new();
    while rev.len() > 0
        invariant
            rev@.len() + out@.len() == n,
            forall|j: int|
                0 <= j < rev@.len() ==> string_views(#[trigger] rev@[j]@) == last_uses_at(uses, n - 1 - j),
            forall|j: int|
                0 <= j < out@.len() ==> string_views(#[trigger] out@[j]@) == last_uses_at(uses, j),
        decreases rev.len(),
    {
        let ghost before = rev@;
        let item = rev.pop().unwrap();
        assert(item == before[before.len() - 1]);
        out.push(item);
    }
    out
}

/// Allocators for both kinds of registers of a codegen context
#[derive(Debug)]
pub struct RegAllocCx {
    regs: RegAllocator,
    locals: RegAllocator,
    has_allocated_reg: bool,
    has_allocated_local: bool,
}

impl RegAllocCx {
    pub closed spec fn wf(&self) -> bool {
        self.regs.wf() && self.locals.wf()
    }

    /// Both allocators are in order and no register of either is in use
    pub open spec fn ready(&self) -> bool {
        &&& self.wf()
        &&& alloc_safe(self.reg_state(), Set::empty())
        &&& alloc_safe(self.local_state(), Set::empty())
    }

    /// The state of the score register allocator
    pub closed spec fn reg_state(&self) -> AllocState {
        self.regs@
    }

    /// The state of the NBT register allocator
    pub closed spec fn local_state(&self) -> AllocState {
        self.locals@
    }

    /// Whether a score register was ever allocated
    pub closed spec fn spec_has_allocated_reg(&self) -> bool {
        self.has_allocated_reg
    }

    /// Whether an NBT register was ever allocated
    pub closed spec fn spec_has_allocated_local(&self) -> bool {
        self.has_allocated_local
    }

    pub fn new() -> (r: Self)
        ensures
            r.wf(),
            r.reg_state() == (0u32, Seq::<u32>::empty()),
            r.local_state() == (0u32, Seq::<u32>::empty()),
            r.ready(),
            !r.spec_has_allocated_reg(),
            !r.spec_has_allocated_local(),
    {
        RegAllocCx {
            regs: RegAllocator::new(),
            locals: RegAllocator::new(),
            has_allocated_reg: false,
            has_allocated_local: false,
        }
    }

    pub fn new_reg(&mut self) -> (reg: u32)
        requires
            old(self).wf(),
            old(self).reg_state().1.len() > 0 || old(self).reg_state().0 < u32::MAX,
        ensures
            final(self).wf(),
            reg == alloc_result(old(self).reg_state()),
            final(self).reg_state() == alloc_state(old(self).reg_state()),
            final(self).local_state() == old(self).local_state(),
            final(self).spec_has_allocated_reg(),
            final(self).spec_has_allocated_local() == old(self).spec_has_allocated_local(),
    {
        self.has_allocated_reg = true;
        self.regs.allocate()
    }

    pub fn new_local(&mut self) -> (reg: u32)
        requires
            old(self).wf(),
            old(self).local_state().1.len() > 0 || old(self).local_state().0 < u32::MAX,
        ensures
            final(self).wf(),
            reg == alloc_result(old(self).local_state()),
            final(self).local_state() == alloc_state(old(self).local_state()),
            final(self).reg_state() == old(self).reg_state(),
            final(self).spec_has_allocated_local(),
            final(self).spec_has_allocated_reg() == old(self).spec_has_allocated_reg(),
    {
        self.has_allocated_local = true;
        self.locals.allocate()
    }

    pub fn finish_using_all(&mut self)
        requires
            old(self).wf(),
        ensures
            final(self).wf(),
            final(self).reg_state() == (0u32, Seq::<u32>::empty()),
            final(self).local_state() == (0u32, Seq::<u32>::empty()),
            final(self).ready(),
            final(self).spec_has_allocated_reg() == old(self).spec_has_allocated_reg(),
            final(self).spec_has_allocated_local() == old(self).spec_has_allocated_local(),
    {
        self.regs.finish_using_all();
        self.locals.finish_using_all();
    }

    pub fn get_reg_count(&self) -> (r: u32)
        ensures
            r == self.reg_state().0,
    {
        self.regs.get_count()
    }

    pub fn get_local_count(&self) -> (r: u32)
        ensures
            r == self.local_state().0,
    {
        self.locals.get_count()
    }

    pub fn has_allocated_reg(&self) -> (r: bool)
        ensures
            r == self.spec_has_allocated_reg(),
    {
        self.has_allocated_reg
    }

    pub fn has_allocated_local(&self) -> (r: bool)
        ensures
            r == self.spec_has_allocated_local(),
    {
        self.has_allocated_local
    }
}

/// Why registers of a block cannot be allocated
#[derive(Debug, Clone, Copy, PartialEq, Eq, Structural)]
pub enum RegAllocError {
    /// An instruction uses a register that the block does not declare
    MissingRegister,
}

/// The fake player or storage entry that each register of a block got
#[derive(Debug)]
pub struct RegAllocResult {
    pub regs: Vec<(String, String)>,
    pub locals: Vec<(String, String)>,
}

impl RegAllocResult {
    pub fn new() -> (r: Self)
        ensures
            r.regs@ == Seq::<(String, String)>::empty(),
            r.locals@ == Seq::<(String, String)>::empty(),
    {
        RegAllocResult { regs: Vec::new(), locals: Vec::new() }
    }
}

/// Whether a block declares a register with this name
pub open spec fn declared(regs: Seq<Register>, id: Seq<char>) -> bool {
    exists|k: int| 0 <= k < regs.len() && #[trigger] regs[k].id@ == id
}

/// The index of the first declaration of a register
pub open spec fn reg_index(regs: Seq<Register>, id: Seq<char>) -> int {
    choose|k: int|
        #![auto] 0 <= k < regs.len() && regs[k].id@ == id && forall|j: int| 0 <= j < k ==> regs[j].id@ != id
}

/// Whether a register is declared with a score type (for `score`) or with an
/// NBT type (for `!score`); the first declaration counts
pub open spec fn has_kind(regs: Seq<Register>, id: Seq<char>, score: bool) -> bool {
    declared(regs, id) && (regs[reg_index(regs, id)].ty is Score) == score
}

/// Whether some instruction from `i` on uses register `r`
pub open spec fn used_from(uses: Seq<Seq<Seq<char>>>, i: int, r: Seq<char>) -> bool {
    exists|j: int| i <= j < uses.len() && #[trigger] uses[j].contains(r)
}

/// Whether some instruction before `i` uses register `r`
pub open spec fn used_before(uses: Seq<Seq<Seq<char>>>, i: int, r: Seq<char>) -> bool {
    exists|j: int| 0 <= j < i && j < uses.len() && #[trigger] uses[j].contains(r)
}

/// Whether register `r` holds a value at instruction `t`: some instruction at
/// or before `t` uses it, and so does some instruction at or after `t`
pub open spec fn live_at(uses: Seq<Seq<Seq<char>>>, r: Seq<char>, t: int) -> bool {
    used_before(uses, t + 1, r) && used_from(uses, t, r)
}

/// Whether every register that an instruction uses is declared
pub open spec fn all_declared(uses: Seq<Seq<Seq<char>>>, regs: Seq<Register>) -> bool {
    forall|i: int, k: int| 0 <= i < uses.len() && 0 <= k < uses[i].len() ==> declared(regs, #[trigger] uses[i][k])
}

/// The number of register uses of all instructions together
pub open spec fn total_uses(uses: Seq<Seq<Seq<char>>>) -> nat
    decreases uses.len(),
{
    if uses.len() == 0 {
        0
    } else {
        total_uses(uses.drop_last()) + uses.last().len()
    }
}

/// A correct allocation of one kind of registers: every register of that
/// kind that the block uses gets exactly one name, each name is the prefix,
/// the function id and a number, and two registers that hold values at the
/// same instruction never share a name
pub open spec fn allocation_correct(
    pairs: Seq<(String, String)>,
    uses: Seq<Seq<Seq<char>>>,
    regs: Seq<Register>,
    score: bool,
    prefix: Seq<char>,
    func_id: Seq<char>,
) -> bool {
    &&& forall|a: int, b: int|
        0 <= a < pairs.len() && 0 <= b < pairs.len() && a != b ==> #[trigger] pairs[a].0@
            != #[trigger] pairs[b].0@
    &&& forall|a: int|
        0 <= a < pairs.len() ==> has_kind(regs, #[trigger] pairs[a].0@, score) && used_before(
            uses,
            uses.len() as int,
            pairs[a].0@,
        )
    &&& forall|r: Seq<char>|
        has_kind(regs, r, score) && used_before(uses, uses.len() as int, r) ==> exists|a: int|
            0 <= a < pairs.len() && #[trigger] pairs[a].0@ == r
    &&& forall|a: int| 0 <= a < pairs.len() ==> is_name(#[trigger] pairs[a].1@, prefix, func_id)
    &&& forall|a: int, b: int, t: int|
        0 <= a < pairs.len() && 0 <= b < pairs.len() && a != b && #[trigger] live_at(uses, pairs[a].0@, t)
            && #[trigger] live_at(uses, pairs[b].0@, t) ==> pairs[a].1@ != pairs[b].1@
}

/// Whether a text is a name made of the prefix, the function id and a number
pub open spec fn is_name(s: Seq<char>, prefix: Seq<char>, func_id: Seq<char>) -> bool {
    exists|n: nat| s == #[trigger] prefixed_name(prefix, func_id, n)
}

proof fn lemma_is_name(prefix: Seq<char>, func_id: Seq<char>, n: nat)
    ensures
        is_name(prefixed_name(prefix, func_id, n), prefix, func_id),
{
}

/// The numbers of the registers of `m` that are still used from `i` on,
/// leaving out those of `fin`
pub open spec fn live_nums(
    uses: Seq<Seq<Seq<char>>>,
    m: Map<Seq<char>, u32>,
    i: int,
    fin: Seq<Seq<char>>,
) -> Set<u32> {
    Set::new(
        |n: u32|
            exists|r: Seq<char>|
                #[trigger] m.contains_key(r) && m[r] == n && used_from(uses, i, r) && !fin.contains(r),
    )
}

/// What holds of one kind of registers before position `k` of instruction `i`
/// is allocated
#[verifier::opaque]
spec fn alloc_inv(
    uses: Seq<Seq<Seq<char>>>,
    regs: Seq<Register>,
    score: bool,
    m: Map<Seq<char>, u32>,
    s: AllocState,
    i: int,
    k: int,
) -> bool {
    &&& 0 <= i < uses.len() ==> 0 <= k <= uses[i].len()
    &&& forall|r: Seq<char>|
        #[trigger] m.contains_key(r) <==> (has_kind(regs, r, score) && (used_before(uses, i, r) || (
        0 <= i < uses.len() && uses[i].take(k).contains(r))))
    &&& alloc_safe(s, live_nums(uses, m, i, Seq::empty()))
    &&& forall|r1: Seq<char>, r2: Seq<char>|
        #[trigger] m.contains_key(r1) && #[trigger] m.contains_key(r2) && r1 != r2 && used_from(uses, i, r1)
            && used_from(uses, i, r2) ==> m[r1] != m[r2]
    &&& forall|r1: Seq<char>, r2: Seq<char>, t: int|
        m.contains_key(r1) && m.contains_key(r2) && r1 != r2 && t < i && #[trigger] live_at(uses, r1, t)
            && #[trigger] live_at(uses, r2, t) ==> m[r1] != m[r2]
}

/// What holds of one kind of registers while the registers of `fin`, the
/// first of those whose last use is instruction `i`, are given back
#[verifier::opaque]
spec fn finish_inv(
    uses: Seq<Seq<Seq<char>>>,
    regs: Seq<Register>,
    score: bool,
    m: Map<Seq<char>, u32>,
    s: AllocState,
    i: int,
    fin: Seq<Seq<char>>,
) -> bool {
    &&& forall|r: Seq<char>|
        #[trigger] m.contains_key(r) <==> (has_kind(regs, r, score) && used_before(uses, i + 1, r))
    &&& alloc_safe(s, live_nums(uses, m, i, fin))
    &&& forall|r1: Seq<char>, r2: Seq<char>|
        #[trigger] m.contains_key(r1) && #[trigger] m.contains_key(r2) && r1 != r2 && used_from(uses, i, r1)
            && used_from(uses, i, r2) ==> m[r1] != m[r2]
    &&& forall|r1: Seq<char>, r2: Seq<char>, t: int|
        m.contains_key(r1) && m.contains_key(r2) && r1 != r2 && t < i + 1 && #[trigger] live_at(
            uses,
            r1,
            t,
        ) && #[trigger] live_at(uses, r2, t) ==> m[r1] != m[r2]
    &&& forall|r: Seq<char>| #[trigger] m.contains_key(r) && fin.contains(r) ==> s.1.contains(m[r])
}

proof fn lemma_kind_unique(regs: Seq<Register>, r: Seq<char>)
    requires
        declared(regs, r),
    ensures
        has_kind(regs, r, true) != has_kind(regs, r, false),
{
}

/// A register of the kind that is not yet allocated gets a fresh number
proof fn lemma_alloc_new(
    uses: Seq<Seq<Seq<char>>>,
    regs: Seq<Register>,
    score: bool,
    m: Map<Seq<char>, u32>,
    s: AllocState,
    i: int,
    k: int,
    r: Seq<char>,
)
    requires
        0 <= i < uses.len(),
        0 <= k < uses[i].len(),
        alloc_inv(uses, regs, score, m, s, i, k),
        r == uses[i][k],
        has_kind(regs, r, score),
        !m.contains_key(r),
        s.1.len() > 0 || s.0 < u32::MAX,
    ensures
        alloc_inv(uses, regs, score, m.insert(r, alloc_result(s)), alloc_state(s), i, k + 1),
{
    reveal(alloc_inv);
    reveal(finish_inv);
    let n = alloc_result(s);
    let m2 = m.insert(r, n);
    let live = live_nums(uses, m, i, Seq::empty());
    let live2 = live_nums(uses, m2, i, Seq::empty());
    lemma_alloc_fresh(s, live);
    assert(uses[i].take(k + 1) =~= uses[i].take(k).push(r));
    assert(used_from(uses, i, r)) by {
        assert(uses[i].contains(r)) by {
            assert(uses[i][k] == r);
        }
    }
    assert(!used_before(uses, i, r));
    assert(live2 =~= live.insert(n)) by {
        assert forall|x: u32| live2.contains(x) implies x == n || live.contains(x) by {
            let q = choose|q: Seq<char>|
                #[trigger] m2.contains_key(q) && m2[q] == x && used_from(uses, i, q) && !Seq::<
                    Seq<char>,
                >::empty().contains(q);
            if q != r {
                assert(m.contains_key(q));
            }
        }
        assert forall|x: u32| live.insert(n).contains(x) implies live2.contains(x) by {
            if x == n {
                assert(m2.contains_key(r) && m2[r] == n && used_from(uses, i, r));
            } else {
                let q = choose|q: Seq<char>|
                   #[trigger] m.contains_key(q) && m[q] == x && used_from(uses, i, q) && !Seq::<
                        Seq<char>,
                    >::empty().contains(q);
                assert(m2.contains_key(q) && m2[q] == x);
            }
        }
    }
    assert forall|q: Seq<char>|
        #[trigger] m2.contains_key(q) <==> (has_kind(regs, q, score) && (used_before(uses, i, q) || (0
            <= i < uses.len() && uses[i].take(k + 1).contains(q)))) by {
        let t1 = uses[i].take(k + 1);
        let t0 = uses[i].take(k);
        if t1.contains(q) && q != r {
            let p = choose|p: int| 0 <= p < t1.len() && #[trigger] t1[p] == q;
            assert(t0[p] == q);
        }
        if t0.contains(q) {
            let p = choose|p: int| 0 <= p < t0.len() && #[trigger] t0[p] == q;
            assert(t1[p] == q);
        }
        if q == r {
            assert(t1[k] == r);
        }
    }
    assert forall|r1: Seq<char>, r2: Seq<char>|
        #[trigger] m2.contains_key(r1) && #[trigger] m2.contains_key(r2) && r1 != r2 && used_from(
            uses,
            i,
            r1,
        ) && used_from(uses, i, r2) implies m2[r1] != m2[r2] by {
        if r1 == r {
            assert(live.contains(m[r2]));
        } else if r2 == r {
            assert(live.contains(m[r1]));
        }
    }
    assert forall|r1: Seq<char>, r2: Seq<char>, t: int|
        m2.contains_key(r1) && m2.contains_key(r2) && r1 != r2 && t < i && #[trigger] live_at(
            uses,
            r1,
            t,
        ) && #[trigger] live_at(uses, r2, t) implies m2[r1] != m2[r2] by {
        if r1 == r || r2 == r {
            let j = choose|j: int| 0 <= j < t + 1 && j < uses.len() && #[trigger] uses[j].contains(r);
            assert(used_before(uses, i, r));
        }
    }
}

/// A register that is allocated already, or of the other kind, changes nothing
proof fn lemma_alloc_keep(
    uses: Seq<Seq<Seq<char>>>,
    regs: Seq<Register>,
    score: bool,
    m: Map<Seq<char>, u32>,
    s: AllocState,
    i: int,
    k: int,
    r: Seq<char>,
)
    requires
        0 <= i < uses.len(),
        0 <= k < uses[i].len(),
        alloc_inv(uses, regs, score, m, s, i, k),
        r == uses[i][k],
        m.contains_key(r) || !has_kind(regs, r, score),
    ensures
        alloc_inv(uses, regs, score, m, s, i, k + 1),
{
    reveal(alloc_inv);
    reveal(finish_inv);
    assert(uses[i].take(k + 1) =~= uses[i].take(k).push(r));
    assert forall|q: Seq<char>|
        #[trigger] m.contains_key(q) <==> (has_kind(regs, q, score) && (used_before(uses, i, q) || (0
            <= i < uses.len() && uses[i].take(k + 1).contains(q)))) by {
        let t1 = uses[i].take(k + 1);
        let t0 = uses[i].take(k);
        if t1.contains(q) && q != r {
            let p = choose|p: int| 0 <= p < t1.len() && #[trigger] t1[p] == q;
            assert(t0[p] == q);
        }
        if t0.contains(q) {
            let p = choose|p: int| 0 <= p < t0.len() && #[trigger] t0[p] == q;
            assert(t1[p] == q);
        }
        if q == r {
            assert(uses[i].take(k + 1)[k] == r);
        }
    }
}

/// A register is among the last uses of instruction `i` exactly when that
/// instruction uses it and no later one does
proof fn lemma_last_uses_at(uses: Seq<Seq<Seq<char>>>, i: int, q: Seq<char>)
    requires
        0 <= i < uses.len(),
    ensures
        last_uses_at(uses, i).contains(q) <==> (uses[i].contains(q) && !used_from(uses, i + 1, q)),
{
    let pred = |x: Seq<char>| !used_after(uses, i, x);
    let fin = uses[i].filter(pred);
    assert forall|x: Seq<char>| used_after(uses, i, x) <==> used_from(uses, i + 1, x) by {
        if used_after(uses, i, x) {
            let j = choose|j: int| i < j < uses.len() && #[trigger] uses[j].contains(x);
            assert(uses[j].contains(x));
        }
        if used_from(uses, i + 1, x) {
            let j = choose|j: int| i + 1 <= j < uses.len() && #[trigger] uses[j].contains(x);
            assert(uses[j].contains(x));
        }
    }
    if fin.contains(q) {
        uses[i].lemma_filter_contains_rev(pred, q);
        let p = choose|p: int| 0 <= p < fin.len() && #[trigger] fin[p] == q;
        uses[i].lemma_filter_pred(pred, p);
    }
    if uses[i].contains(q) && !used_from(uses, i + 1, q) {
        let p = choose|p: int| 0 <= p < uses[i].len() && #[trigger] uses[i][p] == q;
        uses[i].lemma_filter_contains(pred, p);
    }
}

/// Once every register of instruction `i` is allocated, giving back starts
proof fn lemma_alloc_to_finish(
    uses: Seq<Seq<Seq<char>>>,
    regs: Seq<Register>,
    score: bool,
    m: Map<Seq<char>, u32>,
    s: AllocState,
    i: int,
)
    requires
        0 <= i < uses.len(),
        alloc_inv(uses, regs, score, m, s, i, uses[i].len() as int),
    ensures
        finish_inv(uses, regs, score, m, s, i, Seq::empty()),
{
    reveal(alloc_inv);
    reveal(finish_inv);
    assert(uses[i].take(uses[i].len() as int) =~= uses[i]);
    assert forall|r: Seq<char>|
        (used_before(uses, i, r) || uses[i].contains(r)) <==> used_before(uses, i + 1, r) by {
        if used_before(uses, i + 1, r) {
            let j = choose|j: int| 0 <= j < i + 1 && j < uses.len() && #[trigger] uses[j].contains(r);
            if j < i {
                assert(used_before(uses, i, r));
            }
        }
        if uses[i].contains(r) {
            assert(used_before(uses, i + 1, r));
        }
    }
    assert forall|r1: Seq<char>, r2: Seq<char>, t: int|
        m.contains_key(r1) && m.contains_key(r2) && r1 != r2 && t < i + 1 && #[trigger] live_at(
            uses,
            r1,
            t,
        ) && #[trigger] live_at(uses, r2, t) implies m[r1] != m[r2] by {
        if t == i {
            assert(used_from(uses, i, r1) && used_from(uses, i, r2));
        }
    }
}

/// Giving back a register whose last use is instruction `i`
proof fn lemma_finish_one(
    uses: Seq<Seq<Seq<char>>>,
    regs: Seq<Register>,
    score: bool,
    m: Map<Seq<char>, u32>,
    s: AllocState,
    i: int,
    fin: Seq<Seq<char>>,
    r: Seq<char>,
)
    requires
        0 <= i < uses.len(),
        finish_inv(uses, regs, score, m, s, i, fin),
        uses[i].contains(r),
        !used_from(uses, i + 1, r),
        has_kind(regs, r, score),
    ensures
        m.contains_key(r),
        finish_inv(uses, regs, score, m, finish_state(s, m[r]), i, fin.push(r)),
{
    reveal(alloc_inv);
    reveal(finish_inv);
    assert(used_before(uses, i + 1, r));
    assert(m.contains_key(r));
    let n = m[r];
    let live = live_nums(uses, m, i, fin);
    let live2 = live_nums(uses, m, i, fin.push(r));
    assert(used_from(uses, i, r));
    assert forall|q: Seq<char>| fin.push(r).contains(q) <==> (fin.contains(q) || q == r) by {
        let fp = fin.push(r);
        if fp.contains(q) && q != r {
            let p = choose|p: int| 0 <= p < fp.len() && #[trigger] fp[p] == q;
            assert(fin[p] == q);
        }
        if fin.contains(q) {
            let p = choose|p: int| #![auto] 0 <= p < fin.len() && fin[p] == q;
            assert(fin.push(r)[p] == q);
        }
        if q == r {
            assert(fin.push(r)[fin.len() as int] == r);
        }
    }
    if fin.contains(r) {
        assert(s.1.contains(n));
        assert(finish_state(s, n) == s);
        assert(live2 =~= live);
    } else {
        assert(live.contains(n));
        lemma_finish_safe(s, live, n);
        assert(live2 =~= live.remove(n)) by {
            assert forall|x: u32| live2.contains(x) implies live.remove(n).contains(x) by {
                let q = choose|q: Seq<char>|
                   #[trigger] m.contains_key(q) && m[q] == x && used_from(uses, i, q) && !fin.push(
                        r,
                    ).contains(q);
                assert(q != r);
                assert(live.contains(x));
            }
            assert forall|x: u32| live.remove(n).contains(x) implies live2.contains(x) by {
                let q = choose|q: Seq<char>|
                   #[trigger] m.contains_key(q) && m[q] == x && used_from(uses, i, q) && !fin.contains(q);
                assert(q != r);
            }
        }
    }
    let s2 = finish_state(s, n);
    assert forall|q: Seq<char>| #[trigger] m.contains_key(q) && fin.push(r).contains(q) implies s2.1.contains(
        m[q],
    ) by {
        if q == r {
            if !s.1.contains(n) {
                assert(s2.1[s.1.len() as int] == n);
            }
        } else {
            assert(s.1.contains(m[q]));
            let p = choose|p: int| #![auto] 0 <= p < s.1.len() && s.1[p] == m[q];
            if !s.1.contains(n) {
                assert(s2.1[p] == m[q]);
            }
        }
    }
}

/// A register of the other kind changes nothing while registers are given back
proof fn lemma_finish_other(
    uses: Seq<Seq<Seq<char>>>,
    regs: Seq<Register>,
    score: bool,
    m: Map<Seq<char>, u32>,
    s: AllocState,
    i: int,
    fin: Seq<Seq<char>>,
    r: Seq<char>,
)
    requires
        finish_inv(uses, regs, score, m, s, i, fin),
        !has_kind(regs, r, score),
    ensures
        finish_inv(uses, regs, score, m, s, i, fin.push(r)),
{
    reveal(alloc_inv);
    reveal(finish_inv);
    assert forall|q: Seq<char>| fin.push(r).contains(q) <==> (fin.contains(q) || q == r) by {
        let fp = fin.push(r);
        if fp.contains(q) && q != r {
            let p = choose|p: int| 0 <= p < fp.len() && #[trigger] fp[p] == q;
            assert(fin[p] == q);
        }
        if fin.contains(q) {
            let p = choose|p: int| #![auto] 0 <= p < fin.len() && fin[p] == q;
            assert(fin.push(r)[p] == q);
        }
        if q == r {
            assert(fin.push(r)[fin.len() as int] == r);
        }
    }
    assert(live_nums(uses, m, i, fin.push(r)) =~= live_nums(uses, m, i, fin));
}

/// After the last uses of instruction `i` are given back, the next
/// instruction can be allocated
proof fn lemma_finish_to_next(
    uses: Seq<Seq<Seq<char>>>,
    regs: Seq<Register>,
    score: bool,
    m: Map<Seq<char>, u32>,
    s: AllocState,
    i: int,
)
    requires
        0 <= i < uses.len(),
        finish_inv(uses, regs, score, m, s, i, last_uses_at(uses, i)),
    ensures
        alloc_inv(uses, regs, score, m, s, i + 1, 0),
{
    reveal(alloc_inv);
    reveal(finish_inv);
    let fin = last_uses_at(uses, i);
    assert forall|q: Seq<char>| fin.contains(q) <==> (uses[i].contains(q) && !used_from(uses, i + 1, q)) by {
        lemma_last_uses_at(uses, i, q);
    }
    assert forall|q: Seq<char>|
        (used_from(uses, i, q) && !fin.contains(q)) <==> used_from(uses, i + 1, q) by {
        if used_from(uses, i, q) && !used_from(uses, i + 1, q) {
            let j = choose|j: int| i <= j < uses.len() && #[trigger] uses[j].contains(q);
            if j > i {
                assert(used_from(uses, i + 1, q));
            }
        }
        if used_from(uses, i + 1, q) {
            let j = choose|j: int| i + 1 <= j < uses.len() && #[trigger] uses[j].contains(q);
            assert(used_from(uses, i, q));
        }
    }
    assert(live_nums(uses, m, i + 1, Seq::empty()) =~= live_nums(uses, m, i, fin));
    assert forall|q: Seq<char>|
        #[trigger] m.contains_key(q) <==> (has_kind(regs, q, score) && (used_before(uses, i + 1, q) || (0
            <= i + 1 < uses.len() && uses[i + 1].take(0).contains(q)))) by {
        if 0 <= i + 1 < uses.len() {
            assert(uses[i + 1].take(0) =~= Seq::<Seq<char>>::empty());
        }
    }
    assert forall|r1: Seq<char>, r2: Seq<char>|
        #[trigger] m.contains_key(r1) && #[trigger] m.contains_key(r2) && r1 != r2 && used_from(
            uses,
            i + 1,
            r1,
        ) && used_from(uses, i + 1, r2) implies m[r1] != m[r2] by {
        assert(used_from(uses, i, r1) && used_from(uses, i, r2));
    }
}

/// Before the first instruction, nothing is allocated
proof fn lemma_alloc_start(uses: Seq<Seq<Seq<char>>>, regs: Seq<Register>, score: bool, s: AllocState)
    requires
        alloc_safe(s, Set::empty()),
    ensures
        alloc_inv(uses, regs, score, Map::empty(), s, 0, 0),
{
    reveal(alloc_inv);
    reveal(finish_inv);
    assert(live_nums(uses, Map::empty(), 0, Seq::empty()) =~= Set::empty());
    assert forall|q: Seq<char>|
        #[trigger] Map::<Seq<char>, u32>::empty().contains_key(q) <==> (has_kind(regs, q, score) && (
        used_before(uses, 0, q) || (0 <= 0 < uses.len() && uses[0].take(0).contains(q)))) by {
        if 0 < uses.len() {
            assert(uses[0].take(0) =~= Seq::<Seq<char>>::empty());
        }
    }
}

/// After the last instruction, every register is given back
proof fn lemma_alloc_end(
    uses: Seq<Seq<Seq<char>>>,
    regs: Seq<Register>,
    score: bool,
    m: Map<Seq<char>, u32>,
    s: AllocState,
)
    requires
        alloc_inv(uses, regs, score, m, s, uses.len() as int, 0),
    ensures
        alloc_safe(s, Set::empty()),
{
    reveal(alloc_inv);
    reveal(finish_inv);
    assert(live_nums(uses, m, uses.len() as int, Seq::empty()) =~= Set::empty());
}

/// After the last instruction, exactly the used registers of the kind have numbers
proof fn lemma_alloc_dom(
    uses: Seq<Seq<Seq<char>>>,
    regs: Seq<Register>,
    score: bool,
    m: Map<Seq<char>, u32>,
    s: AllocState,
)
    requires
        alloc_inv(uses, regs, score, m, s, uses.len() as int, 0),
    ensures
        forall|q: Seq<char>|
            #[trigger] m.contains_key(q) <==> (has_kind(regs, q, score) && used_before(uses, uses.len() as int, q)),
{
    reveal(alloc_inv);
}

/// Whether any register of the kind got a number, stated over the block
proof fn lemma_alloc_flags(
    uses: Seq<Seq<Seq<char>>>,
    regs: Seq<Register>,
    score: bool,
    m: Map<Seq<char>, u32>,
    s: AllocState,
    flag_now: bool,
    flag_old: bool,
)
    requires
        alloc_inv(uses, regs, score, m, s, uses.len() as int, 0),
        flag_now == (flag_old || exists|q: Seq<char>| #[trigger] m.contains_key(q)),
    ensures
        flag_now == (flag_old || exists|q: Seq<char>|
            has_kind(regs, q, score) && #[trigger] used_before(uses, uses.len() as int, q)),
{
    lemma_alloc_dom(uses, regs, score, m, s);
    let n = uses.len() as int;
    if exists|q: Seq<char>| #[trigger] m.contains_key(q) {
        let q = choose|q: Seq<char>| #[trigger] m.contains_key(q);
        assert(has_kind(regs, q, score) && used_before(uses, n, q));
    }
    if exists|q: Seq<char>| has_kind(regs, q, score) && #[trigger] used_before(uses, n, q) {
        let q = choose|q: Seq<char>| has_kind(regs, q, score) && #[trigger] used_before(uses, n, q);
        assert(m.contains_key(q));
    }
}

/// Counting uses instruction by instruction
proof fn lemma_total_uses_take(uses: Seq<Seq<Seq<char>>>, i: int)
    requires
        0 <= i < uses.len(),
    ensures
        total_uses(uses.take(i + 1)) == total_uses(uses.take(i)) + uses[i].len(),
        total_uses(uses.take(i + 1)) <= total_uses(uses),
    decreases uses.len() - i,
{
    assert(uses.take(i + 1).drop_last() =~= uses.take(i));
    if i + 1 < uses.len() {
        lemma_total_uses_take(uses, i + 1);
    } else {
        assert(uses.take(i + 1) =~= uses);
    }
}

/// The index of the first declaration of a register, if any
fn find_reg(regs: &Vec<Register>, id: &str) -> (r: Option<usize>)
    ensures
        match r {
            Some(k) => k < regs@.len() && reg_index(regs@, id@) == k && declared(regs@, id@),
            None => !declared(regs@, id@),
        },
{
    let mut k: usize = 0;
    while k < regs.len()
        invariant
            k <= regs@.len(),
            forall|j: int| 0 <= j < k ==> regs@[j].id@ != id@,
        decreases regs.len() - k,
    {
        if str_eq(regs[k].id.as_str(), id) {
            proof {
                let c = reg_index(regs@, id@);
                assert(regs@[k as int].id@ == id@);
                assert(0 <= c < regs@.len() && regs@[c].id@ == id@ && forall|j: int|
                    0 <= j < c ==> regs@[j].id@ != id@);
                if c < k {
                    assert(regs@[c].id@ != id@);
                } else if c > k {
                    assert(regs@[k as int].id@ != id@);
                }
            }
            return Some(k);
        }
        k = k + 1;
    }
    None
}

/// The names in `pairs` and their numbers agree with `m`, with no name twice
pub open spec fn pairs_match(pairs: Seq<(String, u32)>, m: Map<Seq<char>, u32>) -> bool {
    &&& forall|a: int| 0 <= a < pairs.len() ==> #[trigger] m.contains_key(pairs[a].0@) && m[pairs[a].0@]
        == pairs[a].1
    &&& forall|r: Seq<char>| #[trigger] m.contains_key(r) ==> exists|a: int| 0 <= a < pairs.len() && #[trigger] pairs[a].0@ == r
    &&& forall|a: int, b: int|
        0 <= a < pairs.len() && 0 <= b < pairs.len() && a != b ==> #[trigger] pairs[a].0@
            != #[trigger] pairs[b].0@
}

/// The number that `pairs` gives a register, if any
fn find_num(pairs: &Vec<(String, u32)>, id: &str, Ghost(m): Ghost<Map<Seq<char>, u32>>) -> (r: Option<u32>)
    requires
        pairs_match(pairs@, m),
    ensures
        match r {
            Some(n) => m.contains_key(id@) && m[id@] == n,
            None => !m.contains_key(id@),
        },
{
    let mut k: usize = 0;
    while k < pairs.len()
        invariant
            k <= pairs@.len(),
            pairs_match(pairs@, m),
            forall|j: int| 0 <= j < k ==> pairs@[j].0@ != id@,
        decreases pairs.len() - k,
    {
        if str_eq(pairs[k].0.as_str(), id) {
            assert(m.contains_key(pairs@[k as int].0@));
            return Some(pairs[k].1);
        }
        k = k + 1;
    }
    proof {
        if m.contains_key(id@) {
            let a = choose|a: int| 0 <= a < pairs@.len() && #[trigger] pairs@[a].0@ == id@;
            assert(pairs@[a].0@ != id@);
        }
    }
    None
}

/// Adds a register with its number to `pairs`
fn add_pair(pairs: &mut Vec<(String, u32)>, id: &String, n: u32, Ghost(m): Ghost<Map<Seq<char>, u32>>)
    requires
        pairs_match(old(pairs)@, m),
        !m.contains_key(id@),
    ensures
        pairs_match(final(pairs)@, m.insert(id@, n)),
{
    let ghost before = pairs@;
    pairs.push((id.clone(), n));
    proof {
        let m2 = m.insert(id@, n);
        assert forall|a: int| 0 <= a < pairs@.len() implies #[trigger] m2.contains_key(pairs@[a].0@)
            && m2[pairs@[a].0@] == pairs@[a].1 by {
            if a < before.len() {
                assert(pairs@[a] == before[a]);
            }
        }
        assert forall|r: Seq<char>| #[trigger] m2.contains_key(r) implies exists|a: int|
            0 <= a < pairs@.len() && #[trigger] pairs@[a].0@ == r by {
            if r == id@ {
                assert(pairs@[before.len() as int].0@ == r);
            } else {
                let a = choose|a: int| 0 <= a < before.len() && #[trigger] before[a].0@ == r;
                assert(pairs@[a] == before[a]);
            }
        }
        assert forall|a: int, b: int|
            0 <= a < pairs@.len() && 0 <= b < pairs@.len() && a != b implies #[trigger] pairs@[a].0@
                != #[trigger] pairs@[b].0@ by {
            if a < before.len() && b < before.len() {
                assert(pairs@[a] == before[a] && pairs@[b] == before[b]);
            } else if a < before.len() {
                assert(pairs@[a] == before[a]);
                assert(m.contains_key(before[a].0@));
            } else if b < before.len() {
                assert(pairs@[b] == before[b]);
                assert(m.contains_key(before[b].0@));
            }
        }
    }
}

/// Names each allocated register with the fake player (`score`) or storage
/// entry (`!score`) of its number
fn name_pairs(
    pairs: &Vec<(String, u32)>,
    func_id: &str,
    score: bool,
    Ghost(prefix): Ghost<Seq<char>>,
) -> (r: Vec<(String, String)>)
    requires
        prefix == (if score {
            seq!['%', 'r']
        } else {
            seq!['r']
        }),
    ensures
        r@.len() == pairs@.len(),
        forall|a: int|
            #![trigger r@[a]]
            0 <= a < r@.len() ==> r@[a].0@ == pairs@[a].0@ && r@[a].1@ == prefixed_name(
                prefix,
                func_id@,
                pairs@[a].1 as nat,
            ),
{
    let mut out: Vec<(String, String)> = Vec::new();
    let mut k: usize = 0;
    while k < pairs.len()
        invariant
            k <= pairs@.len(),
            out@.len() == k,
            prefix == (if score {
                seq!['%', 'r']
            } else {
                seq!['r']
            }),
            forall|a: int|
                #![trigger out@[a]]
                0 <= a < k ==> out@[a].0@ == pairs@[a].0@ && out@[a].1@ == prefixed_name(
                    prefix,
                    func_id@,
                    pairs@[a].1 as nat,
                ),
        decreases pairs.len() - k,
    {
        let name = if score {
            format_reg_fake_player(pairs[k].1, func_id)
        } else {
            format_local_storage_entry(pairs[k].1, func_id)
        };
        assert(name@ == prefixed_name(prefix, func_id@, pairs@[k as int].1 as nat));
        let ghost before = out@;
        out.push((pairs[k].0.clone(), name));
        assert(forall|a: int| 0 <= a < k ==> out@[a] == before[a]);
        k = k + 1;
    }
    out
}

/// The named pairs built from a finished allocation are a correct allocation
proof fn lemma_result_correct(
    uses: Seq<Seq<Seq<char>>>,
    regs: Seq<Register>,
    score: bool,
    m: Map<Seq<char>, u32>,
    s: AllocState,
    nums: Seq<(String, u32)>,
    named: Seq<(String, String)>,
    prefix: Seq<char>,
    func_id: Seq<char>,
)
    requires
        alloc_inv(uses, regs, score, m, s, uses.len() as int, 0),
        pairs_match(nums, m),
        named.len() == nums.len(),
        forall|a: int|
            #![trigger named[a]]
            0 <= a < named.len() ==> named[a].0@ == nums[a].0@ && named[a].1@ == prefixed_name(
                prefix,
                func_id,
                nums[a].1 as nat,
            ),
    ensures
        allocation_correct(named, uses, regs, score, prefix, func_id),
{
    reveal(alloc_inv);
    reveal(finish_inv);
    let n = uses.len() as int;
    assert forall|a: int, b: int|
        0 <= a < named.len() && 0 <= b < named.len() && a != b implies #[trigger] named[a].0@
            != #[trigger] named[b].0@ by {
        assert(nums[a].0@ != nums[b].0@);
    }
    assert forall|a: int|
        0 <= a < named.len() implies has_kind(regs, #[trigger] named[a].0@, score) && used_before(
            uses,
            n,
            named[a].0@,
        ) by {
        assert(m.contains_key(nums[a].0@));
    }
    assert forall|r: Seq<char>| has_kind(regs, r, score) && used_before(uses, n, r) implies exists|a: int|
        0 <= a < named.len() && #[trigger] named[a].0@ == r by {
        assert(m.contains_key(r));
        let a = choose|a: int| 0 <= a < nums.len() && #[trigger] nums[a].0@ == r;
        assert(named[a].0@ == r);
    }
    assert forall|a: int| 0 <= a < named.len() implies is_name(#[trigger] named[a].1@, prefix, func_id) by {
        assert(named[a].0@ == nums[a].0@);
        lemma_is_name(prefix, func_id, nums[a].1 as nat);
    }
    assert forall|a: int, b: int, t: int|
        0 <= a < named.len() && 0 <= b < named.len() && a != b && #[trigger] live_at(uses, named[a].0@, t)
            && #[trigger] live_at(uses, named[b].0@, t) implies named[a].1@ != named[b].1@ by {
        assert(named[a].0@ == nums[a].0@);
        assert(named[b].0@ == nums[b].0@);
        let r1 = nums[a].0@;
        let r2 = nums[b].0@;
        assert(m.contains_key(r1) && m.contains_key(r2) && r1 != r2);
        let j = choose|j: int| t <= j < uses.len() && #[trigger] uses[j].contains(r1);
        assert(t < n);
        assert(m[r1] != m[r2]);
        if named[a].1@ == named[b].1@ {
            crate::output::text::lemma_prefixed_name_injective(
                prefix,
                func_id,
                nums[a].1 as nat,
                nums[b].1 as nat,
            );
        }
    }
}

/// The numbers of one kind of registers, and the allocator of that kind,
/// after the register at position `k` of instruction `i` is allocated: it
/// gets the next number where it is of that kind and has none yet
pub open spec fn alloc_step(
    uses: Seq<Seq<Seq<char>>>,
    regs: Seq<Register>,
    score: bool,
    i: int,
    k: int,
    ms: (Map<Seq<char>, u32>, AllocState),
) -> (Map<Seq<char>, u32>, AllocState) {
    let r = uses[i][k];
    if has_kind(regs, r, score) && !ms.0.contains_key(r) {
        (ms.0.insert(r, alloc_result(ms.1)), alloc_state(ms.1))
    } else {
        ms
    }
}

/// The numbers and the allocator after the first `k` registers that
/// instruction `i` uses are allocated
#[verifier::opaque]
pub open spec fn allocs_upto(
    uses: Seq<Seq<Seq<char>>>,
    regs: Seq<Register>,
    score: bool,
    i: int,
    k: int,
    ms: (Map<Seq<char>, u32>, AllocState),
) -> (Map<Seq<char>, u32>, AllocState)
    decreases k,
{
    if k <= 0 {
        ms
    } else {
        alloc_step(uses, regs, score, i, k - 1, allocs_upto(uses, regs, score, i, k - 1, ms))
    }
}

/// The allocator after the number of a register of this kind is given back
pub open spec fn finish_step(
    regs: Seq<Register>,
    score: bool,
    m: Map<Seq<char>, u32>,
    s: AllocState,
    r: Seq<char>,
) -> AllocState {
    if has_kind(regs, r, score) {
        finish_state(s, m[r])
    } else {
        s
    }
}

/// The allocator after the numbers of the registers of `fin` are given back
/// in order
#[verifier::opaque]
pub open spec fn finishes(
    regs: Seq<Register>,
    score: bool,
    m: Map<Seq<char>, u32>,
    s: AllocState,
    fin: Seq<Seq<char>>,
) -> AllocState
    decreases fin.len(),
{
    if fin.len() == 0 {
        s
    } else {
        finish_step(regs, score, m, finishes(regs, score, m, s, fin.drop_last()), fin.last())
    }
}

/// Whether a map of numbers and an allocator state are the given pair
#[verifier::opaque]
pub open spec fn tracks(m: Map<Seq<char>, u32>, s: AllocState, ms: (Map<Seq<char>, u32>, AllocState)) -> bool {
    m == ms.0 && s == ms.1
}

proof fn lemma_tracks_get(m: Map<Seq<char>, u32>, s: AllocState, ms: (Map<Seq<char>, u32>, AllocState))
    requires
        tracks(m, s, ms),
    ensures
        m == ms.0,
        s == ms.1,
{
    reveal(tracks);
}

proof fn lemma_tracks_init(uses: Seq<Seq<Seq<char>>>, regs: Seq<Register>, score: bool, s0: AllocState)
    ensures
        tracks(Map::empty(), s0, block_allocs(uses, regs, score, 0, s0)),
{
    reveal(tracks);
    reveal(block_allocs);
}

proof fn lemma_tracks_start(
    uses: Seq<Seq<Seq<char>>>,
    regs: Seq<Register>,
    score: bool,
    i: int,
    b: (Map<Seq<char>, u32>, AllocState),
    m: Map<Seq<char>, u32>,
    s: AllocState,
)
    requires
        tracks(m, s, b),
    ensures
        tracks(m, s, allocs_upto(uses, regs, score, i, 0, b)),
{
    reveal(tracks);
    reveal(allocs_upto);
}

proof fn lemma_tracks_alloc(
    uses: Seq<Seq<Seq<char>>>,
    regs: Seq<Register>,
    score: bool,
    i: int,
    k: int,
    b: (Map<Seq<char>, u32>, AllocState),
    m: Map<Seq<char>, u32>,
    s: AllocState,
    m2: Map<Seq<char>, u32>,
    s2: AllocState,
)
    requires
        k >= 0,
        tracks(m, s, allocs_upto(uses, regs, score, i, k, b)),
        (m2, s2) == alloc_step(uses, regs, score, i, k, (m, s)),
    ensures
        tracks(m2, s2, allocs_upto(uses, regs, score, i, k + 1, b)),
{
    reveal(tracks);
    reveal(allocs_upto);
}

proof fn lemma_tracks_fin_start(
    regs: Seq<Register>,
    score: bool,
    a: (Map<Seq<char>, u32>, AllocState),
    m: Map<Seq<char>, u32>,
    s: AllocState,
)
    requires
        tracks(m, s, a),
    ensures
        tracks(m, s, (a.0, finishes(regs, score, a.0, a.1, Seq::empty()))),
{
    reveal(tracks);
    reveal(finishes);
}

proof fn lemma_tracks_finish(
    regs: Seq<Register>,
    score: bool,
    a: (Map<Seq<char>, u32>, AllocState),
    f: Seq<Seq<char>>,
    r: Seq<char>,
    m: Map<Seq<char>, u32>,
    s: AllocState,
    s2: AllocState,
)
    requires
        tracks(m, s, (a.0, finishes(regs, score, a.0, a.1, f))),
        s2 == finish_step(regs, score, m, s, r),
    ensures
        tracks(m, s2, (a.0, finishes(regs, score, a.0, a.1, f.push(r)))),
{
    reveal(tracks);
    reveal(finishes);
    assert(f.push(r).drop_last() =~= f);
}

proof fn lemma_tracks_next(
    uses: Seq<Seq<Seq<char>>>,
    regs: Seq<Register>,
    score: bool,
    i: int,
    s0: AllocState,
    a: (Map<Seq<char>, u32>, AllocState),
    m: Map<Seq<char>, u32>,
    s: AllocState,
)
    requires
        i >= 0,
        a == allocs_upto(uses, regs, score, i, uses[i].len() as int, block_allocs(uses, regs, score, i, s0)),
        tracks(m, s, (a.0, finishes(regs, score, a.0, a.1, last_uses_at(uses, i)))),
    ensures
        tracks(m, s, block_allocs(uses, regs, score, i + 1, s0)),
{
    reveal(tracks);
    reveal(block_allocs);
}

/// The numbers of one kind of registers, and the allocator of that kind,
/// after the first `i` instructions of a block: each instruction allocates
/// the registers it uses in order, then gives back those it uses for the
/// last time
#[verifier::opaque]
pub open spec fn block_allocs(
    uses: Seq<Seq<Seq<char>>>,
    regs: Seq<Register>,
    score: bool,
    i: int,
    s0: AllocState,
) -> (Map<Seq<char>, u32>, AllocState)
    decreases i,
{
    if i <= 0 {
        (Map::empty(), s0)
    } else {
        let a = allocs_upto(uses, regs, score, i - 1, uses[i - 1].len() as int, block_allocs(uses, regs, score, i - 1, s0));
        (a.0, finishes(regs, score, a.0, a.1, last_uses_at(uses, i - 1)))
    }
}

/// The numbers allocated so far while a block is allocated, by kind, with
/// the maps from register to number that they stand for
struct BlockAlloc {
    regs: Vec<(String, u32)>,
    locals: Vec<(String, u32)>,
    mregs: Ghost<Map<Seq<char>, u32>>,
    mlocals: Ghost<Map<Seq<char>, u32>>,
}

/// What holds before position `k` of instruction `i` is allocated
spec fn run_inv(
    st: BlockAlloc,
    racx: RegAllocCx,
    uses: Seq<Seq<Seq<char>>>,
    regs: Seq<Register>,
    i: int,
    k: int,
    start: (u32, u32),
    flags: (bool, bool),
) -> bool {
    &&& pairs_match(st.regs@, st.mregs@)
    &&& pairs_match(st.locals@, st.mlocals@)
    &&& racx.wf()
    &&& alloc_inv(uses, regs, true, st.mregs@, racx.reg_state(), i, k)
    &&& alloc_inv(uses, regs, false, st.mlocals@, racx.local_state(), i, k)
    &&& racx.reg_state().0 <= start.0 + total_uses(uses.take(i)) + k
    &&& racx.local_state().0 <= start.1 + total_uses(uses.take(i)) + k
    &&& racx.spec_has_allocated_reg() == (flags.0 || exists|q: Seq<char>| #[trigger] st.mregs@.contains_key(q))
    &&& racx.spec_has_allocated_local() == (flags.1 || exists|q: Seq<char>|
        #[trigger] st.mlocals@.contains_key(q))
}

/// What holds while the registers of `fin`, the first of those whose last
/// use is instruction `i`, are given back
spec fn fin_inv(
    st: BlockAlloc,
    racx: RegAllocCx,
    uses: Seq<Seq<Seq<char>>>,
    regs: Seq<Register>,
    i: int,
    fin: Seq<Seq<char>>,
    start: (u32, u32),
    flags: (bool, bool),
) -> bool {
    &&& pairs_match(st.regs@, st.mregs@)
    &&& pairs_match(st.locals@, st.mlocals@)
    &&& racx.wf()
    &&& finish_inv(uses, regs, true, st.mregs@, racx.reg_state(), i, fin)
    &&& finish_inv(uses, regs, false, st.mlocals@, racx.local_state(), i, fin)
    &&& racx.reg_state().0 <= start.0 + total_uses(uses.take(i + 1))
    &&& racx.local_state().0 <= start.1 + total_uses(uses.take(i + 1))
    &&& racx.spec_has_allocated_reg() == (flags.0 || exists|q: Seq<char>| #[trigger] st.mregs@.contains_key(q))
    &&& racx.spec_has_allocated_local() == (flags.1 || exists|q: Seq<char>|
        #[trigger] st.mlocals@.contains_key(q))
}

/// Allocates the register at position `k` of instruction `i` where it has no
/// number yet; false where the block does not declare it
#[verifier::spinoff_prover]
fn alloc_use(
    block: &LIRBlock,
    i: usize,
    k: usize,
    reg_id: &String,
    racx: &mut RegAllocCx,
    st: &mut BlockAlloc,
    Ghost(start): Ghost<(u32, u32)>,
    Ghost(flags): Ghost<(bool, bool)>,
) -> (ok: bool)
    requires
        i < block.contents@.len(),
        k < block.uses()[i as int].len(),
        reg_id@ == block.uses()[i as int][k as int],
        run_inv(*old(st), *old(racx), block.uses(), block.regs@, i as int, k as int, start, flags),
        start.0 + total_uses(block.uses()) <= u32::MAX,
        start.1 + total_uses(block.uses()) <= u32::MAX,
        total_uses(block.uses().take(i as int)) + block.uses()[i as int].len() <= total_uses(block.uses()),
    ensures
        ok == declared(block.regs@, reg_id@),
        final(racx).wf(),
        ok ==> run_inv(*final(st), *final(racx), block.uses(), block.regs@, i as int, k as int + 1, start, flags),
        ok ==> (final(st).mregs@, final(racx).reg_state()) == alloc_step(
            block.uses(),
            block.regs@,
            true,
            i as int,
            k as int,
            (old(st).mregs@, old(racx).reg_state()),
        ),
        ok ==> (final(st).mlocals@, final(racx).local_state()) == alloc_step(
            block.uses(),
            block.regs@,
            false,
            i as int,
            k as int,
            (old(st).mlocals@, old(racx).local_state()),
        ),
{
    let ghost uses = block.uses();
    let ghost regs = block.regs@;
    let ghost r = reg_id@;
    match find_reg(&block.regs, reg_id.as_str()) {
        None => false,
        Some(idx) => {
            proof {
                lemma_kind_unique(regs, r);
            }
            if matches!(block.regs[idx].ty, DataType::Score(..)) {
                assert(has_kind(regs, r, true) && !has_kind(regs, r, false));
                proof {
                    lemma_alloc_keep(uses, regs, false, st.mlocals@, racx.local_state(), i as int, k as int, r);
                }
                match find_num(&st.regs, reg_id.as_str(), Ghost(st.mregs@)) {
                    Some(_) => {
                        proof {
                            lemma_alloc_keep(uses, regs, true, st.mregs@, racx.reg_state(), i as int, k as int, r);
                        }
                    },
                    None => {
                        let ghost before = racx.reg_state();
                        let num = racx.new_reg();
                        proof {
                            lemma_alloc_new(uses, regs, true, st.mregs@, before, i as int, k as int, r);
                        }
                        add_pair(&mut st.regs, reg_id, num, Ghost(st.mregs@));
                        proof {
                            st.mregs@ = st.mregs@.insert(r, num);
                            assert(st.mregs@.contains_key(r));
                        }
                    },
                }
            } else {
                assert(has_kind(regs, r, false) && !has_kind(regs, r, true));
                proof {
                    lemma_alloc_keep(uses, regs, true, st.mregs@, racx.reg_state(), i as int, k as int, r);
                }
                match find_num(&st.locals, reg_id.as_str(), Ghost(st.mlocals@)) {
                    Some(_) => {
                        proof {
                            lemma_alloc_keep(uses, regs, false, st.mlocals@, racx.local_state(), i as int, k as int, r);
                        }
                    },
                    None => {
                        let ghost before = racx.local_state();
                        let num = racx.new_local();
                        proof {
                            lemma_alloc_new(uses, regs, false, st.mlocals@, before, i as int, k as int, r);
                        }
                        add_pair(&mut st.locals, reg_id, num, Ghost(st.mlocals@));
                        proof {
                            st.mlocals@ = st.mlocals@.insert(r, num);
                            assert(st.mlocals@.contains_key(r));
                        }
                    },
                }
            }
            true
        },
    }
}

/// Gives back the number of a register whose last use is instruction `i`
fn finish_use(
    block: &LIRBlock,
    i: usize,
    reg_id: &String,
    racx: &mut RegAllocCx,
    st: &BlockAlloc,
    Ghost(fin): Ghost<Seq<Seq<char>>>,
    Ghost(start): Ghost<(u32, u32)>,
    Ghost(flags): Ghost<(bool, bool)>,
) -> (ok: bool)
    requires
        i < block.contents@.len(),
        last_uses_at(block.uses(), i as int).contains(reg_id@),
        forall|q: int|
            0 <= q < block.uses()[i as int].len() ==> declared(block.regs@, #[trigger] block.uses()[i as int][q]),
        fin_inv(*st, *old(racx), block.uses(), block.regs@, i as int, fin, start, flags),
    ensures
        ok,
        fin_inv(*st, *final(racx), block.uses(), block.regs@, i as int, fin.push(reg_id@), start, flags),
        final(racx).reg_state() == finish_step(block.regs@, true, st.mregs@, old(racx).reg_state(), reg_id@),
        final(racx).local_state() == finish_step(block.regs@, false, st.mlocals@, old(racx).local_state(), reg_id@),
{
    let ghost uses = block.uses();
    let ghost regs = block.regs@;
    let ghost r = reg_id@;
    proof {
        lemma_last_uses_at(uses, i as int, r);
        let p = choose|p: int| 0 <= p < uses[i as int].len() && #[trigger] uses[i as int][p] == r;
        assert(declared(regs, uses[i as int][p]));
        lemma_kind_unique(regs, r);
    }
    match find_reg(&block.regs, reg_id.as_str()) {
        None => false,
        Some(idx) => {
            if matches!(block.regs[idx].ty, DataType::Score(..)) {
                proof {
                    lemma_finish_other(uses, regs, false, st.mlocals@, racx.local_state(), i as int, fin, r);
                    lemma_finish_one(uses, regs, true, st.mregs@, racx.reg_state(), i as int, fin, r);
                }
                match find_num(&st.regs, reg_id.as_str(), Ghost(st.mregs@)) {
                    None => false,
                    Some(num) => {
                        racx.regs.finish_using(num);
                        true
                    },
                }
            } else {
                proof {
                    lemma_finish_other(uses, regs, true, st.mregs@, racx.reg_state(), i as int, fin, r);
                    lemma_finish_one(uses, regs, false, st.mlocals@, racx.local_state(), i as int, fin, r);
                }
                match find_num(&st.locals, reg_id.as_str(), Ghost(st.mlocals@)) {
                    None => false,
                    Some(num) => {
                        racx.locals.finish_using(num);
                        true
                    },
                }
            }
        },
    }
}

/// Allocates the registers of a block, reusing a register's fake player or
/// storage entry once the register is used for the last time. Fails where an
/// instruction uses a register that the block does not declare.
#[verifier::rlimit(80)]
#[verifier::spinoff_prover]
pub fn alloc_block_registers(func_id: &str, block: &LIRBlock, racx: &mut RegAllocCx) -> (r: Result<
    RegAllocResult,
    RegAllocError,
>)
    requires
        old(racx).ready(),
        old(racx).reg_state().0 + total_uses(block.uses()) <= u32::MAX,
        old(racx).local_state().0 + total_uses(block.uses()) <= u32::MAX,
    ensures
        final(racx).wf(),
        r is Ok <==> all_declared(block.uses(), block.regs@),
        r matches Ok(res) ==> {
            &&& allocation_correct(
                res.regs@,
                block.uses(),
                block.regs@,
                true,
                seq!['%', 'r'],
                cleaned(func_id@),
            )
            &&& allocation_correct(
                res.locals@,
                block.uses(),
                block.regs@,
                false,
                seq!['r'],
                cleaned(func_id@),
            )
            &&& final(racx).ready()
            &&& final(racx).reg_state() == block_allocs(block.uses(), block.regs@, true, block.uses().len() as int, old(racx).reg_state()).1
            &&& final(racx).local_state() == block_allocs(block.uses(), block.regs@, false, block.uses().len() as int, old(racx).local_state()).1
            &&& forall|a: int| 0 <= a < res.regs@.len() ==> #[trigger] res.regs@[a].1@ == prefixed_name(
                seq!['%', 'r'],
                cleaned(func_id@),
                block_allocs(block.uses(), block.regs@, true, block.uses().len() as int, old(racx).reg_state()).0[res.regs@[a].0@] as nat,
            )
            &&& forall|a: int| 0 <= a < res.locals@.len() ==> #[trigger] res.locals@[a].1@ == prefixed_name(
                seq!['r'],
                cleaned(func_id@),
                block_allocs(block.uses(), block.regs@, false, block.uses().len() as int, old(racx).local_state()).0[res.locals@[a].0@] as nat,
            )
            &&& final(racx).reg_state().0 <= old(racx).reg_state().0 + total_uses(block.uses())
            &&& final(racx).local_state().0 <= old(racx).local_state().0 + total_uses(block.uses())
            &&& final(racx).spec_has_allocated_reg() == (old(racx).spec_has_allocated_reg() || exists|
                q: Seq<char>,
            | has_kind(block.regs@, q, true) && #[trigger] used_before(
                block.uses(),
                block.contents@.len() as int,
                q,
            ))
            &&& final(racx).spec_has_allocated_local() == (old(racx).spec_has_allocated_local()
                || exists|q: Seq<char>|
                has_kind(block.regs@, q, false) && #[trigger] used_before(
                    block.uses(),
                    block.contents@.len() as int,
                    q,
                ))
        },
{
    let ghost uses = block.uses();
    let ghost regs = block.regs@;
    let ghost start = (old(racx).reg_state().0, old(racx).local_state().0);
    let ghost flags = (old(racx).spec_has_allocated_reg(), old(racx).spec_has_allocated_local());
    let ghost s0r = old(racx).reg_state();
    let ghost s0l = old(racx).local_state();
    let mut st = BlockAlloc {
        regs: Vec::new(),
        locals: Vec::new(),
        mregs: Ghost(Map::empty()),
        mlocals: Ghost(Map::empty()),
    };
    let last_uses = analyze_last_register_uses(block);
    proof {
        lemma_alloc_start(uses, regs, true, racx.reg_state());
        lemma_alloc_start(uses, regs, false, racx.local_state());
        assert(uses.take(0) =~= Seq::<Seq<Seq<char>>>::empty());
    }
    proof {
        lemma_tracks_init(uses, regs, true, s0r);
        lemma_tracks_init(uses, regs, false, s0l);
    }
    let n = block.contents.len();
    let mut i: usize = 0;
    while i < n
        invariant
            n == block.contents@.len(),
            uses == block.uses(),
            regs == block.regs@,
            i <= n,
            last_uses@.len() == n,
            forall|j: int|
                0 <= j < n ==> string_views(#[trigger] last_uses@[j]@) == last_uses_at(uses, j),
            run_inv(st, *racx, uses, regs, i as int, 0, start, flags),
            start.0 + total_uses(uses) <= u32::MAX,
            start.1 + total_uses(uses) <= u32::MAX,
            forall|j: int, k: int|
                0 <= j < i && 0 <= k < uses[j].len() ==> declared(regs, #[trigger] uses[j][k]),
            tracks(st.mregs@, racx.reg_state(), block_allocs(uses, regs, true, i as int, s0r)),
            tracks(st.mlocals@, racx.local_state(), block_allocs(uses, regs, false, i as int, s0l)),
        decreases n - i,
    {
        let used_regs = block.contents[i].get_used_regs();
        assert(uses[i as int] == block.contents@[i as int].used_regs());
        proof {
            lemma_total_uses_take(uses, i as int);
        }
        proof {
            lemma_tracks_start(uses, regs, true, i as int, block_allocs(uses, regs, true, i as int, s0r), st.mregs@, racx.reg_state());
            lemma_tracks_start(uses, regs, false, i as int, block_allocs(uses, regs, false, i as int, s0l), st.mlocals@, racx.local_state());
        }
        let mut k: usize = 0;
        while k < used_regs.len()
            invariant
                n == block.contents@.len(),
                uses == block.uses(),
                regs == block.regs@,
                i < n,
                k <= used_regs@.len(),
                string_views(used_regs@) == uses[i as int],
                run_inv(st, *racx, uses, regs, i as int, k as int, start, flags),
                total_uses(uses.take(i as int)) + uses[i as int].len() <= total_uses(uses),
                total_uses(uses.take(i as int + 1)) == total_uses(uses.take(i as int)) + uses[i as int].len(),
                start.0 + total_uses(uses) <= u32::MAX,
                start.1 + total_uses(uses) <= u32::MAX,
                forall|q: int| 0 <= q < k ==> declared(regs, #[trigger] uses[i as int][q]),
                tracks(st.mregs@, racx.reg_state(), allocs_upto(uses, regs, true, i as int, k as int, block_allocs(uses, regs, true, i as int, s0r))),
                tracks(st.mlocals@, racx.local_state(), allocs_upto(uses, regs, false, i as int, k as int, block_allocs(uses, regs, false, i as int, s0l))),
            decreases used_regs.len() - k,
        {
            assert(used_regs@[k as int]@ == uses[i as int][k as int]);
            let ghost mr0 = st.mregs@;
            let ghost ml0 = st.mlocals@;
            let ghost sr0 = racx.reg_state();
            let ghost sl0 = racx.local_state();
            let ok = alloc_use(block, i, k, &used_regs[k], racx, &mut st, Ghost(start), Ghost(flags));
            if !ok {
                proof {
                    assert(!declared(regs, uses[i as int][k as int]));
                }
                return Err(RegAllocError::MissingRegister);
            }
            proof {
                lemma_tracks_alloc(uses, regs, true, i as int, k as int, block_allocs(uses, regs, true, i as int, s0r), mr0, sr0, st.mregs@, racx.reg_state());
                lemma_tracks_alloc(uses, regs, false, i as int, k as int, block_allocs(uses, regs, false, i as int, s0l), ml0, sl0, st.mlocals@, racx.local_state());
            }
            k = k + 1;
        }
        proof {
            reveal(alloc_inv);
            lemma_alloc_to_finish(uses, regs, true, st.mregs@, racx.reg_state(), i as int);
            lemma_alloc_to_finish(uses, regs, false, st.mlocals@, racx.local_state(), i as int);
            assert(string_views(used_regs@).take(used_regs@.len() as int) =~= string_views(used_regs@));
        }
        let last = &last_uses[i];
        assert(string_views(last@).take(0) =~= Seq::<Seq<char>>::empty());
        let ghost ar = allocs_upto(uses, regs, true, i as int, uses[i as int].len() as int, block_allocs(uses, regs, true, i as int, s0r));
        let ghost al = allocs_upto(uses, regs, false, i as int, uses[i as int].len() as int, block_allocs(uses, regs, false, i as int, s0l));
        assert(used_regs@.len() == uses[i as int].len());
        proof {
            lemma_tracks_fin_start(regs, true, ar, st.mregs@, racx.reg_state());
            lemma_tracks_fin_start(regs, false, al, st.mlocals@, racx.local_state());
            assert(string_views(last@).take(0) =~= Seq::<Seq<char>>::empty());
        }
        let mut m: usize = 0;
        while m < last.len()
            invariant
                n == block.contents@.len(),
                uses == block.uses(),
                regs == block.regs@,
                i < n,
                m <= last@.len(),
                string_views(last@) == last_uses_at(uses, i as int),
                fin_inv(st, *racx, uses, regs, i as int, string_views(last@).take(m as int), start, flags),
                forall|q: int| 0 <= q < uses[i as int].len() ==> declared(regs, #[trigger] uses[i as int][q]),
                tracks(st.mregs@, racx.reg_state(), (ar.0, finishes(regs, true, ar.0, ar.1, string_views(last@).take(m as int)))),
                tracks(st.mlocals@, racx.local_state(), (al.0, finishes(regs, false, al.0, al.1, string_views(last@).take(m as int)))),
            decreases last.len() - m,
        {
            proof {
                let fin = last_uses_at(uses, i as int);
                assert(fin[m as int] == last@[m as int]@);
                assert(fin.contains(last@[m as int]@));
            }
            let ghost sr0 = racx.reg_state();
            let ghost sl0 = racx.local_state();
            let ok = finish_use(block, i, &last[m], racx, &st, Ghost(string_views(last@).take(m as int)), Ghost(start), Ghost(flags));
            if !ok {
                return Err(RegAllocError::MissingRegister);
            }
            assert(string_views(last@).take(m as int + 1) =~= string_views(last@).take(m as int).push(last@[m as int]@));
            proof {
                lemma_tracks_finish(regs, true, ar, string_views(last@).take(m as int), last@[m as int]@, st.mregs@, sr0, racx.reg_state());
                lemma_tracks_finish(regs, false, al, string_views(last@).take(m as int), last@[m as int]@, st.mlocals@, sl0, racx.local_state());
            }
            m = m + 1;
        }
        proof {
            assert(string_views(last@).take(last@.len() as int) =~= string_views(last@));
            lemma_finish_to_next(uses, regs, true, st.mregs@, racx.reg_state(), i as int);
            lemma_finish_to_next(uses, regs, false, st.mlocals@, racx.local_state(), i as int);
            lemma_tracks_next(uses, regs, true, i as int, s0r, ar, st.mregs@, racx.reg_state());
            lemma_tracks_next(uses, regs, false, i as int, s0l, al, st.mlocals@, racx.local_state());
        }
        i = i + 1;
    }
    proof {
        assert(uses.take(n as int) =~= uses);
        lemma_tracks_get(st.mregs@, racx.reg_state(), block_allocs(uses, regs, true, n as int, s0r));
        lemma_tracks_get(st.mlocals@, racx.local_state(), block_allocs(uses, regs, false, n as int, s0l));
        lemma_alloc_end(uses, regs, true, st.mregs@, racx.reg_state());
        lemma_alloc_end(uses, regs, false, st.mlocals@, racx.local_state());
        assert(uses.len() == n);
        lemma_alloc_flags(uses, regs, true, st.mregs@, racx.reg_state(), racx.spec_has_allocated_reg(), flags.0);
        lemma_alloc_flags(uses, regs, false, st.mlocals@, racx.local_state(), racx.spec_has_allocated_local(), flags.1);
    }
    let ghost reg_prefix = seq!['%', 'r'];
    let ghost local_prefix = seq!['r'];
    let clean_id = cleanup_fn_id(func_id);
    let named_regs = name_pairs(&st.regs, clean_id.as_str(), true, Ghost(reg_prefix));
    let named_locals = name_pairs(&st.locals, clean_id.as_str(), false, Ghost(local_prefix));
    proof {
        lemma_result_correct(uses, regs, true, st.mregs@, racx.reg_state(), st.regs@, named_regs@, reg_prefix, clean_id@);
        lemma_result_correct(uses, regs, false, st.mlocals@, racx.local_state(), st.locals@, named_locals@, local_prefix, clean_id@);
        assert forall|a: int| 0 <= a < named_regs@.len() implies #[trigger] named_regs@[a].1@ == prefixed_name(
            reg_prefix,
            cleaned(func_id@),
            block_allocs(uses, regs, true, uses.len() as int, s0r).0[named_regs@[a].0@] as nat,
        ) by {
            assert(pairs_match(st.regs@, st.mregs@));
            assert(named_regs@[a].0@ == st.regs@[a].0@);
            assert(st.mregs@.contains_key(st.regs@[a].0@));
            assert(st.mregs@[st.regs@[a].0@] == st.regs@[a].1);
        }
        assert forall|a: int| 0 <= a < named_locals@.len() implies #[trigger] named_locals@[a].1@ == prefixed_name(
            local_prefix,
            cleaned(func_id@),
            block_allocs(uses, regs, false, uses.len() as int, s0l).0[named_locals@[a].0@] as nat,
        ) by {
            assert(pairs_match(st.locals@, st.mlocals@));
            assert(named_locals@[a].0@ == st.locals@[a].0@);
            assert(st.mlocals@.contains_key(st.locals@[a].0@));
            assert(st.mlocals@[st.locals@[a].0@] == st.locals@[a].1);
        }
    }
    Ok(RegAllocResult { regs: named_regs, locals: named_locals })
}

} // verus!
