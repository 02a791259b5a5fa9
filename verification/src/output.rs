//! The final stage of the compiler: naming, register allocation, command
//! text and the datapack layout.
pub mod codegen;
pub mod datapack;
pub mod gen_fns;
pub mod ra;
pub mod strip;
pub mod text;

use vstd::prelude::*;

use crate::lir::{LIRFunction, LIRInstrKind, LIR};
use crate::lower::{cleaned, cleanup_fn_id};
use crate::strutil::string_views;

use self::codegen::{
    block_codegen, block_fails, block_has_regs, codegen_block, instr_supported, is_instr_supported, mapped_name,
    CodegenCx, CodegenError,
};
use self::datapack::{entries_insert, entry_insert, entry_pos, function_views, tag_views, Datapack, Function};
use self::gen_fns::{gen_fns, init_contents};
use self::ra::{all_declared, allocation_correct, total_uses, RegAllocResult};
use self::strip::{all_calls, calls_of, lookup, pair_views, strip, strip_order, strip_pass, FunctionMapping, StripMode};

verus! {

/// The resource location that a function is written under: its id, renamed
/// by the mapping where the mapping has a new name for it
pub open spec fn link_name(mapping: Option<FunctionMapping>, f: LIRFunction) -> Seq<char> {
    mapped_name(mapping, f.interface.id@)
}

/// The id under which a function's registers are named: that of the
/// function it was split from, if any, else its own name in the datapack
pub open spec fn register_id(mapping: Option<FunctionMapping>, f: LIRFunction) -> Seq<char> {
    cleaned(
        match f.parent {
            Some(p) => p@,
            None => link_name(mapping, f),
        },
    )
}

/// The mapping that stripping in a mode gives a program
pub open spec fn strip_result(fns: Seq<LIRFunction>, mode: StripMode, project: Seq<char>, mapping: Option<FunctionMapping>) -> bool {
    match mode {
        StripMode::Keep => mapping is None,
        StripMode::Unstable => mapping matches Some(m) && exists|order: Seq<Seq<char>>|
            #[trigger] strip_order(all_calls(fns), order) && pair_views(m.0@) == strip_pass(order, fns, project).0,
    }
}

/// Whether code generation fails for a function in a datapack: a register
/// is not declared, or some command cannot be written
pub open spec fn function_fails(f: LIRFunction, mapping: Option<FunctionMapping>) -> bool {
    !all_declared(f.block.uses(), f.block.regs@) || block_fails(f.block, register_id(mapping, f), mapping)
}

/// How many register uses the blocks of a list of functions have together
pub open spec fn uses_sum(fns: Seq<LIRFunction>) -> nat
    decreases fns.len(),
{
    if fns.len() == 0 {
        0
    } else {
        uses_sum(fns.drop_last()) + total_uses(fns.last().block.uses())
    }
}

/// Whether some function of a list uses a register of a kind
pub open spec fn any_regs(fns: Seq<LIRFunction>, score: bool) -> bool {
    exists|i: int| 0 <= i < fns.len() && block_has_regs(&#[trigger] fns[i].block, score)
}

/// Functions whose instructions can all be written
pub open spec fn all_supported(fns: Seq<LIRFunction>) -> bool {
    forall|i: int, j: int|
        0 <= i < fns.len() && 0 <= j < fns[i].block.contents@.len() ==> instr_supported(
            #[trigger] fns[i].block.contents@[j],
        )
}

/// The setup function's location for a project
pub open spec fn init_location(project: Seq<char>) -> Seq<char> {
    if project == "dpc"@ {
        "dpc:init"@
    } else {
        project + ":dpc_init"@
    }
}

/// The functions and tags of a linked datapack. Each function of the
/// program is written under its name in the datapack, with the commands of
/// its block, one after another, each adding the literals it reads; then,
/// where any score register is used or any literal read, the setup function
/// is added and tagged to run on load.
pub open spec fn linked(
    fns: Seq<LIRFunction>,
    mapping: Option<FunctionMapping>,
    project: Seq<char>,
    cmds: Seq<Seq<Seq<char>>>,
    lits: Seq<Set<i32>>,
    pack: Datapack,
) -> bool {
    let base = Seq::new(fns.len(), |i: int| (link_name(mapping, fns[i]), cmds[i]));
    let all_lits = lits.last();
    let needs_init = any_regs(fns, true) || all_lits.len() != 0;
    &&& cmds.len() == fns.len()
    &&& lits.len() == fns.len() + 1
    &&& lits[0] == Set::<i32>::empty()
    &&& forall|i: int|
        0 <= i < fns.len() ==> block_codegen(
            #[trigger] fns[i].block,
            register_id(mapping, fns[i]),
            mapping,
            cmds[i],
            lits[i],
            lits[i + 1],
        )
    &&& if needs_init {
        exists|init: Seq<Seq<char>>|
            init_contents(any_regs(fns, true), all_lits, init) && function_views(pack.functions@)
                == #[trigger] entries_insert(entries_insert(Seq::empty(), base), seq![(init_location(project), init)])
                && tag_views(pack.function_tags@) == seq![("minecraft:load"@, seq![init_location(project)])]
    } else {
        &&& function_views(pack.functions@) == entries_insert(Seq::empty(), base)
        &&& pack.function_tags@.len() == 0
    }
}

/// The id under which a function's registers are named when the function is
/// written under `func_id`
pub open spec fn fn_register_id(f: LIRFunction, func_id: Seq<char>) -> Seq<char> {
    cleaned(
        match f.parent {
            Some(p) => p@,
            None => func_id,
        },
    )
}

proof fn lemma_uses_sum_prefix(fns: Seq<LIRFunction>, i: int)
    requires
        0 <= i <= fns.len(),
    ensures
        uses_sum(fns.take(i)) <= uses_sum(fns),
        i > 0 ==> uses_sum(fns.take(i)) == uses_sum(fns.take(i - 1)) + total_uses(
            fns[i - 1].block.uses(),
        ),
    decreases fns.len() - i,
{
    if i > 0 {
        assert(fns.take(i).drop_last() =~= fns.take(i - 1));
    }
    if i == fns.len() {
        assert(fns.take(i) =~= fns);
    } else {
        lemma_uses_sum_prefix(fns, i + 1);
        assert(fns.take(i + 1).drop_last() =~= fns.take(i));
    }
}

/// Writes the commands of one function. A function split from another uses
/// the registers of that other function, so its registers are named after it.
fn codegen_fn(func_id: &str, func: &LIRFunction, ccx: &mut CodegenCx) -> (r: Result<Function, CodegenError>)
    requires
        old(ccx).racx.ready(),
        old(ccx).racx.reg_state().0 + total_uses(func.block.uses()) <= u32::MAX,
        old(ccx).racx.local_state().0 + total_uses(func.block.uses()) <= u32::MAX,
        forall|i: int| 0 <= i < func.block.contents@.len() ==> instr_supported(#[trigger] func.block.contents@[i]),
    ensures
        final(ccx).func_mapping == old(ccx).func_mapping,
        final(ccx).racx.wf(),
        match r {
            Ok(f) => {
                &&& final(ccx).racx.ready()
                &&& final(ccx).racx.reg_state().0 <= old(ccx).racx.reg_state().0 + total_uses(func.block.uses())
                &&& final(ccx).racx.local_state().0 <= old(ccx).racx.local_state().0 + total_uses(func.block.uses())
                &&& final(ccx).racx.spec_has_allocated_reg() == (old(ccx).racx.spec_has_allocated_reg() || block_has_regs(&func.block, true))
                &&& final(ccx).racx.spec_has_allocated_local() == (old(ccx).racx.spec_has_allocated_local() || block_has_regs(&func.block, false))
                &&& block_codegen(
                    func.block,
                    fn_register_id(*func, func_id@),
                    old(ccx).func_mapping,
                    string_views(f.contents@),
                    old(ccx).score_literals@,
                    final(ccx).score_literals@,
                )
            },
            Err(e) => {
                ||| (e == CodegenError::MissingRegister && !all_declared(func.block.uses(), func.block.regs@))
                ||| block_fails(func.block, fn_register_id(*func, func_id@), old(ccx).func_mapping)
            },
        },
{
    let id = match &func.parent {
        Some(p) => p.as_str(),
        None => func_id,
    };
    let cleaned_id = cleanup_fn_id(id);
    let code = codegen_block(cleaned_id.as_str(), &func.block, ccx)?;
    Ok(Function { contents: code })
}

/// A count that stops growing at a cap
pub open spec fn capped(x: int, cap: int) -> int {
    if x < cap {
        x
    } else {
        cap
    }
}

/// Whether a program stays within the counters that linking keeps (calls
/// within the 32-bit signed range, register uses within the 32-bit unsigned
/// range) and all its constants can be written
pub fn link_fits(lir: &LIR) -> (r: bool)
    ensures
        r == (all_calls(lir.functions@).len() <= i32::MAX && uses_sum(lir.functions@) <= u32::MAX
            && all_supported(lir.functions@)),
{
    let ghost fns = lir.functions@;
    let call_cap: u64 = 2147483648;
    let use_cap: u64 = 4294967296;
    let mut calls: u64 = 0;
    let mut uses: u64 = 0;
    let mut i: usize = 0;
    proof {
        assert(fns.take(0) =~= Seq::<LIRFunction>::empty());
    }
    while i < lir.functions.len()
        invariant
            fns == lir.functions@,
            i <= fns.len(),
            call_cap == 2147483648,
            use_cap == 4294967296,
            calls as int == capped(all_calls(fns.take(i as int)).len() as int, call_cap as int),
            uses as int == capped(uses_sum(fns.take(i as int)) as int, use_cap as int),
            forall|a: int, b: int|
                0 <= a < i && 0 <= b < fns[a].block.contents@.len() ==> instr_supported(
                    #[trigger] fns[a].block.contents@[b],
                ),
        decreases lir.functions.len() - i,
    {
        let contents = &lir.functions[i].block.contents;
        let ghost c0 = all_calls(fns.take(i as int)).len() as int;
        let ghost u0 = uses_sum(fns.take(i as int)) as int;
        let ghost all_uses = fns[i as int].block.uses();
        let mut j: usize = 0;
        proof {
            assert(contents@.take(0) =~= Seq::<crate::lir::LIRInstruction>::empty());
            assert(all_uses.take(0) =~= Seq::<Seq<Seq<char>>>::empty());
        }
        while j < contents.len()
            invariant
                fns == lir.functions@,
                i < fns.len(),
                contents@ == fns[i as int].block.contents@,
                all_uses == fns[i as int].block.uses(),
                j <= contents@.len(),
                call_cap == 2147483648,
                use_cap == 4294967296,
                calls as int == capped(c0 + calls_of(contents@.take(j as int)).len(), call_cap as int),
                uses as int == capped(u0 + total_uses(all_uses.take(j as int)), use_cap as int),
                forall|a: int, b: int|
                    0 <= a < i && 0 <= b < fns[a].block.contents@.len() ==> instr_supported(
                        #[trigger] fns[a].block.contents@[b],
                    ),
                forall|b: int| 0 <= b < j ==> instr_supported(#[trigger] contents@[b]),
            decreases contents.len() - j,
        {
            let instr = &contents[j];
            if !is_instr_supported(instr) {
                assert(!instr_supported(fns[i as int].block.contents@[j as int]));
                return false;
            }
            if let LIRInstrKind::Call(_) = &instr.kind {
                if calls < call_cap {
                    calls = calls + 1;
                }
            }
            let mut regs: Vec<String> = Vec::new();
            instr.append_used_regs(&mut regs);
            let k = regs.len() as u64;
            uses = if k >= use_cap - uses {
                use_cap
            } else {
                uses + k
            };
            proof {
                assert(contents@.take(j as int + 1).drop_last() =~= contents@.take(j as int));
                assert(all_uses.take(j as int + 1).drop_last() =~= all_uses.take(j as int));
                assert(all_uses[j as int] == instr.used_regs());
                assert(string_views(regs@).len() == regs@.len());
            }
            j = j + 1;
        }
        proof {
            assert(contents@.take(j as int) =~= contents@);
            assert(all_uses.take(j as int) =~= all_uses);
            assert(fns.take(i as int + 1).drop_last() =~= fns.take(i as int));
            lemma_uses_sum_prefix(fns, i as int + 1);
            assert forall|a: int, b: int|
                0 <= a < i + 1 && 0 <= b < fns[a].block.contents@.len() implies instr_supported(
                    #[trigger] fns[a].block.contents@[b],
                ) by {
                if a == i {
                    assert(fns[a].block.contents@[b] == contents@[b]);
                }
            }
        }
        i = i + 1;
    }
    proof {
        assert(fns.take(i as int) =~= fns);
    }
    calls < call_cap && uses < use_cap
}

/// What linking a program gives: under the mapping that stripping gives, a
/// datapack linked from the program, or an error where the code of some
/// function cannot be generated
pub open spec fn link_result(
    fns: Seq<LIRFunction>,
    mode: StripMode,
    project: Seq<char>,
    r: Result<Datapack, CodegenError>,
) -> bool {
    exists|mapping: Option<FunctionMapping>|
        #[trigger] strip_result(fns, mode, project, mapping) && match r {
            Ok(pack) => exists|cmds: Seq<Seq<Seq<char>>>, lits: Seq<Set<i32>>|
                #[trigger] linked(fns, mapping, project, cmds, lits, pack),
            Err(_) => exists|i: int| 0 <= i < fns.len() && #[trigger] function_fails(fns[i], mapping),
        }
}

/// Writes a program as a datapack: strips function names as the mode asks,
/// writes each function under its name with the commands of its block, and
/// adds the setup function where one is needed
pub fn link(lir: LIR, mode: StripMode, project_name: &str) -> (r: Result<Datapack, CodegenError>)
    requires
        all_calls(lir.functions@).len() <= i32::MAX,
        uses_sum(lir.functions@) <= u32::MAX,
        all_supported(lir.functions@),
    ensures
        link_result(lir.functions@, mode, project_name@, r),
{
    let ghost fns = lir.functions@;
    let mapping = strip(&lir, mode, project_name);
    let ghost gm = mapping;
    assert(strip_result(fns, mode, project_name@, gm));
    let mut ccx = CodegenCx::new(mapping);
    let mut out = Datapack::new();
    let ghost mut cmds: Seq<Seq<Seq<char>>> = Seq::empty();
    let ghost mut lits: Seq<Set<i32>> = seq![Set::<i32>::empty()];
    let n = lir.functions.len();
    let mut i: usize = 0;
    proof {
        assert(fns.take(0) =~= Seq::<LIRFunction>::empty());
        assert(Seq::new(0, |k: int| (link_name(gm, fns[k]), cmds[k])) =~= Seq::<(Seq<char>, Seq<Seq<char>>)>::empty());
        assert(function_views(out.functions@) =~= Seq::<(Seq<char>, Seq<Seq<char>>)>::empty());
    }
    while i < n
        invariant
            fns == lir.functions@,
            n == fns.len(),
            i <= n,
            strip_result(fns, mode, project_name@, gm),
            ccx.func_mapping == gm,
            ccx.racx.ready(),
            ccx.racx.reg_state().0 <= uses_sum(fns.take(i as int)),
            ccx.racx.local_state().0 <= uses_sum(fns.take(i as int)),
            uses_sum(fns) <= u32::MAX,
            all_supported(fns),
            ccx.racx.spec_has_allocated_reg() == any_regs(fns.take(i as int), true),
            cmds.len() == i,
            lits.len() == i + 1,
            lits[0] == Set::<i32>::empty(),
            ccx.score_literals@ == lits.last(),
            forall|k: int|
                0 <= k < i ==> block_codegen(
                    #[trigger] fns[k].block,
                    register_id(gm, fns[k]),
                    gm,
                    cmds[k],
                    lits[k],
                    lits[k + 1],
                ),
            function_views(out.functions@) == entries_insert(
                Seq::empty(),
                Seq::new(i as nat, |k: int| (link_name(gm, fns[k]), cmds[k])),
            ),
            out.function_tags@.len() == 0,
        decreases n - i,
    {
        let func = &lir.functions[i];
        let name = match &ccx.func_mapping {
            Some(m) => match lookup(&m.0, func.interface.id.as_str()) {
                Some(v) => v.clone(),
                None => func.interface.id.clone(),
            },
            None => func.interface.id.clone(),
        };
        assert(name@ == link_name(gm, fns[i as int]));
        proof {
            assert(fns.take(i as int + 1).drop_last() =~= fns.take(i as int));
            lemma_uses_sum_prefix(fns, i as int + 1);
            assert(forall|j: int| 0 <= j < func.block.contents@.len() ==> fns[i as int].block.contents@[j] == func.block.contents@[j]);
        }
        let ghost before = ccx.score_literals@;
        let fun = match codegen_fn(name.as_str(), func, &mut ccx) {
            Ok(f) => f,
            Err(e) => {
                assert(function_fails(fns[i as int], gm));
                assert(strip_result(lir.functions@, mode, project_name@, gm));
                return Err(e);
            },
        };
        let ghost old_cmds = cmds;
        proof {
            cmds = cmds.push(string_views(fun.contents@));
            lits = lits.push(ccx.score_literals@);
            assert(fn_register_id(fns[i as int], name@) == register_id(gm, fns[i as int]));
            assert forall|k: int| 0 <= k < i + 1 implies block_codegen(
                #[trigger] fns[k].block,
                register_id(gm, fns[k]),
                gm,
                cmds[k],
                lits[k],
                lits[k + 1],
            ) by {
                if k < i {
                    assert(cmds[k] == old_cmds[k]);
                }
            }
            assert(any_regs(fns.take(i as int + 1), true) == (any_regs(fns.take(i as int), true) || block_has_regs(&fns[i as int].block, true))) by {
                let t = fns.take(i as int + 1);
                if any_regs(t, true) && !any_regs(fns.take(i as int), true) {
                    let q = choose|q: int| 0 <= q < t.len() && block_has_regs(&#[trigger] t[q].block, true);
                    if q < i {
                        assert(fns.take(i as int)[q] == t[q]);
                    }
                }
                if any_regs(fns.take(i as int), true) {
                    let q = choose|q: int| 0 <= q < i && block_has_regs(&#[trigger] fns.take(i as int)[q].block, true);
                    assert(t[q] == fns.take(i as int)[q]);
                }
                if block_has_regs(&fns[i as int].block, true) {
                    assert(t[i as int] == fns[i as int]);
                }
            }
        }
        let ghost prev_views = function_views(out.functions@);
        out.insert_function(name, fun);
        proof {
            let b1 = Seq::new(i as nat + 1, |k: int| (link_name(gm, fns[k]), cmds[k]));
            let b0 = Seq::new(i as nat, |k: int| (link_name(gm, fns[k]), old_cmds[k]));
            assert(b1.drop_last() =~= b0);
            assert(b0 =~= Seq::new(i as nat, |k: int| (link_name(gm, fns[k]), cmds[k]))) by {
                assert forall|k: int| 0 <= k < i implies b0[k] == Seq::new(i as nat, |k: int| (link_name(gm, fns[k]), cmds[k]))[k] by {
                    assert(cmds[k] == old_cmds[k]);
                }
            }
        }
        i = i + 1;
    }
    assert(fns.take(n as int) =~= fns);
    let (extra_fns, extra_tags) = gen_fns(&ccx, project_name);
    let ghost base = Seq::new(n as nat, |k: int| (link_name(gm, fns[k]), cmds[k]));
    let ghost base_views = function_views(out.functions@);
    let mut extra_fns = extra_fns;
    let mut extra_tags = extra_tags;
    if extra_fns.len() == 1 {
        let ghost ef = extra_fns@[0];
        let ghost et = extra_tags@[0];
        let (fid, f) = extra_fns.pop().unwrap();
        out.insert_function(fid, f);
        let (tid, t) = extra_tags.pop().unwrap();
        let ghost tags_before = tag_views(out.function_tags@);
        assert(tags_before =~= Seq::<(Seq<char>, Seq<Seq<char>>)>::empty());
        assert(entry_pos(tags_before, tid@) is None);
        out.insert_tag(tid, t);
        proof {
            let init = string_views(ef.1.contents@);
            let es = seq![(init_location(project_name@), init)];
            assert(es.drop_last() =~= Seq::<(Seq<char>, Seq<Seq<char>>)>::empty());
            assert(entries_insert(base_views, es.drop_last()) == base_views);
            assert(entries_insert(base_views, es) == entry_insert(base_views, init_location(project_name@), init));
            assert(string_views(et.1.inner.values@) =~= seq![init_location(project_name@)]);
            assert(tag_views(out.function_tags@) =~= seq![("minecraft:load"@, seq![init_location(project_name@)])]);
            assert(linked(fns, gm, project_name@, cmds, lits, out));
        }
    } else {
        assert(linked(fns, gm, project_name@, cmds, lits, out));
    }
    assert(strip_result(lir.functions@, mode, project_name@, gm));
    assert(linked(lir.functions@, gm, project_name@, cmds, lits, out));
    let r: Result<Datapack, CodegenError> = Ok(out);
    assert(r->Ok_0 == out);
    assert(linked(lir.functions@, gm, project_name@, cmds, lits, r->Ok_0));
    assert(link_result(lir.functions@, mode, project_name@, r));
    r
}

} // verus!
