//! Extra functions that a datapack needs: the one that sets up objectives
//! and score literals when the pack loads.
use vstd::prelude::*;

use std::collections::HashSet;

use vstd::std_specs::iter::IteratorSpec;

use crate::strutil::{push_char, push_decimal_i64, push_str, str_eq, string_views};

use super::codegen::CodegenCx;
use super::datapack::{Function, Tag, TagInner};
use super::text::{format_lit_fake_player, LIT_OBJECTIVE, REG_OBJECTIVE};

verus! {

broadcast use vstd::std_specs::hash::group_hash_axioms;

/// Numbers in strictly increasing order
pub open spec fn strictly_increasing(s: Seq<i32>) -> bool {
    forall|i: int, j: int| 0 <= i < j < s.len() ==> s[i] < s[j]
}

/// The command that sets a literal's score to its number
pub open spec fn lit_line(n: i32) -> Seq<char> {
    "scoreboard players set "@ + seq!['%', 'l'] + crate::strutil::decimal_int(n as int) + seq![' ']
        + LIT_OBJECTIVE@ + seq![' '] + crate::strutil::decimal_int(n as int)
}

/// The command that adds an objective
pub open spec fn objective_line(objective: Seq<char>) -> Seq<char> {
    "scoreboard objectives add "@ + objective + " dummy"@
}

/// The commands before the literals: the register objective where a score
/// register was allocated, then the literal objective where there are literals
pub open spec fn init_header(has_reg: bool, has_lits: bool) -> Seq<Seq<char>> {
    (if has_reg {
        seq![objective_line(REG_OBJECTIVE@)]
    } else {
        Seq::empty()
    }) + (if has_lits {
        seq![objective_line(LIT_OBJECTIVE@)]
    } else {
        Seq::empty()
    })
}

/// The commands of the setup function: the header, then one line per
/// literal in increasing order
pub open spec fn init_contents(has_reg: bool, lits: Set<i32>, contents: Seq<Seq<char>>) -> bool {
    exists|order: Seq<i32>|
        strictly_increasing(order) && #[trigger] order.to_set() == lits && contents == init_header(has_reg, lits.len() != 0)
            + order.map_values(|n: i32| lit_line(n))
}

/// Inserts a number into a strictly increasing list that does not hold it
fn insert_sorted(v: &mut Vec<i32>, x: i32)
    requires
        strictly_increasing(old(v)@),
        !old(v)@.contains(x),
    ensures
        strictly_increasing(final(v)@),
        final(v)@.to_set() == old(v)@.to_set().insert(x),
        final(v)@.len() == old(v)@.len() + 1,
{
    let mut pos: usize = 0;
    while pos < v.len() && v[pos] < x
        invariant
            pos <= v@.len(),
            forall|i: int| 0 <= i < pos ==> v@[i] < x,
        decreases v.len() - pos,
    {
        pos = pos + 1;
    }
    let ghost before = v@;
    v.insert(pos, x);
    proof {
        assert(pos < before.len() ==> before[pos as int] > x) by {
            if pos < before.len() {
                assert(before[pos as int] != x);
            }
        }
        assert forall|i: int, j: int| 0 <= i < j < v@.len() implies v@[i] < v@[j] by {
            if j < pos {
                assert(v@[i] == before[i] && v@[j] == before[j]);
            } else if j == pos {
                assert(v@[i] == before[i]);
            } else if i < pos {
                assert(v@[i] == before[i] && v@[j] == before[j - 1]);
                assert(before[pos as int] > x);
                if pos < j - 1 {
                    assert(before[pos as int] < before[j - 1]);
                }
            } else if i == pos {
                assert(v@[j] == before[j - 1]);
                if pos < j - 1 {
                    assert(before[pos as int] < before[j - 1]);
                }
            } else {
                assert(v@[i] == before[i - 1] && v@[j] == before[j - 1]);
            }
        }
        assert(v@.to_set() =~= before.to_set().insert(x)) by {
            assert forall|y: i32| v@.to_set().contains(y) implies before.to_set().insert(x).contains(y) by {
                let k = choose|k: int| 0 <= k < v@.len() && v@[k] == y;
                if k < pos {
                    assert(before[k] == y);
                } else if k > pos {
                    assert(before[k - 1] == y);
                }
            }
            assert forall|y: i32| before.to_set().insert(x).contains(y) implies v@.to_set().contains(y) by {
                if y == x {
                    assert(v@[pos as int] == x);
                } else {
                    let k = choose|k: int| 0 <= k < before.len() && before[k] == y;
                    if k < pos {
                        assert(v@[k] == y);
                    } else {
                        assert(v@[k + 1] == y);
                    }
                }
            }
        }
    }
}

/// The literals of a set, in increasing order
fn sorted_literals(lits: &HashSet<i32>) -> (r: Vec<i32>)
    ensures
        strictly_increasing(r@),
        r@.to_set() == lits@,
{
    let mut out: Vec<i32> = Vec::new();
    let ghost all = vstd::std_specs::hash::spec_hash_keys_iter(lits).remaining().unref();
    for x in it: lits.iter()
        invariant
            it.seq().unref() == all,
            all.no_duplicates(),
            all.to_set() == lits@,
            strictly_increasing(out@),
            out@.to_set() == all.take(it.index()).to_set(),
    {
        let ghost k = it.index();
        assert(*x == all[k]);
        proof {
            if out@.contains(*x) {
                assert(out@.to_set().contains(*x));
                let pre = all.take(k);
                assert(pre.to_set().contains(*x));
                let j = choose|j: int| 0 <= j < pre.len() && #[trigger] pre[j] == *x;
                assert(all[j] == all[k]);
            }
        }
        insert_sorted(&mut out, *x);
        assert(all.take(k + 1) =~= all.take(k).push(*x));
        proof {
            all.take(k).lemma_push_to_set_commute(*x);
        }
    }
    assert(all.take(all.len() as int) =~= all);
    out
}

/// The command that sets a literal's score to its number
fn gen_lit_line(n: i32) -> (r: String)
    ensures
        r@ == lit_line(n),
{
    let mut out = String::new();
    push_str(&mut out, "scoreboard players set ");
    push_str(&mut out, format_lit_fake_player(n).as_str());
    push_char(&mut out, ' ');
    push_str(&mut out, LIT_OBJECTIVE);
    push_char(&mut out, ' ');
    push_decimal_i64(&mut out, n as i64);
    assert(out@ =~= lit_line(n));
    out
}

/// The command that adds an objective
fn gen_objective_line(objective: &str) -> (r: String)
    ensures
        r@ == objective_line(objective@),
{
    let mut out = String::new();
    push_str(&mut out, "scoreboard objectives add ");
    push_str(&mut out, objective);
    push_str(&mut out, " dummy");
    assert(out@ =~= objective_line(objective@));
    out
}

/// The function that adds the objectives and sets the literal scores when
/// the pack loads; none where there is nothing to set up
pub fn gen_init(ccx: &CodegenCx) -> (r: Option<Function>)
    ensures
        match r {
            None => !ccx.racx.spec_has_allocated_reg() && ccx.score_literals@.len() == 0,
            Some(f) => {
                &&& (ccx.racx.spec_has_allocated_reg() || ccx.score_literals@.len() != 0)
                &&& init_contents(ccx.racx.spec_has_allocated_reg(), ccx.score_literals@, string_views(f.contents@))
            },
        },
{
    let mut out = Function::new();
    let mut function_needed = false;
    let has_reg = ccx.racx.has_allocated_reg();
    let has_lits = !ccx.score_literals.is_empty();
    if has_reg {
        out.contents.push(gen_objective_line(REG_OBJECTIVE));
        function_needed = true;
    }
    if has_lits {
        out.contents.push(gen_objective_line(LIT_OBJECTIVE));
        function_needed = true;
    }
    let ghost header = init_header(has_reg, has_lits);
    assert(string_views(out.contents@) =~= header);
    let lits = sorted_literals(&ccx.score_literals);
    let mut i: usize = 0;
    while i < lits.len()
        invariant
            i <= lits@.len(),
            string_views(out.contents@) == header + lits@.take(i as int).map_values(|n: i32| lit_line(n)),
            function_needed == (has_reg || has_lits || i > 0),
        decreases lits.len() - i,
    {
        let ghost before = out.contents@;
        out.contents.push(gen_lit_line(lits[i]));
        assert(string_views(out.contents@) =~= string_views(before).push(lit_line(lits@[i as int])));
        assert(lits@.take(i as int + 1).map_values(|n: i32| lit_line(n)) =~= lits@.take(i as int).map_values(
            |n: i32| lit_line(n),
        ).push(lit_line(lits@[i as int])));
        function_needed = true;
        i = i + 1;
    }
    assert(lits@.take(lits@.len() as int) =~= lits@);
    assert(init_contents(has_reg, ccx.score_literals@, string_views(out.contents@)));
    proof {
        if !has_lits && lits@.len() > 0 {
            assert(lits@.to_set().contains(lits@[0]));
        }
    }
    if function_needed {
        Some(out)
    } else {
        None
    }
}

/// The extra functions and function tags of a datapack: the setup function,
/// run when the pack loads, where one is needed. A pack named `dpc` calls it
/// `dpc:init`; any other pack `{name}:dpc_init`.
pub fn gen_fns(ccx: &CodegenCx, project_name: &str) -> (r: (Vec<(String, Function)>, Vec<(String, Tag)>))
    ensures
        r.0@.len() == r.1@.len(),
        r.0@.len() <= 1,
        r.0@.len() == 1 <==> (ccx.racx.spec_has_allocated_reg() || ccx.score_literals@.len() != 0),
        r.0@.len() == 1 ==> {
            let loc = if project_name@ == "dpc"@ {
                "dpc:init"@
            } else {
                project_name@ + ":dpc_init"@
            };
            &&& r.0@[0].0@ == loc
            &&& init_contents(ccx.racx.spec_has_allocated_reg(), ccx.score_literals@, string_views(r.0@[0].1.contents@))
            &&& r.1@[0].0@ == "minecraft:load"@
            &&& r.1@[0].1.inner.values@.len() == 1
            &&& r.1@[0].1.inner.values@[0]@ == loc
        },
{
    let mut fns: Vec<(String, Function)> = Vec::new();
    let mut tags: Vec<(String, Tag)> = Vec::new();
    if let Some(init_fn) = gen_init(ccx) {
        let loc = if str_eq(project_name, "dpc") {
            String::from_str("dpc:init")
        } else {
            let mut l = String::from_str(project_name);
            push_str(&mut l, ":dpc_init");
            l
        };
        let tag_loc = loc.clone();
        fns.push((loc, init_fn));
        let mut values: Vec<String> = Vec::new();
        values.push(tag_loc);
        tags.push((String::from_str("minecraft:load"), Tag { inner: TagInner { values } }));
    }
    (fns, tags)
}

} // verus!
