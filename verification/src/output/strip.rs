//! Shortening function names: the mapping from each function to the name
//! that the generated datapack uses for it.
use vstd::prelude::*;

use crate::lir::{LIRFunction, LIRInstrKind, LIRInstruction, LIR};
use crate::strutil::{byte_len, lemma_lex_irreflexive, lemma_lex_total, lemma_lex_transitive, lex_lt, push_str, str_eq, str_lt};

use super::text::{get_stripped_name_unstable, stripped_name, RESOURCE_LOCATION_CHARSET};

verus! {

broadcast use vstd::array::group_array_axioms;

/// Different modes for stripping symbols
#[derive(Debug, Clone, Copy, PartialEq, Eq, Structural)]
pub enum StripMode {
    /// Don't strip symbols
    Keep,
    /// Strip symbols with the best algorithm, that is also unstable
    Unstable,
}

/// Mapping of original function names to new, stripped ones; no original
/// name occurs twice
#[derive(Debug)]
pub struct FunctionMapping(pub Vec<(String, String)>);

/// The text that the first pair with this key maps it to
pub open spec fn pair_lookup(pairs: Seq<(String, String)>, key: Seq<char>) -> Option<Seq<char>>
    decreases pairs.len(),
{
    if pairs.len() == 0 {
        None
    } else if pairs[0].0@ == key {
        Some(pairs[0].1@)
    } else {
        pair_lookup(pairs.drop_first(), key)
    }
}

/// The value of the first pair with this key
pub fn lookup<'a>(pairs: &'a Vec<(String, String)>, key: &str) -> (r: Option<&'a String>)
    ensures
        match r {
            Some(v) => pair_lookup(pairs@, key@) == Some(v@),
            None => pair_lookup(pairs@, key@) is None,
        },
{
    let mut k: usize = 0;
    assert(pairs@.subrange(0, pairs@.len() as int) =~= pairs@);
    while k < pairs.len()
        invariant
            k <= pairs@.len(),
            pair_lookup(pairs@, key@) == pair_lookup(pairs@.subrange(k as int, pairs@.len() as int), key@),
        decreases pairs.len() - k,
    {
        let ghost rest = pairs@.subrange(k as int, pairs@.len() as int);
        assert(rest.drop_first() =~= pairs@.subrange(k + 1, pairs@.len() as int));
        assert(rest[0] == pairs@[k as int]);
        if str_eq(pairs[k].0.as_str(), key) {
            return Some(&pairs[k].1);
        }
        k = k + 1;
    }
    None
}

impl FunctionMapping {
    /// The name that a function gets: its mapped name, or its own
    pub open spec fn mapped(&self, func_id: Seq<char>) -> Seq<char> {
        match pair_lookup(self.0@, func_id) {
            Some(v) => v,
            None => func_id,
        }
    }
}


/// The functions that a list of instructions calls directly, in order
pub open spec fn calls_of(instrs: Seq<LIRInstruction>) -> Seq<Seq<char>>
    decreases instrs.len(),
{
    if instrs.len() == 0 {
        Seq::empty()
    } else {
        let prev = calls_of(instrs.drop_last());
        match instrs.last().kind {
            LIRInstrKind::Call(f) => prev.push(f@),
            _ => prev,
        }
    }
}

/// The calls of all functions of a program, function by function
pub open spec fn all_calls(fns: Seq<LIRFunction>) -> Seq<Seq<char>>
    decreases fns.len(),
{
    if fns.len() == 0 {
        Seq::empty()
    } else {
        all_calls(fns.drop_last()) + calls_of(fns.last().block.contents@)
    }
}

/// How many times a name occurs in a list
pub open spec fn count_in(s: Seq<Seq<char>>, f: Seq<char>) -> nat
    decreases s.len(),
{
    if s.len() == 0 {
        0
    } else {
        count_in(s.drop_last(), f) + if s.last() == f {
            1nat
        } else {
            0nat
        }
    }
}

/// `a` is stripped before `b`: it is called more often, or as often and
/// comes first in the order of strings
pub open spec fn strips_before(calls: Seq<Seq<char>>, a: Seq<char>, b: Seq<char>) -> bool {
    count_in(calls, a) > count_in(calls, b) || (count_in(calls, a) == count_in(calls, b) && lex_lt(a, b))
}

/// The order in which called functions are stripped: each called function
/// once, the most called first, ties broken by id
pub open spec fn strip_order(calls: Seq<Seq<char>>, order: Seq<Seq<char>>) -> bool {
    &&& order.no_duplicates()
    &&& order.to_set() == calls.to_set()
    &&& forall|i: int, j: int|
        0 <= i < j < order.len() ==> strips_before(calls, #[trigger] order[i], #[trigger] order[j])
}

/// The first function with this id
pub open spec fn find_fn(fns: Seq<LIRFunction>, id: Seq<char>) -> Option<LIRFunction>
    decreases fns.len(),
{
    if fns.len() == 0 {
        None
    } else if fns[0].interface.id@ == id {
        Some(fns[0])
    } else {
        find_fn(fns.drop_first(), id)
    }
}

/// The stripped name with a given counter: `{project}:s/{counter}`
pub open spec fn stripped_fn_name(project: Seq<char>, idx: nat) -> Seq<char> {
    project + ":s/"@ + stripped_name(idx, RESOURCE_LOCATION_CHARSET@)
}

/// The names that the functions of a stripping order get, with the next
/// counter. A function that is not defined is left out; one that must keep
/// its name keeps it; any other gets the next stripped name, unless that
/// name is not shorter in bytes, in which case it keeps its own.
pub open spec fn strip_pass(order: Seq<Seq<char>>, fns: Seq<LIRFunction>, project: Seq<char>) -> (
    Seq<(Seq<char>, Seq<char>)>,
    nat,
)
    decreases order.len(),
{
    if order.len() == 0 {
        (Seq::empty(), 0)
    } else {
        let prev = strip_pass(order.drop_last(), fns, project);
        let f = order.last();
        match find_fn(fns, f) {
            None => prev,
            Some(func) => if func.interface.annotations.preserve || func.interface.annotations.no_strip {
                (prev.0.push((f, f)), prev.1)
            } else {
                let name = stripped_fn_name(project, prev.1);
                if byte_len(name) >= byte_len(f) {
                    (prev.0.push((f, f)), prev.1)
                } else {
                    (prev.0.push((f, name)), prev.1 + 1)
                }
            },
        }
    }
}

/// The texts of a list of pairs of strings
pub open spec fn pair_views(v: Seq<(String, String)>) -> Seq<(Seq<char>, Seq<char>)> {
    v.map_values(|p: (String, String)| (p.0@, p.1@))
}

/// The names of a list of counts
pub open spec fn count_keys(v: Seq<(String, u32)>) -> Seq<Seq<char>> {
    v.map_values(|p: (String, u32)| p.0@)
}

/// A list of counts of the calls in `calls`: each called name once, with
/// how many times it is called
pub open spec fn counts_of(v: Seq<(String, u32)>, calls: Seq<Seq<char>>) -> bool {
    &&& count_keys(v).no_duplicates()
    &&& count_keys(v).to_set() == calls.to_set()
    &&& forall|i: int| 0 <= i < v.len() ==> #[trigger] v[i].1 == count_in(calls, v[i].0@)
}

proof fn lemma_count_le_len(s: Seq<Seq<char>>, f: Seq<char>)
    ensures
        count_in(s, f) <= s.len(),
    decreases s.len(),
{
    if s.len() > 0 {
        lemma_count_le_len(s.drop_last(), f);
    }
}

/// Counts one more call
fn bump(counts: &mut Vec<(String, u32)>, f: &String, Ghost(seen): Ghost<Seq<Seq<char>>>)
    requires
        counts_of(old(counts)@, seen),
        old(counts)@.len() <= seen.len(),
        seen.len() < i32::MAX,
    ensures
        counts_of(final(counts)@, seen.push(f@)),
        final(counts)@.len() <= seen.len() + 1,
{
    let mut k: usize = 0;
    while k < counts.len()
        invariant
            counts@ == old(counts)@,
            counts_of(old(counts)@, seen),
            seen.len() < i32::MAX,
            old(counts)@.len() <= seen.len(),
            k <= counts@.len(),
            forall|q: int| 0 <= q < k ==> counts@[q].0@ != f@,
        decreases counts.len() - k,
    {
        if str_eq(counts[k].0.as_str(), f.as_str()) {
            proof {
                lemma_count_le_len(seen, f@);
            }
            let c = counts[k].1;
            let name = counts[k].0.clone();
            let ghost before = counts@;
            counts.set(k, (name, c + 1));
            proof {
                let s2 = seen.push(f@);
                lemma_count_push(seen, f@);
                assert(count_keys(counts@) =~= count_keys(before));
                assert(s2.to_set() =~= seen.to_set()) by {
                    assert(seen.to_set().contains(f@)) by {
                        assert(count_keys(before)[k as int] == f@);
                        assert(count_keys(before).to_set().contains(f@));
                    }
                    seen.lemma_push_to_set_commute(f@);
                }
                assert forall|i: int| 0 <= i < counts@.len() implies #[trigger] counts@[i].1 == count_in(s2, counts@[i].0@) by {
                    assert(count_in(s2, counts@[i].0@) == count_in(seen, counts@[i].0@) + if counts@[i].0@ == f@ {
                        1nat
                    } else {
                        0nat
                    });
                    if i != k {
                        assert(count_keys(before)[i] != count_keys(before)[k as int]);
                        assert(counts@[i] == before[i]);
                        assert(before[i].1 == count_in(seen, before[i].0@));
                    } else {
                        assert(before[k as int].1 == count_in(seen, before[k as int].0@));
                        assert(counts@[i].0@ == f@);
                    }
                }
            }
            return;
        }
        k = k + 1;
    }
    let ghost before = counts@;
    counts.push((f.clone(), 1));
    proof {
        let s2 = seen.push(f@);
        lemma_count_push(seen, f@);
        assert(count_keys(counts@) =~= count_keys(before).push(f@));
        assert(!count_keys(before).contains(f@)) by {
            if count_keys(before).contains(f@) {
                let q = choose|q: int| 0 <= q < count_keys(before).len() && count_keys(before)[q] == f@;
                assert(before[q].0@ == f@);
            }
        }
        assert(!seen.to_set().contains(f@)) by {
            if seen.to_set().contains(f@) {
                assert(count_keys(before).to_set().contains(f@));
            }
        }
        assert(count_in(seen, f@) == 0) by {
            if count_in(seen, f@) != 0 {
                lemma_count_positive_contains(seen, f@);
            }
        }
        assert(count_keys(counts@).to_set() =~= s2.to_set()) by {
            count_keys(before).lemma_push_to_set_commute(f@);
            seen.lemma_push_to_set_commute(f@);
        }
        assert forall|i: int| 0 <= i < counts@.len() implies #[trigger] counts@[i].1 == count_in(s2, counts@[i].0@) by {
            if i < before.len() {
                assert(count_keys(before)[i] == before[i].0@);
            }
        }
    }
}

proof fn lemma_count_push(s: Seq<Seq<char>>, f: Seq<char>)
    ensures
        forall|g: Seq<char>| #[trigger] count_in(s.push(f), g) == count_in(s, g) + if g == f {
            1nat
        } else {
            0nat
        },
{
    assert(s.push(f).drop_last() =~= s);
}

proof fn lemma_count_positive_contains(s: Seq<Seq<char>>, f: Seq<char>)
    requires
        count_in(s, f) > 0,
    ensures
        s.to_set().contains(f),
    decreases s.len(),
{
    if s.last() == f {
        assert(s[s.len() - 1] == f);
    } else {
        lemma_count_positive_contains(s.drop_last(), f);
        let q = choose|q: int| 0 <= q < s.drop_last().len() && s.drop_last()[q] == f;
        assert(s[q] == f);
    }
}


proof fn lemma_calls_of_prefix(c: Seq<LIRInstruction>, j: int)
    requires
        0 <= j <= c.len(),
    ensures
        calls_of(c.take(j)).len() <= calls_of(c).len(),
    decreases c.len(),
{
    if j < c.len() {
        assert(c.drop_last().take(j) =~= c.take(j));
        lemma_calls_of_prefix(c.drop_last(), j);
    } else {
        assert(c.take(j) =~= c);
    }
}

proof fn lemma_all_calls_prefix(fns: Seq<LIRFunction>, i: int)
    requires
        0 <= i <= fns.len(),
    ensures
        all_calls(fns.take(i)).len() <= all_calls(fns).len(),
    decreases fns.len(),
{
    if i < fns.len() {
        assert(fns.drop_last().take(i) =~= fns.take(i));
        lemma_all_calls_prefix(fns.drop_last(), i);
    } else {
        assert(fns.take(i) =~= fns);
    }
}

/// How many times each function is called across the program: each called
/// name once, with its number of calls
fn count_calls(lir: &LIR) -> (r: Vec<(String, u32)>)
    requires
        all_calls(lir.functions@).len() <= i32::MAX,
    ensures
        counts_of(r@, all_calls(lir.functions@)),
        r@.len() <= all_calls(lir.functions@).len(),
{
    let mut counts: Vec<(String, u32)> = Vec::new();
    let ghost fns = lir.functions@;
    let mut i: usize = 0;
    proof {
        assert(fns.take(0) =~= Seq::<LIRFunction>::empty());
        assert(count_keys(counts@) =~= Seq::<Seq<char>>::empty());
        assert(all_calls(fns.take(0)).to_set() =~= Set::<Seq<char>>::empty());
        assert(count_keys(counts@).to_set() =~= Set::<Seq<char>>::empty());
    }
    while i < lir.functions.len()
        invariant
            fns == lir.functions@,
            i <= fns.len(),
            all_calls(fns).len() <= i32::MAX,
            counts_of(counts@, all_calls(fns.take(i as int))),
            counts@.len() <= all_calls(fns.take(i as int)).len(),
        decreases fns.len() - i,
    {
        let contents = &lir.functions[i].block.contents;
        let ghost prefix = all_calls(fns.take(i as int));
        proof {
            assert(fns.take(i as int + 1).drop_last() =~= fns.take(i as int));
            assert(all_calls(fns.take(i as int + 1)) == prefix + calls_of(contents@));
            lemma_all_calls_prefix(fns, i as int + 1);
            assert(contents@.take(0) =~= Seq::<LIRInstruction>::empty());
            assert(prefix + calls_of(contents@.take(0)) =~= prefix);
        }
        let mut j: usize = 0;
        while j < contents.len()
            invariant
                j <= contents@.len(),
                prefix.len() + calls_of(contents@).len() <= i32::MAX,
                counts_of(counts@, prefix + calls_of(contents@.take(j as int))),
                counts@.len() <= prefix.len() + calls_of(contents@.take(j as int)).len(),
            decreases contents.len() - j,
        {
            let ghost seen = prefix + calls_of(contents@.take(j as int));
            proof {
                let t = contents@.take(j as int + 1);
                assert(t.drop_last() =~= contents@.take(j as int));
                assert(t.last() == contents@[j as int]);
                lemma_calls_of_prefix(contents@, j as int + 1);
            }
            if let LIRInstrKind::Call(f) = &contents[j].kind {
                bump(&mut counts, f, Ghost(seen));
                assert(prefix + calls_of(contents@.take(j as int + 1)) =~= seen.push(f@));
            } else {
                assert(prefix + calls_of(contents@.take(j as int + 1)) =~= seen);
            }
            j = j + 1;
        }
        assert(contents@.take(contents@.len() as int) =~= contents@);
        i = i + 1;
    }
    assert(fns.take(fns.len() as int) =~= fns);
    counts
}


/// The stripping order is transitive
proof fn lemma_strips_before_transitive(calls: Seq<Seq<char>>, a: Seq<char>, b: Seq<char>, c: Seq<char>)
    requires
        strips_before(calls, a, b),
        strips_before(calls, b, c),
    ensures
        strips_before(calls, a, c),
{
    if count_in(calls, a) == count_in(calls, b) && count_in(calls, b) == count_in(calls, c) {
        lemma_lex_transitive(a, b, c);
    }
}

/// Of two different names, one is stripped before the other
proof fn lemma_strips_before_total(calls: Seq<Seq<char>>, a: Seq<char>, b: Seq<char>)
    requires
        a != b,
    ensures
        strips_before(calls, a, b) || strips_before(calls, b, a),
{
    lemma_lex_total(a, b);
}

/// Whether one count comes before another in stripping order
fn count_before(a: &(String, u32), b: &(String, u32)) -> (r: bool)
    ensures
        r == (a.1 > b.1 || (a.1 == b.1 && lex_lt(a.0@, b.0@))),
{
    a.1 > b.1 || (a.1 == b.1 && str_lt(a.0.as_str(), b.0.as_str()))
}

/// A list of counts sorted in stripping order
pub open spec fn counts_sorted(v: Seq<(String, u32)>, calls: Seq<Seq<char>>) -> bool {
    forall|i: int, j: int| 0 <= i < j < v.len() ==> strips_before(calls, #[trigger] v[i].0@, #[trigger] v[j].0@)
}

/// Puts a count into its place in a sorted list that does not hold its name
fn insert_count(out: &mut Vec<(String, u32)>, item: (String, u32), Ghost(calls): Ghost<Seq<Seq<char>>>)
    requires
        counts_sorted(old(out)@, calls),
        count_keys(old(out)@).no_duplicates(),
        forall|q: int| 0 <= q < old(out)@.len() ==> #[trigger] old(out)@[q].1 == count_in(calls, old(out)@[q].0@),
        item.1 == count_in(calls, item.0@),
        !count_keys(old(out)@).contains(item.0@),
    ensures
        counts_sorted(final(out)@, calls),
        count_keys(final(out)@).no_duplicates(),
        forall|q: int| 0 <= q < final(out)@.len() ==> #[trigger] final(out)@[q].1 == count_in(calls, final(out)@[q].0@),
        count_keys(final(out)@).to_set() == count_keys(old(out)@).to_set().insert(item.0@),
        final(out)@.len() == old(out)@.len() + 1,
{
    let mut p: usize = 0;
    while p < out.len() && count_before(&out[p], &item)
        invariant
            p <= out@.len(),
            out@ == old(out)@,
            forall|q: int| 0 <= q < old(out)@.len() ==> #[trigger] old(out)@[q].1 == count_in(calls, old(out)@[q].0@),
            item.1 == count_in(calls, item.0@),
            forall|q: int| 0 <= q < p ==> strips_before(calls, #[trigger] out@[q].0@, item.0@),
        decreases out.len() - p,
    {
        p = p + 1;
    }
    let ghost before = out@;
    let ghost key = item.0@;
    out.insert(p, item);
    proof {
        let keys = count_keys(before);
        assert(count_keys(out@) =~= keys.insert(p as int, key));
        if p < before.len() {
            assert(before[p as int].1 == count_in(calls, before[p as int].0@));
            assert(keys[p as int] == before[p as int].0@);
            assert(before[p as int].0@ != key);
            lemma_strips_before_total(calls, before[p as int].0@, key);
            assert(strips_before(calls, key, before[p as int].0@));
        }
        assert forall|i: int, j: int| 0 <= i < j < out@.len() implies strips_before(calls, #[trigger] out@[i].0@, #[trigger] out@[j].0@) by {
            if j < p {
                assert(out@[i] == before[i] && out@[j] == before[j]);
            } else if j == p {
                assert(out@[i] == before[i]);
            } else if i < p {
                assert(out@[i] == before[i] && out@[j] == before[j - 1]);
            } else if i == p {
                assert(out@[j] == before[j - 1]);
                if p < j - 1 {
                    lemma_strips_before_transitive(calls, key, before[p as int].0@, before[j - 1].0@);
                }
            } else {
                assert(out@[i] == before[i - 1] && out@[j] == before[j - 1]);
            }
        }
        assert forall|i: int, j: int| 0 <= i < j < count_keys(out@).len() implies count_keys(out@)[i] != count_keys(out@)[j] by {
            let ks = count_keys(out@);
            if i < p && j < p {
                assert(ks[i] == keys[i] && ks[j] == keys[j]);
            } else if i < p && j == p {
                assert(ks[i] == keys[i]);
                assert(keys.contains(ks[i]));
            } else if i < p {
                assert(ks[i] == keys[i] && ks[j] == keys[j - 1]);
            } else if i == p {
                assert(ks[j] == keys[j - 1]);
                assert(keys.contains(ks[j]));
            } else {
                assert(ks[i] == keys[i - 1] && ks[j] == keys[j - 1]);
            }
        }
        assert(count_keys(out@).no_duplicates());
        assert forall|q: int| 0 <= q < out@.len() implies #[trigger] out@[q].1 == count_in(calls, out@[q].0@) by {
            if q < p {
                assert(out@[q] == before[q]);
            } else if q > p {
                assert(out@[q] == before[q - 1]);
            }
        }
        assert(count_keys(out@).to_set() =~= keys.to_set().insert(key)) by {
            let ks = count_keys(out@);
            assert forall|y: Seq<char>| ks.to_set().contains(y) implies keys.to_set().insert(key).contains(y) by {
                let k = choose|k: int| 0 <= k < ks.len() && ks[k] == y;
                if k < p {
                    assert(keys[k] == y);
                } else if k > p {
                    assert(keys[k - 1] == y);
                }
            }
            assert forall|y: Seq<char>| keys.to_set().insert(key).contains(y) implies ks.to_set().contains(y) by {
                if y == key {
                    assert(ks[p as int] == key);
                } else {
                    let k = choose|k: int| 0 <= k < keys.len() && keys[k] == y;
                    if k < p {
                        assert(ks[k] == y);
                    } else {
                        assert(ks[k + 1] == y);
                    }
                }
            }
        }
    }
}

/// The counts in stripping order
fn sort_counts(counts: &Vec<(String, u32)>, Ghost(calls): Ghost<Seq<Seq<char>>>) -> (r: Vec<(String, u32)>)
    requires
        counts_of(counts@, calls),
    ensures
        counts_of(r@, calls),
        counts_sorted(r@, calls),
        r@.len() == counts@.len(),
{
    let mut out: Vec<(String, u32)> = Vec::new();
    let mut i: usize = 0;
    assert(count_keys(counts@.take(0)).to_set() =~= count_keys(out@).to_set());
    while i < counts.len()
        invariant
            i <= counts@.len(),
            counts_of(counts@, calls),
            out@.len() == i,
            counts_sorted(out@, calls),
            count_keys(out@).no_duplicates(),
            forall|q: int| 0 <= q < out@.len() ==> #[trigger] out@[q].1 == count_in(calls, out@[q].0@),
            count_keys(out@).to_set() == count_keys(counts@.take(i as int)).to_set(),
        decreases counts.len() - i,
    {
        let item = (counts[i].0.clone(), counts[i].1);
        let ghost key = counts@[i as int].0@;
        proof {
            let ck = count_keys(counts@);
            assert(ck[i as int] == key);
            assert(count_keys(counts@.take(i as int)) =~= ck.take(i as int));
            if count_keys(out@).contains(key) {
                assert(count_keys(out@).to_set().contains(key));
                assert(ck.take(i as int).to_set().contains(key));
                let k = choose|k: int| 0 <= k < i && ck.take(i as int)[k] == key;
                assert(ck[k] == ck[i as int]);
            }
            assert(counts@[i as int].1 == count_in(calls, counts@[i as int].0@));
            assert(count_keys(counts@.take(i as int + 1)) =~= count_keys(counts@.take(i as int)).push(key));
            count_keys(counts@.take(i as int)).lemma_push_to_set_commute(key);
        }
        insert_count(&mut out, item, Ghost(calls));
        i = i + 1;
    }
    assert(counts@.take(counts@.len() as int) =~= counts@);
    out
}


/// The first function with this id
fn find_function<'a>(fns: &'a Vec<LIRFunction>, id: &str) -> (r: Option<&'a LIRFunction>)
    ensures
        match r {
            Some(f) => find_fn(fns@, id@) == Some(*f),
            None => find_fn(fns@, id@) is None,
        },
{
    let mut k: usize = 0;
    assert(fns@.subrange(0, fns@.len() as int) =~= fns@);
    while k < fns.len()
        invariant
            k <= fns@.len(),
            find_fn(fns@, id@) == find_fn(fns@.subrange(k as int, fns@.len() as int), id@),
        decreases fns.len() - k,
    {
        let ghost rest = fns@.subrange(k as int, fns@.len() as int);
        assert(rest.drop_first() =~= fns@.subrange(k + 1, fns@.len() as int));
        assert(rest[0] == fns@[k as int]);
        if str_eq(fns[k].interface.id.as_str(), id) {
            return Some(&fns[k]);
        }
        k = k + 1;
    }
    None
}

/// The stripped name with a counter: `{project}:s/{counter}`
fn make_stripped_name(project: &str, idx: u32) -> (r: String)
    ensures
        r@ == stripped_fn_name(project@, idx as nat),
{
    let mut name = String::new();
    push_str(&mut name, project);
    push_str(&mut name, ":s/");
    let counter = get_stripped_name_unstable(idx, RESOURCE_LOCATION_CHARSET.as_slice());
    push_str(&mut name, counter.as_str());
    proof {
        reveal_strlit(":s/");
    }
    assert(name@ =~= stripped_fn_name(project@, idx as nat));
    name
}

/// Gives the called functions shorter names: the more often a function is
/// called, the shorter its name. Functions that are preserved or must not
/// be stripped keep their names, as do calls to functions that the program
/// does not define.
pub fn strip_unstable(lir: &LIR, project_name: &str) -> (r: FunctionMapping)
    requires
        all_calls(lir.functions@).len() <= i32::MAX,
    ensures
        exists|order: Seq<Seq<char>>|
            #[trigger] strip_order(all_calls(lir.functions@), order) && pair_views(r.0@) == strip_pass(
                order,
                lir.functions@,
                project_name@,
            ).0,
{
    let ghost calls = all_calls(lir.functions@);
    let ghost fns = lir.functions@;
    let counts = count_calls(lir);
    let sorted = sort_counts(&counts, Ghost(calls));
    let ghost order = count_keys(sorted@);
    proof {
        assert forall|i: int, j: int| 0 <= i < j < order.len() implies strips_before(calls, #[trigger] order[i], #[trigger] order[j]) by {
            assert(order[i] == sorted@[i].0@ && order[j] == sorted@[j].0@);
        }
        assert(strip_order(calls, order));
        assert(order.take(0) =~= Seq::<Seq<char>>::empty());
    }
    let mut out: Vec<(String, String)> = Vec::new();
    let mut idx: u32 = 0;
    let mut i: usize = 0;
    while i < sorted.len()
        invariant
            fns == lir.functions@,
            order == count_keys(sorted@),
            i <= sorted@.len(),
            sorted@.len() <= i32::MAX,
            pair_views(out@) == strip_pass(order.take(i as int), fns, project_name@).0,
            idx == strip_pass(order.take(i as int), fns, project_name@).1,
            idx <= i,
        decreases sorted.len() - i,
    {
        let f = &sorted[i].0;
        let ghost t = order.take(i as int + 1);
        proof {
            assert(t.drop_last() =~= order.take(i as int));
            assert(t.last() == f@);
        }
        let ghost before = out@;
        match find_function(&lir.functions, f.as_str()) {
            None => {},
            Some(func) => {
                if func.interface.annotations.preserve || func.interface.annotations.no_strip {
                    out.push((f.clone(), f.clone()));
                } else {
                    let name = make_stripped_name(project_name, idx);
                    if name.as_str().len() >= f.as_str().len() {
                        out.push((f.clone(), f.clone()));
                    } else {
                        out.push((f.clone(), name));
                        idx = idx + 1;
                    }
                }
                assert(pair_views(out@) =~= pair_views(before).push(out@.last()@));
            },
        }
        i = i + 1;
    }
    assert(order.take(order.len() as int) =~= order);
    FunctionMapping(out)
}

/// The function mapping that a strip mode asks for: none where names are
/// kept
pub fn strip(lir: &LIR, mode: StripMode, project_name: &str) -> (r: Option<FunctionMapping>)
    requires
        all_calls(lir.functions@).len() <= i32::MAX,
    ensures
        match mode {
            StripMode::Keep => r is None,
            StripMode::Unstable => r matches Some(m) && exists|order: Seq<Seq<char>>|
                #[trigger] strip_order(all_calls(lir.functions@), order) && pair_views(m.0@) == strip_pass(
                    order,
                    lir.functions@,
                    project_name@,
                ).0,
        },
{
    match mode {
        StripMode::Keep => None,
        StripMode::Unstable => Some(strip_unstable(lir, project_name)),
    }
}


/// Stripped names with different counters differ
proof fn lemma_stripped_fn_name_injective(project: Seq<char>, a: nat, b: nat)
    requires
        stripped_fn_name(project, a) == stripped_fn_name(project, b),
    ensures
        a == b,
{
    let p = project + ":s/"@;
    let na = stripped_fn_name(project, a);
    let nb = stripped_fn_name(project, b);
    assert(na.subrange(p.len() as int, na.len() as int) =~= stripped_name(a, RESOURCE_LOCATION_CHARSET@));
    assert(nb.subrange(p.len() as int, nb.len() as int) =~= stripped_name(b, RESOURCE_LOCATION_CHARSET@));
    assert(RESOURCE_LOCATION_CHARSET@.no_duplicates());
    super::text::lemma_stripped_name_injective(a, b, RESOURCE_LOCATION_CHARSET@);
}

/// What holds of every pass of stripping over an order without repeats
proof fn lemma_strip_pass_facts(order: Seq<Seq<char>>, fns: Seq<LIRFunction>, project: Seq<char>)
    requires
        order.no_duplicates(),
    ensures
        forall|i: int|
            0 <= i < strip_pass(order, fns, project).0.len() ==> order.contains(
                #[trigger] strip_pass(order, fns, project).0[i].0,
            ),
        forall|i: int, j: int|
            0 <= i < j < strip_pass(order, fns, project).0.len() ==> #[trigger] strip_pass(
                order,
                fns,
                project,
            ).0[i].0 != #[trigger] strip_pass(order, fns, project).0[j].0,
        forall|i: int|
            0 <= i < strip_pass(order, fns, project).0.len() && #[trigger] strip_pass(order, fns, project).0[i].1
                != strip_pass(order, fns, project).0[i].0 ==> byte_len(strip_pass(order, fns, project).0[i].1)
                < byte_len(strip_pass(order, fns, project).0[i].0) && exists|m: nat|
                m < strip_pass(order, fns, project).1 && strip_pass(order, fns, project).0[i].1
                    == #[trigger] stripped_fn_name(project, m),
    decreases order.len(),
{
    if order.len() > 0 {
        let rest = order.drop_last();
        assert(rest.no_duplicates()) by {
            assert forall|i: int, j: int| 0 <= i < j < rest.len() implies rest[i] != rest[j] by {
                assert(rest[i] == order[i] && rest[j] == order[j]);
            }
        }
        lemma_strip_pass_facts(rest, fns, project);
        let prev = strip_pass(rest, fns, project);
        let cur = strip_pass(order, fns, project);
        let f = order.last();
        assert(!rest.contains(f)) by {
            if rest.contains(f) {
                let k = choose|k: int| 0 <= k < rest.len() && rest[k] == f;
                assert(order[k] == order[order.len() - 1]);
            }
        }
        assert forall|i: int| 0 <= i < prev.0.len() implies order.contains(#[trigger] prev.0[i].0) by {
            let k = choose|k: int| 0 <= k < rest.len() && rest[k] == prev.0[i].0;
            assert(order[k] == rest[k]);
        }
        if cur.0.len() > prev.0.len() {
            assert(cur.0 == prev.0.push(cur.0.last()));
            assert(cur.0.last().0 == f);
            assert forall|i: int| 0 <= i < prev.0.len() implies prev.0[i].0 != f by {
                assert(rest.contains(prev.0[i].0));
            }
            assert forall|i: int| 0 <= i < cur.0.len() && #[trigger] cur.0[i].1 != cur.0[i].0 implies byte_len(cur.0[i].1)
                < byte_len(cur.0[i].0) && exists|m: nat| m < cur.1 && cur.0[i].1 == #[trigger] stripped_fn_name(project, m) by {
                if i < prev.0.len() {
                    assert(cur.0[i] == prev.0[i]);
                    let m = choose|m: nat| m < prev.1 && prev.0[i].1 == #[trigger] stripped_fn_name(project, m);
                    assert(cur.0[i].1 == stripped_fn_name(project, m));
                } else {
                    assert(cur.0[i].1 == stripped_fn_name(project, prev.1));
                }
            }
        } else {
            assert(cur == prev);
        }
    }
}

/// Stripping names each function at most once, never gives two functions
/// the same new name, and only ever replaces a name by one that is shorter
/// in bytes.
pub proof fn lemma_strip_names_distinct(order: Seq<Seq<char>>, fns: Seq<LIRFunction>, project: Seq<char>)
    requires
        order.no_duplicates(),
    ensures
        forall|i: int, j: int|
            0 <= i < j < strip_pass(order, fns, project).0.len() ==> #[trigger] strip_pass(
                order,
                fns,
                project,
            ).0[i].0 != #[trigger] strip_pass(order, fns, project).0[j].0,
        forall|i: int, j: int|
            0 <= i < j < strip_pass(order, fns, project).0.len() && #[trigger] strip_pass(
                order,
                fns,
                project,
            ).0[i].1 != strip_pass(order, fns, project).0[i].0 && #[trigger] strip_pass(order, fns, project).0[j].1
                != strip_pass(order, fns, project).0[j].0 ==> strip_pass(order, fns, project).0[i].1 != strip_pass(
                order,
                fns,
                project,
            ).0[j].1,
        forall|i: int|
            0 <= i < strip_pass(order, fns, project).0.len() && #[trigger] strip_pass(order, fns, project).0[i].1
                != strip_pass(order, fns, project).0[i].0 ==> byte_len(strip_pass(order, fns, project).0[i].1)
                < byte_len(strip_pass(order, fns, project).0[i].0),
    decreases order.len(),
{
    lemma_strip_pass_facts(order, fns, project);
    if order.len() > 0 {
        let rest = order.drop_last();
        assert(rest.no_duplicates()) by {
            assert forall|i: int, j: int| 0 <= i < j < rest.len() implies rest[i] != rest[j] by {
                assert(rest[i] == order[i] && rest[j] == order[j]);
            }
        }
        lemma_strip_names_distinct(rest, fns, project);
        lemma_strip_pass_facts(rest, fns, project);
        let prev = strip_pass(rest, fns, project);
        let cur = strip_pass(order, fns, project);
        if cur.0.len() > prev.0.len() {
            assert(cur.0 == prev.0.push(cur.0.last()));
            let last = cur.0.len() - 1;
            if cur.0[last].1 != cur.0[last].0 {
                assert(cur.0[last].1 == stripped_fn_name(project, prev.1));
                assert forall|i: int| 0 <= i < last && #[trigger] cur.0[i].1 != cur.0[i].0 implies cur.0[i].1 != cur.0[last].1 by {
                    assert(cur.0[i] == prev.0[i]);
                    let m = choose|m: nat| m < prev.1 && prev.0[i].1 == #[trigger] stripped_fn_name(project, m);
                    if cur.0[i].1 == cur.0[last].1 {
                        lemma_stripped_fn_name_injective(project, m, prev.1);
                    }
                }
            }
            assert forall|i: int, j: int|
                0 <= i < j < cur.0.len() && #[trigger] cur.0[i].1 != cur.0[i].0 && #[trigger] cur.0[j].1 != cur.0[j].0
                implies cur.0[i].1 != cur.0[j].1 by {
                if j < last {
                    assert(cur.0[i] == prev.0[i] && cur.0[j] == prev.0[j]);
                }
            }
        } else {
            assert(cur == prev);
        }
    }
}
/// A function whose annotations say to preserve it, or not to strip it,
/// keeps its own name in the stripping: it is mapped to itself
pub proof fn lemma_strip_keeps_preserved_names(order: Seq<Seq<char>>, fns: Seq<LIRFunction>, project: Seq<char>)
    ensures
        forall|i: int|
            0 <= i < strip_pass(order, fns, project).0.len() && (find_fn(
                fns,
                #[trigger] strip_pass(order, fns, project).0[i].0,
            ) matches Some(func) && (func.interface.annotations.preserve || func.interface.annotations.no_strip))
                ==> strip_pass(order, fns, project).0[i].1 == strip_pass(order, fns, project).0[i].0,
    decreases order.len(),
{
    if order.len() > 0 {
        lemma_strip_keeps_preserved_names(order.drop_last(), fns, project);
    }
}

} // verus!
