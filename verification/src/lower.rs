//! Helpers shared by the lowering passes.
pub mod ir_to_mir;
pub mod mir_to_lir;
pub mod score_run;

use vstd::prelude::*;

use crate::strutil::{push_char, push_decimal, push_str};

verus! {

/// The register that holds argument `arg_num` of a function after lowering:
/// `in_arg_{func_id}_{arg_num}`
pub fn fmt_lowered_arg(func_id: &str, arg_num: usize) -> (r: String)
    ensures
        r@ == seq!['i', 'n', '_', 'a', 'r', 'g', '_'] + func_id@ + seq!['_'] + crate::strutil::decimal(
            arg_num as nat,
        ),
{
    proof {
        reveal_strlit("in_arg_");
    }
    let mut out = String::new();
    push_str(&mut out, "in_arg_");
    push_str(&mut out, func_id);
    push_char(&mut out, '_');
    push_decimal(&mut out, arg_num as u64);
    assert(out@ =~= seq!['i', 'n', '_', 'a', 'r', 'g', '_'] + func_id@ + seq!['_']
        + crate::strutil::decimal(arg_num as nat));
    out
}

/// A character of a function id with `:` and `/` made `_`
pub open spec fn cleanup_char(c: char) -> char {
    if c == ':' || c == '/' {
        '_'
    } else {
        c
    }
}

/// A function id with every `:` and `/` made `_`
pub open spec fn cleaned(f: Seq<char>) -> Seq<char> {
    f.map_values(|c: char| cleanup_char(c))
}

/// A function id usable inside a fake player name: every `:` and `/` becomes `_`
pub fn cleanup_fn_id(func_id: &str) -> (r: String)
    ensures
        r@ == cleaned(func_id@),
{
    let n = func_id.unicode_len();
    let mut out = String::new();
    let mut i: usize = 0;
    while i < n
        invariant
            n == func_id@.len(),
            i <= n,
            out@ == func_id@.take(i as int).map_values(|c: char| cleanup_char(c)),
        decreases n - i,
    {
        let c = func_id.get_char(i);
        if c == ':' || c == '/' {
            push_char(&mut out, '_');
        } else {
            push_char(&mut out, c);
        }
        assert(out@ =~= func_id@.take(i as int + 1).map_values(|c: char| cleanup_char(c)));
        i = i + 1;
    }
    assert(func_id@.take(n as int) =~= func_id@);
    out
}

/// The largest power of two that divides a number: its lowest set bit
pub fn highest_power_of_2_factor(num: u8) -> (r: u8)
    requires
        num > 0,
    ensures
        r == num & !((num - 1) as u8),
        r > 0,
        num % r == 0,
        (num / r) % 2 == 1,
        r == 1 || r == 2 || r == 4 || r == 8 || r == 16 || r == 32 || r == 64 || r == 128,
{
    let r = num & !(num - 1);
    assert(r > 0 && num % r == 0 && (num / r) % 2 == 1 && (r == 1 || r == 2 || r == 4 || r == 8
        || r == 16 || r == 32 || r == 64 || r == 128)) by (bit_vector)
        requires
            num > 0,
            r == num & !((num - 1) as u8),
    ;
    r
}

} // verus!
