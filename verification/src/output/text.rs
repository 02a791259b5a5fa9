//! Names of the fake players, storage entries and objectives used by the
//! generated commands.
use vstd::prelude::*;

use crate::strutil::{push_char, push_decimal, push_str};

verus! {

/// Objective that holds the score registers
pub const REG_OBJECTIVE: &'static str = "_r";

/// Objective that holds the score literals
pub const LIT_OBJECTIVE: &'static str = "_l";

/// Storage that holds the NBT registers
pub const REG_STORAGE_LOCATION: &'static str = "dpc:r";

/// Characters allowed in the path of a resource location
pub const RESOURCE_LOCATION_CHARSET: [char; 39] = [
    'a', 'b', 'c', 'd', 'e', 'f', 'g', 'h', 'i', 'j', 'k', 'l', 'm', 'n', 'o', 'p', 'q', 'r', 's',
    't', 'u', 'v', 'w', 'x', 'y', 'z', '0', '1', '2', '3', '4', '5', '6', '7', '8', '9', '_', '-',
    '.',
];

/// Characters allowed in the name of a fake player
pub const FAKE_PLAYER_CHARSET: [char; 37] = [
    'a', 'b', 'c', 'd', 'e', 'f', 'g', 'h', 'i', 'j', 'k', 'l', 'm', 'n', 'o', 'p', 'q', 'r', 's',
    't', 'u', 'v', 'w', 'x', 'y', 'z', '0', '1', '2', '3', '4', '5', '6', '7', '8', '9', '_',
];

/// `prefix`, then the function id, then the number in decimal
pub open spec fn prefixed_name(prefix: Seq<char>, func_id: Seq<char>, num: nat) -> Seq<char> {
    prefix + func_id + crate::strutil::decimal(num)
}

/// Names with the same prefix and function id differ when their numbers do
pub proof fn lemma_prefixed_name_injective(prefix: Seq<char>, func_id: Seq<char>, a: nat, b: nat)
    requires
        prefixed_name(prefix, func_id, a) == prefixed_name(prefix, func_id, b),
    ensures
        a == b,
{
    let p = prefix + func_id;
    assert(prefixed_name(prefix, func_id, a).subrange(p.len() as int, prefixed_name(prefix, func_id, a).len() as int) =~= crate::strutil::decimal(a));
    assert(prefixed_name(prefix, func_id, b).subrange(p.len() as int, prefixed_name(prefix, func_id, b).len() as int) =~= crate::strutil::decimal(b));
    crate::strutil::lemma_decimal_injective(a, b);
}

fn format_prefixed(prefix: &str, num: u64, func_id: &str) -> (r: String)
    ensures
        r@ == prefixed_name(prefix@, func_id@, num as nat),
{
    let mut out = String::new();
    push_str(&mut out, prefix);
    push_str(&mut out, func_id);
    push_decimal(&mut out, num);
    assert(out@ =~= prefixed_name(prefix@, func_id@, num as nat));
    out
}

/// Fake player of score register `num` of a function: `%r{func_id}{num}`
pub fn format_reg_fake_player(num: u32, func_id: &str) -> (r: String)
    ensures
        r@ == prefixed_name(seq!['%', 'r'], func_id@, num as nat),
{
    proof {
        reveal_strlit("%r");
    }
    format_prefixed("%r", num as u64, func_id)
}

/// Fake player of a score literal: `%l{num}`
pub fn format_lit_fake_player(num: i32) -> (r: String)
    ensures
        r@ == seq!['%', 'l'] + crate::strutil::decimal_int(num as int),
{
    let mut out = String::new();
    push_char(&mut out, '%');
    push_char(&mut out, 'l');
    crate::strutil::push_decimal_i64(&mut out, num as i64);
    assert(out@ =~= seq!['%', 'l'] + crate::strutil::decimal_int(num as int));
    out
}

/// Fake player of argument `num` of a function: `%a{func_id}{num}`
pub fn format_arg_fake_player(num: u16, func_id: &str) -> (r: String)
    ensures
        r@ == prefixed_name(seq!['%', 'a'], func_id@, num as nat),
{
    proof {
        reveal_strlit("%a");
    }
    format_prefixed("%a", num as u64, func_id)
}

/// Fake player of return value `num` of a function: `%R{func_id}{num}`
pub fn format_ret_fake_player(num: u16, func_id: &str) -> (r: String)
    ensures
        r@ == prefixed_name(seq!['%', 'R'], func_id@, num as nat),
{
    proof {
        reveal_strlit("%R");
    }
    format_prefixed("%R", num as u64, func_id)
}

/// Storage entry of NBT register `num` of a function: `r{func_id}{num}`
pub fn format_local_storage_entry(num: u32, func_id: &str) -> (r: String)
    ensures
        r@ == prefixed_name(seq!['r'], func_id@, num as nat),
{
    proof {
        reveal_strlit("r");
    }
    format_prefixed("r", num as u64, func_id)
}

/// Storage entry of argument `num` of a function: `a{func_id}{num}`
pub fn format_arg_local_storage_entry(num: u16, func_id: &str) -> (r: String)
    ensures
        r@ == prefixed_name(seq!['a'], func_id@, num as nat),
{
    proof {
        reveal_strlit("a");
    }
    format_prefixed("a", num as u64, func_id)
}

/// Storage entry of return value `num` of a function: `R{func_id}{num}`
pub fn format_ret_local_storage_entry(num: u16, func_id: &str) -> (r: String)
    ensures
        r@ == prefixed_name(seq!['R'], func_id@, num as nat),
{
    proof {
        reveal_strlit("R");
    }
    format_prefixed("R", num as u64, func_id)
}

/// The storage path of a storage entry, which is the entry itself
pub fn format_local_storage_path(entry: &str) -> (r: String)
    ensures
        r@ == entry@,
{
    String::from_str(entry)
}

/// The counter `idx` written with the characters of `charset` as digits,
/// least significant digit first; zero is written as the empty string
pub open spec fn stripped_name(idx: nat, charset: Seq<char>) -> Seq<char>
    decreases idx,
{
    if idx == 0 || charset.len() < 2 {
        Seq::empty()
    } else {
        proof {
            vstd::arithmetic::div_mod::lemma_div_decreases(idx as int, charset.len() as int);
        }
        seq![charset[(idx % charset.len()) as int]] + stripped_name(idx / charset.len(), charset)
    }
}

/// Used for getting stripped counters encoded in a base of characters,
/// with different character sets
pub fn get_stripped_name_unstable(idx: u32, charset: &[char]) -> (r: String)
    requires
        charset@.len() >= 2,
    ensures
        r@ == stripped_name(idx as nat, charset@),
{
    let mut out = String::new();
    let len = charset.len();
    let mut rest: usize = idx as usize;
    while rest != 0
        invariant
            len == charset@.len(),
            len >= 2,
            out@ + stripped_name(rest as nat, charset@) == stripped_name(idx as nat, charset@),
        decreases rest,
    {
        let digit = rest % len;
        let ghost before = out@;
        push_char(&mut out, charset[digit]);
        proof {
            vstd::arithmetic::div_mod::lemma_div_decreases(rest as int, len as int);
            let tail = stripped_name((rest / len) as nat, charset@);
            assert(stripped_name(rest as nat, charset@) == seq![charset@[digit as int]] + tail);
            assert(out@ + tail =~= before + (seq![charset@[digit as int]] + tail));
        }
        rest = rest / len;
    }
    assert(out@ =~= out@ + stripped_name(0, charset@));
    out
}

/// Stripped names never collide: over a character set of at least two
/// distinct characters, two counters with the same stripped name are equal.
pub proof fn lemma_stripped_name_injective(a: nat, b: nat, charset: Seq<char>)
    requires
        charset.len() >= 2,
        charset.no_duplicates(),
        stripped_name(a, charset) == stripped_name(b, charset),
    ensures
        a == b,
    decreases a,
{
    let n = charset.len() as int;
    if a == 0 || b == 0 {
        if a != 0 {
            assert(stripped_name(a, charset).len() > 0);
        }
        if b != 0 {
            assert(stripped_name(b, charset).len() > 0);
        }
    } else {
        let sa = stripped_name(a, charset);
        let sb = stripped_name(b, charset);
        vstd::arithmetic::div_mod::lemma_mod_bound(a as int, n);
        vstd::arithmetic::div_mod::lemma_mod_bound(b as int, n);
        assert(sa[0] == charset[(a % charset.len()) as int]);
        assert(sb[0] == charset[(b % charset.len()) as int]);
        assert(a % charset.len() == b % charset.len());
        assert(sa.drop_first() =~= stripped_name(a / charset.len(), charset));
        assert(sb.drop_first() =~= stripped_name(b / charset.len(), charset));
        vstd::arithmetic::div_mod::lemma_div_decreases(a as int, n);
        lemma_stripped_name_injective(a / charset.len(), b / charset.len(), charset);
        vstd::arithmetic::div_mod::lemma_fundamental_div_mod(a as int, n);
        vstd::arithmetic::div_mod::lemma_fundamental_div_mod(b as int, n);
    }
}

} // verus!
