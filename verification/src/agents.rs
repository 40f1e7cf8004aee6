//! The colors that tell agents apart.

use vstd::prelude::*;
use vstd::utf8::*;

verus! {

/// The sum of some bytes, which wraps around at the size of a machine word.
pub open spec fn byte_sum(b: Seq<u8>) -> usize
    decreases b.len(),
{
    if b.len() == 0 {
        0
    } else {
        ((byte_sum(b.drop_last()) + b.last()) % (usize::MAX + 1)) as usize
    }
}

/// A number for a name: the sum of its bytes.
pub fn agent_color_hash(name: &str) -> (r: usize)
    ensures
        r == byte_sum(encode_utf8(name@)),
{
    let b = name.as_bytes();
    let mut sum: usize = 0;
    let mut i: usize = 0;
    while i < b.len()
        invariant
            i <= b@.len(),
            sum == byte_sum(b@.take(i as int)),
        decreases b@.len() - i,
    {
        assert(b@.take(i + 1).drop_last() =~= b@.take(i as int));
        sum = sum.wrapping_add(b[i] as usize);
        i += 1;
    }
    assert(b@.take(b@.len() as int) =~= b@);
    sum
}

/// The number of agent colors.
pub const AGENT_COLOR_COUNT: usize = 6;

/// The ANSI codes of the agent colors: cyan, green, yellow, magenta, blue, red.
pub const AGENT_ANSI_CODES: [u8; 6] = [36, 32, 33, 35, 34, 31];

/// The place of an agent's color in the list of colors.
pub fn agent_color_index(name: &str) -> (r: usize)
    ensures
        r == byte_sum(encode_utf8(name@)) % AGENT_COLOR_COUNT,
        r < AGENT_COLOR_COUNT,
{
    agent_color_hash(name) % AGENT_COLOR_COUNT
}

/// The ANSI code at a place of the list of colors.
pub open spec fn ansi_code(k: int) -> u8 {
    if k == 0 {
        36
    } else if k == 1 {
        32
    } else if k == 2 {
        33
    } else if k == 3 {
        35
    } else if k == 4 {
        34
    } else {
        31
    }
}

/// The ANSI code of an agent's color.
pub fn agent_ansi_code(name: &str) -> (r: u8)
    ensures
        r == ansi_code(byte_sum(encode_utf8(name@)) as int % AGENT_COLOR_COUNT as int),
{
    let codes: [u8; 6] = AGENT_ANSI_CODES;
    codes[agent_color_index(name)]
}

/// One more byte adds its value to the sum, as far as a machine word holds it.
pub proof fn bytes_add_up(b: Seq<u8>, x: u8)
    ensures
        byte_sum(Seq::empty()) == 0,
        byte_sum(b) + x <= usize::MAX ==> byte_sum(b.push(x)) == byte_sum(b) + x,
        byte_sum(b) + x > usize::MAX ==> byte_sum(b.push(x)) == byte_sum(b) + x - usize::MAX - 1,
{
    assert(b.push(x).drop_last() =~= b);
    let t = byte_sum(b) + x;
    let m = usize::MAX + 1;
    if t < m {
        vstd::arithmetic::div_mod::lemma_small_mod(t as nat, m as nat);
    } else {
        vstd::arithmetic::div_mod::lemma_mod_add_multiples_vanish(t - m, m);
        vstd::arithmetic::div_mod::lemma_small_mod((t - m) as nat, m as nat);
    }
}

/// The six colors are told apart: no code is given to two of them.
pub proof fn colors_differ(i: int, j: int)
    requires
        0 <= i < j < 6,
    ensures
        ansi_code(i) != ansi_code(j),
        31 <= ansi_code(i) <= 36,
{
}

} // verus!
