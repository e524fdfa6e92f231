//! Rules: which neighbour counts give birth and survival, over which region.

use vstd::prelude::*;
use vstd::string::StringExecFns;
use crate::region::NeighborRegion;

verus! {

/// Instructions on how to update the board.
#[derive(Debug, Clone, Copy, PartialEq, Eq, Structural)]
pub struct Rule {
    birth_mask: u32,
    survive_mask: u32,
    neighbors: NeighborRegion,
}

/// The bound below which the masks of a rule over `region` lie: two to the
/// power of one more than the number of neighbours, so that no bit above the
/// number of neighbours is set.
pub open spec fn mask_limit(region: NeighborRegion) -> u32 {
    match region {
        NeighborRegion::Four => 32,
        NeighborRegion::Six => 128,
        NeighborRegion::EightCross => 512,
        NeighborRegion::EightParallel => 512,
        NeighborRegion::Ten => 2048,
    }
}

impl Rule {
    pub closed spec fn birth(self) -> u32 {
        self.birth_mask
    }

    pub closed spec fn survive(self) -> u32 {
        self.survive_mask
    }

    pub closed spec fn region(self) -> NeighborRegion {
        self.neighbors
    }

    /// A dead edge with `n` live neighbours comes alive.
    pub open spec fn born_with(self, n: nat) -> bool {
        n < 32 && self.birth() & (1u32 << (n as u32)) != 0
    }

    /// A live edge with `n` live neighbours stays alive.
    pub open spec fn survives_with(self, n: nat) -> bool {
        n < 32 && self.survive() & (1u32 << (n as u32)) != 0
    }

    pub fn birth_mask(&self) -> (r: u32)
        ensures
            r == self.birth(),
    {
        self.birth_mask
    }

    pub fn survive_mask(&self) -> (r: u32)
        ensures
            r == self.survive(),
    {
        self.survive_mask
    }

    pub fn neighbor_region(&self) -> (r: NeighborRegion)
        ensures
            r == self.region(),
    {
        self.neighbors
    }

    pub fn new_raw(birth_mask: u32, survive_mask: u32, neighbors: NeighborRegion) -> (r: Rule)
        requires
            birth_mask < mask_limit(neighbors),
            survive_mask < mask_limit(neighbors),
        ensures
            r.birth() == birth_mask,
            r.survive() == survive_mask,
            r.region() == neighbors,
    {
        Rule { birth_mask, survive_mask, neighbors }
    }

    /// The rule in the notation `B<digits>/S<digits>/@<region>`.
    pub fn to_string(&self) -> (r: String)
        ensures
            r@ == notation(*self),
    {
        let top = self.neighbors.count();
        let mut out = String::from_str("B");
        proof {
            reveal_strlit("B");
            reveal_strlit("/S");
            reveal_strlit("/@");
        }
        append_bits(&mut out, self.birth_mask, top);
        out.append("/S");
        append_bits(&mut out, self.survive_mask, top);
        out.append("/@");
        out.append(self.neighbors.label());
        assert(out@ =~= notation(*self));
        out
    }
}

/// The lower-case hexadecimal digit of `i`.
pub open spec fn hex_char(i: nat) -> char {
    if i < 10 {
        ('0' as nat + i) as char
    } else {
        ('a' as nat + (i - 10)) as char
    }
}

/// The digits of the bits of `mask` that are set, from bit `i` up to bit `top`.
pub open spec fn set_bits(mask: u32, i: nat, top: nat) -> Seq<char>
    decreases top + 1 - i,
{
    if i > top {
        seq![]
    } else {
        (if i < 32 && mask & (1u32 << (i as u32)) != 0 {
            seq![hex_char(i)]
        } else {
            seq![]
        }) + set_bits(mask, i + 1, top)
    }
}

/// A rule written `B<digits>/S<digits>/@<region>`: the neighbour counts that
/// give birth, those that let an edge survive, and the region's marker.
pub open spec fn notation(rule: Rule) -> Seq<char> {
    seq!['B'] + set_bits(rule.birth(), 0, rule.region().size()) + seq!['/', 'S'] + set_bits(
        rule.survive(),
        0,
        rule.region().size(),
    ) + seq!['/', '@'] + rule.region().marker()
}

/// The hexadecimal digit of `i` as a string.
fn hex_digit(i: u32) -> (r: &'static str)
    requires
        i < 16,
    ensures
        r@ == seq![hex_char(i as nat)],
{
    let digits: [&'static str; 16] = [
        "0", "1", "2", "3", "4", "5", "6", "7", "8", "9", "a", "b", "c", "d", "e", "f",
    ];
    proof {
        reveal_strlit("0");
        reveal_strlit("1");
        reveal_strlit("2");
        reveal_strlit("3");
        reveal_strlit("4");
        reveal_strlit("5");
        reveal_strlit("6");
        reveal_strlit("7");
        reveal_strlit("8");
        reveal_strlit("9");
        reveal_strlit("a");
        reveal_strlit("b");
        reveal_strlit("c");
        reveal_strlit("d");
        reveal_strlit("e");
        reveal_strlit("f");
    }
    digits[i as usize]
}

/// Append the digits of the bits of `mask` that are set, up to bit `top`.
fn append_bits(out: &mut String, mask: u32, top: u32)
    requires
        top < 16,
    ensures
        final(out)@ == old(out)@ + set_bits(mask, 0, top as nat),
{
    let mut i: u32 = 0;
    while i <= top
        invariant
            top < 16,
            i <= top + 1,
            out@ + set_bits(mask, i as nat, top as nat) == old(out)@ + set_bits(mask, 0, top as nat),
        decreases top + 1 - i,
    {
        let ghost prev = out@;
        if mask & (1u32 << i) != 0 {
            out.append(hex_digit(i));
        }
        proof {
            assert(set_bits(mask, i as nat, top as nat) == (if mask & (1u32 << (i as u32)) != 0 {
                seq![hex_char(i as nat)]
            } else {
                seq![]
            }) + set_bits(mask, (i + 1) as nat, top as nat));
            let d = if mask & (1u32 << (i as u32)) != 0 {
                seq![hex_char(i as nat)]
            } else {
                seq![]
            };
            assert(out@ == prev + d);
            vstd::seq_lib::lemma_concat_associative(prev, d, set_bits(mask, (i + 1) as nat, top as nat));
        }
        i = i + 1;
    }
    assert(set_bits(mask, i as nat, top as nat) == Seq::<char>::empty());
    assert(out@ + Seq::<char>::empty() =~= out@);
}

} // verus!
