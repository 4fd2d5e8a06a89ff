use vstd::prelude::*;

verus! {

/// What a creature eats; fixed at birth and inherited by offspring.
#[derive(PartialEq, Eq, Structural, Clone, Copy, Debug)]
pub enum Diet {
    Herbivore,
    Carnivore,
}

/// Brain topology shared by every creature of a world.
#[derive(PartialEq, Eq, Structural, Clone, Copy, Debug)]
pub enum BrainMode {
    /// Compact topology: 14 inputs, 8 hidden, 8 outputs.
    OG,
    /// Extended topology: 24 inputs, 16 hidden, 6 outputs.
    Zegion,
}

/// Layer sizes, input layer first, of the topology `mode`.
pub open spec fn layer_sizes_spec(mode: BrainMode) -> Seq<u32> {
    match mode {
        BrainMode::OG => seq![14u32, 8u32, 8u32],
        BrainMode::Zegion => seq![24u32, 16u32, 6u32],
    }
}

pub fn layer_sizes(mode: BrainMode) -> (r: Vec<u32>)
    ensures
        r@ == layer_sizes_spec(mode),
{
    let r = match mode {
        BrainMode::OG => vec![14u32, 8u32, 8u32],
        BrainMode::Zegion => vec![24u32, 16u32, 6u32],
    };
    assert(r@ =~= layer_sizes_spec(mode));
    r
}

/// Number of features the topology `mode` feeds its brains.
pub fn input_size(mode: BrainMode) -> (n: usize)
    ensures
        n == layer_sizes_spec(mode)[0],
{
    match mode {
        BrainMode::OG => 14,
        BrainMode::Zegion => 24,
    }
}

/// ASCII lower case of `c`; other characters unchanged.
pub open spec fn ascii_lower(c: char) -> char {
    if 'A' <= c <= 'Z' {
        ((c as u32) + 32) as char
    } else {
        c
    }
}

/// Name of the extended topology, in lower case.
pub open spec fn extended_mode_name() -> Seq<char> {
    seq!['z', 'e', 'g', 'i', 'o', 'n']
}

/// Whether `s` names the extended topology, ignoring ASCII case.
pub open spec fn names_extended(s: Seq<char>) -> bool {
    s.len() == extended_mode_name().len() && forall|i: int|
        0 <= i < s.len() ==> ascii_lower(#[trigger] s[i]) == extended_mode_name()[i]
}

fn lower_char(c: char) -> (r: char)
    ensures
        r == ascii_lower(c),
{
    if 'A' <= c && c <= 'Z' {
        ((c as u32) + 32) as u8 as char
    } else {
        c
    }
}

/// Topology named by `mode`: the extended one for "Zegion" in any ASCII case,
/// the compact one for anything else.
pub fn parse_brain_mode(mode: &str) -> (r: BrainMode)
    ensures
        (r == BrainMode::Zegion) == names_extended(mode@),
{
    let target = ['z', 'e', 'g', 'i', 'o', 'n'];
    assert(target@ =~= extended_mode_name());
    let n = mode.unicode_len();
    if n != 6 {
        return BrainMode::OG;
    }
    let mut i: usize = 0;
    while i < 6
        invariant
            n == mode@.len(),
            n == 6,
            i <= 6,
            target@ == extended_mode_name(),
            forall|k: int| 0 <= k < i ==> ascii_lower(#[trigger] mode@[k]) == extended_mode_name()[k],
        decreases 6 - i,
    {
        let c = lower_char(mode.get_char(i));
        if c != target[i] {
            return BrainMode::OG;
        }
        i = i + 1;
    }
    BrainMode::Zegion
}

} // verus!
