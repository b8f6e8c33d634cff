use vstd::prelude::*;
use crate::text::{lower_of, to_lowercase};

verus! {

/// One named update mode of the configuration: a name, the
/// semicolon-delimited glob patterns of its file mask, and the default
/// flag.
pub struct UpdateMode {
    pub name: String,
    pub file_mask: String,
    /// Read from configuration but never consulted: a fallback for a run
    /// without a mode name is not implemented, and resolution stays a
    /// strict lookup by name.
    pub is_default: bool,
}

/// The loaded configuration: the store's connection string, opaque to the
/// core, and the ordered update modes.
pub struct Config {
    pub connection_string: String,
    pub update_mode: Vec<UpdateMode>,
}

/// Whether a mode's name matches the requested name: the two are equal
/// once both are Unicode-lowercased.
pub open spec fn mode_matches(m: UpdateMode, name: Seq<char>) -> bool {
    lower_of(m.name@) == lower_of(name)
}

/// Whether any mode of the configuration matches the name.
pub open spec fn has_mode(modes: Seq<UpdateMode>, name: Seq<char>) -> bool {
    exists|i: int| 0 <= i < modes.len() && mode_matches(#[trigger] modes[i], name)
}

/// The position of the first mode matching the name.
pub open spec fn first_mode_idx(modes: Seq<UpdateMode>, name: Seq<char>) -> int
    decreases modes.len(),
{
    if modes.len() == 0 {
        0
    } else if mode_matches(modes[0], name) {
        0
    } else {
        1 + first_mode_idx(modes.skip(1), name)
    }
}

proof fn lemma_first_mode_idx(modes: Seq<UpdateMode>, name: Seq<char>, i: int)
    requires
        0 <= i < modes.len(),
        mode_matches(modes[i], name),
        forall|j: int| 0 <= j < i ==> !mode_matches(#[trigger] modes[j], name),
    ensures
        first_mode_idx(modes, name) == i,
    decreases i,
{
    if i > 0 {
        assert forall|j: int| 0 <= j < i - 1 implies !mode_matches(
            #[trigger] modes.skip(1)[j],
            name,
        ) by {
            assert(modes.skip(1)[j] == modes[j + 1]);
        }
        assert(modes.skip(1)[i - 1] == modes[i]);
        lemma_first_mode_idx(modes.skip(1), name, i - 1);
    }
}

/// Finds the position of the first update mode whose name matches the
/// requested one once both are lowercased; `None` when no mode matches.
pub fn find_mode(modes: &Vec<UpdateMode>, name: &str) -> (r: Option<usize>)
    ensures
        r matches Some(i) ==> i < modes@.len() && has_mode(modes@, name@) && i == first_mode_idx(
            modes@,
            name@,
        ),
        r is None <==> !has_mode(modes@, name@),
{
    let wanted = to_lowercase(name);
    let n = modes.len();
    for i in 0..n
        invariant
            n == modes@.len(),
            wanted@ == lower_of(name@),
            forall|j: int| 0 <= j < i ==> !mode_matches(#[trigger] modes@[j], name@),
    {
        let folded = to_lowercase(modes[i].name.as_str());
        if folded.eq(&wanted) {
            proof {
                assert(mode_matches(modes@[i as int], name@));
                lemma_first_mode_idx(modes@, name@, i as int);
            }
            return Some(i);
        }
        assert(!mode_matches(modes@[i as int], name@));
    }
    None
}

} // verus!
