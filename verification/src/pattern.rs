use vstd::prelude::*;
use crate::errors::SyncError;
use crate::text::{split_on, split_str};

verus! {

/// Whether glob accepts this text as a pattern. This names the outcome of
/// `glob::Pattern::new`, which depends on the pattern text alone.
pub uninterp spec fn glob_pattern_ok(pattern: Seq<char>) -> bool;

/// Whether the pattern matches the name under glob's rules with
/// case-insensitive matching and no literal-separator or leading-dot
/// requirement. This names the outcome of `glob::Pattern::matches_with` on a
/// compiled pattern, which depends on the pattern text and the name alone.
pub uninterp spec fn glob_match_ci(pattern: Seq<char>, name: Seq<char>) -> bool;

/// Relies on glob::Pattern::new: whether a pattern text compiles is a
/// function of the text alone.
#[verifier::external_body]
fn pattern_compiles(pattern: &str) -> (r: bool)
    ensures
        r == glob_pattern_ok(pattern@),
{
    glob::Pattern::new(pattern).is_ok()
}

/// Relies on glob::Pattern::new and glob::Pattern::matches_with: for a
/// pattern text that compiles, whether a name matches under the fixed,
/// case-insensitive options is a function of the text and the name alone.
#[verifier::external_body]
fn pattern_matches(pattern: &str, name: &str) -> (r: bool)
    requires
        glob_pattern_ok(pattern@),
    ensures
        r == glob_match_ci(pattern@, name@),
{
    let options = glob::MatchOptions {
        case_sensitive: false,
        require_literal_separator: false,
        require_literal_leading_dot: false,
    };
    match glob::Pattern::new(pattern) {
        Ok(p) => p.matches_with(name, options),
        Err(_) => false,
    }
}

/// A mode's file mask, compiled: the glob patterns of its semicolon-delimited
/// segments, matched as one OR-combined set.
#[derive(Debug)]
pub struct PatternSet {
    segments: Vec<String>,
}

impl View for PatternSet {
    type V = Seq<Seq<char>>;

    closed spec fn view(&self) -> Seq<Seq<char>> {
        self.segments@.map_values(|s: String| s@)
    }
}

/// A name matches a pattern set iff it matches at least one of its patterns.
pub open spec fn set_matches(patterns: Seq<Seq<char>>, name: Seq<char>) -> bool {
    exists|i: int| 0 <= i < patterns.len() && glob_match_ci(#[trigger] patterns[i], name)
}

/// Whether a mask splits on `';'` into segments that are all nonempty and
/// all accepted by glob: the condition under which a pattern set can be
/// built from it.
pub open spec fn valid_mask(mask: Seq<char>) -> bool {
    forall|i: int| 0 <= i < split_on(mask, ';').len() ==> {
        &&& (#[trigger] split_on(mask, ';')[i]).len() > 0
        &&& glob_pattern_ok(split_on(mask, ';')[i])
    }
}

impl PatternSet {
    #[verifier::type_invariant]
    spec fn wf(self) -> bool {
        forall|i: int|
            0 <= i < self.segments@.len() ==> glob_pattern_ok(#[trigger] self.segments@[i]@)
    }

    /// Compiles a semicolon-delimited file mask. An empty segment (as a
    /// trailing `';'` leaves) or a segment glob rejects is an invalid
    /// pattern; the whole mask is then refused.
    pub fn new(mask: &str) -> (r: Result<PatternSet, SyncError>)
        ensures
            r is Ok <==> valid_mask(mask@),
            r matches Ok(ps) ==> ps@ == split_on(mask@, ';'),
            r matches Err(e) ==> e == SyncError::InvalidPattern,
    {
        let segments = split_str(mask, ';');
        let n = segments.len();
        for i in 0..n
            invariant
                n == segments@.len(),
                segments@.map_values(|s: String| s@) == split_on(mask@, ';'),
                forall|j: int| 0 <= j < i ==> {
                    &&& (#[trigger] segments@[j]@).len() > 0
                    &&& glob_pattern_ok(segments@[j]@)
                },
        {
            proof {
                assert(split_on(mask@, ';')[i as int] == segments@[i as int]@);
            }
            if segments[i].as_str().unicode_len() == 0 {
                return Err(SyncError::InvalidPattern);
            }
            if !pattern_compiles(segments[i].as_str()) {
                return Err(SyncError::InvalidPattern);
            }
        }
        proof {
            assert(forall|j: int| 0 <= j < n ==> split_on(mask@, ';')[j] == segments@[j]@);
        }
        Ok(PatternSet { segments })
    }

    /// Whether the name matches any pattern of the set.
    pub fn matches(&self, name: &str) -> (r: bool)
        ensures
            r == set_matches(self@, name@),
    {
        proof {
            use_type_invariant(self);
        }
        let n = self.segments.len();
        for i in 0..n
            invariant
                n == self.segments@.len(),
                self.wf(),
                forall|j: int| 0 <= j < i ==> !glob_match_ci(#[trigger] self@[j], name@),
        {
            if pattern_matches(self.segments[i].as_str(), name) {
                assert(glob_match_ci(self@[i as int], name@));
                return true;
            }
            assert(!glob_match_ci(self@[i as int], name@));
        }
        false
    }

    /// The number of patterns in the set.
    pub fn len(&self) -> (r: usize)
        ensures
            r == self@.len(),
    {
        self.segments.len()
    }

    /// The pattern texts, as they stood between the semicolons of the mask.
    pub fn segments(&self) -> (r: &Vec<String>)
        ensures
            r@.map_values(|s: String| s@) == self@,
    {
        &self.segments
    }
}

} // verus!
