//! The exclude filter: drops changed paths that match any configured
//! regular expression before URLs are built. Exclusion never touches the
//! store, only the submission list.

use vstd::prelude::*;
use crate::config::ConfigError;

verus! {

/// Whether `regex::Regex::new` accepts `pat` (a function of the pattern
/// alone).
pub uninterp spec fn regex_valid(pat: Seq<char>) -> bool;

/// Whether the regular expression written `pat` matches somewhere inside
/// `text` (a function of pattern and text alone).
pub uninterp spec fn regex_matches(pat: Seq<char>, text: Seq<char>) -> bool;

/// Relies on `regex::Regex::new`: whether the pattern compiles; the same
/// pattern always compiles to the same verdict.
#[verifier::external_body]
fn regex_check(pat: &str) -> (r: bool)
    ensures
        r == regex_valid(pat@),
{
    regex::Regex::new(pat).is_ok()
}

/// Relies on `regex::Regex::new` and `regex::Regex::is_match`: for a
/// pattern known to compile, whether it matches somewhere in `text`; the
/// same pattern and text always give the same answer.
#[verifier::external_body]
fn regex_is_match(pat: &str, text: &str) -> (r: bool)
    requires
        regex_valid(pat@),
    ensures
        r == regex_matches(pat@, text@),
{
    match regex::Regex::new(pat) {
        Ok(re) => re.is_match(text),
        Err(_) => false,
    }
}

/// Whether any pattern of the set matches the path.
pub open spec fn matches_any(pats: Seq<Seq<char>>, p: Seq<char>) -> bool {
    exists|i: int| 0 <= i < pats.len() && regex_matches(#[trigger] pats[i], p)
}

/// The paths that survive the exclude set, in their given order.
pub open spec fn apply_excludes_spec(pats: Seq<Seq<char>>, paths: Seq<String>) -> Seq<String>
    decreases paths.len(),
{
    if paths.len() == 0 {
        Seq::empty()
    } else {
        let rest = apply_excludes_spec(pats, paths.drop_last());
        if matches_any(pats, paths.last()@) {
            rest
        } else {
            rest.push(paths.last())
        }
    }
}

/// A path matching any configured pattern never survives the filter.
pub proof fn lemma_exclude_correct(pats: Seq<Seq<char>>, paths: Seq<String>)
    ensures
        forall|j: int|
            0 <= j < apply_excludes_spec(pats, paths).len() ==> !matches_any(
                pats,
                (#[trigger] apply_excludes_spec(pats, paths)[j])@,
            ),
    decreases paths.len(),
{
    if paths.len() > 0 {
        lemma_exclude_correct(pats, paths.drop_last());
        let rest = apply_excludes_spec(pats, paths.drop_last());
        let whole = apply_excludes_spec(pats, paths);
        assert forall|j: int| 0 <= j < whole.len() implies !matches_any(
            pats,
            (#[trigger] whole[j])@,
        ) by {
            if j < rest.len() {
                assert(whole[j] == rest[j]);
            } else {
                assert(whole[j] == paths.last());
            }
        }
    }
}

/// The compiled exclude set: an ordered list of patterns, each known to
/// be a valid regular expression.
pub struct ExcludeSet {
    patterns: Vec<String>,
}

impl ExcludeSet {
    /// Every held pattern is a valid regular expression.
    #[verifier::type_invariant]
    spec fn wf(self) -> bool {
        forall|i: int|
            0 <= i < self.patterns@.len() ==> regex_valid((#[trigger] self.patterns@[i])@)
    }

    /// The patterns this set applies, in evaluation order.
    pub closed spec fn spec_patterns(self) -> Seq<Seq<char>> {
        self.patterns@.map_values(|s: String| s@)
    }

    /// Compiles an exclude set, validating every pattern; fails with the
    /// first malformed pattern, exactly when one exists.
    pub fn new(patterns: Vec<String>) -> (r: Result<ExcludeSet, ConfigError>)
        ensures
            r is Ok <==> (forall|i: int|
                0 <= i < patterns@.len() ==> regex_valid((#[trigger] patterns@[i])@)),
            r matches Ok(s) ==> s.spec_patterns() == patterns@.map_values(|s: String| s@),
            r matches Err(e) ==> (e matches ConfigError::InvalidExclude(p) && exists|i: int|
                0 <= i < patterns@.len() && (#[trigger] patterns@[i])@ == p@ && !regex_valid(p@)),
    {
        let mut i: usize = 0;
        while i < patterns.len()
            invariant
                i <= patterns@.len(),
                forall|j: int| 0 <= j < i ==> regex_valid((#[trigger] patterns@[j])@),
            decreases patterns@.len() - i,
        {
            if !regex_check(patterns[i].as_str()) {
                return Err(ConfigError::InvalidExclude(patterns[i].clone()));
            }
            i = i + 1;
        }
        Ok(ExcludeSet { patterns })
    }

    /// Whether any pattern of the set matches this path.
    pub fn is_excluded(&self, path: &str) -> (r: bool)
        ensures
            r == matches_any(self.spec_patterns(), path@),
    {
        proof {
            use_type_invariant(self);
        }
        let mut i: usize = 0;
        while i < self.patterns.len()
            invariant
                i <= self.patterns@.len(),
                self.wf(),
                forall|j: int|
                    0 <= j < i ==> !regex_matches(#[trigger] self.spec_patterns()[j], path@),
            decreases self.patterns@.len() - i,
        {
            if regex_is_match(self.patterns[i].as_str(), path) {
                assert(regex_matches(self.spec_patterns()[i as int], path@));
                return true;
            }
            i = i + 1;
        }
        false
    }

    /// Drops every path that matches any pattern of the set; the
    /// survivors keep their order. No path of the result matches any
    /// pattern.
    pub fn filter(&self, paths: Vec<String>) -> (r: Vec<String>)
        ensures
            r@ == apply_excludes_spec(self.spec_patterns(), paths@),
            forall|j: int|
                0 <= j < r@.len() ==> !matches_any(self.spec_patterns(), (#[trigger] r@[j])@),
    {
        let mut out: Vec<String> = Vec::new();
        let mut i: usize = 0;
        while i < paths.len()
            invariant
                i <= paths@.len(),
                out@ == apply_excludes_spec(self.spec_patterns(), paths@.take(i as int)),
            decreases paths@.len() - i,
        {
            proof {
                assert(paths@.take(i + 1 as int).drop_last() =~= paths@.take(i as int));
                assert(paths@.take(i + 1 as int).last() == paths@[i as int]);
            }
            if !self.is_excluded(paths[i].as_str()) {
                out.push(paths[i].clone());
            }
            i = i + 1;
        }
        proof {
            assert(paths@.take(paths@.len() as int) =~= paths@);
            lemma_exclude_correct(self.spec_patterns(), paths@);
        }
        out
    }
}

} // verus!
