//! The exclusion filter: compiled regular-expression patterns, and the
//! decision whether a path's full string representation is excluded.
//!
//! Compilation and matching are done by the `regex` crate; both are
//! deterministic functions of the pattern and the haystack, so their results
//! are named by the uninterpreted functions [`spec_pattern_ok`] and
//! [`spec_regex_match`], and every contract above them speaks through those
//! names.

use vstd::prelude::*;
use vstd::string::StringExecFns;

verus! {

#[verifier::external_type_specification]
#[verifier::external_body]
pub struct ExRegex(regex::Regex);

/// Whether `regex::Regex::new` accepts the pattern; compilation succeeds or
/// fails on the pattern text alone.
pub uninterp spec fn spec_pattern_ok(pattern: Seq<char>) -> bool;

/// Whether the compiled pattern matches anywhere in the text, as
/// `regex::Regex::is_match` decides it; the answer depends on the pattern
/// and the text alone.
pub uninterp spec fn spec_regex_match(pattern: Seq<char>, text: Seq<char>) -> bool;

/// One exclusion pattern, kept together with the text it was compiled from.
/// The fields stay private: every value is built by [`compile_pattern`], so
/// `regex` is always the compiled form of `pattern`.
pub struct CompiledPattern {
    pattern: String,
    regex: regex::Regex,
}

impl CompiledPattern {
    /// The pattern text this exclusion rule was compiled from.
    pub closed spec fn spec_pattern(&self) -> Seq<char> {
        self.pattern@
    }
}

/// Relies on `regex::Regex::new`: it compiles the pattern or reports why it
/// is invalid, deciding on the pattern text alone.
#[verifier::external_body]
fn compile_pattern(pattern: &str) -> (r: Result<CompiledPattern, String>)
    ensures
        r is Ok <==> spec_pattern_ok(pattern@),
        r is Ok ==> r->Ok_0.spec_pattern() == pattern@,
{
    match regex::Regex::new(pattern) {
        Ok(re) => Ok(CompiledPattern { pattern: pattern.to_string(), regex: re }),
        Err(e) => Err(e.to_string()),
    }
}

/// Relies on `regex::Regex::is_match`: true iff the pattern matches anywhere
/// in the text, a function of the pattern and the text alone.
#[verifier::external_body]
fn pattern_is_match(p: &CompiledPattern, text: &str) -> (r: bool)
    ensures
        r == spec_regex_match(p.spec_pattern(), text@),
{
    p.regex.is_match(text)
}

/// The pattern texts of a compiled exclusion list.
pub open spec fn spec_patterns_of(ps: Seq<CompiledPattern>) -> Seq<Seq<char>> {
    ps.map_values(|p: CompiledPattern| p.spec_pattern())
}

/// A path is excluded when any pattern of the list matches its full string.
pub open spec fn spec_excluded(patterns: Seq<Seq<char>>, path: Seq<char>) -> bool {
    exists|i: int| 0 <= i < patterns.len() && spec_regex_match(patterns[i], path)
}

/// Whether any of the compiled patterns matches the path string.
pub fn is_excluded(patterns: &Vec<CompiledPattern>, path: &str) -> (r: bool)
    ensures
        r == spec_excluded(spec_patterns_of(patterns@), path@),
{
    let ghost views = spec_patterns_of(patterns@);
    let mut i: usize = 0;
    while i < patterns.len()
        invariant
            i <= patterns.len(),
            views == spec_patterns_of(patterns@),
            forall|k: int| 0 <= k < i ==> !spec_regex_match(views[k], path@),
        decreases patterns.len() - i,
    {
        if pattern_is_match(&patterns[i], path) {
            assert(spec_regex_match(views[i as int], path@));
            return true;
        }
        i = i + 1;
    }
    false
}

/// Compiles every pattern of the optional list, in order; the first invalid
/// pattern aborts with a message naming it. `None` means no exclusions.
pub fn compile_patterns(patterns: &Option<Vec<String>>) -> (r: Result<
    Vec<CompiledPattern>,
    String,
>)
    ensures
        match r {
            Ok(compiled) => {
                &&& (forall|i: int|
                    0 <= i < compiled@.len() ==> spec_pattern_ok(
                        #[trigger] compiled@[i].spec_pattern(),
                    ))
                &&& match *patterns {
                    Some(ps) => compiled@.len() == ps@.len() && (forall|i: int|
                        0 <= i < ps@.len() ==> #[trigger] compiled@[i].spec_pattern() == ps@[i]@),
                    None => compiled@.len() == 0,
                }
            },
            Err(msg) => {
                &&& *patterns is Some
                &&& exists|i: int, detail: Seq<char>|
                    {
                        &&& 0 <= i < patterns->Some_0@.len()
                        &&& !spec_pattern_ok(patterns->Some_0@[i]@)
                        &&& (forall|k: int|
                            0 <= k < i ==> spec_pattern_ok(#[trigger] patterns->Some_0@[k]@))
                        &&& msg@ == #[trigger] spec_invalid_pattern_msg(
                            patterns->Some_0@[i]@,
                            detail,
                        )
                    }
            },
        },
{
    let mut compiled: Vec<CompiledPattern> = Vec::new();
    match patterns.as_ref() {
        None => Ok(compiled),
        Some(ps) => {
            assert((*patterns)->Some_0@ == ps@);
            let ghost views = ps.deep_view();
            let mut i: usize = 0;
            while i < ps.len()
                invariant
                    i <= ps.len(),
                    *patterns is Some,
                    (*patterns)->Some_0@ == ps@,
                    views == ps.deep_view(),
                    compiled@.len() == i,
                    forall|k: int| 0 <= k < i ==> #[trigger] compiled@[k].spec_pattern() == views[k],
                    forall|k: int|
                        0 <= k < i ==> spec_pattern_ok(#[trigger] compiled@[k].spec_pattern()),
                decreases ps.len() - i,
            {
                match compile_pattern(ps[i].as_str()) {
                    Ok(p) => {
                        compiled.push(p);
                    },
                    Err(detail) => {
                        let msg = String::from_str("Invalid regex pattern '").concat(
                            ps[i].as_str(),
                        ).concat("': ").concat(detail.as_str());
                        proof {
                            let wi = i as int;
                            let d = detail@;
                            assert(forall|k: int| 0 <= k < ps@.len() ==> views[k] == #[trigger] ps@[k]@);
                            assert(!spec_pattern_ok(ps@[wi]@));
                            assert forall|k: int| 0 <= k < wi implies spec_pattern_ok(
                                #[trigger] ps@[k]@,
                            ) by {
                                assert(compiled@[k].spec_pattern() == views[k]);
                            }
                            assert(msg@ == #[trigger] spec_invalid_pattern_msg(ps@[wi]@, d));
                            assert(*patterns is Some);
                            assert((*patterns)->Some_0@ == ps@);
                            assert({
                                &&& 0 <= wi < (*patterns)->Some_0@.len()
                                &&& !spec_pattern_ok((*patterns)->Some_0@[wi]@)
                                &&& (forall|k: int|
                                    0 <= k < wi ==> spec_pattern_ok(
                                        #[trigger] (*patterns)->Some_0@[k]@,
                                    ))
                                &&& msg@ == #[trigger] spec_invalid_pattern_msg(
                                    (*patterns)->Some_0@[wi]@,
                                    d,
                                )
                            });
                        }
                        return Err(msg);
                    },
                }
                i = i + 1;
            }
            proof {
                assert(spec_patterns_of(compiled@) =~= views);
            }
            Ok(compiled)
        },
    }
}

/// The rejection message for a pattern the regex engine refuses; `detail` is
/// the engine's own description of the fault.
pub open spec fn spec_invalid_pattern_msg(pattern: Seq<char>, detail: Seq<char>) -> Seq<char> {
    "Invalid regex pattern '"@ + pattern + "': "@ + detail
}

} // verus!
