//! Ignore-pattern sets.
//!
//! A watched directory carries a list of textual regular-expression
//! patterns (its own plus the global ones).  The list is compiled once
//! into an [`IgnoreSet`]; a path is ignored when *any* pattern of the
//! set matches it.  A normal filter keeps the paths the set does not
//! match; the inverted filter keeps exactly the ones it does.
//!
//! The regular-expression engine itself is the `fancy_regex` crate.
//! What a pattern matches is not restated here: `regex_ok` and
//! `regex_match` name the engine's answers, and every contract above
//! them speaks in those names.

use vstd::prelude::*;

verus! {

/// Whether the engine accepts this pattern text.  Names the success of
/// `fancy_regex::Regex::new`, which depends on the pattern alone.
pub uninterp spec fn regex_ok(pattern: Seq<char>) -> bool;

/// The engine's answer when the pattern is run over this text.  Names
/// the outcome of `fancy_regex::Regex::is_match` on the matcher
/// compiled from `pattern`, which depends on the pattern and the text
/// alone.
pub uninterp spec fn regex_match(pattern: Seq<char>, text: Seq<u8>) -> bool;

/// The engine's compiled matcher type, `fancy_regex::Regex`, declared
/// opaquely so values of it can sit in fields.
#[verifier::external_type_specification]
#[verifier::external_body]
pub struct ExRegex(fancy_regex::Regex);

/// The engine's error type, `fancy_regex::Error`, as `Regex::new`
/// returns it.
#[verifier::external_type_specification]
#[verifier::external_body]
pub struct ExRegexError(fancy_regex::Error);

/// One ignore pattern together with its compiled matcher.
///
/// The matcher is always the one compiled from `pattern`: values exist
/// only through `compile_pattern`, which builds both halves from the
/// same text.
#[derive(Debug)]
pub struct CompiledPattern {
    pattern: String,
    regex: fancy_regex::Regex,
}

/// Failure to compile an ignore pattern, carrying the pattern at fault.
#[derive(Debug)]
pub struct PatternError {
    pub pattern: String,
}

/// Relies on `fancy_regex::Regex::new`: whether a pattern compiles
/// depends on the pattern text alone, and `regex_ok` names that
/// outcome.  On success the pair holds the compiled matcher beside the
/// text it was compiled from.
#[verifier::external_body]
fn compile_pattern(pattern: &String) -> (r: Result<CompiledPattern, fancy_regex::Error>)
    ensures
        r is Ok <==> regex_ok(pattern@),
        r is Ok ==> r->Ok_0.pattern@ == pattern@,
{
    match fancy_regex::Regex::new(pattern.as_str()) {
        Ok(re) => Ok(CompiledPattern { pattern: pattern.clone(), regex: re }),
        Err(e) => Err(e),
    }
}

/// Relies on `fancy_regex::Regex::is_match`: the answer depends on the
/// pattern and the text alone, and `regex_match` names it.  The path
/// bytes are matched as UTF-8; a path that is not UTF-8 is matched as
/// the empty text, and a query the engine gives up on counts as a
/// match.
#[verifier::external_body]
fn pattern_matches(p: &CompiledPattern, text: &Vec<u8>) -> (r: bool)
    ensures
        r == regex_match(p.pattern@, text@),
{
    match p.regex.is_match(core::str::from_utf8(text.as_slice()).unwrap_or("")) {
        Ok(m) => m,
        Err(_) => true,
    }
}

/// The views of a list of pattern strings.
pub open spec fn string_views(s: Seq<String>) -> Seq<Seq<char>> {
    s.map_values(|p: String| p@)
}

/// Whether some pattern of the set matches the text: the ignore
/// decision for a path.
pub open spec fn ignore_matches(pats: Seq<Seq<char>>, text: Seq<u8>) -> bool {
    exists|i: int| 0 <= i < pats.len() && regex_match(#[trigger] pats[i], text)
}

/// A compiled set of ignore patterns.  Its view is the sequence of
/// pattern texts it was compiled from.
#[derive(Debug)]
pub struct IgnoreSet {
    patterns: Vec<CompiledPattern>,
}

impl View for IgnoreSet {
    type V = Seq<Seq<char>>;

    closed spec fn view(&self) -> Seq<Seq<char>> {
        self.patterns@.map_values(|p: CompiledPattern| p.pattern@)
    }
}

impl IgnoreSet {
    /// Compile a list of patterns into a set.  Succeeds exactly when
    /// every pattern compiles; a failure carries the first pattern the
    /// engine refuses.
    pub fn compile(patterns: &Vec<String>) -> (r: Result<IgnoreSet, PatternError>)
        ensures
            r is Ok <==> (forall|i: int|
                0 <= i < patterns@.len() ==> regex_ok(#[trigger] string_views(patterns@)[i])),
            r is Ok ==> r->Ok_0@ == string_views(patterns@),
            r is Err ==> exists|i: int|
                {
                    &&& 0 <= i < patterns@.len()
                    &&& !regex_ok(#[trigger] string_views(patterns@)[i])
                    &&& r->Err_0.pattern@ == string_views(patterns@)[i]
                    &&& forall|k: int| 0 <= k < i ==> regex_ok(#[trigger] string_views(patterns@)[k])
                },
    {
        let mut compiled: Vec<CompiledPattern> = Vec::new();
        let n = patterns.len();
        for i in 0..n
            invariant
                n == patterns@.len(),
                compiled@.len() == i,
                forall|k: int|
                    0 <= k < i ==> #[trigger] compiled@[k].pattern@ == string_views(patterns@)[k],
                forall|k: int| 0 <= k < i ==> regex_ok(#[trigger] string_views(patterns@)[k]),
        {
            match compile_pattern(&patterns[i]) {
                Ok(cp) => {
                    compiled.push(cp);
                },
                Err(_) => {
                    proof {
                        assert(string_views(patterns@)[i as int] == patterns@[i as int]@);
                        assert(!regex_ok(string_views(patterns@)[i as int]));
                    }
                    return Err(PatternError { pattern: patterns[i].clone() });
                },
            }
        }
        let s = IgnoreSet { patterns: compiled };
        proof {
            assert(s@ =~= string_views(patterns@));
        }
        Ok(s)
    }

    /// How many patterns the set holds.
    pub fn len(&self) -> (n: usize)
        ensures
            n == self@.len(),
    {
        self.patterns.len()
    }

    /// Whether any pattern of the set matches the path.  The empty set
    /// matches nothing.
    pub fn matches(&self, text: &Vec<u8>) -> (r: bool)
        ensures
            r == ignore_matches(self@, text@),
    {
        let n = self.patterns.len();
        for i in 0..n
            invariant
                n == self@.len(),
                n == self.patterns@.len(),
                forall|k: int| 0 <= k < i ==> !regex_match(#[trigger] self@[k], text@),
        {
            if pattern_matches(&self.patterns[i], text) {
                proof {
                    assert(regex_match(self@[i as int], text@));
                }
                return true;
            }
        }
        false
    }
}

/// The empty pattern set matches no path at all.
pub proof fn lemma_empty_ignores_nothing(text: Seq<u8>)
    ensures
        !ignore_matches(Seq::<Seq<char>>::empty(), text),
{
}

} // verus!
