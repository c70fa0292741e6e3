//! Glob patterns, tested against the string form of a file path.
use vstd::prelude::*;

verus! {

#[verifier::external_type_specification]
#[verifier::external_body]
pub struct ExPattern(glob::Pattern);

#[verifier::external_type_specification]
#[verifier::external_body]
pub struct ExGlobPatternError(glob::PatternError);

/// Whether glob's parser accepts the text as a pattern.
pub uninterp spec fn glob_accepts(text: Seq<char>) -> bool;

/// Whether the text `path` matches the glob pattern written as `pattern`,
/// with glob's default match options.
pub uninterp spec fn glob_match(pattern: Seq<char>, path: Seq<char>) -> bool;

/// Relies on `glob::Pattern::new`: whether it accepts a text depends on the
/// text alone.
#[verifier::external_body]
fn compile_glob(text: &str) -> (r: Result<glob::Pattern, glob::PatternError>)
    ensures
        r is Ok <==> glob_accepts(text@),
{
    glob::Pattern::new(text)
}

/// Relies on `glob::Pattern::matches`: the outcome depends on the pattern's
/// text and the tested text alone. The compiled pattern held by a `GlobPattern`
/// is always the one compiled from its text (`GlobPattern::new` is the only
/// constructor, and cloning copies both).
#[verifier::external_body]
fn glob_matches(p: &GlobPattern, path: &str) -> (r: bool)
    ensures
        r == glob_match(p@, path@),
{
    p.compiled.matches(path)
}

/// Relies on `Clone` of `glob::Pattern`, which copies the compiled pattern.
#[verifier::external_body]
fn clone_compiled(p: &glob::Pattern) -> (r: glob::Pattern) {
    p.clone()
}

/// A compiled glob pattern together with the text it was compiled from.
pub struct GlobPattern {
    source: String,
    compiled: glob::Pattern,
}

/// A glob text that does not compile.
pub struct GlobError {
    /// The refused text.
    pub pattern: String,
}

impl View for GlobPattern {
    type V = Seq<char>;

    /// A pattern is seen as the text it was compiled from.
    closed spec fn view(&self) -> Seq<char> {
        self.source@
    }
}

impl Clone for GlobPattern {
    fn clone(&self) -> (r: Self)
        ensures
            r@ == self@,
    {
        GlobPattern { source: self.source.clone(), compiled: clone_compiled(&self.compiled) }
    }
}

impl GlobPattern {
    /// Compiles `text`; fails exactly when glob refuses its syntax.
    pub fn new(text: &str) -> (r: Result<GlobPattern, GlobError>)
        ensures
            r is Ok <==> glob_accepts(text@),
            r matches Ok(p) ==> p@ == text@,
            r matches Err(e) ==> e.pattern@ == text@,
    {
        match compile_glob(text) {
            Ok(compiled) => Ok(GlobPattern { source: text.to_owned(), compiled }),
            Err(_) => Err(GlobError { pattern: text.to_owned() }),
        }
    }

    /// The text the pattern was compiled from.
    pub fn as_str(&self) -> (r: &str)
        ensures
            r@ == self@,
    {
        self.source.as_str()
    }

    /// Whether `path` matches this pattern.
    pub fn matches(&self, path: &str) -> (r: bool)
        ensures
            r == glob_match(self@, path@),
    {
        glob_matches(self, path)
    }
}

/// The texts of a list of patterns.
pub open spec fn pattern_texts(pats: Seq<GlobPattern>) -> Seq<Seq<char>> {
    pats.map_values(|p: GlobPattern| p@)
}

/// Whether `path` matches at least one of the patterns written as `pats`.
pub open spec fn matches_any(pats: Seq<Seq<char>>, path: Seq<char>) -> bool {
    exists|i: int| 0 <= i < pats.len() && #[trigger] glob_match(pats[i], path)
}

/// Whether `path` matches at least one pattern of `pats`.
pub fn any_matches(pats: &Vec<GlobPattern>, path: &str) -> (r: bool)
    ensures
        r == matches_any(pattern_texts(pats@), path@),
{
    let ghost texts = pattern_texts(pats@);
    let mut i: usize = 0;
    while i < pats.len()
        invariant
            i <= pats.len(),
            texts == pattern_texts(pats@),
            forall|j: int| 0 <= j < i ==> !glob_match(#[trigger] texts[j], path@),
        decreases pats.len() - i,
    {
        if pats[i].matches(path) {
            assert(glob_match(texts[i as int], path@));
            return true;
        }
        i = i + 1;
    }
    false
}

/// Copies a list of patterns.
pub fn clone_patterns(pats: &Vec<GlobPattern>) -> (r: Vec<GlobPattern>)
    ensures
        pattern_texts(r@) == pattern_texts(pats@),
{
    let mut r: Vec<GlobPattern> = Vec::new();
    let mut i: usize = 0;
    while i < pats.len()
        invariant
            i <= pats.len(),
            r.len() == i,
            forall|j: int| 0 <= j < i ==> (#[trigger] r@[j])@ == pats@[j]@,
        decreases pats.len() - i,
    {
        r.push(pats[i].clone());
        i = i + 1;
    }
    assert(pattern_texts(r@) =~= pattern_texts(pats@));
    r
}

} // verus!
