use vstd::prelude::*;

use crate::request::pairs_view;
use vstd::utf8::encode_utf8;

verus! {

/// The outside pattern-matching engine's trie, held whole behind this
/// opaque struct so that it can stand in fields and signatures. Verus sees
/// nothing inside a value of it; the two names below give its behaviour
/// meaning.
#[verifier::external_body]
pub struct PatternTrie {
    inner: matchit::Router<usize>,
}

/// The patterns registered in a trie, each mapped to its stored value.
pub uninterp spec fn trie_entries(trie: PatternTrie) -> Map<Seq<char>, usize>;

/// What matching a path against a trie yields: the value stored under the
/// matched pattern together with the captured parameters in path order, or
/// nothing. Which pattern a path matches is the engine's own rule; it is a
/// function of the registered patterns and the path alone.
pub uninterp spec fn trie_match(trie: PatternTrie, path: Seq<char>) -> Option<
    (usize, Seq<(Seq<char>, Seq<char>)>),
>;

/// Why the pattern engine refused to register a pattern. All but the last
/// mirror the engine's own insertion errors.
#[derive(Debug)]
pub enum PathError {
    /// The pattern conflicts with one already registered; the conflicting
    /// pattern is named.
    Conflict { with: String },
    /// More than one parameter in one path segment.
    InvalidParamSegment,
    /// A parameter without a valid name or with unbalanced braces.
    InvalidParam,
    /// A catch-all parameter somewhere other than the end of the pattern.
    InvalidCatchAll,
    /// The pattern holds more opening braces than the engine has parameter
    /// names for; it is refused before the engine sees it. The count is
    /// conservative: escaped braces count too.
    TooManyParameters,
    /// A refusal this crate does not name further.
    Refused,
}

/// How many opening braces a byte string holds. The engine names the
/// parameters of one route `a` through `z`, so any route with this many
/// opening braces — each parameter needs one — is beyond it.
pub open spec fn brace_count(bytes: Seq<u8>) -> int
    decreases bytes.len(),
{
    if bytes.len() == 0 {
        0
    } else if bytes.last() == 123 {
        brace_count(bytes.drop_last()) + 1
    } else {
        brace_count(bytes.drop_last())
    }
}

/// The largest number of opening braces a pattern may carry and still be
/// handed to the engine.
pub const MOST_PATTERN_PARAMETERS: usize = 25;

/// Count the opening braces of a pattern.
pub(crate) fn count_braces(pattern: &str) -> (count: usize)
    ensures
        count == brace_count(encode_utf8(pattern@)),
{
    let bytes = pattern.as_bytes();
    let mut count: usize = 0;
    let mut i: usize = 0;
    while i < bytes.len()
        invariant
            0 <= i <= bytes@.len(),
            count <= i,
            count == brace_count(bytes@.take(i as int)),
            bytes@ == encode_utf8(pattern@),
        decreases bytes@.len() - i,
    {
        proof {
            assert(bytes@.take(i + 1).drop_last() =~= bytes@.take(i as int));
            assert(bytes@.take(i + 1).last() == bytes@[i as int]);
        }
        if bytes[i] == 123 {
            count = count + 1;
        }
        i = i + 1;
    }
    proof {
        assert(bytes@.take(bytes@.len() as int) =~= bytes@);
    }
    count
}

/// Whether the engine registers this pattern into this trie: acceptance is
/// a function of the registered patterns and the new pattern alone.
pub uninterp spec fn trie_accepts(trie: PatternTrie, pattern: Seq<char>) -> bool;

/// Whether a pattern consists of literal characters only, so that it matches
/// exactly itself: no parameter braces and no catch-all marker.
pub open spec fn is_literal_route(path: Seq<char>) -> bool {
    forall|i: int|
        0 <= i < path.len() ==> #[trigger] path[i] != '{' && path[i] != '}' && path[i] != '*'
}

/// Relies on matchit::Router::new: a new trie has no routes registered.
#[verifier::external_body]
pub(crate) fn trie_new() -> (fresh: PatternTrie)
    ensures
        trie_entries(fresh) == (Map::<Seq<char>, usize>::empty()),
{
    PatternTrie { inner: matchit::Router::new() }
}

/// Relies on the Clone of matchit::Router, which copies the whole trie: the
/// copy holds the same routes and matches every path as the original does.
#[verifier::external_body]
pub(crate) fn trie_clone(trie: &PatternTrie) -> (copy: PatternTrie)
    ensures
        trie_entries(copy) == trie_entries(*trie),
        forall|path: Seq<char>| #[trigger] trie_match(copy, path) == trie_match(*trie, path),
{
    PatternTrie { inner: trie.inner.clone() }
}

/// Relies on matchit::Router::insert: whether a pattern is taken is decided
/// by the trie and the pattern alone; on success the pattern is registered
/// with the given value; a pattern already registered, or one that overlaps
/// an existing pattern ambiguously, or malformed, is refused with the
/// matching error, and no error path registers anything. The engine aborts
/// on a route with more than twenty-six parameters — it names them `a`
/// through `z` — so such patterns must be kept away from it; the brace bound
/// below suffices, as every parameter opens with a brace. The conflict
/// message is rebuilt from the stored route text, which is relied on to come
/// back as valid text.
#[verifier::external_body]
pub(crate) fn trie_insert(trie: &mut PatternTrie, path: &str, value: usize) -> (outcome:
    Result<(), PathError>)
    requires
        brace_count(encode_utf8(path@)) <= MOST_PATTERN_PARAMETERS,
    ensures
        (outcome is Ok) <==> trie_accepts(*old(trie), path@),
        outcome is Ok ==> trie_entries(*final(trie)) == trie_entries(*old(trie)).insert(
            path@,
            value,
        ),
        outcome is Err ==> trie_entries(*final(trie)) == trie_entries(*old(trie)),
        trie_entries(*old(trie)).contains_key(path@) ==> outcome is Err,
{
    match trie.inner.insert(path, value) {
        Ok(()) => Ok(()),
        Err(matchit::InsertError::Conflict { with }) => Err(PathError::Conflict { with }),
        Err(matchit::InsertError::InvalidParamSegment) => Err(PathError::InvalidParamSegment),
        Err(matchit::InsertError::InvalidParam) => Err(PathError::InvalidParam),
        Err(matchit::InsertError::InvalidCatchAll) => Err(PathError::InvalidCatchAll),
        Err(_) => Err(PathError::Refused),
    }
}

/// Whether some registered pattern stores the given value.
pub open spec fn trie_value_registered(trie: PatternTrie, value: usize) -> bool {
    exists|pattern: Seq<char>|
        #[trigger] trie_entries(trie).contains_key(pattern) && trie_entries(trie)[pattern] == value
}

/// Relies on matchit::Router::at: it answers with the value stored under the
/// pattern the path matches and the parameters captured along the way, or
/// with nothing when no pattern matches. Every answer comes from a
/// registered pattern; a path equal to a registered pattern without
/// parameter or catch-all markers matches that very pattern, capturing
/// nothing.
#[verifier::external_body]
pub(crate) fn trie_at(trie: &PatternTrie, path: &str) -> (found: Option<(usize, Vec<(String, String)>)>)
    ensures
        found matches Some(hit) ==> trie_match(*trie, path@) == Some((hit.0, pairs_view(hit.1@))),
        found is None ==> trie_match(*trie, path@) is None,
        found matches Some(hit) ==> trie_value_registered(*trie, hit.0),
        trie_entries(*trie).contains_key(path@) && is_literal_route(path@) ==> found is Some,
        found matches Some(hit) ==> (trie_entries(*trie).contains_key(path@)
            && is_literal_route(path@) ==> hit.0 == trie_entries(*trie)[path@]
            && hit.1@.len() == 0),
{
    match trie.inner.at(path) {
        Ok(hit) => {
            let mut params: Vec<(String, String)> = Vec::new();
            for (name, value) in hit.params.iter() {
                params.push((name.to_string(), value.to_string()));
            }
            Some((*hit.value, params))
        },
        Err(matchit::MatchError::NotFound) => None,
    }
}

} // verus!
