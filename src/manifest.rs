//! The assets manifest: one model per line, `<model_path> [<diffuse_override>]`,
//! whitespace-separated.

use crate::assets_cache::AssetsCache;
use crate::identity::path_hash_of;
use vstd::prelude::*;
use vstd::string::*;

verus! {

/// White space as `char::is_whitespace` defines it (Unicode `White_Space`).
pub open spec fn is_ws(c: char) -> bool {
    ('\u{9}' <= c && c <= '\u{d}') || c == ' ' || c == '\u{85}' || c == '\u{a0}' || c
        == '\u{1680}' || ('\u{2000}' <= c && c <= '\u{200a}') || c == '\u{2028}' || c
        == '\u{2029}' || c == '\u{202f}' || c == '\u{205f}' || c == '\u{3000}'
}

/// The first position at or after `i` that is not white space (or the end).
pub open spec fn skip_ws(s: Seq<char>, i: int) -> int
    decreases s.len() - i,
{
    if i >= s.len() || !is_ws(s[i]) {
        i
    } else {
        skip_ws(s, i + 1)
    }
}

/// The first position at or after `i` that is white space (or the end).
pub open spec fn token_end(s: Seq<char>, i: int) -> int
    decreases s.len() - i,
{
    if i >= s.len() || is_ws(s[i]) {
        i
    } else {
        token_end(s, i + 1)
    }
}

/// The first whitespace-separated token at or after position `i`, with the
/// position just past it.
pub open spec fn next_token(s: Seq<char>, i: int) -> Option<(Seq<char>, int)> {
    let start = skip_ws(s, i);
    if start >= s.len() {
        None
    } else {
        Some((s.subrange(start, token_end(s, start)), token_end(s, start)))
    }
}

/// The model path and the optional diffuse override a manifest line names;
/// `None` for a line without tokens. Tokens past the second are ignored.
pub open spec fn manifest_tokens(s: Seq<char>) -> Option<(Seq<char>, Option<Seq<char>>)> {
    match next_token(s, 0) {
        None => None,
        Some((path, rest)) => Some(
            (
                path,
                match next_token(s, rest) {
                    Some((t, _)) => Some(t),
                    None => None,
                },
            ),
        ),
    }
}

fn is_whitespace_char(c: char) -> (r: bool)
    ensures
        r == is_ws(c),
{
    ('\u{9}' <= c && c <= '\u{d}') || c == ' ' || c == '\u{85}' || c == '\u{a0}' || c
        == '\u{1680}' || ('\u{2000}' <= c && c <= '\u{200a}') || c == '\u{2028}' || c
        == '\u{2029}' || c == '\u{202f}' || c == '\u{205f}' || c == '\u{3000}'
}

proof fn lemma_skip_ws_bounds(s: Seq<char>, i: int)
    requires
        0 <= i <= s.len(),
    ensures
        i <= skip_ws(s, i) <= s.len(),
    decreases s.len() - i,
{
    if i < s.len() && is_ws(s[i]) {
        lemma_skip_ws_bounds(s, i + 1);
    }
}

proof fn lemma_token_end_bounds(s: Seq<char>, i: int)
    requires
        0 <= i <= s.len(),
    ensures
        i <= token_end(s, i) <= s.len(),
    decreases s.len() - i,
{
    if i < s.len() && !is_ws(s[i]) {
        lemma_token_end_bounds(s, i + 1);
    }
}

fn skip_whitespace(s: &str, n: usize, i: usize) -> (j: usize)
    requires
        n == s@.len(),
        i <= n,
    ensures
        j == skip_ws(s@, i as int),
        i <= j <= n,
{
    let mut j = i;
    while j < n && is_whitespace_char(s.get_char(j))
        invariant
            n == s@.len(),
            i <= j <= n,
            skip_ws(s@, j as int) == skip_ws(s@, i as int),
        decreases n - j,
    {
        j = j + 1;
    }
    j
}

fn find_token_end(s: &str, n: usize, i: usize) -> (j: usize)
    requires
        n == s@.len(),
        i <= n,
    ensures
        j == token_end(s@, i as int),
        i <= j <= n,
{
    let mut j = i;
    while j < n && !is_whitespace_char(s.get_char(j))
        invariant
            n == s@.len(),
            i <= j <= n,
            token_end(s@, j as int) == token_end(s@, i as int),
        decreases n - j,
    {
        j = j + 1;
    }
    j
}

fn token_at(s: &str, n: usize, i: usize) -> (r: Option<(String, usize)>)
    requires
        n == s@.len(),
        i <= n,
    ensures
        match (r, next_token(s@, i as int)) {
            (Some((t, e)), Some((ts, es))) => t@ == ts && e == es && e <= n,
            (None, None) => true,
            _ => false,
        },
{
    let start = skip_whitespace(s, n, i);
    if start >= n {
        None
    } else {
        let end = find_token_end(s, n, start);
        Some((s.substring_char(start, end).to_owned(), end))
    }
}

/// The model path and the optional diffuse override `line` names, as
/// `manifest_tokens` states.
pub fn manifest_line(line: &str) -> (r: Option<(String, Option<String>)>)
    ensures
        match (r, manifest_tokens(line@)) {
            (Some((p, t)), Some((ps, ts))) => p@ == ps && match (t, ts) {
                (Some(x), Some(xs)) => x@ == xs,
                (None, None) => true,
                _ => false,
            },
            (None, None) => true,
            _ => false,
        },
{
    let n = line.unicode_len();
    match token_at(line, n, 0) {
        None => None,
        Some((path, rest)) => {
            let texture = match token_at(line, n, rest) {
                Some((t, _)) => Some(t),
                None => None,
            };
            Some((path, texture))
        },
    }
}

/// What to do with one manifest line.
pub enum ManifestAction {
    /// The line names no model, or one that is already cached.
    Skip,
    /// Load the model at `path`, with `texture` as its diffuse override.
    Load { path: String, texture: Option<String> },
}

/// The decision for a line, given the identities of the cached models:
/// load the model the line names unless there is none or it is cached.
pub open spec fn manifest_decision(
    cached: Set<u64>,
    line: Seq<char>,
) -> Option<(Seq<char>, Option<Seq<char>>)> {
    match manifest_tokens(line) {
        None => None,
        Some((path, texture)) => if cached.contains(path_hash_of(path)) {
            None
        } else {
            Some((path, texture))
        },
    }
}

impl ManifestAction {
    pub open spec fn spec_load(self) -> Option<(Seq<char>, Option<Seq<char>>)> {
        match self {
            ManifestAction::Skip => None,
            ManifestAction::Load { path, texture } => Some(
                (
                    path@,
                    match texture {
                        Some(t) => Some(t@),
                        None => None,
                    },
                ),
            ),
        }
    }
}

impl AssetsCache {
    /// What loading the manifest does with `line` in the cache's present
    /// state. Lines are taken in order, each after the models of the lines
    /// before it are loaded, so a path repeated later in the file is skipped.
    pub fn manifest_action(&self, line: &str) -> (r: ManifestAction)
        ensures
            r.spec_load() == manifest_decision(self.model_map().dom(), line@),
    {
        match manifest_line(line) {
            None => ManifestAction::Skip,
            Some((path, texture)) => {
                if self.has_model(path.as_str()) {
                    ManifestAction::Skip
                } else {
                    ManifestAction::Load { path, texture }
                }
            },
        }
    }
}

/// A manifest of one well-formed line naming a model that is not cached,
/// followed by a blank line, loads exactly one model and skips exactly one
/// line: loading the first line's model caches only that identity, and the
/// blank line names nothing.
pub proof fn lemma_manifest_blank_line_skipped(
    cached: Set<u64>,
    first: Seq<char>,
    blank: Seq<char>,
)
    requires
        manifest_tokens(first) is Some,
        !cached.contains(path_hash_of(manifest_tokens(first)->Some_0.0)),
        forall|i: int| 0 <= i < blank.len() ==> is_ws(#[trigger] blank[i]),
    ensures
        manifest_decision(cached, first) == manifest_tokens(first),
        manifest_decision(cached.insert(path_hash_of(manifest_tokens(first)->Some_0.0)), blank)
            is None,
{
    lemma_all_ws_skipped(blank, 0);
}

proof fn lemma_all_ws_skipped(s: Seq<char>, i: int)
    requires
        0 <= i <= s.len(),
        forall|j: int| 0 <= j < s.len() ==> is_ws(#[trigger] s[j]),
    ensures
        skip_ws(s, i) == s.len(),
    decreases s.len() - i,
{
    if i < s.len() {
        lemma_all_ws_skipped(s, i + 1);
    }
}

} // verus!
