//! Semantic embedding providers: their kinds, dimensions and the hashing that
//! places a term into an embedding bucket.

use vstd::prelude::*;
use crate::config::{EmbeddingProviderKind, EngineConfig};
use vstd::string::StringSliceAdditionalSpecFns;
use vstd::utf8::encode_utf8;
use crate::text::{ascii_lowercase, spec_ascii_lowercase, spec_words, words};

verus! {

/// The 64-bit FNV prime used to mix term bytes.
pub const TERM_HASH_PRIME: u64 = 1099511628211;

/// Seed of the primary bucket of a term.
pub const PRIMARY_BUCKET_SEED: u64 = 1469598103934665603;

/// Seed of the secondary bucket of a term.
pub const SECONDARY_BUCKET_SEED: u64 = 1099511628211;

/// Seed of the hash whose lowest bit gives the sign of a term's weight.
pub const SIGN_SEED: u64 = 7809847782465536322;

/// The hash of `bytes` started from `seed`: each byte is xor-ed into the state,
/// which is then multiplied by the prime modulo 2^64.
pub open spec fn spec_hash_with_seed(bytes: Seq<u8>, seed: u64) -> u64
    decreases bytes.len(),
{
    if bytes.len() == 0 {
        seed
    } else {
        let h = spec_hash_with_seed(bytes.drop_last(), seed);
        (((h ^ (bytes.last() as u64)) as nat * TERM_HASH_PRIME as nat) % 0x1_0000_0000_0000_0000) as u64
    }
}

/// An embedder that produces no vectors.
#[derive(Debug, Clone, Copy, PartialEq, Eq)]
pub struct DisabledEmbedder;

impl DisabledEmbedder {
    pub fn provider_kind(&self) -> (r: EmbeddingProviderKind)
        ensures
            r == EmbeddingProviderKind::Disabled,
    {
        EmbeddingProviderKind::Disabled
    }

    pub fn dimensions(&self) -> (r: usize)
        ensures
            r == 0,
    {
        0
    }
}

impl Default for DisabledEmbedder {
    fn default() -> (r: Self)
        ensures
            r == DisabledEmbedder,
    {
        DisabledEmbedder
    }
}

/// An embedder that hashes the words of a text into a fixed number of buckets.
#[derive(Debug, Clone, Copy, PartialEq, Eq)]
pub struct DeterministicLocalEmbedder {
    dimensions: usize,
}

impl DeterministicLocalEmbedder {
    #[verifier::type_invariant]
    spec fn has_buckets(&self) -> bool {
        self.dimensions > 0
    }

    /// The number of buckets of the embedder.
    pub closed spec fn spec_dimensions(&self) -> usize {
        self.dimensions
    }

    /// An embedder with the given number of buckets, at least one.
    pub fn new(dimensions: usize) -> (r: Self)
        ensures
            r.spec_dimensions() == if dimensions == 0 { 1 } else { dimensions },
    {
        DeterministicLocalEmbedder { dimensions: if dimensions == 0 { 1 } else { dimensions } }
    }

    pub fn provider_kind(&self) -> (r: EmbeddingProviderKind)
        ensures
            r == EmbeddingProviderKind::DeterministicLocal,
    {
        EmbeddingProviderKind::DeterministicLocal
    }

    pub fn dimensions(&self) -> (r: usize)
        ensures
            r == self.spec_dimensions(),
    {
        self.dimensions
    }

    /// The hash of the UTF-8 bytes of `term` started from `seed`.
    pub fn hash_with_seed(term: &str, seed: u64) -> (r: u64)
        ensures
            r == spec_hash_with_seed(term.spec_bytes(), seed),
    {
        let bytes = term.as_bytes();
        let n = bytes.len();
        let mut hash: u64 = seed;
        let mut i: usize = 0;
        while i < n
            invariant
                n == bytes@.len(),
                bytes@ == term.spec_bytes(),
                i <= n,
                hash == spec_hash_with_seed(bytes@.subrange(0, i as int), seed),
            decreases n - i,
        {
            let b = bytes[i];
            let mixed: u64 = hash ^ (b as u64);
            hash = mixed.wrapping_mul(TERM_HASH_PRIME);
            i += 1;
            assert(bytes@.subrange(0, i as int).drop_last() =~= bytes@.subrange(0, i - 1));
        }
        assert(bytes@.subrange(0, n as int) =~= bytes@);
        hash
    }

    /// The bucket among `dimensions` that `term` falls into for `seed`.
    pub fn bucket_for(term: &str, dimensions: usize, seed: u64) -> (r: usize)
        requires
            dimensions > 0,
        ensures
            r == (spec_hash_with_seed(term.spec_bytes(), seed) as usize) % dimensions,
            r < dimensions,
    {
        let h = Self::hash_with_seed(term, seed);
        (h as usize) % dimensions
    }

    /// Whether `term` adds to its buckets (rather than subtracting).
    pub fn has_positive_weight(term: &str) -> (r: bool)
        ensures
            r == (spec_hash_with_seed(term.spec_bytes(), SIGN_SEED) % 2 == 0),
    {
        Self::hash_with_seed(term, SIGN_SEED) % 2 == 0
    }
}

/// Whether a character has the Unicode `Alphabetic` or `Numeric` property,
/// as `char::is_alphanumeric` decides it.
pub uninterp spec fn spec_is_alphanumeric(c: char) -> bool;

/// Calls `char::is_alphanumeric`; its answer is a function of the character
/// alone (a lookup in Unicode's property tables), named above.
#[verifier::external_body]
fn char_is_alphanumeric(c: char) -> (r: bool)
    ensures
        r == spec_is_alphanumeric(c),
{
    c.is_alphanumeric()
}

/// `s` without its leading characters that are not alphanumeric.
pub open spec fn spec_strip_start_non_alnum(s: Seq<char>) -> Seq<char>
    decreases s.len(),
{
    if s.len() > 0 && !spec_is_alphanumeric(s[0]) {
        spec_strip_start_non_alnum(s.drop_first())
    } else {
        s
    }
}

/// `s` without its trailing characters that are not alphanumeric.
pub open spec fn spec_strip_end_non_alnum(s: Seq<char>) -> Seq<char>
    decreases s.len(),
{
    if s.len() > 0 && !spec_is_alphanumeric(s.last()) {
        spec_strip_end_non_alnum(s.drop_last())
    } else {
        s
    }
}

/// `s` trimmed of non-alphanumeric characters at both ends.
pub open spec fn spec_trim_non_alnum(s: Seq<char>) -> Seq<char> {
    spec_strip_end_non_alnum(spec_strip_start_non_alnum(s))
}

/// The terms an embedding is built from: the white-space separated words of
/// the text, trimmed of non-alphanumeric characters at both ends, the empty
/// ones dropped, in ASCII lower case.
pub open spec fn spec_embedding_terms(text: Seq<char>) -> Seq<Seq<char>> {
    spec_words(text).map_values(|w: Seq<char>| spec_trim_non_alnum(w)).filter(
        |t: Seq<char>| t.len() > 0,
    ).map_values(|t: Seq<char>| spec_ascii_lowercase(t))
}

proof fn lemma_strip_start_skips(s: Seq<char>, lo: int)
    requires
        0 <= lo <= s.len(),
        forall|j: int| 0 <= j < lo ==> !spec_is_alphanumeric(#[trigger] s[j]),
        lo == s.len() || spec_is_alphanumeric(s[lo]),
    ensures
        spec_strip_start_non_alnum(s) == s.subrange(lo, s.len() as int),
    decreases lo,
{
    if lo == 0 {
        assert(s.subrange(0, s.len() as int) =~= s);
    } else {
        assert(!spec_is_alphanumeric(s[0]));
        let t = s.drop_first();
        assert forall|j: int| 0 <= j < lo - 1 implies !spec_is_alphanumeric(#[trigger] t[j]) by {
            assert(t[j] == s[j + 1]);
        }
        if lo < s.len() {
            assert(t[lo - 1] == s[lo]);
        }
        lemma_strip_start_skips(t, lo - 1);
        assert(t.subrange(lo - 1, t.len() as int) =~= s.subrange(lo, s.len() as int));
    }
}

proof fn lemma_strip_end_drops(s: Seq<char>, hi: int)
    requires
        0 <= hi <= s.len(),
        forall|j: int| hi <= j < s.len() ==> !spec_is_alphanumeric(#[trigger] s[j]),
        hi == 0 || spec_is_alphanumeric(s[hi - 1]),
    ensures
        spec_strip_end_non_alnum(s) == s.subrange(0, hi),
    decreases s.len() - hi,
{
    if hi == s.len() {
        assert(s.subrange(0, hi) =~= s);
    } else {
        assert(!spec_is_alphanumeric(s.last()));
        let t = s.drop_last();
        assert forall|j: int| hi <= j < t.len() implies !spec_is_alphanumeric(#[trigger] t[j]) by {
            assert(t[j] == s[j]);
        }
        if hi > 0 {
            assert(t[hi - 1] == s[hi - 1]);
        }
        lemma_strip_end_drops(t, hi);
        assert(t.subrange(0, hi) =~= s.subrange(0, hi));
    }
}

/// `s` trimmed of non-alphanumeric characters at both ends.
fn trim_non_alnum(s: &str) -> (r: String)
    ensures
        r@ == spec_trim_non_alnum(s@),
{
    let n = s.unicode_len();
    let mut lo: usize = 0;
    while lo < n && !char_is_alphanumeric(s.get_char(lo))
        invariant
            n == s@.len(),
            lo <= n,
            forall|j: int| 0 <= j < lo ==> !spec_is_alphanumeric(#[trigger] s@[j]),
        decreases n - lo,
    {
        lo += 1;
    }
    let mut hi: usize = n;
    while hi > lo && !char_is_alphanumeric(s.get_char(hi - 1))
        invariant
            n == s@.len(),
            lo <= hi <= n,
            lo == n || spec_is_alphanumeric(s@[lo as int]),
            forall|j: int| hi <= j < n ==> !spec_is_alphanumeric(#[trigger] s@[j]),
        decreases hi - lo,
    {
        hi -= 1;
    }
    proof {
        lemma_strip_start_skips(s@, lo as int);
        let t = s@.subrange(lo as int, n as int);
        assert forall|j: int| hi - lo <= j < t.len() implies !spec_is_alphanumeric(#[trigger] t[j]) by {
            assert(t[j] == s@[j + lo]);
        }
        if hi > lo {
            assert(t[hi - lo - 1] == s@[hi - 1]);
        }
        lemma_strip_end_drops(t, hi - lo);
        assert(t.subrange(0, hi - lo) =~= s@.subrange(lo as int, hi as int));
    }
    let piece = s.substring_char(lo, hi);
    String::from_str(piece)
}

/// Where a term lands in an embedding: its primary bucket, its secondary
/// bucket, and whether it adds (rather than subtracts).
pub open spec fn spec_term_slot(term: Seq<u8>, dimensions: usize) -> (usize, usize, bool) {
    (
        (spec_hash_with_seed(term, PRIMARY_BUCKET_SEED) as usize) % dimensions,
        (spec_hash_with_seed(term, SECONDARY_BUCKET_SEED) as usize) % dimensions,
        spec_hash_with_seed(term, SIGN_SEED) % 2 == 0,
    )
}

impl DeterministicLocalEmbedder {
    /// The terms `text` is embedded from, in order.
    pub fn embedding_terms(text: &str) -> (r: Vec<String>)
        ensures
            r@.map_values(|t: String| t@) == spec_embedding_terms(text@),
    {
        let ws = words(text);
        let n = ws.len();
        let ghost trimmed = spec_words(text@).map_values(|w: Seq<char>| spec_trim_non_alnum(w));
        let ghost keep = |t: Seq<char>| t.len() > 0;
        let mut out: Vec<String> = Vec::new();
        let mut i: usize = 0;
        proof {
            assert(trimmed.subrange(0, 0).filter(keep) =~= Seq::<Seq<char>>::empty());
            assert(out@.map_values(|t: String| t@) =~= Seq::<Seq<char>>::empty().map_values(
                |t: Seq<char>| spec_ascii_lowercase(t),
            ));
        }
        while i < n
            invariant
                n == ws@.len(),
                i <= n,
                ws@.map_values(|w: String| w@) == spec_words(text@),
                trimmed == spec_words(text@).map_values(|w: Seq<char>| spec_trim_non_alnum(w)),
                keep == (|t: Seq<char>| t.len() > 0),
                out@.map_values(|t: String| t@) == trimmed.subrange(0, i as int).filter(keep).map_values(
                    |t: Seq<char>| spec_ascii_lowercase(t),
                ),
            decreases n - i,
        {
            let t = trim_non_alnum(ws[i].as_str());
            proof {
                assert(ws@[i as int]@ == spec_words(text@)[i as int]);
                assert(trimmed[i as int] == t@);
                let pre = trimmed.subrange(0, i as int);
                let post = trimmed.subrange(0, i + 1);
                assert(post.drop_last() =~= pre);
                assert(post.last() == t@);
                reveal(Seq::filter);
                assert(post.filter(keep) == if t@.len() > 0 {
                    pre.filter(keep).push(t@)
                } else {
                    pre.filter(keep)
                });
            }
            if t.unicode_len() > 0 {
                let lowered = ascii_lowercase(t.as_str());
                let ghost before = out@.map_values(|s: String| s@);
                out.push(lowered);
                proof {
                    assert(out@.map_values(|s: String| s@) =~= before.push(lowered@));
                    let pre = trimmed.subrange(0, i as int).filter(keep);
                    assert(pre.push(t@).map_values(|u: Seq<char>| spec_ascii_lowercase(u))
                        =~= pre.map_values(|u: Seq<char>| spec_ascii_lowercase(u)).push(lowered@));
                }
            }
            i += 1;
        }
        proof {
            assert(trimmed.subrange(0, n as int) =~= trimmed);
        }
        out
    }

    /// The slot of a term in an embedding with `dimensions` buckets.
    pub fn term_slot(term: &str, dimensions: usize) -> (r: (usize, usize, bool))
        requires
            dimensions > 0,
        ensures
            r == spec_term_slot(encode_utf8(term@), dimensions),
            r.0 < dimensions,
            r.1 < dimensions,
    {
        (
            Self::bucket_for(term, dimensions, PRIMARY_BUCKET_SEED),
            Self::bucket_for(term, dimensions, SECONDARY_BUCKET_SEED),
            Self::has_positive_weight(term),
        )
    }

    /// The slots of the terms of `text` in this embedder, in order: the
    /// embedding adds each term's sign at its primary bucket and, with more
    /// than one bucket, half of it at its secondary bucket, then scales the
    /// vector to unit length.
    pub fn embedding_slots(&self, text: &str) -> (r: Vec<(usize, usize, bool)>)
        ensures
            r@ == spec_embedding_terms(text@).map_values(
                |t: Seq<char>| spec_term_slot(encode_utf8(t), self.spec_dimensions()),
            ),
    {
        proof {
            use_type_invariant(self);
        }
        let terms = Self::embedding_terms(text);
        let n = terms.len();
        let mut out: Vec<(usize, usize, bool)> = Vec::new();
        let mut i: usize = 0;
        while i < n
            invariant
                n == terms@.len(),
                terms@.map_values(|t: String| t@) == spec_embedding_terms(text@),
                self.spec_dimensions() > 0,
                i <= n,
                out@.len() == i,
                forall|j: int|
                    0 <= j < i ==> #[trigger] out@[j] == spec_term_slot(
                        encode_utf8(terms@[j]@),
                        self.spec_dimensions(),
                    ),
            decreases n - i,
        {
            let slot = Self::term_slot(terms[i].as_str(), self.dimensions);
            out.push(slot);
            i += 1;
        }
        proof {
            let want = spec_embedding_terms(text@).map_values(
                |t: Seq<char>| spec_term_slot(encode_utf8(t), self.spec_dimensions()),
            );
            assert forall|j: int| 0 <= j < out@.len() implies out@[j] == want[j] by {
                assert(terms@.map_values(|t: String| t@)[j] == terms@[j]@);
            }
            assert(out@ =~= want);
        }
        out
    }
}

/// The embedder chosen by an engine configuration.
#[derive(Debug, Clone, Copy, PartialEq, Eq)]
pub enum ConfiguredSemanticEmbedder {
    Disabled(DisabledEmbedder),
    DeterministicLocal(DeterministicLocalEmbedder),
}

impl ConfiguredSemanticEmbedder {
    pub open spec fn spec_provider_kind(&self) -> EmbeddingProviderKind {
        match self {
            ConfiguredSemanticEmbedder::Disabled(_) => EmbeddingProviderKind::Disabled,
            ConfiguredSemanticEmbedder::DeterministicLocal(_) => EmbeddingProviderKind::DeterministicLocal,
        }
    }

    pub open spec fn spec_dimensions(&self) -> usize {
        match self {
            ConfiguredSemanticEmbedder::Disabled(_) => 0,
            ConfiguredSemanticEmbedder::DeterministicLocal(e) => e.spec_dimensions(),
        }
    }

    /// The embedder that a configuration selects: none, or a local one with
    /// the configured dimensions (at least one).
    pub fn from_engine_config(config: &EngineConfig) -> (r: Self)
        ensures
            r.spec_provider_kind() == config.embedding_provider_kind,
            config.embedding_provider_kind == EmbeddingProviderKind::DeterministicLocal
                ==> r.spec_dimensions() == if config.embedding_dimensions == 0 {
                1
            } else {
                config.embedding_dimensions
            },
            config.embedding_provider_kind == EmbeddingProviderKind::Disabled
                ==> r.spec_dimensions() == 0,
    {
        match config.embedding_provider_kind {
            EmbeddingProviderKind::Disabled => ConfiguredSemanticEmbedder::Disabled(DisabledEmbedder),
            EmbeddingProviderKind::DeterministicLocal => ConfiguredSemanticEmbedder::DeterministicLocal(
                DeterministicLocalEmbedder::new(config.embedding_dimensions),
            ),
        }
    }

    pub fn provider_kind(&self) -> (r: EmbeddingProviderKind)
        ensures
            r == self.spec_provider_kind(),
    {
        match self {
            ConfiguredSemanticEmbedder::Disabled(e) => e.provider_kind(),
            ConfiguredSemanticEmbedder::DeterministicLocal(e) => e.provider_kind(),
        }
    }

    pub fn dimensions(&self) -> (r: usize)
        ensures
            r == self.spec_dimensions(),
    {
        match self {
            ConfiguredSemanticEmbedder::Disabled(e) => e.dimensions(),
            ConfiguredSemanticEmbedder::DeterministicLocal(e) => e.dimensions(),
        }
    }

    pub open spec fn spec_provider_note(&self) -> Option<Seq<char>> {
        match self {
            ConfiguredSemanticEmbedder::Disabled(_) => None,
            ConfiguredSemanticEmbedder::DeterministicLocal(_) => Some(
                "embedding_provider=deterministic_local"@,
            ),
        }
    }

    /// The explanation note naming the embedding provider, when embeddings are on.
    pub fn provider_note(&self) -> (r: Option<String>)
        ensures
            match r {
                Some(s) => self.spec_provider_note() == Some(s@),
                None => self.spec_provider_note() is None,
            },
    {
        match self {
            ConfiguredSemanticEmbedder::Disabled(_) => None,
            ConfiguredSemanticEmbedder::DeterministicLocal(_) => Some(
                String::from_str("embedding_provider=deterministic_local"),
            ),
        }
    }
}

} // verus!
