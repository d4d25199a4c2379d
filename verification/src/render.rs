use vstd::prelude::*;
use crate::cache::{RenderCache, CACHE_SIZE};
use crate::pipeline::{html_output, parse_markdown, parsed_events, render_html};
use crate::rewrite::{rewrite_all, rewrite_events};

verus! {

/// What rendering a source text produces: the text is parsed, the
/// event sequence is rewritten, and the result is serialized.
pub open spec fn render_spec(s: Seq<char>) -> Seq<char> {
    html_output(rewrite_all(parsed_events(s)))
}

/// Every entry of a cache mapping is current: the value stored under a
/// key is exactly what rendering that key produces, so the cache can
/// never serve a stale result.
pub open spec fn cache_entries_current(m: Map<Seq<char>, Seq<char>>) -> bool {
    forall|k: Seq<char>| #[trigger] m.contains_key(k) ==> m[k] == render_spec(k)
}

/// The error a render would surface if the pipeline ever failed
/// internally; with the current pipeline no input produces it.
#[derive(Debug)]
pub struct RenderError;

/// The rendering service: a bounded memo cache in front of the
/// parse-rewrite-serialize pipeline, and an inert debug flag.
pub struct FastRenderCore {
    cache: RenderCache,
    debug: bool,
}

impl FastRenderCore {
    /// The cache's mapping from source text to rendered HTML.
    pub closed spec fn cache_map(self) -> Map<Seq<char>, Seq<char>> {
        self.cache@
    }

    /// How many entries the cache holds.
    pub closed spec fn cache_count(self) -> nat {
        self.cache.spec_len()
    }

    /// The debug flag.
    pub closed spec fn debug_mode(self) -> bool {
        self.debug
    }

    #[verifier::type_invariant]
    spec fn inv(self) -> bool {
        cache_entries_current(self.cache@)
    }

    /// A fresh instance: empty cache, debug off.
    pub fn new() -> (r: Self)
        ensures
            r.cache_map() == Map::<Seq<char>, Seq<char>>::empty(),
            r.cache_count() == 0,
            !r.debug_mode(),
    {
        FastRenderCore { cache: RenderCache::new(), debug: false }
    }

    /// Renders markdown to an HTML fragment. A hit returns the cached
    /// value and changes nothing; a miss runs the pipeline, stores the
    /// result under the input (evicting everything first if the cache
    /// is at capacity), and returns it. Either way the output is the
    /// one rendering of the input, and the call never fails.
    pub fn render_markdown(&mut self, input: &str) -> (r: Result<String, RenderError>)
        ensures
            r is Ok,
            r->Ok_0@ == render_spec(input@),
            final(self).debug_mode() == old(self).debug_mode(),
            cache_entries_current(final(self).cache_map()),
            final(self).cache_map().contains_key(input@),
            old(self).cache_map().contains_key(input@) ==> *final(self) == *old(self),
            !old(self).cache_map().contains_key(input@) && old(self).cache_count() < CACHE_SIZE
                ==> {
                &&& final(self).cache_map() == old(self).cache_map().insert(
                    input@,
                    render_spec(input@),
                )
                &&& final(self).cache_count() == old(self).cache_count() + 1
            },
            !old(self).cache_map().contains_key(input@) && old(self).cache_count() >= CACHE_SIZE
                ==> {
                &&& final(self).cache_map() == Map::<Seq<char>, Seq<char>>::empty().insert(
                    input@,
                    render_spec(input@),
                )
                &&& final(self).cache_count() == 1
            },
    {
        proof {
            use_type_invariant(&*self);
        }
        let key = input.to_owned();
        let mut cache = RenderCache::new();
        std::mem::swap(&mut cache, &mut self.cache);
        match cache.lookup(&key) {
            Some(hit) => {
                self.cache = cache;
                Ok(hit)
            },
            None => {
                let mut events = parse_markdown(input);
                rewrite_events(&mut events);
                let out = render_html(events);
                cache.insert(key, out.clone());
                self.cache = cache;
                Ok(out)
            },
        }
    }

    /// Empties the cache; the debug flag is untouched. Always succeeds.
    pub fn clear_cache(&mut self)
        ensures
            final(self).cache_map() == Map::<Seq<char>, Seq<char>>::empty(),
            final(self).cache_count() == 0,
            final(self).debug_mode() == old(self).debug_mode(),
    {
        let mut cache = RenderCache::new();
        std::mem::swap(&mut cache, &mut self.cache);
        cache.clear();
        self.cache = cache;
    }

    /// Stores the flag; nothing else changes, and rendering behaves
    /// the same either way.
    pub fn set_debug(&mut self, debug: bool)
        ensures
            final(self).debug_mode() == debug,
            final(self).cache_map() == old(self).cache_map(),
            final(self).cache_count() == old(self).cache_count(),
    {
        proof {
            use_type_invariant(&*self);
        }
        self.debug = debug;
    }

    /// How many entries the cache holds now.
    pub fn cache_len(&self) -> (n: usize)
        ensures
            n == self.cache_count(),
    {
        self.cache.len()
    }
}

/// Rendering is deterministic: two renderings of the same source text
/// are equal, whatever instance computed them and whatever the debug
/// flag stood at during either call.
pub proof fn lemma_render_deterministic(s: Seq<char>, h1: Seq<char>, h2: Seq<char>)
    requires
        h1 == render_spec(s),
        h2 == render_spec(s),
    ensures
        h1 == h2,
{
}

/// A cache whose entries are current serves exactly what rendering
/// computes: a hit on `s` returns the one rendering of `s`, so no
/// parse needs to be repeated for it.
pub proof fn lemma_hit_serves_rendering(m: Map<Seq<char>, Seq<char>>, s: Seq<char>)
    requires
        cache_entries_current(m),
        m.contains_key(s),
    ensures
        m[s] == render_spec(s),
{
}

/// Right after a capacity eviction the cache holds the newest key and
/// nothing else: every other key misses.
pub proof fn lemma_eviction_leaves_newest(s: Seq<char>, h: Seq<char>, k: Seq<char>)
    ensures
        Map::<Seq<char>, Seq<char>>::empty().insert(s, h).contains_key(k) <==> k == s,
{
}

} // verus!
