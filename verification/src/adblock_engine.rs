//! The `adblock` filter engine (the engine that Brave uses), reached through
//! trusted items. An engine is kept together with where its filters came
//! from, so that its answers can be stated; everything the browser decides
//! around it is verified in [`crate::blocker`].
use vstd::prelude::*;
use crate::config::string_views;

verus! {

#[verifier::external_type_specification]
#[verifier::external_body]
pub struct ExEngine(adblock::Engine);

#[verifier::external_type_specification]
#[verifier::external_body]
pub struct ExRequest(adblock::request::Request);

#[verifier::external_type_specification]
#[verifier::external_body]
pub struct ExFilterSet(adblock::lists::FilterSet);

/// Whether the URL parser of the `adblock` crate accepts a request URL.
pub uninterp spec fn adblock_url_parses(url: Seq<char>) -> bool;

/// Whether bytes are an engine serialization that `adblock` can load.
pub uninterp spec fn adblock_serialization_valid(bytes: Seq<u8>) -> bool;

/// Whether an engine compiled from these filter lists (each parsed with
/// default options, in order) blocks the request for `url` from the page
/// `source_url`, of type `request_type`, with `method`.
pub uninterp spec fn adblock_lists_block(
    lists: Seq<Seq<char>>,
    url: Seq<char>,
    source_url: Seq<char>,
    request_type: Seq<char>,
    method: Seq<char>,
) -> bool;

/// The same answer for an engine loaded from serialized bytes.
pub uninterp spec fn adblock_cache_blocks(
    bytes: Seq<u8>,
    url: Seq<char>,
    source_url: Seq<char>,
    request_type: Seq<char>,
    method: Seq<char>,
) -> bool;

/// The CSS selectors that an engine compiled from these filter lists hides
/// on the page at `url`.
pub uninterp spec fn adblock_lists_hide(lists: Seq<Seq<char>>, url: Seq<char>) -> Set<Seq<char>>;

/// The same selectors for an engine loaded from serialized bytes.
pub uninterp spec fn adblock_cache_hide(bytes: Seq<u8>, url: Seq<char>) -> Set<Seq<char>>;

/// Where an engine's filters came from.
pub enum EngineSource {
    /// Compiled from these filter lists, in order.
    Lists(Seq<Seq<char>>),
    /// Loaded from these serialized bytes.
    Cache(Seq<u8>),
}

/// Whether an engine from `source` blocks a request.
pub open spec fn engine_blocks(
    source: EngineSource,
    url: Seq<char>,
    source_url: Seq<char>,
    request_type: Seq<char>,
    method: Seq<char>,
) -> bool {
    match source {
        EngineSource::Lists(l) => adblock_lists_block(l, url, source_url, request_type, method),
        EngineSource::Cache(b) => adblock_cache_blocks(b, url, source_url, request_type, method),
    }
}

/// The selectors an engine from `source` hides on the page at `url`.
pub open spec fn engine_hides(source: EngineSource, url: Seq<char>) -> Set<Seq<char>> {
    match source {
        EngineSource::Lists(l) => adblock_lists_hide(l, url),
        EngineSource::Cache(b) => adblock_cache_hide(b, url),
    }
}

/// A compiled filter engine and where its filters came from.
pub struct FilterEngine {
    engine: adblock::Engine,
    source: Ghost<EngineSource>,
}

impl FilterEngine {
    /// Where the engine's filters came from.
    pub closed spec fn source(&self) -> EngineSource {
        self.source@
    }
}

/// A network request as `adblock` reads it, with the texts it was made from.
pub struct NetworkRequest {
    request: adblock::request::Request,
    parts: Ghost<(Seq<char>, Seq<char>, Seq<char>, Seq<char>)>,
}

impl NetworkRequest {
    /// The requested URL.
    pub closed spec fn url(&self) -> Seq<char> {
        self.parts@.0
    }

    /// The URL of the page that asks.
    pub closed spec fn source_url(&self) -> Seq<char> {
        self.parts@.1
    }

    /// The request type name.
    pub closed spec fn request_type(&self) -> Seq<char> {
        self.parts@.2
    }

    /// The HTTP method.
    pub closed spec fn method(&self) -> Seq<char> {
        self.parts@.3
    }
}

/// A filter set being filled, with the lists added to it.
pub struct ListSet {
    set: adblock::lists::FilterSet,
    lists: Ghost<Seq<Seq<char>>>,
}

impl ListSet {
    /// The filter lists added so far, in order.
    pub closed spec fn lists(&self) -> Seq<Seq<char>> {
        self.lists@
    }
}

/// Calls `adblock::Engine::new_with_list_text`. Its source puts the text in
/// an empty `FilterSet` with default parse options and calls
/// `new_with_filter_set`: the engine of that one list.
#[verifier::external_body]
pub(crate) fn engine_from_list_text(rules: String) -> (r: FilterEngine)
    ensures
        r.source() == EngineSource::Lists(seq![rules@]),
{
    let text = Ghost(rules@);
    FilterEngine {
        engine: adblock::Engine::new_with_list_text(rules),
        source: Ghost(EngineSource::Lists(seq![text@])),
    }
}

/// Calls `Engine::default` and then `Engine::deserialize` on the bytes. The
/// claim: an engine comes back exactly when `adblock` accepts the bytes, and
/// it is the engine those bytes hold.
#[verifier::external_body]
pub(crate) fn engine_from_serialized(bytes: &[u8]) -> (r: Option<FilterEngine>)
    ensures
        r is Some <==> adblock_serialization_valid(bytes@),
        r matches Some(e) ==> e.source() == EngineSource::Cache(bytes@),
{
    let mut engine = adblock::Engine::default();
    match engine.deserialize(bytes) {
        Ok(()) => Some(FilterEngine { engine, source: Ghost(EngineSource::Cache(bytes@)) }),
        Err(_) => None,
    }
}

/// Calls `Engine::serialize`. Its source writes the engine's filter data
/// after the header, format version, checksum and crate version that
/// `Engine::deserialize` checks, and `deserialize` reads that data back: the
/// same crate loads the bytes again, into an engine that answers every
/// request and page as this one does. That is the claim; the bytes
/// themselves are not claimed.
#[verifier::external_body]
pub(crate) fn engine_serialize(engine: &FilterEngine) -> (r: Vec<u8>)
    ensures
        adblock_serialization_valid(r@),
        forall|url: Seq<char>, source_url: Seq<char>, request_type: Seq<char>, method: Seq<char>|
            #[trigger] adblock_cache_blocks(r@, url, source_url, request_type, method) == match engine.source() {
                EngineSource::Lists(l) => adblock_lists_block(l, url, source_url, request_type, method),
                EngineSource::Cache(b) => adblock_cache_blocks(b, url, source_url, request_type, method),
            },
        forall|url: Seq<char>|
            #[trigger] adblock_cache_hide(r@, url) == match engine.source() {
                EngineSource::Lists(l) => adblock_lists_hide(l, url),
                EngineSource::Cache(b) => adblock_cache_hide(b, url),
            },
{
    engine.engine.serialize()
}

/// Calls `adblock::request::Request::new`. Its source fails only when the
/// request URL does not parse; that is the claim, with the texts kept.
#[verifier::external_body]
pub(crate) fn new_request(url: &str, source_url: &str, request_type: &str, method: &str) -> (r: Option<
    NetworkRequest,
>)
    ensures
        r is Some <==> adblock_url_parses(url@),
        r matches Some(q) ==> q.url() == url@ && q.source_url() == source_url@ && q.request_type()
            == request_type@ && q.method() == method@,
{
    let parts = Ghost((url@, source_url@, request_type@, method@));
    match adblock::request::Request::new(url, source_url, request_type, method) {
        Ok(request) => Some(NetworkRequest { request, parts }),
        Err(_) => None,
    }
}

/// Calls `Engine::check_network_request` and `BlockerResult::should_block`:
/// the engine's answer for the request, named by the engine's source.
#[verifier::external_body]
pub(crate) fn engine_should_block(engine: &FilterEngine, request: &NetworkRequest) -> (r: bool)
    ensures
        r == match engine.source() {
            EngineSource::Lists(l) => adblock_lists_block(
                l,
                request.url(),
                request.source_url(),
                request.request_type(),
                request.method(),
            ),
            EngineSource::Cache(b) => adblock_cache_blocks(
                b,
                request.url(),
                request.source_url(),
                request.request_type(),
                request.method(),
            ),
        },
{
    engine.engine.check_network_request(&request.request).should_block()
}

/// Calls `Engine::url_cosmetic_resources` and hands out its `hide_selectors`
/// set as a vector: the engine's selectors for the page, each once. Their
/// order comes from hashing and is not claimed.
#[verifier::external_body]
pub(crate) fn engine_hide_selectors(engine: &FilterEngine, url: &str) -> (r: Vec<String>)
    ensures
        string_views(r@).to_set() == match engine.source() {
            EngineSource::Lists(l) => adblock_lists_hide(l, url@),
            EngineSource::Cache(b) => adblock_cache_hide(b, url@),
        },
        string_views(r@).no_duplicates(),
{
    engine.engine.url_cosmetic_resources(url).hide_selectors.into_iter().collect()
}

/// Calls `FilterSet::new(false)`: an empty set without debug information.
#[verifier::external_body]
pub(crate) fn new_filter_set() -> (r: ListSet)
    ensures
        r.lists() == Seq::<Seq<char>>::empty(),
{
    ListSet { set: adblock::lists::FilterSet::new(false), lists: Ghost(Seq::empty()) }
}

/// Calls `FilterSet::add_filter_list` with default parse options: the list
/// comes after the ones already added.
#[verifier::external_body]
pub(crate) fn filter_set_add_list(set: &mut ListSet, list_text: String)
    ensures
        final(set).lists() == old(set).lists().push(list_text@),
{
    set.lists = Ghost(set.lists@.push(list_text@));
    set.set.add_filter_list(list_text, adblock::lists::ParseOptions::default());
}

/// Calls `Engine::new_with_filter_set`: the engine of the set's lists.
#[verifier::external_body]
pub(crate) fn engine_from_filter_set(set: ListSet) -> (r: FilterEngine)
    ensures
        r.source() == EngineSource::Lists(set.lists()),
{
    let lists = set.lists;
    FilterEngine { engine: adblock::Engine::new_with_filter_set(set.set), source: Ghost(EngineSource::Lists(lists@)) }
}

impl FilterEngine {
    /// Whether the engine blocks the request.
    pub fn check_network_request(&self, request: &NetworkRequest) -> (r: bool)
        ensures
            r == engine_blocks(self.source(), request.url(), request.source_url(), request.request_type(), request.method()),
    {
        engine_should_block(self, request)
    }
}

impl NetworkRequest {
    /// The request for `url` from the page `source_url`, of type
    /// `request_type`, with `method`; none when `adblock` cannot read `url`.
    pub fn new(url: &str, source_url: &str, request_type: &str, method: &str) -> (r: Option<NetworkRequest>)
        ensures
            r is Some <==> adblock_url_parses(url@),
            r matches Some(q) ==> q.url() == url@ && q.source_url() == source_url@ && q.request_type()
                == request_type@ && q.method() == method@,
    {
        new_request(url, source_url, request_type, method)
    }
}

} // verus!
