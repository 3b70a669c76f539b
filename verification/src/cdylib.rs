//! The binding behind a synchronous host: live streams by token, and the drain
//! of a stream that can be cancelled.

use crate::json::{fields_of, Json, JsonView};
use crate::plugin::{is_http_manifest, HttpBackendPlugin, PluginManifest};
use crate::types::SpecView;
use std::collections::HashMap;
use vstd::prelude::*;
use vstd::std_specs::hash::*;

verus! {

broadcast use vstd::std_specs::hash::group_hash_axioms;

/// The streams that are open, by the token that the host cancels them with.
pub struct LiveStreams<S> {
    streams: HashMap<usize, S>,
    last_token: usize,
}

/// Open streams as contracts speak of them.
pub struct LiveView<S> {
    pub streams: Map<usize, S>,
    pub last_token: usize,
}

impl<S> View for LiveStreams<S> {
    type V = LiveView<S>;

    closed spec fn view(&self) -> LiveView<S> {
        LiveView { streams: self.streams@, last_token: self.last_token }
    }
}

/// The token after a token. After the largest comes zero.
pub open spec fn token_after(token: usize) -> usize {
    if token == usize::MAX {
        0
    } else {
        (token + 1) as usize
    }
}

impl<S> LiveStreams<S> {
    /// No stream is open.
    pub fn new() -> (live: Self)
        ensures
            live@.streams == Map::<usize, S>::empty(),
            live@.last_token == 0,
    {
        LiveStreams { streams: HashMap::new(), last_token: 0 }
    }

    /// Opens a stream, and gives the token that it is cancelled with. Tokens
    /// count from one; zero stands for nothing to cancel.
    pub fn open(&mut self, stream: S) -> (token: usize)
        ensures
            token == token_after(old(self)@.last_token),
            final(self)@.last_token == token,
            final(self)@.streams == old(self)@.streams.insert(token, stream),
    {
        let token: usize = self.last_token.wrapping_add(1);
        self.last_token = token;
        self.streams.insert(token, stream);
        token
    }

    /// Closes a stream: the drain that has ended takes it out, and so does a
    /// cancellation, whichever comes first. `None` where it is not open.
    pub fn close(&mut self, token: usize) -> (stream: Option<S>)
        ensures
            final(self)@.last_token == old(self)@.last_token,
            final(self)@.streams == old(self)@.streams.remove(token),
            match stream {
                Some(stream) => old(self)@.streams.dom().contains(token)
                    && old(self)@.streams[token] == stream,
                None => !old(self)@.streams.dom().contains(token),
            },
    {
        let stream: Option<S> = self.streams.remove(&token);
        assert(self.streams@ =~= old(self)@.streams.remove(token));
        stream
    }
}

/// What a drain waits for.
pub enum DrainEvent<C> {
    /// The host cancelled the stream.
    Cancelled,
    /// The stream gave a chunk, or has ended.
    Next { chunk: Option<C> },
}

/// The drain of a stream: it hands on each chunk until the stream ends or is
/// cancelled.
pub struct StreamDrain {
    pub stopped: bool,
}

/// Whether a drain has stopped after an event.
pub open spec fn stops<C>(stopped: bool, event: DrainEvent<C>) -> bool {
    stopped || match event {
        DrainEvent::Cancelled => true,
        DrainEvent::Next { chunk } => chunk is None,
    }
}

/// What a drain hands on for an event.
pub open spec fn handed_on<C>(stopped: bool, event: DrainEvent<C>) -> Option<C> {
    if stopped {
        None
    } else {
        match event {
            DrainEvent::Cancelled => None,
            DrainEvent::Next { chunk } => chunk,
        }
    }
}

impl StreamDrain {
    /// A drain that has handed on nothing.
    pub fn new() -> (drain: StreamDrain)
        ensures
            !drain.stopped,
    {
        StreamDrain { stopped: false }
    }

    /// Takes an event. A chunk that comes out goes to the host; `None` ends
    /// the drain.
    pub fn take_event<C>(&mut self, event: DrainEvent<C>) -> (chunk: Option<C>)
        ensures
            chunk == handed_on(old(self).stopped, event),
            final(self).stopped == stops(old(self).stopped, event),
    {
        if self.stopped {
            return None;
        }
        match event {
            DrainEvent::Cancelled => {
                self.stopped = true;
                None
            },
            DrainEvent::Next { chunk } => {
                self.stopped = chunk.is_none();
                chunk
            },
        }
    }
}

/// What a drain hands on for a list of events, in order.
pub open spec fn drained_chunks<C>(stopped: bool, events: Seq<DrainEvent<C>>) -> Seq<C>
    decreases events.len(),
{
    if events.len() == 0 {
        Seq::empty()
    } else {
        let rest = drained_chunks(stops(stopped, events[0]), events.drop_first());
        match handed_on(stopped, events[0]) {
            Some(chunk) => seq![chunk] + rest,
            None => rest,
        }
    }
}

/// A drain that has stopped hands on nothing more.
pub proof fn law_stopped_drain_is_silent<C>(events: Seq<DrainEvent<C>>)
    ensures
        drained_chunks(true, events) == Seq::<C>::empty(),
    decreases events.len(),
{
    if events.len() > 0 {
        law_stopped_drain_is_silent(events.drop_first());
    }
}

/// A cancellation cuts a drain: what comes after it makes no difference, so no
/// chunk reaches the host any more.
pub proof fn law_cancellation_cuts_drain<C>(
    stopped: bool,
    before: Seq<DrainEvent<C>>,
    after: Seq<DrainEvent<C>>,
)
    ensures
        drained_chunks(stopped, before + seq![DrainEvent::<C>::Cancelled] + after)
            == drained_chunks(stopped, before),
    decreases before.len(),
{
    let cut = seq![DrainEvent::<C>::Cancelled];
    let events = before + cut + after;
    if before.len() == 0 {
        assert(events.drop_first() =~= after);
        law_stopped_drain_is_silent(after);
    } else {
        assert(events[0] == before[0]);
        assert(events.drop_first() =~= before.drop_first() + cut + after);
        law_cancellation_cuts_drain(stops(stopped, before[0]), before.drop_first(), after);
    }
}

/// A drain that is not cancelled loses nothing: every chunk that the stream
/// gave is handed on, in order.
pub proof fn law_drain_hands_on_every_chunk<C>(chunks: Seq<C>)
    ensures
        drained_chunks(
            false,
            chunks.map_values(|chunk: C| DrainEvent::Next { chunk: Some(chunk) }),
        ) == chunks,
    decreases chunks.len(),
{
    let event = |chunk: C| DrainEvent::Next { chunk: Some(chunk) };
    let events = chunks.map_values(event);
    if chunks.len() > 0 {
        law_drain_hands_on_every_chunk(chunks.drop_first());
        assert(events.drop_first() =~= chunks.drop_first().map_values(event));
        assert(seq![chunks[0]] + chunks.drop_first() =~= chunks);
    } else {
        assert(chunks =~= Seq::<C>::empty());
    }
}

/// The binding behind a synchronous host, with the streams that are open.
pub struct HttpBackendCdylib<H, R, S> {
    pub inner: HttpBackendPlugin<H, R>,
    pub streams: LiveStreams<S>,
}

impl<H, R, S> HttpBackendCdylib<H, R, S> {
    /// The binding of a host. There is nothing to configure: what a binding
    /// needs comes with its profile.
    pub fn from_host_config(_config_json: &str, host: H) -> (bridge: Self)
        ensures
            bridge.inner@.host_handle == Some(host),
            bridge.inner@.profiles == Map::<Seq<char>, (SpecView, R)>::empty(),
            bridge.streams@.streams == Map::<usize, S>::empty(),
            bridge.streams@.last_token == 0,
    {
        let mut inner: HttpBackendPlugin<H, R> = HttpBackendPlugin::new();
        let _installed: bool = inner.set_host_handle(host);
        HttpBackendCdylib { inner, streams: LiveStreams::new() }
    }

    /// How the binding presents itself.
    pub fn manifest(&self) -> (manifest: &PluginManifest)
        ensures
            is_http_manifest(*manifest),
    {
        self.inner.manifest()
    }

    /// The kind of backend that a binding of this plugin names.
    pub fn kind(&self) -> (kind: &'static str)
        ensures
            kind@ == "http"@,
    {
        self.inner.kind()
    }

    /// What the audit trail notes of every call through this binding.
    pub fn audit_metadata(&self, profile_name: &str) -> (metadata: Vec<(String, Json)>)
        ensures
            fields_of(metadata@) == Map::<Seq<char>, JsonView>::empty().insert(
                "http.transport"@,
                JsonView::Text("plugin"@),
            ),
    {
        self.inner.audit_metadata(profile_name)
    }
}

/// The token of the `n`-th stream that is opened.
pub open spec fn nth_token(n: nat) -> usize
    decreases n,
{
    if n == 0 {
        0
    } else {
        token_after(nth_token((n - 1) as nat))
    }
}

/// Tokens count from one, so no two streams share one and none is zero, until
/// the numbers run out.
pub proof fn law_tokens_count_from_one(n: nat)
    requires
        n <= usize::MAX,
    ensures
        nth_token(n) == n,
    decreases n,
{
    if n > 0 {
        law_tokens_count_from_one((n - 1) as nat);
    }
}

/// A stream is closed once: whoever comes second finds nothing, and the other
/// streams stay open.
pub proof fn law_stream_closes_once<S>(streams: Map<usize, S>, token: usize, other: usize)
    ensures
        !streams.remove(token).dom().contains(token),
        streams.remove(token).remove(token) == streams.remove(token),
        other != token ==> streams.remove(token).dom().contains(other)
            == streams.dom().contains(other),
{
    assert(streams.remove(token).remove(token) =~= streams.remove(token));
}

/// Each event of a drain by itself: a chunk is handed on and the drain goes on;
/// the end of the stream and a cancellation hand on nothing and stop it; and a
/// drain that has stopped hands on nothing and stays stopped.
pub proof fn law_drain_answers_each_event<C>(chunk: C, event: DrainEvent<C>)
    ensures
        handed_on(false, DrainEvent::Next { chunk: Some(chunk) }) == Some(chunk),
        !stops(false, DrainEvent::Next { chunk: Some(chunk) }),
        handed_on(false, DrainEvent::<C>::Next { chunk: None }) is None,
        stops(false, DrainEvent::<C>::Next { chunk: None }),
        handed_on(false, DrainEvent::<C>::Cancelled) is None,
        stops(false, DrainEvent::<C>::Cancelled),
        handed_on(true, event) is None,
        stops(true, event),
{
}

/// The end of a stream ends its drain: what was given before it is handed on,
/// whole and in order, and nothing after it.
pub proof fn law_end_of_stream_ends_drain<C>(chunks: Seq<C>, after: Seq<DrainEvent<C>>)
    ensures
        drained_chunks(
            false,
            chunks.map_values(|chunk: C| DrainEvent::Next { chunk: Some(chunk) }) + seq![
                DrainEvent::<C>::Next { chunk: None },
            ] + after,
        ) == chunks,
    decreases chunks.len(),
{
    let event = |chunk: C| DrainEvent::Next { chunk: Some(chunk) };
    let end = seq![DrainEvent::<C>::Next { chunk: None }];
    let events = chunks.map_values(event) + end + after;
    if chunks.len() == 0 {
        assert(events[0] == end[0]);
        law_stopped_drain_is_silent(events.drop_first());
        assert(chunks =~= Seq::<C>::empty());
    } else {
        let rest = chunks.drop_first();
        law_end_of_stream_ends_drain(rest, after);
        assert(events[0] == DrainEvent::Next { chunk: Some(chunks[0]) });
        assert(events.drop_first() =~= rest.map_values(event) + end + after);
        assert(seq![chunks[0]] + rest =~= chunks);
    }
}

/// A token is one more than the one before it; after the largest comes zero.
pub proof fn law_token_is_one_more(token: usize)
    ensures
        token < usize::MAX ==> token_after(token) == token + 1,
        token == usize::MAX ==> token_after(token) == 0,
{
}

} // verus!
