//! The `http` binding: its manifest, its registered profiles, and the host
//! that it reports to.

use crate::call::{
    arguments_of, draft_call, drafted, parse_arguments, same_but_payload, BackendRequest,
    CallDraft,
};
use crate::completion::HttpCompletionConfig;
use crate::error::{invalid_spec, profile_not_found, BackendError, BackendErrorView};
use crate::json::{fields_of, put, text_json, Json, JsonView};
use crate::observability::{observe, reports_call, CallRecord, HostReport};
use crate::registration::{is_sound, ProfileDraft};
use crate::serde_bridge::{is_empty_object, parsed_json};
use crate::text::text_eq;
use crate::types::{HttpRequestProfile, SpecView};
use vstd::prelude::*;
use vstd::string::*;

verus! {

/// What a plugin extends.
#[derive(Debug, Clone, Copy, PartialEq, Eq, Structural)]
pub enum PluginClass {
    Backend,
}

/// How a plugin presents itself to the gateway.
pub struct PluginManifest {
    pub id: &'static str,
    pub name: &'static str,
    pub class: PluginClass,
}

/// The manifest of the `http` binding.
pub open spec fn is_http_manifest(manifest: PluginManifest) -> bool {
    &&& manifest.id@ == "dev.mcpg.backend.http"@
    &&& manifest.name@ == "HTTP Binding"@
    &&& manifest.class == PluginClass::Backend
}

/// A profile under its name, with what the runtime keeps for it.
pub struct RegisteredProfile<R> {
    pub name: String,
    pub profile: HttpRequestProfile,
    pub runtime: R,
}

/// No name stands twice.
pub open spec fn names_differ<R>(entries: Seq<RegisteredProfile<R>>) -> bool {
    forall|i: int, j: int|
        0 <= i < j < entries.len() ==> #[trigger] entries[i].name@ != #[trigger] entries[j].name@
}

/// Every profile passes the checks of registration, and has its headers in the
/// order of their names.
pub open spec fn profiles_sound<R>(entries: Seq<RegisteredProfile<R>>) -> bool {
    forall|i: int|
        0 <= i < entries.len() ==> is_sound((#[trigger] entries[i]).profile@)
            && entries[i].profile.is_well_formed()
}

/// A name stands at a place.
pub open spec fn named_at<R>(entries: Seq<RegisteredProfile<R>>, name: Seq<char>, i: int) -> bool {
    0 <= i < entries.len() && entries[i].name@ == name
}

/// The profiles of a list by their names.
pub open spec fn registered<R>(entries: Seq<RegisteredProfile<R>>) -> Map<
    Seq<char>,
    (SpecView, R),
> {
    Map::new(
        |name: Seq<char>| exists|i: int| named_at(entries, name, i),
        |name: Seq<char>|
            {
                let i = choose|i: int| named_at(entries, name, i);
                (entries[i].profile@, entries[i].runtime)
            },
    )
}

/// Where names differ, each stands for the profile beside it.
proof fn lemma_registered<R>(entries: Seq<RegisteredProfile<R>>, i: int)
    requires
        names_differ(entries),
        0 <= i < entries.len(),
    ensures
        registered(entries).dom().contains(entries[i].name@),
        registered(entries)[entries[i].name@] == (entries[i].profile@, entries[i].runtime),
{
    let name = entries[i].name@;
    assert(named_at(entries, name, i));
    let j = choose|j: int| named_at(entries, name, j);
    if j < i {
        assert(entries[j].name@ != entries[i].name@);
    }
    if i < j {
        assert(entries[i].name@ != entries[j].name@);
    }
}

/// The `http` binding. `H` is the host that it reports to, `R` what the
/// runtime keeps for each profile.
pub struct HttpBackendPlugin<H, R> {
    manifest: PluginManifest,
    profiles: Vec<RegisteredProfile<R>>,
    host_handle: Option<H>,
}

/// A binding as contracts speak of it: its profiles by their names, and the
/// host that was installed.
pub struct PluginView<H, R> {
    pub profiles: Map<Seq<char>, (SpecView, R)>,
    pub host_handle: Option<H>,
}

impl<H, R> View for HttpBackendPlugin<H, R> {
    type V = PluginView<H, R>;

    closed spec fn view(&self) -> PluginView<H, R> {
        PluginView { profiles: registered(self.profiles@), host_handle: self.host_handle }
    }
}

/// The call that a request makes of a binding: refused where no profile has
/// the name, and where the payload is no JSON.
pub open spec fn prepared_call(
    profiles: Map<Seq<char>, SpecView>,
    backend_name: Seq<char>,
    request: BackendRequest,
) -> Result<crate::call::DraftView, BackendErrorView> {
    if !profiles.dom().contains(backend_name) {
        Err(BackendErrorView::ProfileNotFound(backend_name))
    } else {
        match arguments_of(request.payload@) {
            Ok(arguments) => Ok(drafted(profiles[backend_name], backend_name, request, arguments)),
            Err(message) => Err(
                BackendErrorView::InvalidSpec("HTTP plugin payload is not valid JSON: "@ + message),
            ),
        }
    }
}

/// The specs of the profiles of a binding.
pub open spec fn specs_of<R>(profiles: Map<Seq<char>, (SpecView, R)>) -> Map<Seq<char>, SpecView> {
    profiles.map_values(|profile: (SpecView, R)| profile.0)
}

impl<H, R> Default for HttpBackendPlugin<H, R> {
    fn default() -> (plugin: Self)
        ensures
            plugin@.profiles == Map::<Seq<char>, (SpecView, R)>::empty(),
            plugin@.host_handle is None,
    {
        HttpBackendPlugin::new()
    }
}

impl<H, R> HttpBackendPlugin<H, R> {
    #[verifier::type_invariant]
    closed spec fn is_well_formed(self) -> bool {
        &&& is_http_manifest(self.manifest)
        &&& names_differ(self.profiles@)
        &&& profiles_sound(self.profiles@)
    }

    /// A binding without a profile and without a host.
    #[must_use]
    pub fn new() -> (plugin: Self)
        ensures
            plugin@.profiles == Map::<Seq<char>, (SpecView, R)>::empty(),
            plugin@.host_handle is None,
    {
        let plugin = HttpBackendPlugin {
            manifest: PluginManifest {
                id: "dev.mcpg.backend.http",
                name: "HTTP Binding",
                class: PluginClass::Backend,
            },
            profiles: Vec::new(),
            host_handle: None,
        };
        assert(plugin@.profiles =~= Map::empty());
        plugin
    }

    /// How the binding presents itself.
    pub fn manifest(&self) -> (manifest: &PluginManifest)
        ensures
            is_http_manifest(*manifest),
    {
        proof {
            use_type_invariant(self);
        }
        &self.manifest
    }

    /// The kind of backend that a binding of this plugin names.
    pub fn kind(&self) -> (kind: &'static str)
        ensures
            kind@ == "http"@,
    {
        "http"
    }

    /// Installs the host. The first one stays: `true` says that it was this
    /// one, `false` that another was there.
    pub fn set_host_handle(&mut self, host: H) -> (installed: bool)
        ensures
            installed == (old(self)@.host_handle is None),
            final(self)@.host_handle == (if installed {
                Some(host)
            } else {
                old(self)@.host_handle
            }),
            final(self)@.profiles == old(self)@.profiles,
    {
        proof {
            use_type_invariant(&*self);
        }
        match self.host_handle {
            Some(_) => false,
            None => {
                self.host_handle = Some(host);
                true
            },
        }
    }

    /// The host, where one was installed.
    pub fn host_handle(&self) -> (host: Option<&H>)
        ensures
            match self@.host_handle {
                Some(installed) => host matches Some(host) && *host == installed,
                None => host is None,
            },
    {
        match &self.host_handle {
            Some(host) => Some(host),
            None => None,
        }
    }

    /// The place of the profile with a name.
    fn find(&self, name: &str) -> (found: Option<usize>)
        ensures
            match found {
                Some(i) => named_at(self.profiles@, name@, i as int),
                None => forall|i: int| !named_at(self.profiles@, name@, i),
            },
    {
        let mut i: usize = 0;
        while i < self.profiles.len()
            invariant
                i <= self.profiles.len(),
                forall|j: int| 0 <= j < i ==> !#[trigger] named_at(self.profiles@, name@, j),
            decreases self.profiles.len() - i,
        {
            if text_eq(self.profiles[i].name.as_str(), name) {
                return Some(i);
            }
            i = i + 1;
        }
        None
    }

    /// The profile that is registered under a name. Every registered profile
    /// has passed the checks of registration, and no header of it stands twice.
    pub fn lookup(&self, name: &str) -> (found: Option<&RegisteredProfile<R>>)
        ensures
            match found {
                Some(entry) => self@.profiles.dom().contains(name@) && self@.profiles[name@] == (
                    entry.profile@,
                    entry.runtime,
                ) && entry.name@ == name@ && is_sound(entry.profile@)
                    && entry.profile.is_well_formed(),
                None => !self@.profiles.dom().contains(name@),
            },
    {
        proof {
            use_type_invariant(self);
        }
        match self.find(name) {
            Some(i) => {
                proof {
                    lemma_registered(self.profiles@, i as int);
                }
                Some(&self.profiles[i])
            },
            None => None,
        }
    }

    /// Registers a checked profile under a name, with what the runtime made of
    /// it. A profile of that name is replaced; where the runtime refused the
    /// profile, everything stays as it was.
    pub fn register_profile(
        &mut self,
        backend_name: &str,
        draft: ProfileDraft,
        runtime: Result<R, String>,
    ) -> (done: Result<(), BackendError>)
        ensures
            final(self)@.host_handle == old(self)@.host_handle,
            match runtime {
                Ok(runtime) => done is Ok && final(self)@.profiles == old(self)@.profiles.insert(
                    backend_name@,
                    (draft.checked_profile(), runtime),
                ),
                Err(message) => done matches Err(error) && error@ == BackendErrorView::InvalidSpec(
                    "HTTP binding spec: "@ + message@,
                ) && final(self)@.profiles == old(self)@.profiles,
            },
    {
        proof {
            use_type_invariant(&*self);
        }
        match runtime {
            Err(message) => Err(invalid_spec("HTTP binding spec: ", message.as_str())),
            Ok(runtime) => {
                let place: Option<usize> = self.find(backend_name);
                let ghost before = self.profiles@;
                let entry: RegisteredProfile<R> = RegisteredProfile {
                    name: backend_name.to_owned(),
                    profile: draft.into_profile(),
                    runtime,
                };
                let mut profiles: Vec<RegisteredProfile<R>> = Vec::new();
                std::mem::swap(&mut profiles, &mut self.profiles);
                match place {
                    Some(i) => {
                        profiles.set(i, entry);
                    },
                    None => {
                        profiles.push(entry);
                    },
                }
                let ghost after = profiles@;
                let ghost at: int = match place {
                    Some(i) => i as int,
                    None => before.len() as int,
                };
                proof {
                    lemma_placed(before, entry, at);
                }
                self.profiles = profiles;
                assert(self@.profiles =~= old(self)@.profiles.insert(
                    backend_name@,
                    (entry.profile@, entry.runtime),
                ));
                Ok(())
            },
        }
    }

    /// Reads a request against the binding that it names. An empty payload and
    /// the payload `{}` come to the same.
    pub fn prepare_call(&self, backend_name: &str, request: &BackendRequest) -> (draft: Result<
        CallDraft,
        BackendError,
    >)
        ensures
            match prepared_call(specs_of(self@.profiles), backend_name@, *request) {
                Ok(view) => draft matches Ok(draft) && draft@ == view,
                Err(view) => draft matches Err(error) && error@ == view,
            },
            is_empty_object(request.payload@) ==> forall|other: BackendRequest|
                other.payload@.len() == 0 && same_but_payload(other, *request)
                    ==> #[trigger] prepared_call(specs_of(self@.profiles), backend_name@, other)
                    == prepared_call(specs_of(self@.profiles), backend_name@, *request),
    {
        match self.lookup(backend_name) {
            None => Err(profile_not_found(backend_name)),
            Some(entry) => {
                let arguments: Result<Json, String> = parse_arguments(&request.payload);
                draft_call(&entry.profile, backend_name, request, arguments)
            },
        }
    }

    /// The profile that a completion runs against, and its configuration. The
    /// configuration is looked at first.
    pub fn completion_profile(
        &self,
        backend_name: &str,
        config: Result<HttpCompletionConfig, String>,
    ) -> (found: Result<(&RegisteredProfile<R>, HttpCompletionConfig), BackendError>)
        ensures
            match config {
                Err(message) => found matches Err(error) && error@ == BackendErrorView::InvalidSpec(
                    "variable_completions.config: "@ + message@,
                ),
                Ok(config) => if self@.profiles.dom().contains(backend_name@) {
                    found matches Ok((entry, kept)) && kept == config
                        && self@.profiles[backend_name@] == (entry.profile@, entry.runtime)
                } else {
                    found matches Err(error) && error@ == BackendErrorView::ProfileNotFound(
                        backend_name@,
                    )
                },
            },
    {
        match config {
            Err(message) => Err(invalid_spec("variable_completions.config: ", message.as_str())),
            Ok(config) => match self.lookup(backend_name) {
                Some(entry) => Ok((entry, config)),
                None => Err(profile_not_found(backend_name)),
            },
        }
    }

    /// What a finished call leaves with the host; nothing where no host was
    /// installed.
    pub fn report(&self, record: &CallRecord) -> (report: Option<HostReport>)
        ensures
            match self@.host_handle {
                Some(_) => report matches Some(report) && reports_call(report, *record),
                None => report is None,
            },
    {
        observe(self.host_handle.is_some(), record)
    }

    /// What the audit trail notes of every call through this binding.
    pub fn audit_metadata(&self, _backend_name: &str) -> (metadata: Vec<(String, Json)>)
        ensures
            fields_of(metadata@) == Map::<Seq<char>, JsonView>::empty().insert(
                "http.transport"@,
                JsonView::Text("plugin"@),
            ),
    {
        let mut metadata: Vec<(String, Json)> = Vec::new();
        put(&mut metadata, "http.transport", text_json("plugin"));
        metadata
    }
}

/// A list with one entry put at a place, after the last or over the one with
/// its name.
spec fn placed<R>(
    entries: Seq<RegisteredProfile<R>>,
    entry: RegisteredProfile<R>,
    at: int,
) -> Seq<RegisteredProfile<R>> {
    if at == entries.len() {
        entries.push(entry)
    } else {
        entries.update(at, entry)
    }
}

/// An entry that takes the place of its name, or a new one, keeps the list in
/// order, and stands under its name afterwards.
proof fn lemma_placed<R>(
    entries: Seq<RegisteredProfile<R>>,
    entry: RegisteredProfile<R>,
    at: int,
)
    requires
        names_differ(entries),
        profiles_sound(entries),
        is_sound(entry.profile@),
        entry.profile.is_well_formed(),
        0 <= at <= entries.len(),
        at < entries.len() ==> entries[at].name@ == entry.name@,
        at == entries.len() ==> forall|i: int| !named_at(entries, entry.name@, i),
    ensures
        names_differ(placed(entries, entry, at)),
        profiles_sound(placed(entries, entry, at)),
        registered(placed(entries, entry, at)) == registered(entries).insert(
            entry.name@,
            (entry.profile@, entry.runtime),
        ),
{
    let after = placed(entries, entry, at);
    assert forall|i: int, j: int|
        0 <= i < j < after.len() implies #[trigger] after[i].name@ != #[trigger] after[j].name@ by {
        if at == entries.len() {
            assert(i < entries.len() ==> !named_at(entries, entry.name@, i));
        }
        if i < entries.len() && j < entries.len() {
            assert(entries[i].name@ != entries[j].name@);
        }
    }
    let expected = registered(entries).insert(entry.name@, (entry.profile@, entry.runtime));
    assert forall|name: Seq<char>|
        registered(after).dom().contains(name) == #[trigger] expected.dom().contains(name) by {
        if registered(after).dom().contains(name) && name != entry.name@ {
            let i = choose|i: int| named_at(after, name, i);
            assert(named_at(entries, name, i));
        }
        if expected.dom().contains(name) {
            if name == entry.name@ {
                assert(named_at(after, name, at));
            } else {
                let i = choose|i: int| named_at(entries, name, i);
                assert(named_at(after, name, i));
            }
        }
    }
    assert forall|name: Seq<char>| #[trigger] registered(after).dom().contains(name) implies
        registered(after)[name] == expected[name] by {
        let i = choose|i: int| named_at(after, name, i);
        lemma_registered(after, i);
        if i != at {
            assert(after[i] == entries[i]);
            lemma_registered(entries, i);
            assert(name != entry.name@) by {
                if i < at {
                    assert(after[i].name@ != after[at].name@);
                } else {
                    assert(after[at].name@ != after[i].name@);
                }
            }
        }
    }
    assert(registered(after) =~= expected);
}

/// Once a profile is registered, calls under its name are read against it;
/// calls under other names go on as before.
pub proof fn law_registration_takes_effect<R>(
    profiles: Map<Seq<char>, (SpecView, R)>,
    name: Seq<char>,
    spec: SpecView,
    runtime: R,
    request: BackendRequest,
    other: Seq<char>,
)
    ensures
        match arguments_of(request.payload@) {
            Ok(arguments) => prepared_call(
                specs_of(profiles.insert(name, (spec, runtime))),
                name,
                request,
            ) == Ok::<_, BackendErrorView>(drafted(spec, name, request, arguments)),
            Err(_) => true,
        },
        other != name ==> prepared_call(
            specs_of(profiles.insert(name, (spec, runtime))),
            other,
            request,
        ) == prepared_call(specs_of(profiles), other, request),
{
    let after = profiles.insert(name, (spec, runtime));
    assert(specs_of(after).dom().contains(name));
    assert(specs_of(after)[name] == spec);
    if other != name {
        assert(specs_of(after).dom().contains(other) == specs_of(profiles).dom().contains(other));
    }
}

/// The names of a binding are those of its entries, and each stands for the
/// profile and the runtime beside it.
pub proof fn law_profiles_are_kept_by_name<R>(
    entries: Seq<RegisteredProfile<R>>,
    name: Seq<char>,
)
    requires
        names_differ(entries),
    ensures
        registered(entries).dom().contains(name) <==> exists|i: int|
            0 <= i < entries.len() && (#[trigger] entries[i]).name@ == name,
        forall|i: int|
            0 <= i < entries.len() && (#[trigger] entries[i]).name@ == name ==> registered(
                entries,
            )[name] == (entries[i].profile@, entries[i].runtime),
{
    if registered(entries).dom().contains(name) {
        let i = choose|i: int| named_at(entries, name, i);
        assert(entries[i].name@ == name);
    }
    assert forall|i: int| 0 <= i < entries.len() && (#[trigger] entries[i]).name@ == name implies
        registered(entries).dom().contains(name) && registered(entries)[name] == (
        entries[i].profile@,
        entries[i].runtime,
    ) by {
        lemma_registered(entries, i);
    }
}

/// A call under a name that no profile has is refused with that name; one whose
/// payload is no JSON with the JSON crate's message; and every other is drafted
/// from the profile of that name and the arguments in the payload.
pub proof fn law_call_is_read_against_its_profile<R>(
    profiles: Map<Seq<char>, (SpecView, R)>,
    backend_name: Seq<char>,
    request: BackendRequest,
)
    ensures
        ({
            let call = prepared_call(specs_of(profiles), backend_name, request);
            let known = profiles.dom().contains(backend_name);
            let payload = request.payload@;
            &&& !known ==> call == Err::<crate::call::DraftView, BackendErrorView>(
                BackendErrorView::ProfileNotFound(backend_name),
            )
            &&& known && payload.len() > 0 ==> (parsed_json(payload) matches Err(message) ==> call
                == Err::<crate::call::DraftView, BackendErrorView>(
                BackendErrorView::InvalidSpec(
                    "HTTP plugin payload is not valid JSON: "@ + message,
                ),
            ))
            &&& known && payload.len() > 0 ==> (parsed_json(payload) matches Ok(arguments) ==> call
                == Ok::<crate::call::DraftView, BackendErrorView>(
                drafted(profiles[backend_name].0, backend_name, request, arguments),
            ))
            &&& known && payload.len() == 0 ==> call is Ok && call->Ok_0.arguments
                == JsonView::Fields(Map::empty()) && call->Ok_0.profile == profiles[backend_name].0
        }),
{
    assert(specs_of(profiles).dom().contains(backend_name) == profiles.dom().contains(
        backend_name,
    ));
    if profiles.dom().contains(backend_name) {
        assert(specs_of(profiles)[backend_name] == profiles[backend_name].0);
    }
}

/// The manifest of the binding names the plugin, and puts it among the
/// backends.
pub proof fn law_manifest_names_the_plugin(manifest: PluginManifest)
    requires
        is_http_manifest(manifest),
    ensures
        manifest.id@ == "dev.mcpg.backend.http"@,
        manifest.name@ == "HTTP Binding"@,
        manifest.class == PluginClass::Backend,
{
}

} // verus!
