//! Container images: where an image is cached, how its reference names a
//! repository and a tag, and the exchange with the registry that fetches it.

use vstd::prelude::*;
use vstd::string::*;
use crate::parse::{opt_str, words};
use crate::text::{
    components, find_first, find_last, first_index, is_component, joined, joined_all, last_index,
    lemma_components_clean, lemma_first_index_bounds, lemma_joined_all_concat, lemma_joined_all_extends,
    lemma_last_index_bounds, lemma_last_index_concat, lemma_pieces_lack_separator, owned, path_join, pieces,
    push_components, str_eq,
};

verus! {

/// The name part and the tag of an image name, split at its last `:`; the
/// tag is `latest` when there is no `:`.
pub open spec fn name_and_tag(image: Seq<char>) -> (Seq<char>, Seq<char>) {
    let k = last_index(image, ':');
    if k >= 0 {
        (image.subrange(0, k), image.subrange(k + 1, image.len() as int))
    } else {
        (image, "latest"@)
    }
}

/// The directory under which images are cached: `.cache/virli/images` in the
/// home directory, or in `/tmp` without one.
pub open spec fn cache_root(home: Option<Seq<char>>) -> Seq<char> {
    let base = match home {
        Some(h) => h,
        None => "/tmp"@,
    };
    joined(base, ".cache/virli/images"@)
}

/// The directories below the cache root that an image is cached in: the
/// `/`-separated parts of its name, then those of its tag, leaving out empty
/// parts, `.` and `..`.
pub open spec fn cache_components(image: Seq<char>) -> Seq<Seq<char>> {
    let (name, tag) = name_and_tag(image);
    components(pieces(name, '/')) + components(pieces(tag, '/'))
}

/// Where the image `image` is cached: each of its cache components pushed in
/// turn onto the cache root.
pub open spec fn image_path(home: Option<Seq<char>>, image: Seq<char>) -> Seq<char> {
    joined_all(cache_root(home), cache_components(image))
}

/// Resolves the local cache path for a given image, from the user's home
/// directory, when there is one, and the image name, which may hold a tag
/// (e.g. "alpine:latest").
pub fn get_image_path(home: Option<&str>, image_name: &str) -> (res: String)
    ensures
        res@ == image_path(opt_str(home), image_name@),
{
    proof {
        lemma_last_index_bounds(image_name@, ':');
    }
    let n: usize = image_name.unicode_len();
    let (name, tag): (&str, &str) = match find_last(image_name, ':') {
        Some(k) => (image_name.substring_char(0, k), image_name.substring_char(k + 1, n)),
        None => (image_name, "latest"),
    };
    assert(name@ == name_and_tag(image_name@).0 && tag@ == name_and_tag(image_name@).1);
    let base: &str = match home {
        Some(h) => h,
        None => "/tmp",
    };
    let root = path_join(base, ".cache/virli/images");
    let dir = push_components(root, name);
    let path = push_components(dir, tag);
    proof {
        lemma_joined_all_concat(
            cache_root(opt_str(home)),
            components(pieces(name@, '/')),
            components(pieces(tag@, '/')),
        );
    }
    path
}

/// Whatever the image name, its cache path lies under the cache root: it is
/// the cache root with components pushed onto it, none of which is empty,
/// `.`, `..` or holds a `/`.
pub proof fn law_image_path_in_cache(home: Option<Seq<char>>, image: Seq<char>)
    ensures
        cache_root(home).is_prefix_of(image_path(home, image)),
        forall|i: int|
            0 <= i < cache_components(image).len() ==> is_component(#[trigger] cache_components(image)[i])
                && forall|j: int|
                0 <= j < cache_components(image)[i].len() ==> cache_components(image)[i][j] != '/',
{
    let (name, tag) = name_and_tag(image);
    lemma_pieces_lack_separator(name, '/');
    lemma_pieces_lack_separator(tag, '/');
    lemma_components_clean(pieces(name, '/'), '/');
    lemma_components_clean(pieces(tag, '/'), '/');
    let a = components(pieces(name, '/'));
    let b = components(pieces(tag, '/'));
    let parts = a + b;
    assert forall|i: int| 0 <= i < parts.len() implies is_component(#[trigger] parts[i]) && forall|j: int|
        0 <= j < parts[i].len() ==> parts[i][j] != '/' by {
        if i < a.len() {
            assert(parts[i] == a[i]);
        } else {
            assert(parts[i] == b[i - a.len()]);
        }
    }
    assert forall|i: int| 0 <= i < parts.len() implies !(parts[i].len() > 0 && parts[i][0] == '/') by {
        assert(is_component(parts[i]));
    }
    lemma_joined_all_extends(cache_root(home), parts);
}

/// An image named without a tag is cached where the same name with the tag
/// `latest` is.
pub proof fn law_untagged_is_latest(home: Option<Seq<char>>, image: Seq<char>)
    requires
        last_index(image, ':') == -1,
    ensures
        image_path(home, image) == image_path(home, image + ":latest"@),
{
    reveal_strlit(":latest");
    reveal_strlit("latest");
    let tagged = image + ":latest"@;
    lemma_last_index_concat(image, ":latest"@, ':');
    assert(":latest"@ =~= seq![':'] + "latest"@);
    lemma_last_index_concat(seq![':'], "latest"@, ':');
    assert(last_index("latest"@, ':') == -1) by {
        reveal_with_fuel(last_index, 7);
    }
    assert(last_index(seq![':'], ':') == 0);
    assert(last_index(tagged, ':') == image.len());
    assert(tagged.subrange(0, image.len() as int) =~= image);
    assert(tagged.subrange(image.len() + 1 as int, tagged.len() as int) =~= "latest"@);
}

/// The name and the reference of an image name, split at its first `:`; the
/// reference is `latest` when there is no `:`.
pub open spec fn name_and_reference(image: Seq<char>) -> (Seq<char>, Seq<char>) {
    let k = first_index(image, ':');
    if k >= 0 {
        (image.subrange(0, k), image.subrange(k + 1, image.len() as int))
    } else {
        (image, "latest"@)
    }
}

/// The repository of an image name: official images, whose names have no
/// `/`, live under `library/`.
pub open spec fn repository_of(name: Seq<char>) -> Seq<char> {
    if first_index(name, '/') >= 0 {
        name
    } else {
        "library/"@ + name
    }
}

/// The repository and the reference (tag or digest) of an image name.
pub fn image_reference(image: &str) -> (res: (String, String))
    ensures
        res.0@ == repository_of(name_and_reference(image@).0),
        res.1@ == name_and_reference(image@).1,
{
    proof {
        lemma_first_index_bounds(image@, ':');
    }
    let n: usize = image.unicode_len();
    let (name, reference): (&str, &str) = match find_first(image, ':') {
        Some(k) => (image.substring_char(0, k), image.substring_char(k + 1, n)),
        None => (image, "latest"),
    };
    let repository = match find_first(name, '/') {
        Some(_) => owned(name),
        None => {
            let mut r = owned("library/");
            r.append(name);
            r
        },
    };
    (repository, owned(reference))
}

/// The registry's API.
pub open spec fn registry_url() -> Seq<char> {
    "https://registry-1.docker.io"@
}

/// Where a pull token for `repository` is asked for.
pub open spec fn token_url_of(repository: Seq<char>) -> Seq<char> {
    "https://auth.docker.io/token"@ + "?service=registry.docker.io&scope=repository:"@ + repository
        + ":pull"@
}

/// Where the manifest of `reference` in `repository` is.
pub open spec fn manifest_url_of(repository: Seq<char>, reference: Seq<char>) -> Seq<char> {
    registry_url() + "/v2/"@ + repository + "/manifests/"@ + reference
}

/// Where the blob `digest` of `repository` is.
pub open spec fn blob_url_of(repository: Seq<char>, digest: Seq<char>) -> Seq<char> {
    registry_url() + "/v2/"@ + repository + "/blobs/"@ + digest
}

/// Where a pull token for `repository` is asked for.
pub fn token_url(repository: &str) -> (res: String)
    ensures
        res@ == token_url_of(repository@),
{
    let mut url = owned("https://auth.docker.io/token");
    url.append("?service=registry.docker.io&scope=repository:");
    url.append(repository);
    url.append(":pull");
    url
}

/// Where the manifest of `reference` in `repository` is.
pub fn manifest_url(repository: &str, reference: &str) -> (res: String)
    ensures
        res@ == manifest_url_of(repository@, reference@),
{
    let mut url = owned("https://registry-1.docker.io");
    url.append("/v2/");
    url.append(repository);
    url.append("/manifests/");
    url.append(reference);
    url
}

/// Where the blob `digest` of `repository` is.
pub fn blob_url(repository: &str, digest: &str) -> (res: String)
    ensures
        res@ == blob_url_of(repository@, digest@),
{
    let mut url = owned("https://registry-1.docker.io");
    url.append("/v2/");
    url.append(repository);
    url.append("/blobs/");
    url.append(digest);
    url
}

/// The platform that a manifest of a manifest list is for.
pub struct Platform {
    pub architecture: String,
    pub os: String,
}

/// One manifest of a manifest list.
pub struct ManifestEntry {
    pub digest: String,
    pub platform: Platform,
}

/// A manifest entry over plain values.
pub struct EntryView {
    pub digest: Seq<char>,
    pub architecture: Seq<char>,
    pub os: Seq<char>,
}

impl View for ManifestEntry {
    type V = EntryView;

    open spec fn view(&self) -> EntryView {
        EntryView {
            digest: self.digest@,
            architecture: self.platform.architecture@,
            os: self.platform.os@,
        }
    }
}

/// The entries of a manifest list over plain values.
pub open spec fn entries_view(entries: Seq<ManifestEntry>) -> Seq<EntryView> {
    entries.map_values(|e: ManifestEntry| e@)
}

/// Whether an entry is for amd64 Linux, the platform that containers run on.
pub open spec fn is_target_platform(e: EntryView) -> bool {
    e.architecture == "amd64"@ && e.os == "linux"@
}

/// Index of the first entry for amd64 Linux, or -1.
pub open spec fn first_target(entries: Seq<EntryView>) -> int
    decreases entries.len(),
{
    if entries.len() == 0 {
        -1
    } else {
        let k: int = first_target(entries.drop_last());
        if k >= 0 {
            k
        } else if is_target_platform(entries.last()) {
            entries.len() - 1
        } else {
            -1
        }
    }
}

proof fn lemma_first_target_prefix(entries: Seq<EntryView>, i: int)
    requires
        0 <= i <= entries.len(),
        first_target(entries.subrange(0, i)) >= 0,
    ensures
        first_target(entries) == first_target(entries.subrange(0, i)),
    decreases entries.len() - i,
{
    if i < entries.len() {
        assert(entries.subrange(0, i + 1).drop_last() =~= entries.subrange(0, i));
        lemma_first_target_prefix(entries, i + 1);
    } else {
        assert(entries.subrange(0, i) =~= entries);
    }
}

/// Where `first_target` points.
pub proof fn lemma_first_target_bounds(entries: Seq<EntryView>)
    ensures
        -1 <= first_target(entries) < entries.len(),
        first_target(entries) >= 0 ==> is_target_platform(entries[first_target(entries)]),
    decreases entries.len(),
{
    if entries.len() > 0 {
        lemma_first_target_bounds(entries.drop_last());
    }
}

/// The manifest chosen from a manifest list is the first one whose platform
/// is amd64 Linux: it is for amd64 Linux and no entry before it is; when
/// none is chosen, no entry at all is for amd64 Linux.
pub proof fn law_first_amd64_linux_manifest(entries: Seq<EntryView>)
    ensures
        first_target(entries) >= 0 ==> {
            let k = first_target(entries);
            &&& k < entries.len()
            &&& entries[k].architecture == "amd64"@ && entries[k].os == "linux"@
            &&& forall|j: int|
                #![trigger entries[j]]
                0 <= j < k ==> !(entries[j].architecture == "amd64"@ && entries[j].os == "linux"@)
        },
        first_target(entries) < 0 ==> first_target(entries) == -1 && forall|j: int|
            #![trigger entries[j]]
            0 <= j < entries.len() ==> !(entries[j].architecture == "amd64"@ && entries[j].os == "linux"@),
    decreases entries.len(),
{
    if entries.len() > 0 {
        let init = entries.drop_last();
        law_first_amd64_linux_manifest(init);
        let k = first_target(entries);
        if first_target(init) >= 0 {
            assert(init[k] == entries[k]);
            assert forall|j: int| 0 <= j < k implies !(entries[j].architecture == "amd64"@ && entries[j].os
                == "linux"@) by {
                assert(init[j] == entries[j]);
            }
        } else {
            assert forall|j: int| 0 <= j < entries.len() - 1 implies !(entries[j].architecture == "amd64"@
                && entries[j].os == "linux"@) by {
                assert(init[j] == entries[j]);
            }
        }
    }
}

/// `law_first_amd64_linux_manifest` over the entries themselves.
proof fn lemma_first_target_of_entries(entries: Seq<ManifestEntry>)
    ensures
        ({
            let k = first_target(entries_view(entries));
            &&& k >= 0 ==> k < entries.len() && entries[k].platform.architecture@ == "amd64"@
                && entries[k].platform.os@ == "linux"@ && forall|j: int|
                #![trigger entries[j]]
                0 <= j < k ==> !(entries[j].platform.architecture@ == "amd64"@ && entries[j].platform.os@
                    == "linux"@)
            &&& k < 0 ==> k == -1 && forall|j: int|
                #![trigger entries[j]]
                0 <= j < entries.len() ==> !(entries[j].platform.architecture@ == "amd64"@
                    && entries[j].platform.os@ == "linux"@)
        }),
{
    let v = entries_view(entries);
    law_first_amd64_linux_manifest(v);
    let k = first_target(v);
    if k >= 0 {
        assert(v[k] == entries[k]@);
        assert forall|j: int| 0 <= j < k implies !(entries[j].platform.architecture@ == "amd64"@
            && entries[j].platform.os@ == "linux"@) by {
            assert(v[j] == entries[j]@);
        }
    } else {
        assert forall|j: int| 0 <= j < entries.len() implies !(entries[j].platform.architecture@ == "amd64"@
            && entries[j].platform.os@ == "linux"@) by {
            assert(v[j] == entries[j]@);
        }
    }
}

/// The manifest of a manifest list that is for amd64 Linux: the first such.
pub fn select_manifest(entries: &Vec<ManifestEntry>) -> (res: Option<usize>)
    ensures
        match res {
            Some(k) => k == first_target(entries_view(entries@)),
            None => first_target(entries_view(entries@)) == -1,
        },
        match res {
            Some(k) => k < entries@.len() && entries@[k as int].platform.architecture@ == "amd64"@
                && entries@[k as int].platform.os@ == "linux"@ && forall|j: int|
                #![trigger entries@[j]]
                0 <= j < k ==> !(entries@[j].platform.architecture@ == "amd64"@ && entries@[j].platform.os@
                    == "linux"@),
            None => forall|j: int|
                #![trigger entries@[j]]
                0 <= j < entries@.len() ==> !(entries@[j].platform.architecture@ == "amd64"@
                    && entries@[j].platform.os@ == "linux"@),
        },
{
    proof {
        lemma_first_target_of_entries(entries@);
    }
    let ghost all = entries_view(entries@);
    let mut i: usize = 0;
    while i < entries.len()
        invariant
            i <= entries@.len(),
            all == entries_view(entries@),
            first_target(all.subrange(0, i as int)) == -1,
        decreases entries.len() - i,
    {
        assert(all.subrange(0, i + 1).drop_last() =~= all.subrange(0, i as int));
        let e = &entries[i];
        assert(all[i as int] == e@);
        if str_eq(e.platform.architecture.as_str(), "amd64") && str_eq(e.platform.os.as_str(), "linux") {
            proof {
                lemma_first_target_prefix(all, i + 1);
                lemma_first_target_of_entries(entries@);
            }
            return Some(i);
        }
        i = i + 1;
    }
    assert(all.subrange(0, i as int) =~= all);
    None
}

/// Where a fetch stands.
#[derive(Clone, Copy, Debug, PartialEq, Eq, Structural)]
pub enum FetchPhase {
    /// Nothing is known yet of the cache.
    Start,
    /// The cache directory is being created.
    CreatingCache,
    /// A pull token was asked for.
    AwaitingToken,
    /// The manifest, or a manifest list, of the reference was asked for.
    AwaitingManifest,
    /// The manifest for amd64 Linux was asked for.
    AwaitingPlatformManifest,
    /// A layer is being downloaded and unpacked.
    Unpacking,
    /// The image is in the cache.
    Finished,
    /// The fetch stopped on an error.
    Failed,
}

/// Why a fetch failed, apart from the network, the registry or the disk.
#[derive(Clone, Copy, Debug, PartialEq, Eq, Structural)]
pub enum FetchError {
    /// The manifest list has no manifest for amd64 Linux.
    NoPlatformManifest,
    /// An event came that the fetch does not wait for.
    UnexpectedEvent,
}

/// The message of each fetch error.
pub open spec fn fetch_error_message(e: FetchError) -> Seq<char> {
    match e {
        FetchError::NoPlatformManifest => "No amd64/linux manifest found"@,
        FetchError::UnexpectedEvent => "Unexpected step while fetching the image"@,
    }
}

impl FetchError {
    /// The message that the error is reported with.
    pub fn message(&self) -> (res: &'static str)
        ensures
            res@ == fetch_error_message(*self),
    {
        match self {
            FetchError::NoPlatformManifest => "No amd64/linux manifest found",
            FetchError::UnexpectedEvent => "Unexpected step while fetching the image",
        }
    }
}

/// What happened since the last action.
pub enum FetchEvent {
    /// Whether the cache directory of the image exists.
    CacheChecked { exists: bool },
    /// The cache directory was created.
    CacheCreated,
    /// The registry's authentication service answered with a pull token.
    TokenReceived { token: String },
    /// The registry answered with a manifest list.
    ManifestListReceived { manifests: Vec<ManifestEntry> },
    /// The registry answered with a manifest, whose layers have these digests.
    ManifestReceived { layers: Vec<String> },
    /// The layer that was asked for is downloaded and unpacked into the cache.
    LayerUnpacked,
}

/// What to do next.
pub enum FetchAction {
    /// Create the cache directory and its parents.
    CreateCache,
    /// Ask the authentication service at `url` for a token.
    RequestToken { url: String },
    /// Get the manifest at `url`, with these `Authorization` and `Accept` headers.
    RequestManifest { url: String, authorization: String, accept: Vec<String> },
    /// Get the gzipped tar layer at `url`, with this `Authorization` header, and
    /// unpack it into the cache.
    DownloadLayer { url: String, authorization: String },
    /// The image is in the cache.
    Done,
    /// The fetch failed.
    Fail { error: FetchError },
}

/// An event over plain values.
pub enum EventView {
    CacheChecked { exists: bool },
    CacheCreated,
    TokenReceived { token: Seq<char> },
    ManifestListReceived { manifests: Seq<EntryView> },
    ManifestReceived { layers: Seq<Seq<char>> },
    LayerUnpacked,
}

/// An action over plain values.
pub enum ActionView {
    CreateCache,
    RequestToken { url: Seq<char> },
    RequestManifest { url: Seq<char>, authorization: Seq<char>, accept: Seq<Seq<char>> },
    DownloadLayer { url: Seq<char>, authorization: Seq<char> },
    Done,
    Fail { error: FetchError },
}

impl View for FetchEvent {
    type V = EventView;

    open spec fn view(&self) -> EventView {
        match self {
            FetchEvent::CacheChecked { exists } => EventView::CacheChecked { exists: *exists },
            FetchEvent::CacheCreated => EventView::CacheCreated,
            FetchEvent::TokenReceived { token } => EventView::TokenReceived { token: token@ },
            FetchEvent::ManifestListReceived { manifests } => EventView::ManifestListReceived {
                manifests: entries_view(manifests@),
            },
            FetchEvent::ManifestReceived { layers } => EventView::ManifestReceived {
                layers: words(layers@),
            },
            FetchEvent::LayerUnpacked => EventView::LayerUnpacked,
        }
    }
}

impl View for FetchAction {
    type V = ActionView;

    open spec fn view(&self) -> ActionView {
        match self {
            FetchAction::CreateCache => ActionView::CreateCache,
            FetchAction::RequestToken { url } => ActionView::RequestToken { url: url@ },
            FetchAction::RequestManifest { url, authorization, accept } => ActionView::RequestManifest {
                url: url@,
                authorization: authorization@,
                accept: words(accept@),
            },
            FetchAction::DownloadLayer { url, authorization } => ActionView::DownloadLayer {
                url: url@,
                authorization: authorization@,
            },
            FetchAction::Done => ActionView::Done,
            FetchAction::Fail { error } => ActionView::Fail { error: *error },
        }
    }
}

/// The media type of an image manifest.
pub open spec fn manifest_media_type() -> Seq<char> {
    "application/vnd.docker.distribution.manifest.v2+json"@
}

/// The media type of a manifest list.
pub open spec fn manifest_list_media_type() -> Seq<char> {
    "application/vnd.docker.distribution.manifest.list.v2+json"@
}

/// The `Authorization` header that carries `token`.
pub open spec fn bearer(token: Seq<char>) -> Seq<char> {
    "Bearer "@ + token
}

/// A fetch over plain values.
pub struct FetchView {
    pub repository: Seq<char>,
    pub reference: Seq<char>,
    pub token: Seq<char>,
    pub layers: Seq<Seq<char>>,
    pub next_layer: int,
    pub phase: FetchPhase,
}

/// A fetch of an image from the registry into its cache directory, as a
/// state machine: the caller performs each action, then hands back what
/// happened.
pub struct ImageFetch {
    repository: String,
    reference: String,
    token: String,
    layers: Vec<String>,
    next_layer: usize,
    phase: FetchPhase,
}

impl View for ImageFetch {
    type V = FetchView;

    closed spec fn view(&self) -> FetchView {
        FetchView {
            repository: self.repository@,
            reference: self.reference@,
            token: self.token@,
            layers: words(self.layers@),
            next_layer: self.next_layer as int,
            phase: self.phase,
        }
    }
}

/// The fetch of `image` before anything happened.
pub open spec fn fetch_start(image: Seq<char>) -> FetchView {
    FetchView {
        repository: repository_of(name_and_reference(image).0),
        reference: name_and_reference(image).1,
        token: Seq::empty(),
        layers: Seq::empty(),
        next_layer: 0,
        phase: FetchPhase::Start,
    }
}

/// The download of layer `i`.
pub open spec fn download(s: FetchView, i: int) -> ActionView {
    ActionView::DownloadLayer {
        url: blob_url_of(s.repository, s.layers[i]),
        authorization: bearer(s.token),
    }
}

/// Starting on the layers of a manifest: the first one, or nothing when there
/// is none.
pub open spec fn start_unpacking(s: FetchView, layers: Seq<Seq<char>>) -> (FetchView, ActionView) {
    let t = FetchView { layers, next_layer: 0, ..s };
    if layers.len() == 0 {
        (FetchView { phase: FetchPhase::Finished, ..t }, ActionView::Done)
    } else {
        (FetchView { phase: FetchPhase::Unpacking, ..t }, download(t, 0))
    }
}

/// An event that the fetch does not wait for.
pub open spec fn unexpected(s: FetchView) -> (FetchView, ActionView) {
    (FetchView { phase: FetchPhase::Failed, ..s }, ActionView::Fail { error: FetchError::UnexpectedEvent })
}

/// One step of a fetch. The cache is checked first: when it exists there is
/// nothing to do, otherwise it is created. Then a pull token is asked for,
/// with it the manifest of the reference; a manifest list leads to the
/// manifest of its first entry for amd64 Linux, and fails when there is none.
/// The layers of the manifest are then downloaded and unpacked in order.
pub open spec fn fetch_step(s: FetchView, e: EventView) -> (FetchView, ActionView) {
    match e {
        EventView::CacheChecked { exists } => if s.phase != FetchPhase::Start {
            unexpected(s)
        } else if exists {
            (FetchView { phase: FetchPhase::Finished, ..s }, ActionView::Done)
        } else {
            (FetchView { phase: FetchPhase::CreatingCache, ..s }, ActionView::CreateCache)
        },
        EventView::CacheCreated => if s.phase != FetchPhase::CreatingCache {
            unexpected(s)
        } else {
            (
                FetchView { phase: FetchPhase::AwaitingToken, ..s },
                ActionView::RequestToken { url: token_url_of(s.repository) },
            )
        },
        EventView::TokenReceived { token } => if s.phase != FetchPhase::AwaitingToken {
            unexpected(s)
        } else {
            (
                FetchView { token, phase: FetchPhase::AwaitingManifest, ..s },
                ActionView::RequestManifest {
                    url: manifest_url_of(s.repository, s.reference),
                    authorization: bearer(token),
                    accept: seq![manifest_media_type(), manifest_list_media_type()],
                },
            )
        },
        EventView::ManifestListReceived { manifests } => if s.phase != FetchPhase::AwaitingManifest {
            unexpected(s)
        } else if first_target(manifests) >= 0 {
            (
                FetchView { phase: FetchPhase::AwaitingPlatformManifest, ..s },
                ActionView::RequestManifest {
                    url: manifest_url_of(s.repository, manifests[first_target(manifests)].digest),
                    authorization: bearer(s.token),
                    accept: seq![manifest_media_type()],
                },
            )
        } else {
            (
                FetchView { phase: FetchPhase::Failed, ..s },
                ActionView::Fail { error: FetchError::NoPlatformManifest },
            )
        },
        EventView::ManifestReceived { layers } => if s.phase != FetchPhase::AwaitingManifest
            && s.phase != FetchPhase::AwaitingPlatformManifest {
            unexpected(s)
        } else {
            start_unpacking(s, layers)
        },
        EventView::LayerUnpacked => if s.phase != FetchPhase::Unpacking {
            unexpected(s)
        } else if s.next_layer + 1 < s.layers.len() {
            let t = FetchView { next_layer: s.next_layer + 1, ..s };
            (t, download(t, t.next_layer))
        } else {
            (FetchView { next_layer: s.next_layer + 1, phase: FetchPhase::Finished, ..s }, ActionView::Done)
        },
    }
}

/// `Bearer` and the token.
fn authorization_of(token: &str) -> (res: String)
    ensures
        res@ == bearer(token@),
{
    let mut h = owned("Bearer ");
    h.append(token);
    h
}

impl ImageFetch {
    #[verifier::type_invariant]
    spec fn layers_in_range(self) -> bool {
        self.phase == FetchPhase::Unpacking ==> self.next_layer < self.layers@.len()
    }

    /// The fetch of `image` (e.g. "ubuntu:20.04"), before anything happened.
    pub fn new(image: &str) -> (res: Self)
        ensures
            res@ == fetch_start(image@),
    {
        let (repository, reference) = image_reference(image);
        let res = ImageFetch {
            repository,
            reference,
            token: String::new(),
            layers: Vec::new(),
            next_layer: 0,
            phase: FetchPhase::Start,
        };
        assert(res@.layers =~= Seq::<Seq<char>>::empty());
        res
    }

    /// Where the fetch stands.
    pub fn phase(&self) -> (res: FetchPhase)
        ensures
            res == self@.phase,
    {
        self.phase
    }

    /// The repository the image is fetched from.
    pub fn repository(&self) -> (res: &str)
        ensures
            res@ == self@.repository,
    {
        self.repository.as_str()
    }

    /// The tag or digest of the image in its repository.
    pub fn reference(&self) -> (res: &str)
        ensures
            res@ == self@.reference,
    {
        self.reference.as_str()
    }

    fn download_current(&self) -> (res: FetchAction)
        requires
            self.next_layer < self.layers@.len(),
        ensures
            res@ == download(self@, self@.next_layer),
    {
        FetchAction::DownloadLayer {
            url: blob_url(self.repository.as_str(), self.layers[self.next_layer].as_str()),
            authorization: authorization_of(self.token.as_str()),
        }
    }

    fn fail(&mut self, error: FetchError) -> (res: FetchAction)
        ensures
            final(self)@ == (FetchView { phase: FetchPhase::Failed, ..old(self)@ }),
            res@ == (ActionView::Fail { error }),
    {
        self.phase = FetchPhase::Failed;
        FetchAction::Fail { error }
    }

    /// Takes what happened since the last action, and gives the next action.
    pub fn step(&mut self, event: FetchEvent) -> (res: FetchAction)
        ensures
            (final(self)@, res@) == fetch_step(old(self)@, event@),
    {
        proof {
            use_type_invariant(&*self);
        }
        match event {
            FetchEvent::CacheChecked { exists } => {
                if self.phase != FetchPhase::Start {
                    self.fail(FetchError::UnexpectedEvent)
                } else if exists {
                    self.phase = FetchPhase::Finished;
                    FetchAction::Done
                } else {
                    self.phase = FetchPhase::CreatingCache;
                    FetchAction::CreateCache
                }
            },
            FetchEvent::CacheCreated => {
                if self.phase != FetchPhase::CreatingCache {
                    self.fail(FetchError::UnexpectedEvent)
                } else {
                    self.phase = FetchPhase::AwaitingToken;
                    FetchAction::RequestToken { url: token_url(self.repository.as_str()) }
                }
            },
            FetchEvent::TokenReceived { token } => {
                if self.phase != FetchPhase::AwaitingToken {
                    self.fail(FetchError::UnexpectedEvent)
                } else {
                    let url = manifest_url(self.repository.as_str(), self.reference.as_str());
                    let authorization = authorization_of(token.as_str());
                    let mut accept: Vec<String> = Vec::new();
                    accept.push(owned("application/vnd.docker.distribution.manifest.v2+json"));
                    accept.push(owned("application/vnd.docker.distribution.manifest.list.v2+json"));
                    assert(words(accept@) =~= seq![manifest_media_type(), manifest_list_media_type()]);
                    self.token = token;
                    self.phase = FetchPhase::AwaitingManifest;
                    FetchAction::RequestManifest { url, authorization, accept }
                }
            },
            FetchEvent::ManifestListReceived { manifests } => {
                if self.phase != FetchPhase::AwaitingManifest {
                    self.fail(FetchError::UnexpectedEvent)
                } else {
                    proof {
                        lemma_first_target_bounds(entries_view(manifests@));
                    }
                    match select_manifest(&manifests) {
                        Some(k) => {
                            let url = manifest_url(self.repository.as_str(), manifests[k].digest.as_str());
                            let authorization = authorization_of(self.token.as_str());
                            let mut accept: Vec<String> = Vec::new();
                            accept.push(owned("application/vnd.docker.distribution.manifest.v2+json"));
                            assert(words(accept@) =~= seq![manifest_media_type()]);
                            self.phase = FetchPhase::AwaitingPlatformManifest;
                            FetchAction::RequestManifest { url, authorization, accept }
                        },
                        None => self.fail(FetchError::NoPlatformManifest),
                    }
                }
            },
            FetchEvent::ManifestReceived { layers } => {
                if self.phase != FetchPhase::AwaitingManifest && self.phase
                    != FetchPhase::AwaitingPlatformManifest {
                    self.fail(FetchError::UnexpectedEvent)
                } else {
                    let n: usize = layers.len();
                    self.layers = layers;
                    self.next_layer = 0;
                    if n == 0 {
                        self.phase = FetchPhase::Finished;
                        FetchAction::Done
                    } else {
                        self.phase = FetchPhase::Unpacking;
                        self.download_current()
                    }
                }
            },
            FetchEvent::LayerUnpacked => {
                if self.phase != FetchPhase::Unpacking {
                    self.fail(FetchError::UnexpectedEvent)
                } else if self.next_layer < self.layers.len() - 1 {
                    self.next_layer = self.next_layer + 1;
                    self.download_current()
                } else {
                    self.phase = FetchPhase::Finished;
                    self.next_layer = self.next_layer + 1;
                    FetchAction::Done
                }
            },
        }
    }
}

/// The state and the actions after a sequence of events.
pub open spec fn run(s: FetchView, events: Seq<EventView>) -> (FetchView, Seq<ActionView>)
    decreases events.len(),
{
    if events.len() == 0 {
        (s, Seq::empty())
    } else {
        let prev = run(s, events.drop_last());
        let next = fetch_step(prev.0, events.last());
        (next.0, prev.1.push(next.1))
    }
}

proof fn lemma_run_push(s: FetchView, events: Seq<EventView>, e: EventView)
    ensures
        run(s, events.push(e)) == (
            fetch_step(run(s, events).0, e).0,
            run(s, events).1.push(fetch_step(run(s, events).0, e).1),
        ),
{
    assert(events.push(e).drop_last() =~= events);
}

proof fn lemma_run_one(s: FetchView, e: EventView)
    ensures
        run(s, seq![e]) == (fetch_step(s, e).0, seq![fetch_step(s, e).1]),
{
    assert(seq![e] =~= Seq::<EventView>::empty().push(e));
    lemma_run_push(s, Seq::<EventView>::empty(), e);
    assert(Seq::<ActionView>::empty().push(fetch_step(s, e).1) =~= seq![fetch_step(s, e).1]);
}

/// `n` layers unpacked, one after the other.
pub open spec fn unpacked(n: nat) -> Seq<EventView> {
    Seq::new(n, |i: int| EventView::LayerUnpacked)
}

/// The downloads of all the layers of `s`, in order.
pub open spec fn downloads(s: FetchView) -> Seq<ActionView> {
    Seq::new(s.layers.len(), |i: int| download(s, i))
}

proof fn lemma_run_concat(s: FetchView, a: Seq<EventView>, b: Seq<EventView>)
    ensures
        run(s, a + b) == (run(run(s, a).0, b).0, run(s, a).1 + run(run(s, a).0, b).1),
    decreases b.len(),
{
    let t = run(s, a).0;
    if b.len() == 0 {
        assert(a + b =~= a);
        assert(run(s, a).1 + run(t, b).1 =~= run(s, a).1);
    } else {
        assert((a + b).drop_last() =~= a + b.drop_last());
        assert((a + b).last() == b.last());
        lemma_run_concat(s, a, b.drop_last());
        assert(run(s, a).1 + run(t, b).1 =~= (run(s, a).1 + run(t, b.drop_last()).1).push(
            fetch_step(run(t, b.drop_last()).0, b.last()).1,
        ));
    }
}

proof fn lemma_run_unpacking(s: FetchView, k: nat)
    requires
        s.phase == FetchPhase::Unpacking,
        s.next_layer == 0,
        k < s.layers.len(),
    ensures
        run(s, unpacked(k)) == (FetchView { next_layer: k as int, ..s }, Seq::new(k, |i: int| download(s, i + 1))),
    decreases k,
{
    if k == 0 {
        assert(unpacked(0) =~= Seq::<EventView>::empty());
        assert(Seq::new(0, |i: int| download(s, i + 1)) =~= Seq::<ActionView>::empty());
    } else {
        let j = (k - 1) as nat;
        assert(unpacked(k).drop_last() =~= unpacked(j));
        lemma_run_unpacking(s, j);
        let t = FetchView { next_layer: j as int, ..s };
        let u = FetchView { next_layer: k as int, ..s };
        assert(fetch_step(t, EventView::LayerUnpacked) == (u, download(s, k as int)));
        assert(Seq::new(j, |i: int| download(s, i + 1)).push(download(s, k as int)) =~= Seq::new(
            k,
            |i: int| download(s, i + 1),
        ));
    }
}

/// From a fetch waiting for a manifest, the manifest of `layers` and then
/// each layer unpacked in turn: every layer is downloaded once, in order,
/// and then the fetch is done.
proof fn lemma_run_layers(s: FetchView, layers: Seq<Seq<char>>)
    requires
        s.phase == FetchPhase::AwaitingManifest || s.phase == FetchPhase::AwaitingPlatformManifest,
    ensures
        run(s, seq![EventView::ManifestReceived { layers }] + unpacked(layers.len())).0.phase == FetchPhase::Finished,
        run(s, seq![EventView::ManifestReceived { layers }] + unpacked(layers.len())).1
            == downloads(FetchView { layers, next_layer: 0, ..s }) + seq![ActionView::Done],
{
    let first = seq![EventView::ManifestReceived { layers }];
    let t = FetchView { layers, next_layer: 0, ..s };
    lemma_run_concat(s, first, unpacked(layers.len()));
    lemma_run_one(s, EventView::ManifestReceived { layers });
    if layers.len() == 0 {
        assert(unpacked(0) =~= Seq::<EventView>::empty());
        assert(downloads(t) =~= Seq::<ActionView>::empty());
        assert(seq![ActionView::Done] + Seq::<ActionView>::empty() =~= downloads(t) + seq![ActionView::Done]);
    } else {
        let n = layers.len();
        let u = FetchView { phase: FetchPhase::Unpacking, ..t };
        let m = (n - 1) as nat;
        assert(unpacked(n).drop_last() =~= unpacked(m));
        lemma_run_unpacking(u, m);
        let v = FetchView { next_layer: m as int, ..u };
        assert(fetch_step(v, EventView::LayerUnpacked).1 == ActionView::Done);
        assert(seq![download(u, 0)] + Seq::new(m, |i: int| download(u, i + 1)).push(ActionView::Done)
            =~= downloads(t) + seq![ActionView::Done]);
    }
}

/// The first steps of every fetch that is not cached: create the cache, get
/// a token, ask for the manifest of the reference.
proof fn lemma_run_until_manifest(image: Seq<char>, token: Seq<char>)
    ensures
        run(fetch_start(image), seq![
            EventView::CacheChecked { exists: false },
            EventView::CacheCreated,
            EventView::TokenReceived { token },
        ]) == (
            FetchView { token, phase: FetchPhase::AwaitingManifest, ..fetch_start(image) },
            seq![
                ActionView::CreateCache,
                ActionView::RequestToken { url: token_url_of(fetch_start(image).repository) },
                ActionView::RequestManifest {
                    url: manifest_url_of(fetch_start(image).repository, fetch_start(image).reference),
                    authorization: bearer(token),
                    accept: seq![manifest_media_type(), manifest_list_media_type()],
                },
            ],
        ),
{
    let s0 = fetch_start(image);
    let e1 = seq![EventView::CacheChecked { exists: false }];
    let e2 = e1.push(EventView::CacheCreated);
    let e3 = e2.push(EventView::TokenReceived { token });
    lemma_run_one(s0, EventView::CacheChecked { exists: false });
    lemma_run_push(s0, e1, EventView::CacheCreated);
    lemma_run_push(s0, e2, EventView::TokenReceived { token });
    assert(seq![
        EventView::CacheChecked { exists: false },
        EventView::CacheCreated,
        EventView::TokenReceived { token },
    ] =~= e3);
    let r3 = run(s0, e3);
    assert(r3.1 =~= seq![
        ActionView::CreateCache,
        ActionView::RequestToken { url: token_url_of(s0.repository) },
        ActionView::RequestManifest {
            url: manifest_url_of(s0.repository, s0.reference),
            authorization: bearer(token),
            accept: seq![manifest_media_type(), manifest_list_media_type()],
        },
    ]);
}

/// An image already in the cache is not fetched: the fetch is done at once.
pub proof fn law_cached_image_is_not_fetched(image: Seq<char>)
    ensures
        run(fetch_start(image), seq![EventView::CacheChecked { exists: true }]) == (
            FetchView { phase: FetchPhase::Finished, ..fetch_start(image) },
            seq![ActionView::Done],
        ),
{
    lemma_run_one(fetch_start(image), EventView::CacheChecked { exists: true });
}

/// Fetching an image that is not cached, whose reference names a manifest:
/// the cache is created, a token is asked for, then the manifest, then every
/// layer of the manifest is downloaded and unpacked once, in the manifest's
/// order, and the fetch is done.
pub proof fn law_fetch_unpacks_every_layer_in_order(image: Seq<char>, token: Seq<char>, layers: Seq<Seq<char>>)
    ensures
        ({
            let s0 = fetch_start(image);
            let events = seq![
                EventView::CacheChecked { exists: false },
                EventView::CacheCreated,
                EventView::TokenReceived { token },
                EventView::ManifestReceived { layers },
            ] + unpacked(layers.len());
            let s = FetchView { token, layers, next_layer: 0, phase: FetchPhase::Unpacking, ..s0 };
            &&& run(s0, events).0.phase == FetchPhase::Finished
            &&& run(s0, events).1 == seq![
                ActionView::CreateCache,
                ActionView::RequestToken { url: token_url_of(s0.repository) },
                ActionView::RequestManifest {
                    url: manifest_url_of(s0.repository, s0.reference),
                    authorization: bearer(token),
                    accept: seq![manifest_media_type(), manifest_list_media_type()],
                },
            ] + downloads(s) + seq![ActionView::Done]
        }),
{
    let s0 = fetch_start(image);
    let head = seq![
        EventView::CacheChecked { exists: false },
        EventView::CacheCreated,
        EventView::TokenReceived { token },
    ];
    let tail = seq![EventView::ManifestReceived { layers }] + unpacked(layers.len());
    assert(seq![
        EventView::CacheChecked { exists: false },
        EventView::CacheCreated,
        EventView::TokenReceived { token },
        EventView::ManifestReceived { layers },
    ] + unpacked(layers.len()) =~= head + tail);
    lemma_run_until_manifest(image, token);
    lemma_run_concat(s0, head, tail);
    let waiting = FetchView { token, phase: FetchPhase::AwaitingManifest, ..s0 };
    lemma_run_layers(waiting, layers);
    let s = FetchView { token, layers, next_layer: 0, phase: FetchPhase::Unpacking, ..s0 };
    assert(downloads(FetchView { layers, next_layer: 0, ..waiting }) =~= downloads(s));
    assert(run(s0, head).1 + run(waiting, tail).1 =~= run(s0, head).1 + downloads(s) + seq![ActionView::Done]);
}

/// Fetching an image that is not cached, whose reference names a manifest
/// list: the manifest of the list's first entry for amd64 Linux is asked for
/// and its layers are unpacked in order; without such an entry the fetch
/// fails.
pub proof fn law_manifest_list_selects_platform(
    image: Seq<char>,
    token: Seq<char>,
    manifests: Seq<EntryView>,
    layers: Seq<Seq<char>>,
)
    ensures
        ({
            let s0 = fetch_start(image);
            let head = seq![
                EventView::CacheChecked { exists: false },
                EventView::CacheCreated,
                EventView::TokenReceived { token },
                EventView::ManifestListReceived { manifests },
            ];
            let start = seq![
                ActionView::CreateCache,
                ActionView::RequestToken { url: token_url_of(s0.repository) },
                ActionView::RequestManifest {
                    url: manifest_url_of(s0.repository, s0.reference),
                    authorization: bearer(token),
                    accept: seq![manifest_media_type(), manifest_list_media_type()],
                },
            ];
            let k = first_target(manifests);
            let s = FetchView { token, layers, next_layer: 0, phase: FetchPhase::Unpacking, ..s0 };
            &&& k < 0 ==> run(s0, head).0.phase == FetchPhase::Failed && run(s0, head).1 == start.push(
                ActionView::Fail { error: FetchError::NoPlatformManifest },
            )
            &&& k >= 0 ==> {
                let events = head + seq![EventView::ManifestReceived { layers }] + unpacked(layers.len());
                &&& run(s0, events).0.phase == FetchPhase::Finished
                &&& run(s0, events).1 == start.push(
                    ActionView::RequestManifest {
                        url: manifest_url_of(s0.repository, manifests[k].digest),
                        authorization: bearer(token),
                        accept: seq![manifest_media_type()],
                    },
                ) + downloads(s) + seq![ActionView::Done]
            }
        }),
{
    let s0 = fetch_start(image);
    let three = seq![
        EventView::CacheChecked { exists: false },
        EventView::CacheCreated,
        EventView::TokenReceived { token },
    ];
    let head = three.push(EventView::ManifestListReceived { manifests });
    assert(head =~= seq![
        EventView::CacheChecked { exists: false },
        EventView::CacheCreated,
        EventView::TokenReceived { token },
        EventView::ManifestListReceived { manifests },
    ]);
    lemma_run_until_manifest(image, token);
    lemma_run_push(s0, three, EventView::ManifestListReceived { manifests });
    let k = first_target(manifests);
    if k >= 0 {
        let tail = seq![EventView::ManifestReceived { layers }] + unpacked(layers.len());
        assert(head + seq![EventView::ManifestReceived { layers }] + unpacked(layers.len()) =~= head + tail);
        lemma_run_concat(s0, head, tail);
        let waiting = FetchView { token, phase: FetchPhase::AwaitingPlatformManifest, ..s0 };
        lemma_run_layers(waiting, layers);
        let s = FetchView { token, layers, next_layer: 0, phase: FetchPhase::Unpacking, ..s0 };
        assert(downloads(FetchView { layers, next_layer: 0, ..waiting }) =~= downloads(s));
        assert(run(s0, head).1 + run(waiting, tail).1 =~= run(s0, head).1 + downloads(s) + seq![ActionView::Done]);
    }
}

/// The start of every registry URL of `repository`.
pub open spec fn repository_prefix(repository: Seq<char>) -> Seq<char> {
    registry_url() + "/v2/"@ + repository + "/"@
}

/// Whether the request that an action makes, if any, is about `repository`:
/// a token for it, or a manifest or a blob under its path on the registry.
pub open spec fn request_in_repository(a: ActionView, repository: Seq<char>) -> bool {
    match a {
        ActionView::RequestToken { url } => url == token_url_of(repository),
        ActionView::RequestManifest { url, .. } => repository_prefix(repository).is_prefix_of(url),
        ActionView::DownloadLayer { url, .. } => repository_prefix(repository).is_prefix_of(url),
        _ => true,
    }
}

proof fn lemma_urls_in_repository(repository: Seq<char>, rest: Seq<char>)
    ensures
        repository_prefix(repository).is_prefix_of(manifest_url_of(repository, rest)),
        repository_prefix(repository).is_prefix_of(blob_url_of(repository, rest)),
{
    reveal_strlit("/");
    reveal_strlit("/manifests/");
    reveal_strlit("/blobs/");
    let p = repository_prefix(repository);
    assert(manifest_url_of(repository, rest) =~= p + "manifests/"@ + rest) by {
        reveal_strlit("manifests/");
    }
    assert(blob_url_of(repository, rest) =~= p + "blobs/"@ + rest) by {
        reveal_strlit("blobs/");
    }
    assert((p + "manifests/"@ + rest).subrange(0, p.len() as int) =~= p);
    assert((p + "blobs/"@ + rest).subrange(0, p.len() as int) =~= p);
}

proof fn lemma_step_in_repository(s: FetchView, e: EventView)
    ensures
        fetch_step(s, e).0.repository == s.repository,
        request_in_repository(fetch_step(s, e).1, s.repository),
{
    match e {
        EventView::TokenReceived { .. } => {
            lemma_urls_in_repository(s.repository, s.reference);
        },
        EventView::ManifestListReceived { manifests } => {
            lemma_first_target_bounds(manifests);
            if first_target(manifests) >= 0 {
                lemma_urls_in_repository(s.repository, manifests[first_target(manifests)].digest);
            }
        },
        EventView::ManifestReceived { layers } => {
            if layers.len() > 0 {
                lemma_urls_in_repository(s.repository, layers[0]);
            }
        },
        EventView::LayerUnpacked => {
            if s.next_layer + 1 < s.layers.len() {
                lemma_urls_in_repository(s.repository, s.layers[s.next_layer + 1]);
            }
        },
        _ => {},
    }
}

proof fn lemma_run_in_repository(s: FetchView, events: Seq<EventView>)
    ensures
        run(s, events).0.repository == s.repository,
        forall|i: int| 0 <= i < run(s, events).1.len() ==> request_in_repository(
            #[trigger] run(s, events).1[i],
            s.repository,
        ),
    decreases events.len(),
{
    if events.len() > 0 {
        lemma_run_in_repository(s, events.drop_last());
        let prev = run(s, events.drop_last());
        lemma_step_in_repository(prev.0, events.last());
    }
}

/// Every request of every fetch, whatever the registry answers, is about the
/// image's repository: the pull token is asked for it, and every manifest and
/// blob is fetched from under its path on the registry.
pub proof fn law_requests_stay_in_repository(image: Seq<char>, events: Seq<EventView>)
    ensures
        forall|i: int| 0 <= i < run(fetch_start(image), events).1.len() ==> request_in_repository(
            #[trigger] run(fetch_start(image), events).1[i],
            repository_of(name_and_reference(image).0),
        ),
{
    lemma_run_in_repository(fetch_start(image), events);
}

} // verus!
