use virli::oci::{
    blob_url, get_image_path, image_reference, manifest_url, select_manifest, token_url, FetchAction,
    FetchError, FetchEvent, FetchPhase, ImageFetch, ManifestEntry, Platform,
};

fn entry(digest: &str, arch: &str, os: &str) -> ManifestEntry {
    ManifestEntry {
        digest: digest.to_string(),
        platform: Platform { architecture: arch.to_string(), os: os.to_string() },
    }
}

fn describe(a: &FetchAction) -> String {
    match a {
        FetchAction::CreateCache => "create cache".to_string(),
        FetchAction::RequestToken { url } => format!("token {}", url),
        FetchAction::RequestManifest { url, authorization, accept } => {
            format!("manifest {} [{}] {}", url, authorization, accept.join(","))
        }
        FetchAction::DownloadLayer { url, authorization } => format!("layer {} [{}]", url, authorization),
        FetchAction::Done => "done".to_string(),
        FetchAction::Fail { error } => format!("fail {}", error.message()),
    }
}

const V2: &str = "application/vnd.docker.distribution.manifest.v2+json";
const LIST: &str = "application/vnd.docker.distribution.manifest.list.v2+json";

#[test]
fn image_path_from_home_and_tag() {
    assert_eq!(
        get_image_path(Some("/home/u"), "library/node:19-alpine"),
        "/home/u/.cache/virli/images/library/node/19-alpine"
    );
    assert_eq!(get_image_path(Some("/home/u/"), "alpine"), "/home/u/.cache/virli/images/alpine/latest");
}

#[test]
fn image_path_without_home_uses_tmp() {
    assert_eq!(get_image_path(None, "alpine:3.19"), "/tmp/.cache/virli/images/alpine/3.19");
}

#[test]
fn image_path_splits_at_last_colon() {
    assert_eq!(
        get_image_path(Some("/h"), "localhost:5000/foo"),
        "/h/.cache/virli/images/localhost/5000/foo"
    );
}

#[test]
fn image_path_edge_cases_follow_path_push() {
    assert_eq!(get_image_path(Some("/h"), "a//b:t"), "/h/.cache/virli/images/a/b/t");
    assert_eq!(get_image_path(Some("/h"), "alpine:"), "/h/.cache/virli/images/alpine");
    assert_eq!(get_image_path(Some("/h"), "alpine:/etc"), "/h/.cache/virli/images/alpine/etc");
    assert_eq!(get_image_path(Some("/h"), "x:/"), "/h/.cache/virli/images/x");
    assert_eq!(get_image_path(Some(""), "x"), ".cache/virli/images/x/latest");
    assert_eq!(get_image_path(Some("/h"), "../x:../../etc"), "/h/.cache/virli/images/x/etc");
    assert_eq!(get_image_path(Some("/h"), "./a/./b:."), "/h/.cache/virli/images/a/b");
}

#[test]
fn image_path_stays_in_cache_for_every_image() {
    for image in ["a", "a/b:c", "x:y/z", "//:q", ":", "x:/etc", "x:/", "..:..", "a:../../../root"] {
        let p = get_image_path(Some("/home/u"), image);
        assert!(p.starts_with("/home/u/.cache/virli/images"), "{} -> {}", image, p);
        assert!(!p.split('/').any(|c| c == ".." || c == "."), "{} -> {}", image, p);
    }
}

#[test]
fn untagged_image_is_cached_as_latest() {
    for image in ["alpine", "library/node", "a//b"] {
        assert_eq!(get_image_path(None, image), get_image_path(None, &format!("{}:latest", image)));
    }
    assert_eq!(get_image_path(None, "alpine"), "/tmp/.cache/virli/images/alpine/latest");
}

#[test]
fn official_images_live_under_library() {
    let (repo, reference) = image_reference("ubuntu:20.04");
    assert_eq!(repo, "library/ubuntu");
    assert_eq!(reference, "20.04");
    let (repo, reference) = image_reference("myorg/app");
    assert_eq!(repo, "myorg/app");
    assert_eq!(reference, "latest");
}

#[test]
fn reference_splits_at_first_colon() {
    let (repo, reference) = image_reference("localhost:5000/foo:1");
    assert_eq!(repo, "library/localhost");
    assert_eq!(reference, "5000/foo:1");
}

#[test]
fn registry_urls() {
    assert_eq!(
        token_url("library/alpine"),
        "https://auth.docker.io/token?service=registry.docker.io&scope=repository:library/alpine:pull"
    );
    assert_eq!(
        manifest_url("library/alpine", "3.19"),
        "https://registry-1.docker.io/v2/library/alpine/manifests/3.19"
    );
    assert_eq!(
        blob_url("library/alpine", "sha256:ab"),
        "https://registry-1.docker.io/v2/library/alpine/blobs/sha256:ab"
    );
}

#[test]
fn manifest_for_amd64_linux_is_selected() {
    let entries = vec![
        entry("sha256:arm", "arm64", "linux"),
        entry("sha256:win", "amd64", "windows"),
        entry("sha256:one", "amd64", "linux"),
        entry("sha256:two", "amd64", "linux"),
    ];
    assert_eq!(select_manifest(&entries), Some(2));
    assert_eq!(select_manifest(&entries[..2].iter().map(|e| entry(&e.digest, &e.platform.architecture, &e.platform.os)).collect()), None);
    assert_eq!(select_manifest(&vec![]), None);
}

#[test]
fn cached_image_is_not_fetched() {
    let mut f = ImageFetch::new("alpine");
    assert_eq!(describe(&f.step(FetchEvent::CacheChecked { exists: true })), "done");
    assert_eq!(f.phase(), FetchPhase::Finished);
}

#[test]
fn fetch_downloads_layers_in_order() {
    let mut f = ImageFetch::new("alpine:3.19");
    assert_eq!(f.repository(), "library/alpine");
    assert_eq!(f.reference(), "3.19");
    let mut seen = vec![describe(&f.step(FetchEvent::CacheChecked { exists: false }))];
    seen.push(describe(&f.step(FetchEvent::CacheCreated)));
    seen.push(describe(&f.step(FetchEvent::TokenReceived { token: "T".to_string() })));
    assert_eq!(f.phase(), FetchPhase::AwaitingManifest);
    seen.push(describe(&f.step(FetchEvent::ManifestReceived {
        layers: vec!["sha256:1".to_string(), "sha256:2".to_string()],
    })));
    seen.push(describe(&f.step(FetchEvent::LayerUnpacked)));
    seen.push(describe(&f.step(FetchEvent::LayerUnpacked)));
    assert_eq!(
        seen,
        vec![
            "create cache".to_string(),
            "token https://auth.docker.io/token?service=registry.docker.io&scope=repository:library/alpine:pull".to_string(),
            format!("manifest https://registry-1.docker.io/v2/library/alpine/manifests/3.19 [Bearer T] {},{}", V2, LIST),
            "layer https://registry-1.docker.io/v2/library/alpine/blobs/sha256:1 [Bearer T]".to_string(),
            "layer https://registry-1.docker.io/v2/library/alpine/blobs/sha256:2 [Bearer T]".to_string(),
            "done".to_string(),
        ]
    );
    assert_eq!(f.phase(), FetchPhase::Finished);
}

#[test]
fn manifest_list_leads_to_platform_manifest() {
    let mut f = ImageFetch::new("node");
    f.step(FetchEvent::CacheChecked { exists: false });
    f.step(FetchEvent::CacheCreated);
    f.step(FetchEvent::TokenReceived { token: "tok".to_string() });
    let a = f.step(FetchEvent::ManifestListReceived {
        manifests: vec![entry("sha256:arm", "arm64", "linux"), entry("sha256:x86", "amd64", "linux")],
    });
    assert_eq!(
        describe(&a),
        format!("manifest https://registry-1.docker.io/v2/library/node/manifests/sha256:x86 [Bearer tok] {}", V2)
    );
    assert_eq!(f.phase(), FetchPhase::AwaitingPlatformManifest);
    let a = f.step(FetchEvent::ManifestReceived { layers: vec![] });
    assert_eq!(describe(&a), "done");
}

#[test]
fn manifest_list_without_platform_fails() {
    let mut f = ImageFetch::new("node");
    f.step(FetchEvent::CacheChecked { exists: false });
    f.step(FetchEvent::CacheCreated);
    f.step(FetchEvent::TokenReceived { token: "tok".to_string() });
    let a = f.step(FetchEvent::ManifestListReceived { manifests: vec![entry("d", "arm64", "linux")] });
    assert_eq!(describe(&a), "fail No amd64/linux manifest found");
    assert_eq!(f.phase(), FetchPhase::Failed);
}

#[test]
fn unexpected_event_fails_the_fetch() {
    let mut f = ImageFetch::new("node");
    match f.step(FetchEvent::LayerUnpacked) {
        FetchAction::Fail { error } => assert_eq!(error, FetchError::UnexpectedEvent),
        other => panic!("{}", describe(&other)),
    }
    assert_eq!(f.phase(), FetchPhase::Failed);
}

#[test]
fn every_request_stays_in_repository() {
    for image in ["alpine", "myuser/app:1.0"] {
        let mut f = ImageFetch::new(image);
        let prefix = format!("https://registry-1.docker.io/v2/{}/", f.repository());
        let events = vec![
            FetchEvent::CacheChecked { exists: false },
            FetchEvent::CacheCreated,
            FetchEvent::TokenReceived { token: "t".to_string() },
            FetchEvent::ManifestListReceived { manifests: vec![entry("sha256:m", "amd64", "linux")] },
            FetchEvent::ManifestReceived { layers: vec!["sha256:l".to_string()] },
            FetchEvent::LayerUnpacked,
        ];
        for e in events {
            match f.step(e) {
                FetchAction::RequestManifest { url, .. } | FetchAction::DownloadLayer { url, .. } => {
                    assert!(url.starts_with(&prefix), "{} outside {}", url, prefix)
                }
                _ => {}
            }
        }
    }
    assert_eq!(ImageFetch::new("myuser/app:1.0").repository(), "myuser/app");
}
