use pixi_pack::archive::{ArchiveEntry, ArchiveEntryData};
use pixi_pack::download::{
    cache_key, ensure_trailing_slash, extractor_release_url, is_windows_platform, plan_download,
    plan_pypi_download, settle_download_phase, url_file_name, DownloadSource, UnitReport,
};
use pixi_pack::metadata::PixiPackMetadata;
use pixi_pack::pack::pack_artifact;
use pixi_pack::record::{CondaPackage, CondaRecord, Location, PypiPackage};
use pixi_pack::unpack::{
    split_package_path, unpack_advance, unpack_plan, UnpackAction, UnpackError, UnpackPhase,
};

fn package(url: &[u8]) -> CondaPackage {
    CondaPackage {
        file_name: b"python-3.12.3-h0.conda".to_vec(),
        location: Location::Url(url.to_vec()),
        record: CondaRecord {
            name: b"python".to_vec(),
            version: b"3.12.3".to_vec(),
            build: b"h0".to_vec(),
            build_number: 0,
            subdir: b"linux-64".to_vec(),
            depends: Vec::new(),
            constrains: Vec::new(),
            md5: None,
            sha256: None,
            size: None,
            timestamp: None,
        },
    }
}

#[test]
fn cached_package_is_copied_not_fetched() {
    let p = package(b"https://conda.anaconda.org/x.conda");
    let plan = plan_download(&p, true, true);
    assert!(matches!(plan.source, DownloadSource::CacheCopy));
    assert!(plan.cache_write_rel.is_none());
    assert_eq!(plan.dest_rel, b"channel/linux-64/python-3.12.3-h0.conda".to_vec());
}

#[test]
fn remote_package_is_fetched_then_cached() {
    let p = package(b"https://conda.anaconda.org/x.conda");
    let plan = plan_download(&p, true, false);
    match plan.source {
        DownloadSource::Fetch(u) => {
            assert_eq!(u, b"https://conda.anaconda.org/x.conda".to_vec())
        }
        _ => panic!("expected a fetch"),
    }
    assert_eq!(
        plan.cache_write_rel,
        Some(b"linux-64/python-3.12.3-h0.conda".to_vec())
    );
}

#[test]
fn file_url_is_copied_from_disk() {
    let p = package(b"file:///tmp/x.conda");
    let plan = plan_download(&p, false, false);
    assert!(matches!(plan.source, DownloadSource::LocalCopy(_)));
    assert!(plan.cache_write_rel.is_none());
}

#[test]
fn cache_key_ignores_the_source() {
    let a = package(b"https://mirror-one.invalid/x.conda");
    let b = package(b"https://mirror-two.invalid/other/path.conda");
    let ka = cache_key(&a.record.subdir, &a.file_name);
    let kb = cache_key(&b.record.subdir, &b.file_name);
    assert_eq!(ka, kb);
}

#[test]
fn first_failure_in_order_surfaces() {
    let reports = vec![
        UnitReport { package: b"a".to_vec(), error: None },
        UnitReport { package: b"b".to_vec(), error: Some(b"connection reset".to_vec()) },
        UnitReport { package: b"c".to_vec(), error: Some(b"timeout".to_vec()) },
    ];
    let err = settle_download_phase(&reports).unwrap_err();
    assert_eq!(err.package, b"b".to_vec());
    assert_eq!(err.message, b"connection reset".to_vec());
    let ok = vec![UnitReport { package: b"a".to_vec(), error: None }];
    assert!(settle_download_phase(&ok).is_ok());
}

#[test]
fn extractor_url_is_keyed_by_version_and_platform() {
    let url = extractor_release_url(b"0.1.0", b"linux-64").unwrap();
    assert_eq!(
        url,
        b"https://github.com/Quantco/pixi-pack/releases/download/v0.1.0/pixi-unpack-x86_64-unknown-linux-musl".to_vec()
    );
    let url = extractor_release_url(b"0.1.0", b"win-arm64").unwrap();
    assert_eq!(
        url,
        b"https://github.com/Quantco/pixi-pack/releases/download/v0.1.0/pixi-unpack-aarch64-pc-windows-msvc.exe".to_vec()
    );
    assert!(extractor_release_url(b"0.1.0", b"emscripten-wasm32").is_none());
}

#[test]
fn trailing_slash_is_added_once() {
    assert_eq!(
        ensure_trailing_slash(b"https://mirror.invalid/channel"),
        b"https://mirror.invalid/channel/".to_vec()
    );
    assert_eq!(
        ensure_trailing_slash(b"https://mirror.invalid/channel/"),
        b"https://mirror.invalid/channel/".to_vec()
    );
}

#[test]
fn windows_platforms_are_recognized() {
    assert!(is_windows_platform(b"win-64"));
    assert!(is_windows_platform(b"win-arm64"));
    assert!(!is_windows_platform(b"linux-64"));
}

#[test]
fn package_paths_split_into_bucket_and_name() {
    let p = split_package_path(b"channel/linux-64/python-3.12.3-h0.conda").unwrap();
    assert_eq!(p.subdir, b"linux-64".to_vec());
    assert_eq!(p.file_name, b"python-3.12.3-h0.conda".to_vec());
    assert!(split_package_path(b"channel/linux-64").is_none());
    assert!(split_package_path(b"pypi/x.whl").is_none());
    assert!(split_package_path(b"channel/a/b/c").is_none());
}

fn artifact_entries(version: &[u8], platform: &[u8]) -> Vec<ArchiveEntry> {
    let meta = PixiPackMetadata {
        version: version.to_vec(),
        pixi_pack_version: None,
        platform: platform.to_vec(),
    };
    let conda = vec![package(b"https://conda.anaconda.org/x.conda")];
    let data = vec![b"bytes".to_vec()];
    let artifact =
        pack_artifact(&conda, &data, &Vec::new(), &Vec::new(), &meta, false, platform, b"", b"")
            .unwrap();
    pixi_pack::archive::tar_parse(&artifact.bytes).unwrap()
}

#[test]
fn unpack_refuses_a_foreign_platform() {
    let entries = artifact_entries(b"1", b"osx-arm64");
    let err = unpack_plan(&entries, b"linux-64", b"sh").unwrap_err();
    match err {
        UnpackError::Incompatible(e) => {
            assert_eq!(
                e.message_bytes(),
                b"The pack was created for a different platform".to_vec()
            );
        }
        _ => panic!("expected the platform gate"),
    }
}

#[test]
fn unpack_refuses_an_unsupported_version() {
    let entries = artifact_entries(b"v0", b"linux-64");
    let err = unpack_plan(&entries, b"linux-64", b"sh").unwrap_err();
    match err {
        UnpackError::Incompatible(e) => {
            assert_eq!(
                e.message_bytes(),
                b"Unsupported pixi-pack version: v0".to_vec()
            );
        }
        _ => panic!("expected the version gate"),
    }
}

#[test]
fn unpack_requires_the_metadata_file() {
    let entries = vec![ArchiveEntry {
        path: b"environment.yml".to_vec(),
        data: ArchiveEntryData::File(b"channels:\n".to_vec()),
    }];
    assert!(matches!(
        unpack_plan(&entries, b"linux-64", b"sh"),
        Err(UnpackError::MissingMetadata)
    ));
    let entries = vec![ArchiveEntry {
        path: b"pixi-pack.json".to_vec(),
        data: ArchiveEntryData::File(b"not metadata".to_vec()),
    }];
    assert!(matches!(
        unpack_plan(&entries, b"linux-64", b"sh"),
        Err(UnpackError::MalformedMetadata)
    ));
}

#[test]
fn activation_comes_only_after_the_installs() {
    // without wheels: extract, validate, install, then the activation script
    let (p, a) = unpack_advance(UnpackPhase::Extracted, true, false);
    assert!(matches!(a, UnpackAction::ValidateMetadata));
    let (p, a) = unpack_advance(p, true, false);
    assert!(matches!(a, UnpackAction::InstallConda));
    let (p, a) = unpack_advance(p, true, false);
    assert!(matches!(a, UnpackAction::WriteActivation));
    let (_, a) = unpack_advance(p, true, false);
    assert!(matches!(a, UnpackAction::Stop));

    // with wheels the wheel install comes in between
    let (p, _) = unpack_advance(UnpackPhase::Extracted, true, true);
    let (p, a) = unpack_advance(p, true, true);
    assert!(matches!(a, UnpackAction::InstallConda));
    let (p, a) = unpack_advance(p, true, true);
    assert!(matches!(a, UnpackAction::InstallPypi));
    let (_, a) = unpack_advance(p, true, true);
    assert!(matches!(a, UnpackAction::WriteActivation));

    // a failure anywhere stops the pipeline before the activation script
    let (p, a) = unpack_advance(UnpackPhase::Validated, false, false);
    assert!(matches!(p, UnpackPhase::Failed));
    assert!(matches!(a, UnpackAction::Stop));
    let (_, a) = unpack_advance(p, true, false);
    assert!(matches!(a, UnpackAction::Stop));
}

#[test]
fn url_file_names_are_decoded_last_segments() {
    assert_eq!(
        url_file_name(b"https://files.pythonhosted.org/packages/ab/cd/requests-2.32.0-py3-none-any.whl"),
        b"requests-2.32.0-py3-none-any.whl".to_vec()
    );
    assert_eq!(
        url_file_name(b"https://host.invalid/a/zope.interface-6.0%2Blocal-py3-none-any.whl"),
        b"zope.interface-6.0+local-py3-none-any.whl".to_vec()
    );
    assert_eq!(
        url_file_name(b"https://host.invalid/x/wheel-1.0-py3-none-any.whl#sha256=abc"),
        b"wheel-1.0-py3-none-any.whl".to_vec()
    );
    assert_eq!(url_file_name(b"name-only.whl"), b"name-only.whl".to_vec());
}

fn wheel(location: Location) -> PypiPackage {
    PypiPackage {
        name: b"requests".to_vec(),
        version: b"2.32.0".to_vec(),
        file_name: b"requests-2.32.0-py3-none-any.whl".to_vec(),
        location,
    }
}

#[test]
fn wheel_plan_strips_the_direct_marker() {
    let w = wheel(Location::Url(
        b"direct+https://host.invalid/w/requests-2.32.0-py3-none-any.whl".to_vec(),
    ));
    let plan = plan_pypi_download(&w, false, false).unwrap();
    match plan.source {
        DownloadSource::Fetch(u) => assert_eq!(
            u,
            b"https://host.invalid/w/requests-2.32.0-py3-none-any.whl".to_vec()
        ),
        _ => panic!("expected a fetch"),
    }
    assert_eq!(plan.dest_rel, b"pypi/requests-2.32.0-py3-none-any.whl".to_vec());
    assert!(plan.cache_write_rel.is_none());
}

#[test]
fn wheel_plan_uses_and_fills_the_cache() {
    let w = wheel(Location::Url(
        b"https://host.invalid/w/requests-2.32.0-py3-none-any.whl".to_vec(),
    ));
    let hit = plan_pypi_download(&w, true, true).unwrap();
    assert!(matches!(hit.source, DownloadSource::CacheCopy));
    assert!(hit.cache_write_rel.is_none());
    let miss = plan_pypi_download(&w, true, false).unwrap();
    assert!(matches!(miss.source, DownloadSource::Fetch(_)));
    assert_eq!(
        miss.cache_write_rel,
        Some(b"pypi/requests-2.32.0-py3-none-any.whl".to_vec())
    );
}

#[test]
fn wheel_plan_refuses_a_path_source() {
    let w = wheel(Location::Path(b"/tmp/requests-2.32.0-py3-none-any.whl".to_vec()));
    let err = plan_pypi_download(&w, false, false).unwrap_err();
    assert_eq!(err.path, b"/tmp/requests-2.32.0-py3-none-any.whl".to_vec());
}
