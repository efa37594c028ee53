use pixi_pack::archive::{tar_parse, ArchiveEntryData};
use pixi_pack::envfile::render_environment_file;
use pixi_pack::metadata::PixiPackMetadata;
use pixi_pack::pack::{default_output_name, pack_artifact};
use pixi_pack::record::{CondaPackage, CondaRecord, Location, PypiPackage};
use pixi_pack::sfx::sfx_extract;
use pixi_pack::unpack::unpack_plan;

fn record(name: &[u8], version: &[u8], build: &[u8], subdir: &[u8]) -> CondaRecord {
    CondaRecord {
        name: name.to_vec(),
        version: version.to_vec(),
        build: build.to_vec(),
        build_number: 0,
        subdir: subdir.to_vec(),
        depends: Vec::new(),
        constrains: Vec::new(),
        md5: None,
        sha256: Some(b"0000000000000000000000000000000000000000000000000000000000000000".to_vec()),
        size: Some(1234),
        timestamp: Some(1700000000000),
    }
}

fn package(name: &[u8], version: &[u8], build: &[u8]) -> CondaPackage {
    let mut file_name = name.to_vec();
    file_name.extend_from_slice(b"-");
    file_name.extend_from_slice(version);
    file_name.extend_from_slice(b"-");
    file_name.extend_from_slice(build);
    file_name.extend_from_slice(b".conda");
    CondaPackage {
        file_name,
        location: Location::Url(b"https://conda.anaconda.org/conda-forge/linux-64/x.conda".to_vec()),
        record: record(name, version, build, b"linux-64"),
    }
}

fn sample_set() -> (Vec<CondaPackage>, Vec<Vec<u8>>) {
    let conda = vec![
        package(b"python", b"3.12.3", b"h2628c8c_0"),
        package(b"libzlib", b"1.2.13", b"h4ab18f5_6"),
        package(b"tzdata", b"2024a", b"h0c530f3_0"),
    ];
    let data = vec![b"python!".to_vec(), b"libzlib!".to_vec(), b"tzdata!".to_vec()];
    (conda, data)
}

fn meta() -> PixiPackMetadata {
    PixiPackMetadata {
        version: b"1".to_vec(),
        pixi_pack_version: Some(b"0.1.0".to_vec()),
        platform: b"linux-64".to_vec(),
    }
}

#[test]
fn plain_artifact_holds_three_packages() {
    let (conda, data) = sample_set();
    let artifact = pack_artifact(
        &conda,
        &data,
        &Vec::new(),
        &Vec::new(),
        &meta(),
        false,
        b"linux-64",
        b"",
        b"",
    )
    .unwrap();
    assert!(!artifact.executable);
    let entries = tar_parse(&artifact.bytes).unwrap();

    let mut paths: Vec<String> = Vec::new();
    for e in &entries {
        paths.push(String::from_utf8(e.path.clone()).unwrap());
    }
    assert!(paths.contains(&"channel".to_string()));
    assert!(paths.contains(&"channel/linux-64".to_string()));
    assert!(paths.contains(&"channel/linux-64/repodata.json".to_string()));
    assert!(paths.contains(&"environment.yml".to_string()));
    assert!(paths.contains(&"pixi-pack.json".to_string()));
    // sorted by full path
    let mut sorted = paths.clone();
    sorted.sort();
    assert_eq!(paths, sorted);

    for e in &entries {
        let body = match &e.data {
            ArchiveEntryData::File(d) => d.clone(),
            ArchiveEntryData::Dir => continue,
        };
        if e.path == b"channel/linux-64/repodata.json".to_vec() {
            let value: serde_json::Value = serde_json::from_slice(&body).unwrap();
            let pkgs = value.get("packages.conda").unwrap().as_object().unwrap();
            assert_eq!(pkgs.len(), 3);
            let py = pkgs.get("python-3.12.3-h2628c8c_0.conda").unwrap();
            assert_eq!(py.get("version").and_then(|v| v.as_str()), Some("3.12.3"));
            assert_eq!(py.get("subdir").and_then(|v| v.as_str()), Some("linux-64"));
            assert_eq!(
                value.get("info").unwrap().get("subdir").and_then(|v| v.as_str()),
                Some("linux-64")
            );
            assert_eq!(value.get("repodata_version").and_then(|v| v.as_u64()), Some(2));
        }
        if e.path == b"pixi-pack.json".to_vec() {
            let value: serde_json::Value = serde_json::from_slice(&body).unwrap();
            assert_eq!(value.get("version").and_then(|v| v.as_str()), Some("1"));
            assert_eq!(value.get("platform").and_then(|v| v.as_str()), Some("linux-64"));
        }
        if e.path == b"environment.yml".to_vec() {
            let text = String::from_utf8(body).unwrap();
            let dep_lines: Vec<&str> =
                text.lines().filter(|l| l.starts_with("  - ") && l.contains('=')).collect();
            assert_eq!(dep_lines.len(), 3);
            assert!(text.contains("  - python=3.12.3=h2628c8c_0\n"));
            assert!(text.contains("channels:\n  - ./channel\n  - nodefaults\n"));
        }
    }

    // the unpack planner sees exactly the three package files
    let plan = unpack_plan(&entries, b"linux-64", b"sh").unwrap();
    assert_eq!(plan.packages.len(), 3);
    assert_eq!(plan.wheels.len(), 0);
    assert_eq!(plan.activation_script_name, b"activate.sh".to_vec());
}

#[test]
fn packing_twice_is_byte_identical() {
    let (conda, data) = sample_set();
    let a = pack_artifact(&conda, &data, &Vec::new(), &Vec::new(), &meta(), false, b"linux-64", b"", b"")
        .unwrap();
    let b = pack_artifact(&conda, &data, &Vec::new(), &Vec::new(), &meta(), false, b"linux-64", b"", b"")
        .unwrap();
    assert_eq!(a.bytes, b.bytes);
}

#[test]
fn executable_artifact_embeds_the_plain_archive() {
    let (conda, data) = sample_set();
    let plain = pack_artifact(&conda, &data, &Vec::new(), &Vec::new(), &meta(), false, b"linux-64", b"", b"")
        .unwrap();
    let header = b"#!/bin/sh\nbody\n# @@END_HEADER@@".to_vec();
    let extractor = b"fake extractor bytes".to_vec();
    let script = pack_artifact(
        &conda,
        &data,
        &Vec::new(),
        &Vec::new(),
        &meta(),
        true,
        b"linux-64",
        &header,
        &extractor,
    )
    .unwrap();
    assert!(script.executable);

    let sentinel = b"@@END_ARCHIVE@@";
    let mut count = 0;
    let mut first = 0;
    for (i, w) in script.bytes.windows(sentinel.len()).enumerate() {
        if w == sentinel {
            count += 1;
            first = i;
        }
    }
    assert_eq!(count, 1);
    assert!(first > 0);
    assert!(first + sentinel.len() < script.bytes.len());

    let (embedded, x) = sfx_extract(&script.bytes, &header, false).unwrap();
    assert_eq!(embedded, plain.bytes);
    assert_eq!(x, extractor);
}

#[test]
fn executable_artifact_on_windows_is_not_marked_executable() {
    let (conda, data) = sample_set();
    let script = pack_artifact(
        &conda,
        &data,
        &Vec::new(),
        &Vec::new(),
        &meta(),
        true,
        b"win-64",
        b"# __END_HEADER__",
        b"exe",
    )
    .unwrap();
    assert!(!script.executable);
}

#[test]
fn wheels_get_their_own_tree_and_pip_block() {
    let (conda, data) = sample_set();
    let pypi = vec![PypiPackage {
        name: b"requests".to_vec(),
        version: b"2.32.0".to_vec(),
        file_name: b"requests-2.32.0-py3-none-any.whl".to_vec(),
        location: Location::Url(b"https://files.pythonhosted.org/r.whl".to_vec()),
    }];
    let pdata = vec![b"wheel bytes".to_vec()];
    let artifact =
        pack_artifact(&conda, &data, &pypi, &pdata, &meta(), false, b"linux-64", b"", b"").unwrap();
    let entries = tar_parse(&artifact.bytes).unwrap();
    let mut found_wheel = false;
    for e in &entries {
        if e.path == b"pypi/requests-2.32.0-py3-none-any.whl".to_vec() {
            found_wheel = true;
        }
    }
    assert!(found_wheel);

    let env = render_environment_file(&conda, &pypi);
    let text = String::from_utf8(env).unwrap();
    assert!(text.contains("  - pip:\n    - --no-index\n    - --find-links ./pypi\n"));
    assert!(text.contains("    - requests==2.32.0\n"));

    let plan = unpack_plan(&entries, b"linux-64", b"sh").unwrap();
    assert_eq!(plan.wheels, vec![b"requests-2.32.0-py3-none-any.whl".to_vec()]);
}

#[test]
fn oversized_path_is_refused() {
    let mut p = package(b"x", b"1", b"0");
    p.file_name = vec![b'a'; 120];
    let r = pack_artifact(
        &vec![p],
        &vec![b"d".to_vec()],
        &Vec::new(),
        &Vec::new(),
        &meta(),
        false,
        b"linux-64",
        b"",
        b"",
    );
    assert!(r.is_err());
}

#[test]
fn default_output_names() {
    assert_eq!(default_output_name(false, b"linux-64"), b"environment.tar".to_vec());
    assert_eq!(default_output_name(true, b"linux-64"), b"environment.sh".to_vec());
    assert_eq!(default_output_name(true, b"win-64"), b"environment.ps1".to_vec());
}

#[test]
fn buckets_get_separate_indexes() {
    let mut noarch = package(b"tzdata", b"2024a", b"h0c530f3_0");
    noarch.record.subdir = b"noarch".to_vec();
    let conda = vec![package(b"python", b"3.12.3", b"h2628c8c_0"), noarch];
    let data = vec![b"py".to_vec(), b"tz".to_vec()];
    let artifact =
        pack_artifact(&conda, &data, &Vec::new(), &Vec::new(), &meta(), false, b"linux-64", b"", b"")
            .unwrap();
    let entries = tar_parse(&artifact.bytes).unwrap();
    let mut indexes = Vec::new();
    for e in &entries {
        let path = String::from_utf8(e.path.clone()).unwrap();
        if path.ends_with("/repodata.json") {
            if let ArchiveEntryData::File(body) = &e.data {
                let value: serde_json::Value = serde_json::from_slice(body).unwrap();
                let subdir = value
                    .get("info")
                    .and_then(|i| i.get("subdir"))
                    .and_then(|s| s.as_str())
                    .unwrap()
                    .to_string();
                let count = value.get("packages.conda").unwrap().as_object().unwrap().len();
                indexes.push((path, subdir, count));
            }
        }
    }
    indexes.sort();
    assert_eq!(indexes.len(), 2);
    assert_eq!(indexes[0], ("channel/linux-64/repodata.json".to_string(), "linux-64".to_string(), 1));
    assert_eq!(indexes[1], ("channel/noarch/repodata.json".to_string(), "noarch".to_string(), 1));
}

#[test]
fn repodata_records_carry_their_optional_fields() {
    let mut p = package(b"python", b"3.12.3", b"h2628c8c_0");
    p.record.md5 = Some(b"0123456789abcdef0123456789abcdef".to_vec());
    p.record.depends = vec![b"libzlib >=1.2.13,<2.0.0a0".to_vec()];
    p.record.constrains = vec![b"pip >=20".to_vec()];
    let rows = pixi_pack::repodata::rows_of_subdir(&vec![p], b"linux-64");
    let body = pixi_pack::repodata::render_repodata_file(&b"linux-64".to_vec(), &rows);
    let value: serde_json::Value = serde_json::from_slice(&body).unwrap();
    let rec = value
        .get("packages.conda")
        .unwrap()
        .get("python-3.12.3-h2628c8c_0.conda")
        .unwrap();
    assert_eq!(rec.get("md5").and_then(|v| v.as_str()), Some("0123456789abcdef0123456789abcdef"));
    assert_eq!(rec.get("size").and_then(|v| v.as_u64()), Some(1234));
    assert_eq!(rec.get("timestamp").and_then(|v| v.as_u64()), Some(1700000000000));
    assert_eq!(rec.get("build_number").and_then(|v| v.as_u64()), Some(0));
    assert_eq!(
        rec.get("depends").unwrap().as_array().unwrap()[0].as_str(),
        Some("libzlib >=1.2.13,<2.0.0a0")
    );
    assert_eq!(rec.get("constrains").unwrap().as_array().unwrap()[0].as_str(), Some("pip >=20"));
}
