use pixi_pack::metadata::{
    parse_metadata, render_metadata, validate_metadata, MetadataError, PixiPackMetadata,
};

fn sample() -> PixiPackMetadata {
    PixiPackMetadata {
        version: b"1".to_vec(),
        pixi_pack_version: Some(b"0.1.0".to_vec()),
        platform: b"linux-64".to_vec(),
    }
}

#[test]
fn test_metadata_serialization_no_pixi_pack_version() {
    let metadata = parse_metadata(b"{\"version\":\"1\",\"platform\":\"linux-64\"}");
    assert!(metadata.is_some());
    let metadata = metadata.unwrap();
    assert_eq!(metadata.version, b"1".to_vec());
    assert!(metadata.pixi_pack_version.is_none());
    assert_eq!(metadata.platform, b"linux-64".to_vec());
}

#[test]
fn metadata_render_reads_back_with_reference_reader() {
    let rendered = render_metadata(&sample());
    let value: serde_json::Value = serde_json::from_slice(&rendered).unwrap();
    assert_eq!(value.get("version").and_then(|v| v.as_str()), Some("1"));
    assert_eq!(
        value.get("pixi-pack-version").and_then(|v| v.as_str()),
        Some("0.1.0")
    );
    assert_eq!(value.get("platform").and_then(|v| v.as_str()), Some("linux-64"));
}

#[test]
fn metadata_render_null_tool_version() {
    let mut m = sample();
    m.pixi_pack_version = None;
    let rendered = render_metadata(&m);
    let value: serde_json::Value = serde_json::from_slice(&rendered).unwrap();
    assert!(value.get("pixi-pack-version").unwrap().is_null());
}

#[test]
fn metadata_parse_render_round_trip() {
    let rendered = render_metadata(&sample());
    let parsed = parse_metadata(&rendered).unwrap();
    assert_eq!(parsed.version, b"1".to_vec());
    assert_eq!(parsed.pixi_pack_version, Some(b"0.1.0".to_vec()));
    assert_eq!(parsed.platform, b"linux-64".to_vec());

    let mut m = sample();
    m.pixi_pack_version = None;
    let rendered = render_metadata(&m);
    let parsed = parse_metadata(&rendered).unwrap();
    assert!(parsed.pixi_pack_version.is_none());
}

#[test]
fn metadata_parse_rejects_non_string_version() {
    assert!(parse_metadata(b"{\"version\": 1.0, \"platform\": \"linux-64\"}").is_none());
    assert!(parse_metadata(b"{\"version\": 1, \"platform\": \"linux-64\"}").is_none());
}

#[test]
fn metadata_parse_rejects_garbage() {
    assert!(parse_metadata(b"").is_none());
    assert!(parse_metadata(b"not json").is_none());
    assert!(parse_metadata(b"{\"version\": \"1\"}").is_none());
    assert!(parse_metadata(b"{\"platform\": \"linux-64\"}").is_none());
    assert!(parse_metadata(b"{\"version\": \"1\", \"platform\": \"linux-64\"} trailing").is_none());
    assert!(
        parse_metadata(b"{\"version\": \"1\", \"version\": \"1\", \"platform\": \"linux-64\"}")
            .is_none()
    );
}

#[test]
fn metadata_parse_accepts_escapes() {
    let parsed =
        parse_metadata(b"{\"version\": \"1\", \"platform\": \"a\\nb\\u0041\"}").unwrap();
    assert_eq!(parsed.platform, b"a\nbA".to_vec());
}

#[test]
fn metadata_valid_on_matching_host() {
    assert!(validate_metadata(&sample(), b"linux-64").is_ok());
}

#[test]
fn metadata_invalid_version_message() {
    let mut m = sample();
    m.version = b"v0".to_vec();
    let err = validate_metadata(&m, b"linux-64").unwrap_err();
    assert_eq!(
        err.message_bytes(),
        b"Unsupported pixi-pack version: v0".to_vec()
    );
    assert!(matches!(err, MetadataError::UnsupportedVersion { .. }));
}

#[test]
fn metadata_wrong_platform_message() {
    let err = validate_metadata(&sample(), b"win-64").unwrap_err();
    assert_eq!(
        err.message_bytes(),
        b"The pack was created for a different platform".to_vec()
    );
    assert!(matches!(err, MetadataError::PlatformMismatch { .. }));
}
