use base64::Engine;
use pixi_pack::archive::{tar_encode, tar_parse, ArchiveEntry, ArchiveEntryData};
use pixi_pack::radix64::{b64_decode, b64_encode};
use pixi_pack::sfx::{find_subseq, sfx_extract, sfx_frame};
use std::io::Read;

fn sample_entries() -> Vec<ArchiveEntry> {
    vec![
        ArchiveEntry { path: b"channel".to_vec(), data: ArchiveEntryData::Dir },
        ArchiveEntry { path: b"channel/linux-64".to_vec(), data: ArchiveEntryData::Dir },
        ArchiveEntry {
            path: b"channel/linux-64/a.conda".to_vec(),
            data: ArchiveEntryData::File(b"package bytes".to_vec()),
        },
        ArchiveEntry {
            path: b"environment.yml".to_vec(),
            data: ArchiveEntryData::File(vec![0x41u8; 600]),
        },
    ]
}

/// Our archive writer must produce the same bytes as the reference tar
/// writer in its deterministic header mode.
#[test]
fn tar_encode_matches_reference_writer() {
    let ours = tar_encode(&sample_entries());

    let mut builder = tar::Builder::new(Vec::new());
    for entry in sample_entries() {
        let mut header = tar::Header::new_gnu();
        header.set_uid(0);
        header.set_gid(0);
        header.set_mtime(1153704088);
        header.set_device_major(0).unwrap();
        header.set_device_minor(0).unwrap();
        let path = String::from_utf8(entry.path.clone()).unwrap();
        match entry.data {
            ArchiveEntryData::Dir => {
                header.set_entry_type(tar::EntryType::dir());
                header.set_mode(0o755);
                header.set_size(0);
                builder.append_data(&mut header, &path, std::io::empty()).unwrap();
            }
            ArchiveEntryData::File(data) => {
                header.set_entry_type(tar::EntryType::file());
                header.set_mode(0o644);
                header.set_size(data.len() as u64);
                builder.append_data(&mut header, &path, data.as_slice()).unwrap();
            }
        }
    }
    let reference = builder.into_inner().unwrap();
    assert_eq!(ours, reference);
}

#[test]
fn tar_parse_round_trip() {
    let entries = sample_entries();
    let bytes = tar_encode(&entries);
    let parsed = tar_parse(&bytes).unwrap();
    assert_eq!(parsed.len(), entries.len());
    for (p, e) in parsed.iter().zip(entries.iter()) {
        assert_eq!(p.path, e.path);
        match (&p.data, &e.data) {
            (ArchiveEntryData::Dir, ArchiveEntryData::Dir) => {}
            (ArchiveEntryData::File(a), ArchiveEntryData::File(b)) => assert_eq!(a, b),
            _ => panic!("entry kind changed in the round trip"),
        }
    }
}

#[test]
fn tar_reference_reader_reads_ours() {
    let bytes = tar_encode(&sample_entries());
    let mut archive = tar::Archive::new(std::io::Cursor::new(bytes));
    let mut seen = Vec::new();
    for entry in archive.entries().unwrap() {
        let mut entry = entry.unwrap();
        let path = entry.path().unwrap().to_string_lossy().into_owned();
        assert_eq!(entry.header().mtime().unwrap(), 1153704088);
        let mut contents = Vec::new();
        entry.read_to_end(&mut contents).unwrap();
        seen.push((path, contents));
    }
    assert_eq!(seen.len(), 4);
    assert_eq!(seen[2].0, "channel/linux-64/a.conda");
    assert_eq!(seen[2].1, b"package bytes".to_vec());
    assert_eq!(seen[3].1.len(), 600);
}

#[test]
fn tar_parse_rejects_truncated() {
    let bytes = tar_encode(&sample_entries());
    assert!(tar_parse(&bytes[..bytes.len() - 700]).is_none());
    assert!(tar_parse(&[1u8; 100]).is_none());
}

#[test]
fn radix64_matches_reference_encoder() {
    let cases: Vec<Vec<u8>> = vec![
        b"".to_vec(),
        b"f".to_vec(),
        b"fo".to_vec(),
        b"foo".to_vec(),
        b"foobar!".to_vec(),
        (0u8..=255).collect(),
    ];
    for data in cases {
        let ours = b64_encode(&data);
        let reference = base64::engine::general_purpose::STANDARD.encode(&data);
        assert_eq!(ours, reference.as_bytes().to_vec());
        let back = b64_decode(&ours).unwrap();
        assert_eq!(back, data);
    }
}

#[test]
fn radix64_rejects_malformed_text() {
    assert!(b64_decode(b"abc").is_none());
    assert!(b64_decode(b"a@==").is_none());
    assert!(b64_decode(b"====").is_none());
}

#[test]
fn sfx_round_trip_posix() {
    let header = b"#!/bin/sh\necho extracting\n# @@END_HEADER@@".to_vec();
    let archive = b"archive payload bytes".to_vec();
    let extractor = (0u8..200).collect::<Vec<u8>>();
    let framed = sfx_frame(&header, &archive, &extractor, false);
    let (a, x) = sfx_extract(&framed, &header, false).unwrap();
    assert_eq!(a, archive);
    assert_eq!(x, extractor);
}

#[test]
fn sfx_round_trip_windows() {
    let header = b"Write-Host extracting\r\n# __END_HEADER__".to_vec();
    let archive = b"other payload".to_vec();
    let extractor = b"exe bytes".to_vec();
    let framed = sfx_frame(&header, &archive, &extractor, true);
    let (a, x) = sfx_extract(&framed, &header, true).unwrap();
    assert_eq!(a, archive);
    assert_eq!(x, extractor);
}

#[test]
fn sfx_sentinel_appears_once() {
    let header = b"#!/bin/sh\nbody\n# @@END_HEADER@@".to_vec();
    let framed = sfx_frame(&header, b"payload", b"extractor", false);
    let sentinel = b"@@END_ARCHIVE@@";
    let mut count = 0;
    for w in framed.windows(sentinel.len()) {
        if w == sentinel {
            count += 1;
        }
    }
    assert_eq!(count, 1);
    let at = find_subseq(&framed, sentinel).unwrap();
    assert!(at > 0);
    assert!(at + sentinel.len() < framed.len());
}
