use vstd::prelude::*;

use crate::archive::{
    lemma_tar_round_trip, spec_tar, spec_tar_parse, tar_encode, wf_entries, wf_entry,
    ArchiveEntry, ArchiveEntryData, ArchiveEntryModel,
};
use crate::bytes::{copy_bytes, push_bytes};
use crate::download::{spec_is_windows_platform, is_windows_platform, spec_package_dest, package_dest};
use crate::envfile::{render_environment_file, spec_environment_file};
use crate::metadata::{render_metadata, spec_render_metadata, PixiPackMetadata, PixiPackMetadataModel};
use crate::record::{wf_working_set, CondaPackage, CondaPackageModel, PypiPackage, PypiPackageModel};
use crate::repodata::{
    render_repodata_file, rows_of_subdir, spec_repodata_file, spec_rows_of_subdir,
    spec_subdirs_in_order, subdirs_in_order,
};
use crate::sfx::{sfx_frame, spec_sfx};
use crate::text::{
    channel_dir_name, dot, environment_file_name, ext_ps1, ext_sh, ext_tar, metadata_file_name,
    output_stem_default, pypi_dir_name, repodata_file_name, slash, spec_channel_dir_name,
    spec_dot, spec_environment_file_name, spec_ext_ps1, spec_ext_sh, spec_ext_tar,
    spec_metadata_file_name, spec_output_stem_default, spec_pypi_dir_name,
    spec_repodata_file_name, spec_slash,
};

verus! {

/// Lexicographic order on byte strings.
pub open spec fn lex_le(a: Seq<u8>, b: Seq<u8>) -> bool
    decreases a.len(),
{
    if a.len() == 0 {
        true
    } else if b.len() == 0 {
        false
    } else if a[0] < b[0] {
        true
    } else if a[0] > b[0] {
        false
    } else {
        lex_le(a.skip(1), b.skip(1))
    }
}

/// Compare two byte strings lexicographically.
pub fn lex_le_bytes(a: &[u8], b: &[u8]) -> (r: bool)
    ensures
        r == lex_le(a@, b@),
    decreases a@.len(),
{
    let mut i: usize = 0;
    proof {
        assert(a@.skip(0) =~= a@);
        assert(b@.skip(0) =~= b@);
    }
    loop
        invariant
            i <= a.len(),
            i <= b.len(),
            lex_le(a@, b@) == lex_le(a@.skip(i as int), b@.skip(i as int)),
        decreases a.len() - i,
    {
        let ghost ta = a@.skip(i as int);
        let ghost tb = b@.skip(i as int);
        if i == a.len() {
            proof {
                assert(ta.len() == 0);
            }
            return true;
        }
        if i == b.len() {
            proof {
                assert(tb.len() == 0 && ta.len() > 0);
            }
            return false;
        }
        proof {
            assert(ta[0] == a@[i as int] && tb[0] == b@[i as int]);
            assert(ta.skip(1) =~= a@.skip(i + 1));
            assert(tb.skip(1) =~= b@.skip(i + 1));
        }
        if a[i] < b[i] {
            return true;
        }
        if a[i] > b[i] {
            return false;
        }
        i += 1;
    }
}

/// An entry inserted into a path-sorted list, before the first entry whose
/// path is not smaller.
pub open spec fn spec_insert_entry(x: ArchiveEntryModel, s: Seq<ArchiveEntryModel>) -> Seq<
    ArchiveEntryModel,
>
    decreases s.len(),
{
    if s.len() == 0 {
        seq![x]
    } else if lex_le(x.path, s[0].path) {
        seq![x] + s
    } else {
        seq![s[0]] + spec_insert_entry(x, s.skip(1))
    }
}

/// A list of entries sorted by path, by repeated insertion from the left.
pub open spec fn spec_sort_entries(s: Seq<ArchiveEntryModel>) -> Seq<ArchiveEntryModel>
    decreases s.len(),
{
    if s.len() == 0 {
        seq![]
    } else {
        spec_insert_entry(s[s.len() - 1], spec_sort_entries(s.take(s.len() - 1)))
    }
}

/// Inserting at the found position is what `spec_insert_entry` does.
proof fn lemma_insert_entry_at(x: ArchiveEntryModel, s: Seq<ArchiveEntryModel>, j: int)
    requires
        0 <= j <= s.len(),
        forall|m: int| 0 <= m < j ==> !lex_le(x.path, (#[trigger] s[m]).path),
        j < s.len() ==> lex_le(x.path, s[j].path),
    ensures
        spec_insert_entry(x, s) == s.take(j) + seq![x] + s.skip(j),
    decreases s.len(),
{
    if s.len() == 0 {
        assert(spec_insert_entry(x, s) =~= s.take(0) + seq![x] + s.skip(0));
    } else if j == 0 {
        assert(spec_insert_entry(x, s) =~= s.take(0) + seq![x] + s.skip(0));
    } else {
        lemma_insert_entry_at(x, s.skip(1), j - 1);
        assert(s.skip(1).take(j - 1) =~= s.take(j).skip(1));
        assert(s.skip(1).skip(j - 1) =~= s.skip(j));
        assert(seq![s[0]] + (s.skip(1).take(j - 1) + seq![x] + s.skip(1).skip(j - 1)) =~= s.take(
            j,
        ) + seq![x] + s.skip(j));
    }
}

/// Insertion keeps every entry well formed.
proof fn lemma_insert_entry_wf(x: ArchiveEntryModel, s: Seq<ArchiveEntryModel>)
    requires
        wf_entry(x),
        wf_entries(s),
    ensures
        wf_entries(spec_insert_entry(x, s)),
    decreases s.len(),
{
    if s.len() == 0 {
    } else if lex_le(x.path, s[0].path) {
        let r = seq![x] + s;
        assert(forall|i: int| 0 <= i < r.len() ==> wf_entry(#[trigger] r[i]));
    } else {
        assert(wf_entries(s.skip(1))) by {
            assert(forall|i: int| 0 <= i < s.skip(1).len() ==> #[trigger] s.skip(1)[i] == s[i
                + 1]);
        }
        lemma_insert_entry_wf(x, s.skip(1));
        let r = seq![s[0]] + spec_insert_entry(x, s.skip(1));
        assert(forall|i: int| 0 <= i < r.len() ==> wf_entry(#[trigger] r[i]));
    }
}

/// Sorting keeps every entry well formed.
pub proof fn lemma_sort_entries_wf(s: Seq<ArchiveEntryModel>)
    requires
        wf_entries(s),
    ensures
        wf_entries(spec_sort_entries(s)),
    decreases s.len(),
{
    if s.len() > 0 {
        assert(wf_entries(s.take(s.len() - 1))) by {
            assert(forall|i: int|
                0 <= i < s.len() - 1 ==> #[trigger] s.take(s.len() - 1)[i] == s[i]);
        }
        lemma_sort_entries_wf(s.take(s.len() - 1));
        lemma_insert_entry_wf(s[s.len() - 1], spec_sort_entries(s.take(s.len() - 1)));
    }
}

/// Copy an archive entry.
fn clone_entry(e: &ArchiveEntry) -> (c: ArchiveEntry)
    ensures
        c@ == e@,
{
    let c = ArchiveEntry {
        path: copy_bytes(e.path.as_slice()),
        data: match &e.data {
            ArchiveEntryData::Dir => ArchiveEntryData::Dir,
            ArchiveEntryData::File(d) => ArchiveEntryData::File(copy_bytes(d.as_slice())),
        },
    };
    proof {
        assert(c@ =~~= e@);
    }
    c
}

/// Sort entries by path, smallest first.
pub fn sort_entries(entries: Vec<ArchiveEntry>) -> (r: Vec<ArchiveEntry>)
    ensures
        r.deep_view() == spec_sort_entries(entries.deep_view()),
{
    let ghost es = entries.deep_view();
    let mut sorted: Vec<ArchiveEntry> = Vec::new();
    let mut i: usize = 0;
    proof {
        assert(es.take(0) =~= Seq::<ArchiveEntryModel>::empty());
        assert(sorted.deep_view() =~~= spec_sort_entries(es.take(0)));
    }
    while i < entries.len()
        invariant
            i <= entries.len(),
            es == entries.deep_view(),
            sorted.deep_view() == spec_sort_entries(es.take(i as int)),
        decreases entries.len() - i,
    {
        let x = &entries[i];
        proof {
            assert(es[i as int] == entries@[i as int]@);
        }
        // find the insertion position inside the sorted prefix
        let mut j: usize = 0;
        while j < sorted.len()
            invariant
                j <= sorted.len(),
                es == entries.deep_view(),
                es[i as int] == entries@[i as int]@,
                i < entries.len(),
                x == &entries@[i as int],
                sorted.deep_view() == spec_sort_entries(es.take(i as int)),
                forall|m: int|
                    0 <= m < j ==> !lex_le(x@.path, (#[trigger] sorted.deep_view()[m]).path),
            decreases sorted.len() - j,
        {
            if lex_le_bytes(x.path.as_slice(), sorted[j].path.as_slice()) {
                proof {
                    assert(sorted.deep_view()[j as int] == sorted@[j as int]@);
                }
                break ;
            }
            proof {
                assert(sorted.deep_view()[j as int] == sorted@[j as int]@);
            }
            j += 1;
        }
        let ghost before = sorted.deep_view();
        sorted.insert(j, clone_entry(x));
        proof {
            lemma_insert_entry_at(es[i as int], before, j as int);
            assert(sorted.deep_view() =~~= before.take(j as int) + seq![es[i as int]]
                + before.skip(j as int));
            assert(es.take(i + 1).take(i as int) =~~= es.take(i as int));
            assert(es.take(i + 1)[i as int] == es[i as int]);
            assert(sorted.deep_view() =~~= spec_sort_entries(es.take(i + 1)));
        }
        i += 1;
    }
    proof {
        assert(es.take(es.len() as int) =~~= es);
    }
    sorted
}

/// The directory entries of the channel tree: the channel directory itself,
/// then one directory per subdirectory bucket, in first-occurrence order.
pub open spec fn spec_subdir_dir_entries(subdirs: Seq<Seq<u8>>) -> Seq<ArchiveEntryModel>
    decreases subdirs.len(),
{
    if subdirs.len() == 0 {
        seq![]
    } else {
        spec_subdir_dir_entries(subdirs.take(subdirs.len() - 1)).push(
            ArchiveEntryModel {
                path: spec_channel_dir_name() + spec_slash() + subdirs[subdirs.len() - 1],
                is_dir: true,
                data: seq![],
            },
        )
    }
}

/// The repodata index entries: one file per subdirectory bucket, holding the
/// index of exactly that bucket's packages.
pub open spec fn spec_repodata_entries(
    subdirs: Seq<Seq<u8>>,
    conda: Seq<CondaPackageModel>,
) -> Seq<ArchiveEntryModel>
    decreases subdirs.len(),
{
    if subdirs.len() == 0 {
        seq![]
    } else {
        let d = subdirs[subdirs.len() - 1];
        spec_repodata_entries(subdirs.take(subdirs.len() - 1), conda).push(
            ArchiveEntryModel {
                path: spec_channel_dir_name() + spec_slash() + d + spec_slash()
                    + spec_repodata_file_name(),
                is_dir: false,
                data: spec_repodata_file(d, spec_rows_of_subdir(conda, d)),
            },
        )
    }
}

/// The package file entries, one per conda package, in working-set order.
pub open spec fn spec_package_entries(
    conda: Seq<CondaPackageModel>,
    data: Seq<Seq<u8>>,
) -> Seq<ArchiveEntryModel>
    decreases conda.len(),
{
    if conda.len() == 0 {
        seq![]
    } else {
        spec_package_entries(conda.take(conda.len() - 1), data.take(conda.len() - 1)).push(
            ArchiveEntryModel {
                path: spec_package_dest(
                    conda[conda.len() - 1].record.subdir,
                    conda[conda.len() - 1].file_name,
                ),
                is_dir: false,
                data: data[conda.len() - 1],
            },
        )
    }
}

/// The wheel entries: the wheel directory and one file per wheel, present
/// exactly when wheels are present.
pub open spec fn spec_pypi_entries(
    pypi: Seq<PypiPackageModel>,
    data: Seq<Seq<u8>>,
) -> Seq<ArchiveEntryModel>
    decreases pypi.len(),
{
    if pypi.len() == 0 {
        seq![]
    } else {
        spec_pypi_entries(pypi.take(pypi.len() - 1), data.take(pypi.len() - 1)).push(
            ArchiveEntryModel {
                path: spec_pypi_dir_name() + spec_slash() + pypi[pypi.len() - 1].file_name,
                is_dir: false,
                data: data[pypi.len() - 1],
            },
        )
    }
}

/// Every entry of the artifact, in collection order: the channel tree, the
/// package files, the per-bucket indexes, the environment descriptor, the
/// metadata file, and the wheel tree when wheels are present.
pub open spec fn spec_collect_entries(
    conda: Seq<CondaPackageModel>,
    conda_data: Seq<Seq<u8>>,
    pypi: Seq<PypiPackageModel>,
    pypi_data: Seq<Seq<u8>>,
    meta: PixiPackMetadataModel,
) -> Seq<ArchiveEntryModel> {
    seq![
        ArchiveEntryModel { path: spec_channel_dir_name(), is_dir: true, data: seq![] },
    ] + spec_subdir_dir_entries(spec_subdirs_in_order(conda)) + spec_repodata_entries(
        spec_subdirs_in_order(conda),
        conda,
    ) + spec_package_entries(conda, conda_data) + seq![
        ArchiveEntryModel {
            path: spec_environment_file_name(),
            is_dir: false,
            data: spec_environment_file(conda, pypi),
        },
        ArchiveEntryModel {
            path: spec_metadata_file_name(),
            is_dir: false,
            data: spec_render_metadata(meta),
        },
    ] + (if pypi.len() == 0 {
        seq![]
    } else {
        seq![
            ArchiveEntryModel { path: spec_pypi_dir_name(), is_dir: true, data: seq![] },
        ] + spec_pypi_entries(pypi, pypi_data)
    })
}

/// The archive of a working set: the collected entries, sorted by path,
/// encoded as one deterministic archive.
pub open spec fn spec_pack_archive(
    conda: Seq<CondaPackageModel>,
    conda_data: Seq<Seq<u8>>,
    pypi: Seq<PypiPackageModel>,
    pypi_data: Seq<Seq<u8>>,
    meta: PixiPackMetadataModel,
) -> Seq<u8> {
    spec_tar(spec_sort_entries(spec_collect_entries(conda, conda_data, pypi, pypi_data, meta)))
}

/// Append one directory entry per subdirectory bucket.
fn push_subdir_dirs(entries: &mut Vec<ArchiveEntry>, subdirs: &Vec<Vec<u8>>)
    ensures
        final(entries).deep_view() == old(entries).deep_view() + spec_subdir_dir_entries(
            subdirs.deep_view(),
        ),
{
    let mut i: usize = 0;
    proof {
        assert(subdirs.deep_view().take(0) =~= Seq::<Seq<u8>>::empty());
        assert(entries.deep_view() =~~= old(entries).deep_view() + spec_subdir_dir_entries(
            subdirs.deep_view().take(0),
        ));
    }
    while i < subdirs.len()
        invariant
            i <= subdirs.len(),
            entries.deep_view() == old(entries).deep_view() + spec_subdir_dir_entries(
                subdirs.deep_view().take(i as int),
            ),
        decreases subdirs.len() - i,
    {
        let mut path = channel_dir_name();
        let sep = slash();
        push_bytes(&mut path, sep.as_slice());
        push_bytes(&mut path, subdirs[i].as_slice());
        proof {
            assert(subdirs.deep_view()[i as int] == subdirs@[i as int]@);
            let sd = subdirs.deep_view()[i as int];
            assert(path@ =~= spec_channel_dir_name() + spec_slash() + sd);
        }
        let ghost before = entries.deep_view();
        entries.push(ArchiveEntry { path, data: ArchiveEntryData::Dir });
        proof {
            assert(entries.deep_view() =~~= before.push(
                ArchiveEntryModel {
                    path: spec_channel_dir_name() + spec_slash() + subdirs.deep_view()[i as int],
                    is_dir: true,
                    data: seq![],
                },
            ));
            let t1 = subdirs.deep_view().take(i + 1);
            assert(t1.take(t1.len() - 1) =~~= subdirs.deep_view().take(i as int));
            assert(t1[t1.len() - 1] == subdirs.deep_view()[i as int]);
            assert(entries.deep_view() =~~= old(entries).deep_view() + spec_subdir_dir_entries(
                t1,
            ));
        }
        i += 1;
    }
    proof {
        assert(subdirs.deep_view().take(subdirs.deep_view().len() as int)
            =~~= subdirs.deep_view());
    }
}

/// Append one repodata index file per subdirectory bucket.
fn push_repodata_files(
    entries: &mut Vec<ArchiveEntry>,
    subdirs: &Vec<Vec<u8>>,
    conda: &Vec<CondaPackage>,
)
    ensures
        final(entries).deep_view() == old(entries).deep_view() + spec_repodata_entries(
            subdirs.deep_view(),
            conda.deep_view(),
        ),
{
    let ghost cs = conda.deep_view();
    let mut i: usize = 0;
    proof {
        assert(subdirs.deep_view().take(0) =~= Seq::<Seq<u8>>::empty());
        assert(entries.deep_view() =~~= old(entries).deep_view() + spec_repodata_entries(
            subdirs.deep_view().take(0),
            cs,
        ));
    }
    while i < subdirs.len()
        invariant
            i <= subdirs.len(),
            cs == conda.deep_view(),
            entries.deep_view() == old(entries).deep_view() + spec_repodata_entries(
                subdirs.deep_view().take(i as int),
                cs,
            ),
        decreases subdirs.len() - i,
    {
        let rows = rows_of_subdir(conda, subdirs[i].as_slice());
        let body = render_repodata_file(&subdirs[i], &rows);
        let mut path = channel_dir_name();
        let sep = slash();
        push_bytes(&mut path, sep.as_slice());
        push_bytes(&mut path, subdirs[i].as_slice());
        push_bytes(&mut path, sep.as_slice());
        let name = repodata_file_name();
        push_bytes(&mut path, name.as_slice());
        proof {
            assert(subdirs.deep_view()[i as int] == subdirs@[i as int]@);
            let sd = subdirs.deep_view()[i as int];
            assert(path@ =~= spec_channel_dir_name() + spec_slash() + sd + spec_slash()
                + spec_repodata_file_name());
        }
        let ghost bv = body@;
        let ghost before = entries.deep_view();
        entries.push(ArchiveEntry { path, data: ArchiveEntryData::File(body) });
        proof {
            assert(entries.deep_view() =~~= before.push(
                ArchiveEntryModel {
                    path: spec_channel_dir_name() + spec_slash() + subdirs.deep_view()[i as int]
                        + spec_slash() + spec_repodata_file_name(),
                    is_dir: false,
                    data: bv,
                },
            ));
            let t1 = subdirs.deep_view().take(i + 1);
            assert(t1.take(t1.len() - 1) =~~= subdirs.deep_view().take(i as int));
            assert(t1[t1.len() - 1] == subdirs.deep_view()[i as int]);
            assert(entries.deep_view() =~~= old(entries).deep_view() + spec_repodata_entries(
                t1,
                cs,
            ));
        }
        i += 1;
    }
    proof {
        assert(subdirs.deep_view().take(subdirs.deep_view().len() as int)
            =~~= subdirs.deep_view());
    }
}

/// Append one file entry per conda package.
fn push_package_files(
    entries: &mut Vec<ArchiveEntry>,
    conda: &Vec<CondaPackage>,
    conda_data: &Vec<Vec<u8>>,
)
    requires
        conda_data@.len() == conda@.len(),
    ensures
        final(entries).deep_view() == old(entries).deep_view() + spec_package_entries(
            conda.deep_view(),
            conda_data.deep_view(),
        ),
{
    let ghost cs = conda.deep_view();
    let ghost cds = conda_data.deep_view();
    let mut i: usize = 0;
    proof {
        assert(cs.take(0) =~= Seq::<CondaPackageModel>::empty());
        assert(cds.take(0) =~= Seq::<Seq<u8>>::empty());
        assert(entries.deep_view() =~~= old(entries).deep_view() + spec_package_entries(
            cs.take(0),
            cds.take(0),
        ));
    }
    while i < conda.len()
        invariant
            i <= conda.len(),
            cs == conda.deep_view(),
            cds == conda_data.deep_view(),
            cds.len() == cs.len(),
            entries.deep_view() == old(entries).deep_view() + spec_package_entries(
                cs.take(i as int),
                cds.take(i as int),
            ),
        decreases conda.len() - i,
    {
        let path = package_dest(conda[i].record.subdir.as_slice(), conda[i].file_name.as_slice());
        let body = copy_bytes(conda_data[i].as_slice());
        let ghost before = entries.deep_view();
        entries.push(ArchiveEntry { path, data: ArchiveEntryData::File(body) });
        proof {
            assert(cs[i as int] == conda@[i as int]@);
            assert(cds[i as int] == conda_data@[i as int]@);
            assert(entries.deep_view() =~~= before.push(
                ArchiveEntryModel {
                    path: spec_package_dest(cs[i as int].record.subdir, cs[i as int].file_name),
                    is_dir: false,
                    data: cds[i as int],
                },
            ));
            let t1 = cs.take(i + 1);
            let t2 = cds.take(i + 1);
            assert(t1.take(t1.len() - 1) =~~= cs.take(i as int));
            assert(t2.take(t1.len() - 1) =~~= cds.take(i as int));
            assert(t1[t1.len() - 1] == cs[i as int]);
            assert(t2[t1.len() - 1] == cds[i as int]);
            assert(entries.deep_view() =~~= old(entries).deep_view() + spec_package_entries(
                t1,
                t2,
            ));
        }
        i += 1;
    }
    proof {
        assert(cs.take(cs.len() as int) =~~= cs);
        assert(cds.take(cs.len() as int) =~~= cds);
    }
}

/// Append one file entry per wheel.
fn push_pypi_files(
    entries: &mut Vec<ArchiveEntry>,
    pypi: &Vec<PypiPackage>,
    pypi_data: &Vec<Vec<u8>>,
)
    requires
        pypi_data@.len() == pypi@.len(),
    ensures
        final(entries).deep_view() == old(entries).deep_view() + spec_pypi_entries(
            pypi.deep_view(),
            pypi_data.deep_view(),
        ),
{
    let ghost ps = pypi.deep_view();
    let ghost pds = pypi_data.deep_view();
    let mut i: usize = 0;
    proof {
        assert(ps.take(0) =~= Seq::<PypiPackageModel>::empty());
        assert(pds.take(0) =~= Seq::<Seq<u8>>::empty());
        assert(entries.deep_view() =~~= old(entries).deep_view() + spec_pypi_entries(
            ps.take(0),
            pds.take(0),
        ));
    }
    while i < pypi.len()
        invariant
            i <= pypi.len(),
            ps == pypi.deep_view(),
            pds == pypi_data.deep_view(),
            pds.len() == ps.len(),
            entries.deep_view() == old(entries).deep_view() + spec_pypi_entries(
                ps.take(i as int),
                pds.take(i as int),
            ),
        decreases pypi.len() - i,
    {
        let mut path = pypi_dir_name();
        let sep = slash();
        push_bytes(&mut path, sep.as_slice());
        push_bytes(&mut path, pypi[i].file_name.as_slice());
        let body = copy_bytes(pypi_data[i].as_slice());
        proof {
            assert(ps[i as int] == pypi@[i as int]@);
            assert(path@ =~= spec_pypi_dir_name() + spec_slash() + ps[i as int].file_name);
        }
        let ghost before = entries.deep_view();
        entries.push(ArchiveEntry { path, data: ArchiveEntryData::File(body) });
        proof {
            assert(pds[i as int] == pypi_data@[i as int]@);
            assert(entries.deep_view() =~~= before.push(
                ArchiveEntryModel {
                    path: spec_pypi_dir_name() + spec_slash() + ps[i as int].file_name,
                    is_dir: false,
                    data: pds[i as int],
                },
            ));
            let t1 = ps.take(i + 1);
            let t2 = pds.take(i + 1);
            assert(t1.take(t1.len() - 1) =~~= ps.take(i as int));
            assert(t2.take(t1.len() - 1) =~~= pds.take(i as int));
            assert(t1[t1.len() - 1] == ps[i as int]);
            assert(t2[t1.len() - 1] == pds[i as int]);
            assert(entries.deep_view() =~~= old(entries).deep_view() + spec_pypi_entries(t1, t2));
        }
        i += 1;
    }
    proof {
        assert(ps.take(ps.len() as int) =~~= ps);
        assert(pds.take(ps.len() as int) =~~= pds);
    }
}

/// Collect the artifact's entries, unsorted.
#[verifier::rlimit(100)]
fn collect_entries(
    conda: &Vec<CondaPackage>,
    conda_data: &Vec<Vec<u8>>,
    pypi: &Vec<PypiPackage>,
    pypi_data: &Vec<Vec<u8>>,
    meta: &PixiPackMetadata,
) -> (r: Vec<ArchiveEntry>)
    requires
        conda_data@.len() == conda@.len(),
        pypi_data@.len() == pypi@.len(),
    ensures
        r.deep_view() == spec_collect_entries(
            conda.deep_view(),
            conda_data.deep_view(),
            pypi.deep_view(),
            pypi_data.deep_view(),
            meta@,
        ),
{
    let ghost cs = conda.deep_view();
    let ghost cds = conda_data.deep_view();
    let ghost ps = pypi.deep_view();
    let ghost pds = pypi_data.deep_view();
    let mut entries: Vec<ArchiveEntry> = Vec::new();
    entries.push(ArchiveEntry { path: channel_dir_name(), data: ArchiveEntryData::Dir });
    let ghost channel_entry = ArchiveEntryModel {
        path: spec_channel_dir_name(),
        is_dir: true,
        data: seq![],
    };
    proof {
        assert(entries.deep_view() =~~= seq![channel_entry]);
    }
    let subdirs = subdirs_in_order(conda);
    push_subdir_dirs(&mut entries, &subdirs);
    proof {
        assert(entries.deep_view() =~~= seq![channel_entry] + spec_subdir_dir_entries(
            spec_subdirs_in_order(cs),
        ));
    }
    let ghost acc1 = entries.deep_view();
    push_repodata_files(&mut entries, &subdirs, conda);
    proof {
        assert(entries.deep_view() =~~= acc1 + spec_repodata_entries(
            spec_subdirs_in_order(cs),
            cs,
        ));
    }
    let ghost acc2 = entries.deep_view();
    push_package_files(&mut entries, conda, conda_data);
    proof {
        assert(entries.deep_view() =~~= acc2 + spec_package_entries(cs, cds));
    }
    let ghost acc3 = entries.deep_view();
    let body = render_environment_file(conda, pypi);
    let ghost env_entry = ArchiveEntryModel {
        path: spec_environment_file_name(),
        is_dir: false,
        data: spec_environment_file(cs, ps),
    };
    entries.push(
        ArchiveEntry { path: environment_file_name(), data: ArchiveEntryData::File(body) },
    );
    let body = render_metadata(meta);
    let ghost meta_entry = ArchiveEntryModel {
        path: spec_metadata_file_name(),
        is_dir: false,
        data: spec_render_metadata(meta@),
    };
    entries.push(ArchiveEntry { path: metadata_file_name(), data: ArchiveEntryData::File(body) });
    proof {
        assert(entries.deep_view() =~~= acc3 + seq![env_entry, meta_entry]);
    }
    let ghost acc4 = entries.deep_view();
    if pypi.len() > 0 {
        entries.push(ArchiveEntry { path: pypi_dir_name(), data: ArchiveEntryData::Dir });
        let ghost pypi_dir_entry = ArchiveEntryModel {
            path: spec_pypi_dir_name(),
            is_dir: true,
            data: seq![],
        };
        proof {
            assert(entries.deep_view() =~~= acc4 + seq![pypi_dir_entry]);
        }
        let ghost acc5 = entries.deep_view();
        push_pypi_files(&mut entries, pypi, pypi_data);
        proof {
            assert(entries.deep_view() =~~= acc5 + spec_pypi_entries(ps, pds));
            assert(entries.deep_view() =~~= spec_collect_entries(cs, cds, ps, pds, meta@));
        }
    } else {
        proof {
            assert(entries.deep_view() =~~= spec_collect_entries(cs, cds, ps, pds, meta@));
        }
    }
    entries
}

/// Check every entry for archive well-formedness.
fn entries_wf(entries: &Vec<ArchiveEntry>) -> (r: bool)
    ensures
        r == wf_entries(entries.deep_view()),
{
    let mut i: usize = 0;
    while i < entries.len()
        invariant
            i <= entries.len(),
            forall|j: int| 0 <= j < i ==> wf_entry(#[trigger] entries.deep_view()[j]),
        decreases entries.len() - i,
    {
        let e = &entries[i];
        proof {
            assert(entries.deep_view()[i as int] == entries@[i as int]@);
        }
        if e.path.len() == 0 || e.path.len() > 100 {
            return false;
        }
        let mut k: usize = 0;
        while k < e.path.len()
            invariant
                k <= e.path@.len(),
                forall|m: int| 0 <= m < k ==> e.path@[m] != 0u8,
            decreases e.path.len() - k,
        {
            if e.path[k] == 0u8 {
                proof {
                    assert(!wf_entry(entries.deep_view()[i as int]));
                }
                return false;
            }
            k += 1;
        }
        match &e.data {
            ArchiveEntryData::Dir => {},
            ArchiveEntryData::File(d) => {
                if d.len() as u64 >= 0x200000000u64 {
                    return false;
                }
            },
        }
        proof {
            assert(wf_entry(entries.deep_view()[i as int]));
        }
        i += 1;
    }
    true
}

/// A finished artifact: its bytes, whether the file must carry the
/// executable permission bit, and the extension its name takes.
#[derive(Debug)]
pub struct BuiltArtifact {
    pub bytes: Vec<u8>,
    pub executable: bool,
}

/// Why an artifact could not be built.
#[derive(Debug)]
pub enum PackError {
    /// An entry's path does not fit the archive format's hundred-byte name
    /// field (this codec writes no long-name extension records), or a file
    /// is too large for its twelve-digit octal size field.
    UnencodableEntry,
}

/// Build the artifact for a working set: the collected entries, sorted by
/// path, as one deterministic archive; and, when a self-extracting script
/// was asked for, that archive framed between the given header text and the
/// extractor executable. The working set must satisfy its invariant — no
/// two members of one identity, no two in one archive slot — so every
/// package lands in the artifact exactly once. The result is a pure
/// function of the arguments: packing the same working set twice gives
/// byte-identical artifacts.
pub fn pack_artifact(
    conda: &Vec<CondaPackage>,
    conda_data: &Vec<Vec<u8>>,
    pypi: &Vec<PypiPackage>,
    pypi_data: &Vec<Vec<u8>>,
    meta: &PixiPackMetadata,
    create_executable: bool,
    platform: &[u8],
    header: &[u8],
    extractor: &[u8],
) -> (r: Result<BuiltArtifact, PackError>)
    requires
        wf_working_set(conda.deep_view()),
        conda_data@.len() == conda@.len(),
        pypi_data@.len() == pypi@.len(),
    ensures
        r is Ok <==> wf_entries(
            spec_collect_entries(
                conda.deep_view(),
                conda_data.deep_view(),
                pypi.deep_view(),
                pypi_data.deep_view(),
                meta@,
            ),
        ),
        r matches Ok(a) ==> {
            &&& !create_executable ==> a.bytes@ == spec_pack_archive(
                conda.deep_view(),
                conda_data.deep_view(),
                pypi.deep_view(),
                pypi_data.deep_view(),
                meta@,
            )
            &&& create_executable ==> a.bytes@ == spec_sfx(
                header@,
                spec_pack_archive(
                    conda.deep_view(),
                    conda_data.deep_view(),
                    pypi.deep_view(),
                    pypi_data.deep_view(),
                    meta@,
                ),
                extractor@,
                spec_is_windows_platform(platform@),
            )
            &&& a.executable == (create_executable && !spec_is_windows_platform(platform@))
        },
{
    let entries = collect_entries(conda, conda_data, pypi, pypi_data, meta);
    if !entries_wf(&entries) {
        return Err(PackError::UnencodableEntry);
    }
    let ghost collected = entries.deep_view();
    let sorted = sort_entries(entries);
    proof {
        lemma_sort_entries_wf(collected);
    }
    let archive = tar_encode(&sorted);
    let windows = is_windows_platform(platform);
    if create_executable {
        let bytes = sfx_frame(header, archive.as_slice(), extractor, windows);
        Ok(BuiltArtifact { bytes, executable: !windows })
    } else {
        Ok(BuiltArtifact { bytes: archive, executable: false })
    }
}

/// Packing is deterministic: two runs over equal working sets, injected
/// packages included, give byte-identical archives.
pub proof fn lemma_pack_deterministic(
    conda1: Seq<CondaPackageModel>,
    data1: Seq<Seq<u8>>,
    pypi1: Seq<PypiPackageModel>,
    pdata1: Seq<Seq<u8>>,
    meta1: PixiPackMetadataModel,
    conda2: Seq<CondaPackageModel>,
    data2: Seq<Seq<u8>>,
    pypi2: Seq<PypiPackageModel>,
    pdata2: Seq<Seq<u8>>,
    meta2: PixiPackMetadataModel,
)
    requires
        conda1 == conda2,
        data1 == data2,
        pypi1 == pypi2,
        pdata1 == pdata2,
        meta1 == meta2,
    ensures
        spec_pack_archive(conda1, data1, pypi1, pdata1, meta1) == spec_pack_archive(
            conda2,
            data2,
            pypi2,
            pdata2,
            meta2,
        ),
{
}

/// Decoding a freshly packed plain artifact gives back exactly its entries:
/// the metadata file, the environment descriptor, one file per conda
/// package and wheel of the working set, and one index per bucket — nothing
/// lost, nothing added.
pub proof fn lemma_archive_round_trip(
    conda: Seq<CondaPackageModel>,
    conda_data: Seq<Seq<u8>>,
    pypi: Seq<PypiPackageModel>,
    pypi_data: Seq<Seq<u8>>,
    meta: PixiPackMetadataModel,
)
    requires
        wf_entries(spec_collect_entries(conda, conda_data, pypi, pypi_data, meta)),
    ensures
        spec_tar_parse(spec_pack_archive(conda, conda_data, pypi, pypi_data, meta)) == Some(
            spec_sort_entries(spec_collect_entries(conda, conda_data, pypi, pypi_data, meta)),
        ),
{
    lemma_sort_entries_wf(spec_collect_entries(conda, conda_data, pypi, pypi_data, meta));
    lemma_tar_round_trip(
        spec_sort_entries(spec_collect_entries(conda, conda_data, pypi, pypi_data, meta)),
    );
}

/// The artifact file's name: the default stem with the extension the shape
/// and platform call for — a plain archive, a POSIX shell script, or a
/// PowerShell script.
pub open spec fn spec_default_output_name(create_executable: bool, windows: bool) -> Seq<u8> {
    spec_output_stem_default() + spec_dot() + (if !create_executable {
        spec_ext_tar()
    } else if windows {
        spec_ext_ps1()
    } else {
        spec_ext_sh()
    })
}

/// Build the default artifact file name.
pub fn default_output_name(create_executable: bool, platform: &[u8]) -> (r: Vec<u8>)
    ensures
        r@ == spec_default_output_name(create_executable, spec_is_windows_platform(platform@)),
{
    let mut out = output_stem_default();
    let d = dot();
    push_bytes(&mut out, d.as_slice());
    let ext = if !create_executable {
        ext_tar()
    } else if is_windows_platform(platform) {
        ext_ps1()
    } else {
        ext_sh()
    };
    push_bytes(&mut out, ext.as_slice());
    proof {
        assert(out@ =~= spec_default_output_name(
            create_executable,
            spec_is_windows_platform(platform@),
        ));
    }
    out
}

} // verus!
