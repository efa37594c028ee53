use vstd::prelude::*;

use crate::archive::{ArchiveEntry, ArchiveEntryModel};
use crate::download::{lemma_first_slash_of_join, spec_package_dest};
use crate::pack::{
    spec_collect_entries, spec_package_entries, spec_pypi_entries, spec_repodata_entries,
    spec_subdir_dir_entries,
};
use crate::record::{is_path_component, wf_conda_package, wf_working_set, CondaPackageModel,
    PypiPackageModel};
use crate::repodata::spec_subdirs_in_order;
use crate::bytes::{bytes_eq, is_prefix_of, push_bytes, starts_with};
use crate::download::spec_first_slash;
use crate::metadata::{
    parse_metadata, spec_parse_metadata, validate_metadata, MetadataError, PixiPackMetadata,
};
use crate::text::{
    activate_file_prefix, channel_dir_name, metadata_file_name, pypi_dir_name,
    repodata_file_name, slash, spec_activate_file_prefix, spec_channel_dir_name,
    spec_environment_file_name, spec_metadata_file_name, spec_pypi_dir_name,
    spec_repodata_file_name, spec_slash,
};

verus! {

/// The data of the first metadata file among the entries, if any.
pub open spec fn spec_find_metadata(es: Seq<ArchiveEntryModel>) -> Option<Seq<u8>>
    decreases es.len(),
{
    if es.len() == 0 {
        None
    } else if es[0].path == spec_metadata_file_name() && !es[0].is_dir {
        Some(es[0].data)
    } else {
        spec_find_metadata(es.skip(1))
    }
}

/// A package file's place inside the channel tree.
#[derive(Debug)]
pub struct PackageFileRef {
    pub subdir: Vec<u8>,
    pub file_name: Vec<u8>,
}

/// Mathematical model of a package file reference.
#[verifier::ext_equal]
pub ghost struct PackageFileRefModel {
    pub subdir: Seq<u8>,
    pub file_name: Seq<u8>,
}

impl View for PackageFileRef {
    type V = PackageFileRefModel;

    open spec fn view(&self) -> PackageFileRefModel {
        PackageFileRefModel { subdir: self.subdir@, file_name: self.file_name@ }
    }
}

impl DeepView for PackageFileRef {
    type V = PackageFileRefModel;

    open spec fn deep_view(&self) -> PackageFileRefModel {
        self.view()
    }
}

/// How a channel-tree path splits: `channel/<subdir>/<file>`, with both
/// parts non-empty and separator-free; nothing for any other path.
pub open spec fn spec_split_package_path(path: Seq<u8>) -> Option<PackageFileRefModel> {
    let prefix = spec_channel_dir_name() + spec_slash();
    if !is_prefix_of(prefix, path) {
        None
    } else {
        let rest = path.skip(prefix.len() as int);
        let k = spec_first_slash(rest);
        if k == 0 || k >= rest.len() {
            None
        } else {
            let subdir = rest.take(k);
            let file_name = rest.skip(k + 1);
            if file_name.len() == 0 || spec_first_slash(file_name) < file_name.len() {
                None
            } else {
                Some(PackageFileRefModel { subdir, file_name })
            }
        }
    }
}

/// Split a channel-tree path into its bucket and file name.
pub fn split_package_path(path: &[u8]) -> (r: Option<PackageFileRef>)
    ensures
        match r {
            Some(p) => spec_split_package_path(path@) == Some(p@),
            None => spec_split_package_path(path@) is None,
        },
{
    let mut prefix = channel_dir_name();
    let sep = slash();
    push_bytes(&mut prefix, sep.as_slice());
    proof {
        assert(prefix@ =~= spec_channel_dir_name() + spec_slash());
    }
    if !starts_with(path, prefix.as_slice()) {
        return None;
    }
    let ghost rest = path@.skip(prefix@.len() as int);
    // find the separator between the bucket and the file name
    let mut k: usize = prefix.len();
    while k < path.len() && path[k] != 0x2fu8
        invariant
            prefix@.len() <= k <= path@.len(),
            rest == path@.skip(prefix@.len() as int),
            forall|j: int| prefix@.len() <= j < k ==> path@[j] != 0x2fu8,
        decreases path.len() - k,
    {
        k += 1;
    }
    proof {
        lemma_first_slash_value(rest, k - prefix@.len());
        assert(spec_first_slash(rest) == k - prefix@.len());
    }
    if k == prefix.len() || k == path.len() {
        return None;
    }
    // the file name must be non-empty and separator-free
    let mut m: usize = k + 1;
    while m < path.len() && path[m] != 0x2fu8
        invariant
            k + 1 <= m <= path@.len(),
            forall|j: int| k + 1 <= j < m ==> path@[j] != 0x2fu8,
        decreases path.len() - m,
    {
        m += 1;
    }
    proof {
        let fname = rest.skip(spec_first_slash(rest) + 1);
        assert(fname =~= path@.skip(k + 1));
        lemma_first_slash_value(fname, m - (k + 1));
    }
    if m != path.len() || m == k + 1 {
        return None;
    }
    let subdir = crate::bytes::copy_range(path, prefix.len(), k);
    let file_name = crate::bytes::copy_range(path, k + 1, path.len());
    proof {
        assert(subdir@ =~= rest.take(spec_first_slash(rest)));
        assert(file_name@ =~= rest.skip(spec_first_slash(rest) + 1));
    }
    Some(PackageFileRef { subdir, file_name })
}

/// The first separator is where the separator-free run ends.
pub proof fn lemma_first_slash_value(s: Seq<u8>, k: int)
    requires
        0 <= k <= s.len(),
        forall|j: int| 0 <= j < k ==> s[j] != 0x2fu8,
        k < s.len() ==> s[k] == 0x2fu8,
    ensures
        spec_first_slash(s) == k,
    decreases s.len(),
{
    if s.len() == 0 {
    } else if k == 0 {
    } else {
        lemma_first_slash_value(s.skip(1), k - 1);
    }
}

/// The package files of an entry list: every file whose path splits as a
/// channel-tree path and is not a bucket index, in order.
pub open spec fn spec_package_refs(es: Seq<ArchiveEntryModel>) -> Seq<PackageFileRefModel>
    decreases es.len(),
{
    if es.len() == 0 {
        seq![]
    } else {
        let rest = spec_package_refs(es.take(es.len() - 1));
        let e = es[es.len() - 1];
        match spec_split_package_path(e.path) {
            Some(p) => if !e.is_dir && p.file_name != spec_repodata_file_name() {
                rest.push(p)
            } else {
                rest
            },
            None => rest,
        }
    }
}

/// The wheel files of an entry list: every file directly below the wheel
/// directory, in order.
pub open spec fn spec_wheel_files(es: Seq<ArchiveEntryModel>) -> Seq<Seq<u8>>
    decreases es.len(),
{
    if es.len() == 0 {
        seq![]
    } else {
        let rest = spec_wheel_files(es.take(es.len() - 1));
        let e = es[es.len() - 1];
        let prefix = spec_pypi_dir_name() + spec_slash();
        if !e.is_dir && is_prefix_of(prefix, e.path) && e.path.len() > prefix.len()
            && spec_first_slash(e.path.skip(prefix.len() as int)) >= e.path.len() - prefix.len() {
            rest.push(e.path.skip(prefix.len() as int))
        } else {
            rest
        }
    }
}

/// Why an artifact cannot be unpacked on this host.
#[derive(Debug)]
pub enum UnpackError {
    /// The artifact holds no metadata file.
    MissingMetadata,
    /// The metadata file is not well-formed metadata text.
    MalformedMetadata,
    /// The metadata was read but rejected: an unsupported pack format
    /// version or a platform mismatch.
    Incompatible(MetadataError),
}

/// Everything the unpack pipeline decides before any file is placed: the
/// validated metadata, the package files to hand to the install capability,
/// the wheel files to hand to the wheel-install capability, and the name of
/// the activation script to write last.
#[derive(Debug)]
pub struct UnpackPlan {
    pub metadata: PixiPackMetadata,
    pub packages: Vec<PackageFileRef>,
    pub wheels: Vec<Vec<u8>>,
    pub activation_script_name: Vec<u8>,
}

/// The activation script's file name for a shell dialect's extension.
pub open spec fn spec_activation_script_name(ext: Seq<u8>) -> Seq<u8> {
    spec_activate_file_prefix() + ext
}

/// The index of the first metadata file among the entries.
fn find_metadata_index(entries: &Vec<ArchiveEntry>) -> (r: Option<usize>)
    ensures
        match r {
            Some(ix) => ix < entries.len() && !entries.deep_view()[ix as int].is_dir
                && spec_find_metadata(entries.deep_view()) == Some(
                entries.deep_view()[ix as int].data,
            ),
            None => spec_find_metadata(entries.deep_view()) is None,
        },
{
    let name = metadata_file_name();
    let ghost es = entries.deep_view();
    let mut i: usize = 0;
    proof {
        assert(es.skip(0) =~= es);
    }
    while i < entries.len()
        invariant
            i <= entries.len(),
            es == entries.deep_view(),
            spec_find_metadata(es) == spec_find_metadata(es.skip(i as int)),
        decreases entries.len() - i,
    {
        proof {
            assert(es[i as int] == entries@[i as int]@);
            assert(es.skip(i as int)[0] == es[i as int]);
            assert(es.skip(i as int).skip(1) =~= es.skip(i + 1));
        }
        if bytes_eq(entries[i].path.as_slice(), name.as_slice()) {
            match &entries[i].data {
                crate::archive::ArchiveEntryData::File(_) => {
                    return Some(i);
                },
                crate::archive::ArchiveEntryData::Dir => {},
            }
        }
        i += 1;
    }
    proof {
        assert(es.skip(es.len() as int) =~= Seq::<ArchiveEntryModel>::empty());
    }
    None
}

/// Plan an unpack from the decoded artifact's entries: find and check the
/// metadata against the host platform, then gather the package and wheel
/// files. An unsupported pack format version or a foreign platform is fatal
/// before anything else is decided.
pub fn unpack_plan(entries: &Vec<ArchiveEntry>, host_platform: &[u8], shell_ext: &[u8]) -> (r:
    Result<UnpackPlan, UnpackError>)
    ensures
        r is Ok <==> (match spec_find_metadata(entries.deep_view()) {
            Some(data) => match spec_parse_metadata(data) {
                Some(m) => m.version == crate::text::spec_default_pack_version() && m.platform
                    == host_platform@,
                None => false,
            },
            None => false,
        }),
        r matches Ok(p) ==> {
            &&& spec_find_metadata(entries.deep_view()) matches Some(data)
                && spec_parse_metadata(data) == Some(p.metadata@)
            &&& p.packages.deep_view() == spec_package_refs(entries.deep_view())
            &&& p.wheels.deep_view() == spec_wheel_files(entries.deep_view())
            &&& p.activation_script_name@ == spec_activation_script_name(shell_ext@)
        },
        r matches Err(UnpackError::MissingMetadata) <==> spec_find_metadata(
            entries.deep_view(),
        ) is None,
        r matches Err(UnpackError::MalformedMetadata) <==> (spec_find_metadata(
            entries.deep_view(),
        ) matches Some(data) && spec_parse_metadata(data) is None),
{
    // locate the metadata file
    let ghost es = entries.deep_view();
    let meta_index = match find_metadata_index(entries) {
        Some(ix) => ix,
        None => {
            return Err(UnpackError::MissingMetadata);
        },
    };
    let meta_bytes: &Vec<u8> = match &entries[meta_index].data {
        crate::archive::ArchiveEntryData::File(d) => d,
        crate::archive::ArchiveEntryData::Dir => {
            proof {
                assert(false);
            }
            &entries[meta_index].path
        },
    };
    let meta = match parse_metadata(meta_bytes.as_slice()) {
        Some(m) => m,
        None => {
            return Err(UnpackError::MalformedMetadata);
        },
    };
    match validate_metadata(&meta, host_platform) {
        Ok(()) => {},
        Err(e) => {
            return Err(UnpackError::Incompatible(e));
        },
    }
    // gather package files
    let mut packages: Vec<PackageFileRef> = Vec::new();
    let repodata_name = repodata_file_name();
    let mut k: usize = 0;
    proof {
        assert(es.take(0) =~= Seq::<ArchiveEntryModel>::empty());
        assert(packages.deep_view() =~~= spec_package_refs(es.take(0)));
    }
    while k < entries.len()
        invariant
            k <= entries.len(),
            es == entries.deep_view(),
            packages.deep_view() == spec_package_refs(es.take(k as int)),
        decreases entries.len() - k,
    {
        proof {
            assert(es[k as int] == entries@[k as int]@);
        }
        let ghost before = packages.deep_view();
        match &entries[k].data {
            crate::archive::ArchiveEntryData::File(_) => {
                match split_package_path(entries[k].path.as_slice()) {
                    Some(p) => {
                        if !bytes_eq(p.file_name.as_slice(), repodata_name.as_slice()) {
                            let ghost pm = p@;
                            packages.push(p);
                            proof {
                                assert(packages.deep_view() =~~= before.push(pm));
                            }
                        }
                    },
                    None => {},
                }
            },
            crate::archive::ArchiveEntryData::Dir => {},
        }
        proof {
            let t1 = es.take(k + 1);
            assert(t1.take(t1.len() - 1) =~~= es.take(k as int));
            assert(t1[t1.len() - 1] == es[k as int]);
            assert(packages.deep_view() =~~= spec_package_refs(es.take(k + 1)));
        }
        k += 1;
    }
    proof {
        assert(es.take(es.len() as int) =~~= es);
    }
    // gather wheel files
    let mut wheels: Vec<Vec<u8>> = Vec::new();
    let mut prefix = pypi_dir_name();
    let sep = slash();
    push_bytes(&mut prefix, sep.as_slice());
    proof {
        assert(prefix@ =~= spec_pypi_dir_name() + spec_slash());
    }
    let mut k: usize = 0;
    proof {
        assert(es.take(0) =~= Seq::<ArchiveEntryModel>::empty());
        assert(wheels.deep_view() =~~= spec_wheel_files(es.take(0)));
    }
    while k < entries.len()
        invariant
            k <= entries.len(),
            es == entries.deep_view(),
            prefix@ == spec_pypi_dir_name() + spec_slash(),
            wheels.deep_view() == spec_wheel_files(es.take(k as int)),
        decreases entries.len() - k,
    {
        proof {
            assert(es[k as int] == entries@[k as int]@);
        }
        let ghost before = wheels.deep_view();
        match &entries[k].data {
            crate::archive::ArchiveEntryData::File(_) => {
                let path = &entries[k].path;
                if starts_with(path.as_slice(), prefix.as_slice()) && path.len() > prefix.len() {
                    // the rest must be a bare file name
                    let mut m: usize = prefix.len();
                    while m < path.len() && path[m] != 0x2fu8
                        invariant
                            prefix@.len() <= m <= path@.len(),
                            forall|j: int| prefix@.len() <= j < m ==> path@[j] != 0x2fu8,
                        decreases path.len() - m,
                    {
                        m += 1;
                    }
                    proof {
                        let rest = path@.skip(prefix@.len() as int);
                        assert(rest =~= path@.skip(prefix@.len() as int));
                        lemma_first_slash_value(rest, m - prefix@.len());
                    }
                    if m == path.len() {
                        let f = crate::bytes::copy_range(path.as_slice(), prefix.len(), path.len());
                        proof {
                            assert(f@ =~= path@.skip(prefix@.len() as int));
                        }
                        wheels.push(f);
                        proof {
                            assert(wheels.deep_view() =~~= before.push(
                                es[k as int].path.skip(prefix@.len() as int),
                            ));
                        }
                    }
                }
            },
            crate::archive::ArchiveEntryData::Dir => {},
        }
        proof {
            let t1 = es.take(k + 1);
            assert(t1.take(t1.len() - 1) =~~= es.take(k as int));
            assert(t1[t1.len() - 1] == es[k as int]);
            assert(wheels.deep_view() =~~= spec_wheel_files(es.take(k + 1)));
        }
        k += 1;
    }
    proof {
        assert(es.take(es.len() as int) =~~= es);
    }
    let mut activation = activate_file_prefix();
    push_bytes(&mut activation, shell_ext);
    proof {
        assert(activation@ =~= spec_activation_script_name(shell_ext@));
    }
    Ok(UnpackPlan { metadata: meta, packages, wheels, activation_script_name: activation })
}

/// Where the unpack pipeline stands.
#[derive(Debug)]
pub enum UnpackPhase {
    /// The artifact has been decoded into the scratch directory.
    Extracted,
    /// The metadata has been validated against the host.
    Validated,
    /// Every conda package has been installed into the prefix.
    CondaInstalled,
    /// Every wheel has been installed into the prefix.
    PypiInstalled,
    /// The activation script has been written; the pipeline is finished.
    Done,
    /// A step failed; nothing further may be written.
    Failed,
}

/// What the pipeline's driver must do next.
#[derive(Debug)]
pub enum UnpackAction {
    ValidateMetadata,
    InstallConda,
    InstallPypi,
    WriteActivation,
    Stop,
}

/// Advance the unpack pipeline by one completed step. A failed step moves
/// the pipeline to its failed state, where nothing further is written; the
/// activation script is ordered only once the conda packages — and the
/// wheels, when the artifact has any — are fully installed, so no
/// activation script can ever point at a partially built prefix.
pub fn unpack_advance(phase: UnpackPhase, step_ok: bool, has_wheels: bool) -> (r: (
    UnpackPhase,
    UnpackAction,
))
    ensures
        !step_ok ==> r.0 is Failed && r.1 is Stop,
        r.1 is WriteActivation <==> step_ok && ((phase is CondaInstalled && !has_wheels)
            || phase is PypiInstalled),
        r.1 is InstallConda <==> step_ok && phase is Validated,
        r.1 is InstallPypi <==> step_ok && phase is CondaInstalled && has_wheels,
        r.1 is ValidateMetadata <==> step_ok && phase is Extracted,
        phase is Failed ==> r.0 is Failed,
{
    if !step_ok {
        return (UnpackPhase::Failed, UnpackAction::Stop);
    }
    match phase {
        UnpackPhase::Extracted => (UnpackPhase::Validated, UnpackAction::ValidateMetadata),
        UnpackPhase::Validated => (UnpackPhase::CondaInstalled, UnpackAction::InstallConda),
        UnpackPhase::CondaInstalled => if has_wheels {
            (UnpackPhase::PypiInstalled, UnpackAction::InstallPypi)
        } else {
            (UnpackPhase::Done, UnpackAction::WriteActivation)
        },
        UnpackPhase::PypiInstalled => (UnpackPhase::Done, UnpackAction::WriteActivation),
        UnpackPhase::Done => (UnpackPhase::Done, UnpackAction::Stop),
        UnpackPhase::Failed => (UnpackPhase::Failed, UnpackAction::Stop),
    }
}

/// The package file references of a working set itself: one per conda
/// package, its bucket and file name, in order.
pub open spec fn spec_set_refs(conda: Seq<CondaPackageModel>) -> Seq<PackageFileRefModel>
    decreases conda.len(),
{
    if conda.len() == 0 {
        seq![]
    } else {
        spec_set_refs(conda.take(conda.len() - 1)).push(
            PackageFileRefModel {
                subdir: conda[conda.len() - 1].record.subdir,
                file_name: conda[conda.len() - 1].file_name,
            },
        )
    }
}

/// The wheel file names of a working set itself, in order.
pub open spec fn spec_set_wheel_names(pypi: Seq<PypiPackageModel>) -> Seq<Seq<u8>>
    decreases pypi.len(),
{
    if pypi.len() == 0 {
        seq![]
    } else {
        spec_set_wheel_names(pypi.take(pypi.len() - 1)).push(pypi[pypi.len() - 1].file_name)
    }
}

/// Gathering package files distributes over splitting the entry list.
pub proof fn lemma_package_refs_append(s: Seq<ArchiveEntryModel>, t: Seq<ArchiveEntryModel>)
    ensures
        spec_package_refs(s + t) == spec_package_refs(s) + spec_package_refs(t),
    decreases t.len(),
{
    if t.len() == 0 {
        assert(s + t =~= s);
        assert(spec_package_refs(s) + spec_package_refs(t) =~= spec_package_refs(s));
    } else {
        lemma_package_refs_append(s, t.take(t.len() - 1));
        let u = s + t;
        assert(u.take(u.len() - 1) =~~= s + t.take(t.len() - 1));
        assert(u[u.len() - 1] == t[t.len() - 1]);
        assert(spec_package_refs(u) =~~= spec_package_refs(s) + spec_package_refs(t));
    }
}

/// Gathering wheel files distributes over splitting the entry list.
pub proof fn lemma_wheel_files_append(s: Seq<ArchiveEntryModel>, t: Seq<ArchiveEntryModel>)
    ensures
        spec_wheel_files(s + t) == spec_wheel_files(s) + spec_wheel_files(t),
    decreases t.len(),
{
    if t.len() == 0 {
        assert(s + t =~= s);
        assert(spec_wheel_files(s) + spec_wheel_files(t) =~= spec_wheel_files(s));
    } else {
        lemma_wheel_files_append(s, t.take(t.len() - 1));
        let u = s + t;
        assert(u.take(u.len() - 1) =~~= s + t.take(t.len() - 1));
        assert(u[u.len() - 1] == t[t.len() - 1]);
        assert(spec_wheel_files(u) =~~= spec_wheel_files(s) + spec_wheel_files(t));
    }
}

/// A channel-tree destination splits back into exactly its bucket and file
/// name.
pub proof fn lemma_split_of_dest(subdir: Seq<u8>, file_name: Seq<u8>)
    requires
        is_path_component(subdir),
        is_path_component(file_name),
    ensures
        spec_split_package_path(spec_package_dest(subdir, file_name)) == Some(
            PackageFileRefModel { subdir, file_name },
        ),
{
    let path = spec_package_dest(subdir, file_name);
    let prefix = spec_channel_dir_name() + spec_slash();
    assert(path.subrange(0, prefix.len() as int) =~= prefix);
    let rest = path.skip(prefix.len() as int);
    assert(rest =~= subdir + spec_slash() + file_name);
    lemma_first_slash_of_join(subdir, file_name);
    assert(spec_first_slash(rest) == subdir.len());
    assert(rest.take(subdir.len() as int) =~= subdir);
    assert(rest.skip(subdir.len() as int + 1) =~= file_name);
    lemma_first_slash_value(file_name, file_name.len() as int);
    assert(spec_split_package_path(path) =~~= Some(
        PackageFileRefModel { subdir, file_name },
    ));
}

/// Directory entries contribute neither package nor wheel files.
proof fn lemma_gather_of_dirs(s: Seq<ArchiveEntryModel>)
    requires
        forall|i: int| 0 <= i < s.len() ==> (#[trigger] s[i]).is_dir,
    ensures
        spec_package_refs(s) == Seq::<PackageFileRefModel>::empty(),
        spec_wheel_files(s) == Seq::<Seq<u8>>::empty(),
    decreases s.len(),
{
    if s.len() > 0 {
        assert(forall|i: int|
            0 <= i < s.len() - 1 ==> (#[trigger] s.take(s.len() - 1)[i]).is_dir);
        lemma_gather_of_dirs(s.take(s.len() - 1));
    }
}

/// Every bucket directory entry is a directory.
proof fn lemma_subdir_dirs_are_dirs(subdirs: Seq<Seq<u8>>)
    ensures
        forall|i: int|
            0 <= i < spec_subdir_dir_entries(subdirs).len() ==> (#[trigger] spec_subdir_dir_entries(
                subdirs,
            )[i]).is_dir,
    decreases subdirs.len(),
{
    if subdirs.len() > 0 {
        lemma_subdir_dirs_are_dirs(subdirs.take(subdirs.len() - 1));
        let es = spec_subdir_dir_entries(subdirs);
        let rest = spec_subdir_dir_entries(subdirs.take(subdirs.len() - 1));
        assert forall|i: int| 0 <= i < es.len() implies (#[trigger] es[i]).is_dir by {
            if i < rest.len() {
                assert(es[i] == rest[i]);
            } else {
                assert(es[i] == es[es.len() - 1]);
            }
        }
    }
}

/// Every distinct bucket name of a well-formed working set is a safe path
/// component: it is the bucket of one of the members.
proof fn lemma_subdirs_are_components(conda: Seq<CondaPackageModel>)
    requires
        forall|i: int| 0 <= i < conda.len() ==> wf_conda_package(#[trigger] conda[i]),
    ensures
        forall|k: int|
            0 <= k < spec_subdirs_in_order(conda).len() ==> is_path_component(
                #[trigger] spec_subdirs_in_order(conda)[k],
            ),
    decreases conda.len(),
{
    if conda.len() > 0 {
        assert(forall|i: int|
            0 <= i < conda.len() - 1 ==> wf_conda_package(
                #[trigger] conda.take(conda.len() - 1)[i],
            ));
        lemma_subdirs_are_components(conda.take(conda.len() - 1));
        let rest = spec_subdirs_in_order(conda.take(conda.len() - 1));
        if !rest.contains(conda[conda.len() - 1].record.subdir) {
            assert(forall|k: int|
                0 <= k < rest.len() ==> #[trigger] spec_subdirs_in_order(conda)[k] == rest[k]);
        }
    }
}

/// The bucket index file name is itself a safe path component.
proof fn lemma_repodata_name_is_component()
    ensures
        is_path_component(spec_repodata_file_name()),
{
    assert(forall|i: int|
        0 <= i < spec_repodata_file_name().len() ==> #[trigger] spec_repodata_file_name()[i]
            != 0x2fu8 && spec_repodata_file_name()[i] != 0u8);
}

/// The bucket index entries contribute neither package nor wheel files:
/// each splits as a channel-tree path, but its file name is the index's.
#[verifier::rlimit(100)]
proof fn lemma_gather_of_repodata(subdirs: Seq<Seq<u8>>, conda: Seq<CondaPackageModel>)
    requires
        forall|k: int| 0 <= k < subdirs.len() ==> is_path_component(#[trigger] subdirs[k]),
    ensures
        spec_package_refs(spec_repodata_entries(subdirs, conda)) == Seq::<
            PackageFileRefModel,
        >::empty(),
        spec_wheel_files(spec_repodata_entries(subdirs, conda)) == Seq::<Seq<u8>>::empty(),
    decreases subdirs.len(),
{
    if subdirs.len() > 0 {
        assert(forall|k: int|
            0 <= k < subdirs.len() - 1 ==> is_path_component(
                #[trigger] subdirs.take(subdirs.len() - 1)[k],
            ));
        lemma_gather_of_repodata(subdirs.take(subdirs.len() - 1), conda);
        let d = subdirs[subdirs.len() - 1];
        let es = spec_repodata_entries(subdirs, conda);
        let e = es[es.len() - 1];
        let path = e.path;
        lemma_repodata_name_is_component();
        assert(path =~= spec_package_dest(d, spec_repodata_file_name()));
        lemma_split_of_dest(d, spec_repodata_file_name());
        // not a wheel entry: the path opens with the channel directory
        let wprefix = spec_pypi_dir_name() + spec_slash();
        if is_prefix_of(wprefix, path) {
            assert(path.subrange(0, wprefix.len() as int)[0] == path[0]);
            assert(path[0] == 0x63u8);
            assert(wprefix[0] == 0x70u8);
        }
        assert(es.take(es.len() - 1) =~~= spec_repodata_entries(
            subdirs.take(subdirs.len() - 1),
            conda,
        ));
    }
}

/// The package file entries contribute exactly the working set's package
/// references, and no wheel files.
proof fn lemma_gather_of_packages(conda: Seq<CondaPackageModel>, data: Seq<Seq<u8>>)
    requires
        data.len() == conda.len(),
        forall|i: int| 0 <= i < conda.len() ==> wf_conda_package(#[trigger] conda[i]),
        forall|i: int|
            0 <= i < conda.len() ==> (#[trigger] conda[i]).file_name
                != spec_repodata_file_name(),
    ensures
        spec_package_refs(spec_package_entries(conda, data)) == spec_set_refs(conda),
        spec_wheel_files(spec_package_entries(conda, data)) == Seq::<Seq<u8>>::empty(),
    decreases conda.len(),
{
    if conda.len() > 0 {
        assert(forall|i: int|
            0 <= i < conda.len() - 1 ==> wf_conda_package(
                #[trigger] conda.take(conda.len() - 1)[i],
            ));
        assert(forall|i: int|
            0 <= i < conda.len() - 1 ==> (#[trigger] conda.take(conda.len() - 1)[i]).file_name
                != spec_repodata_file_name());
        lemma_gather_of_packages(conda.take(conda.len() - 1), data.take(conda.len() - 1));
        let p = conda[conda.len() - 1];
        let es = spec_package_entries(conda, data);
        let e = es[es.len() - 1];
        lemma_split_of_dest(p.record.subdir, p.file_name);
        let wprefix = spec_pypi_dir_name() + spec_slash();
        if is_prefix_of(wprefix, e.path) {
            assert(e.path.subrange(0, wprefix.len() as int)[0] == e.path[0]);
            assert(e.path[0] == 0x63u8);
            assert(wprefix[0] == 0x70u8);
        }
        assert(es.take(es.len() - 1) =~~= spec_package_entries(
            conda.take(conda.len() - 1),
            data.take(conda.len() - 1),
        ));
        assert(spec_package_refs(es) =~~= spec_set_refs(conda));
        assert(spec_wheel_files(es) =~~= Seq::<Seq<u8>>::empty());
    }
}

/// The wheel entries contribute exactly the working set's wheel names, and
/// no package references.
proof fn lemma_gather_of_wheels(pypi: Seq<PypiPackageModel>, data: Seq<Seq<u8>>)
    requires
        data.len() == pypi.len(),
        forall|i: int| 0 <= i < pypi.len() ==> is_path_component((#[trigger] pypi[i]).file_name),
    ensures
        spec_wheel_files(spec_pypi_entries(pypi, data)) == spec_set_wheel_names(pypi),
        spec_package_refs(spec_pypi_entries(pypi, data)) == Seq::<PackageFileRefModel>::empty(),
    decreases pypi.len(),
{
    if pypi.len() > 0 {
        assert(forall|i: int|
            0 <= i < pypi.len() - 1 ==> is_path_component(
                (#[trigger] pypi.take(pypi.len() - 1)[i]).file_name,
            ));
        lemma_gather_of_wheels(pypi.take(pypi.len() - 1), data.take(pypi.len() - 1));
        let w = pypi[pypi.len() - 1];
        let es = spec_pypi_entries(pypi, data);
        let e = es[es.len() - 1];
        let wprefix = spec_pypi_dir_name() + spec_slash();
        assert(e.path.subrange(0, wprefix.len() as int) =~= wprefix);
        assert(e.path.skip(wprefix.len() as int) =~= w.file_name);
        lemma_first_slash_value(w.file_name, w.file_name.len() as int);
        let cprefix = spec_channel_dir_name() + spec_slash();
        if is_prefix_of(cprefix, e.path) {
            assert(e.path.subrange(0, cprefix.len() as int)[0] == e.path[0]);
            assert(e.path[0] == 0x70u8);
            assert(cprefix[0] == 0x63u8);
        }
        assert(es.take(es.len() - 1) =~~= spec_pypi_entries(
            pypi.take(pypi.len() - 1),
            data.take(pypi.len() - 1),
        ));
        assert(spec_wheel_files(es) =~~= spec_set_wheel_names(pypi));
        assert(spec_package_refs(es) =~~= Seq::<PackageFileRefModel>::empty());
    }
}

/// The environment descriptor and metadata files contribute neither package
/// nor wheel files: their names sit at the artifact root.
proof fn lemma_gather_of_root_files(env_entry: ArchiveEntryModel, meta_entry: ArchiveEntryModel)
    requires
        env_entry.path == spec_environment_file_name(),
        meta_entry.path == spec_metadata_file_name(),
    ensures
        spec_package_refs(seq![env_entry, meta_entry]) == Seq::<PackageFileRefModel>::empty(),
        spec_wheel_files(seq![env_entry, meta_entry]) == Seq::<Seq<u8>>::empty(),
{
    let cprefix = spec_channel_dir_name() + spec_slash();
    let wprefix = spec_pypi_dir_name() + spec_slash();
    assert(env_entry.path[0] == 0x65u8);
    assert(meta_entry.path[0] == 0x70u8 && meta_entry.path[1] == 0x69u8);
    assert(cprefix[0] == 0x63u8);
    assert(wprefix[0] == 0x70u8 && wprefix[1] == 0x79u8);
    assert(!is_prefix_of(cprefix, env_entry.path)) by {
        if is_prefix_of(cprefix, env_entry.path) {
            assert(env_entry.path.subrange(0, cprefix.len() as int)[0] == env_entry.path[0]);
        }
    }
    assert(!is_prefix_of(cprefix, meta_entry.path)) by {
        if is_prefix_of(cprefix, meta_entry.path) {
            assert(meta_entry.path.subrange(0, cprefix.len() as int)[0] == meta_entry.path[0]);
        }
    }
    assert(!is_prefix_of(wprefix, env_entry.path)) by {
        if is_prefix_of(wprefix, env_entry.path) {
            assert(env_entry.path.subrange(0, wprefix.len() as int)[0] == env_entry.path[0]);
        }
    }
    assert(!is_prefix_of(wprefix, meta_entry.path)) by {
        if is_prefix_of(wprefix, meta_entry.path) {
            assert(meta_entry.path.subrange(0, wprefix.len() as int)[1] == meta_entry.path[1]);
        }
    }
    assert(spec_split_package_path(env_entry.path) is None);
    assert(spec_split_package_path(meta_entry.path) is None);
    let two = seq![env_entry, meta_entry];
    let one = seq![env_entry];
    let none: Seq<ArchiveEntryModel> = Seq::empty();
    assert(two.take(1) =~~= one);
    assert(two[1] == meta_entry);
    assert(one.take(0) =~~= none);
    assert(one[0] == env_entry);
    assert(spec_package_refs(none) =~= Seq::<PackageFileRefModel>::empty());
    assert(spec_wheel_files(none) =~= Seq::<Seq<u8>>::empty());
    assert(spec_package_refs(one) =~= Seq::<PackageFileRefModel>::empty());
    assert(spec_wheel_files(one) =~= Seq::<Seq<u8>>::empty());
    assert(spec_package_refs(two) =~= Seq::<PackageFileRefModel>::empty());
    assert(spec_wheel_files(two) =~= Seq::<Seq<u8>>::empty());
}

/// The entries the artifact is built from hold exactly the working set's
/// package files — one per conda package, under its bucket — and exactly
/// its wheel files, in working-set order; the artifact itself stores the
/// path-sorted permutation of these entries. The one exclusion: a package
/// file that carried the bucket index's own name would be read back as an
/// index, so the statement leaves such names out.
pub proof fn lemma_collected_set(
    conda: Seq<CondaPackageModel>,
    conda_data: Seq<Seq<u8>>,
    pypi: Seq<PypiPackageModel>,
    pypi_data: Seq<Seq<u8>>,
    meta: crate::metadata::PixiPackMetadataModel,
)
    requires
        wf_working_set(conda),
        conda_data.len() == conda.len(),
        pypi_data.len() == pypi.len(),
        forall|i: int|
            0 <= i < conda.len() ==> (#[trigger] conda[i]).file_name
                != spec_repodata_file_name(),
        forall|i: int| 0 <= i < pypi.len() ==> is_path_component((#[trigger] pypi[i]).file_name),
    ensures
        spec_package_refs(spec_collect_entries(conda, conda_data, pypi, pypi_data, meta))
            == spec_set_refs(conda),
        spec_wheel_files(spec_collect_entries(conda, conda_data, pypi, pypi_data, meta))
            == spec_set_wheel_names(pypi),
{
    let subdirs = spec_subdirs_in_order(conda);
    let s1 = seq![
        ArchiveEntryModel { path: spec_channel_dir_name(), is_dir: true, data: seq![] },
    ];
    let s2 = spec_subdir_dir_entries(subdirs);
    let s3 = spec_repodata_entries(subdirs, conda);
    let s4 = spec_package_entries(conda, conda_data);
    let env_entry = ArchiveEntryModel {
        path: spec_environment_file_name(),
        is_dir: false,
        data: crate::envfile::spec_environment_file(conda, pypi),
    };
    let meta_entry = ArchiveEntryModel {
        path: spec_metadata_file_name(),
        is_dir: false,
        data: crate::metadata::spec_render_metadata(meta),
    };
    let s5 = seq![env_entry, meta_entry];
    let s6: Seq<ArchiveEntryModel> = if pypi.len() == 0 {
        seq![]
    } else {
        seq![
            ArchiveEntryModel { path: spec_pypi_dir_name(), is_dir: true, data: seq![] },
        ] + spec_pypi_entries(pypi, pypi_data)
    };
    assert(spec_collect_entries(conda, conda_data, pypi, pypi_data, meta) == s1 + s2 + s3 + s4
        + s5 + s6);
    lemma_package_refs_append(s1 + s2 + s3 + s4 + s5, s6);
    lemma_package_refs_append(s1 + s2 + s3 + s4, s5);
    lemma_package_refs_append(s1 + s2 + s3, s4);
    lemma_package_refs_append(s1 + s2, s3);
    lemma_package_refs_append(s1, s2);
    lemma_wheel_files_append(s1 + s2 + s3 + s4 + s5, s6);
    lemma_wheel_files_append(s1 + s2 + s3 + s4, s5);
    lemma_wheel_files_append(s1 + s2 + s3, s4);
    lemma_wheel_files_append(s1 + s2, s3);
    lemma_wheel_files_append(s1, s2);
    lemma_gather_of_dirs(s1);
    lemma_subdir_dirs_are_dirs(subdirs);
    lemma_gather_of_dirs(s2);
    lemma_subdirs_are_components(conda);
    lemma_gather_of_repodata(subdirs, conda);
    lemma_gather_of_packages(conda, conda_data);
    lemma_gather_of_root_files(env_entry, meta_entry);
    if pypi.len() > 0 {
        let pd = seq![
            ArchiveEntryModel { path: spec_pypi_dir_name(), is_dir: true, data: seq![] },
        ];
        lemma_package_refs_append(pd, spec_pypi_entries(pypi, pypi_data));
        lemma_wheel_files_append(pd, spec_pypi_entries(pypi, pypi_data));
        lemma_gather_of_dirs(pd);
        lemma_gather_of_wheels(pypi, pypi_data);
    } else {
        assert(spec_set_wheel_names(pypi) =~= Seq::<Seq<u8>>::empty());
    }
    assert(spec_package_refs(spec_collect_entries(conda, conda_data, pypi, pypi_data, meta))
        =~~= spec_set_refs(conda));
    assert(spec_wheel_files(spec_collect_entries(conda, conda_data, pypi, pypi_data, meta))
        =~~= spec_set_wheel_names(pypi));
}

} // verus!
