use vstd::prelude::*;

verus! {

/// Where a package file comes from: a remote URL or a local filesystem path,
/// both kept as byte strings.
#[derive(Debug)]
pub enum Location {
    Url(Vec<u8>),
    Path(Vec<u8>),
}

/// Mathematical model of a `Location`.
#[verifier::ext_equal]
pub ghost struct LocationModel {
    pub is_url: bool,
    pub text: Seq<u8>,
}

impl View for Location {
    type V = LocationModel;

    open spec fn view(&self) -> LocationModel {
        match self {
            Location::Url(u) => LocationModel { is_url: true, text: u@ },
            Location::Path(p) => LocationModel { is_url: false, text: p@ },
        }
    }
}

impl DeepView for Location {
    type V = LocationModel;

    open spec fn deep_view(&self) -> LocationModel {
        self.view()
    }
}

/// The metadata this library keeps of one conda binary package: the fields of
/// its index record that classification, validation and the repodata index use.
#[derive(Debug)]
pub struct CondaRecord {
    pub name: Vec<u8>,
    pub version: Vec<u8>,
    pub build: Vec<u8>,
    pub build_number: u64,
    pub subdir: Vec<u8>,
    pub depends: Vec<Vec<u8>>,
    pub constrains: Vec<Vec<u8>>,
    /// Hex text of the md5 digest, when the lock carries one.
    pub md5: Option<Vec<u8>>,
    /// Hex text of the sha256 digest, when the lock carries one.
    pub sha256: Option<Vec<u8>>,
    pub size: Option<u64>,
    pub timestamp: Option<u64>,
}

/// Mathematical model of a `CondaRecord`.
#[verifier::ext_equal]
pub ghost struct CondaRecordModel {
    pub name: Seq<u8>,
    pub version: Seq<u8>,
    pub build: Seq<u8>,
    pub build_number: u64,
    pub subdir: Seq<u8>,
    pub depends: Seq<Seq<u8>>,
    pub constrains: Seq<Seq<u8>>,
    pub md5: Option<Seq<u8>>,
    pub sha256: Option<Seq<u8>>,
    pub size: Option<u64>,
    pub timestamp: Option<u64>,
}

impl View for CondaRecord {
    type V = CondaRecordModel;

    open spec fn view(&self) -> CondaRecordModel {
        CondaRecordModel {
            name: self.name@,
            version: self.version@,
            build: self.build@,
            build_number: self.build_number,
            subdir: self.subdir@,
            depends: self.depends.deep_view(),
            constrains: self.constrains.deep_view(),
            md5: match self.md5 {
                Some(ref v) => Some(v@),
                None => None,
            },
            sha256: match self.sha256 {
                Some(ref v) => Some(v@),
                None => None,
            },
            size: self.size,
            timestamp: self.timestamp,
        }
    }
}

impl DeepView for CondaRecord {
    type V = CondaRecordModel;

    open spec fn deep_view(&self) -> CondaRecordModel {
        self.view()
    }
}

/// A conda binary package of the working set: its index record, the file name
/// of its archive and where that archive comes from.
#[derive(Debug)]
pub struct CondaPackage {
    pub file_name: Vec<u8>,
    pub location: Location,
    pub record: CondaRecord,
}

/// Mathematical model of a `CondaPackage`.
#[verifier::ext_equal]
pub ghost struct CondaPackageModel {
    pub file_name: Seq<u8>,
    pub location: LocationModel,
    pub record: CondaRecordModel,
}

impl View for CondaPackage {
    type V = CondaPackageModel;

    open spec fn view(&self) -> CondaPackageModel {
        CondaPackageModel {
            file_name: self.file_name@,
            location: self.location@,
            record: self.record@,
        }
    }
}

impl DeepView for CondaPackage {
    type V = CondaPackageModel;

    open spec fn deep_view(&self) -> CondaPackageModel {
        self.view()
    }
}

/// A PyPI wheel package of the working set.
#[derive(Debug)]
pub struct PypiPackage {
    pub name: Vec<u8>,
    pub version: Vec<u8>,
    pub file_name: Vec<u8>,
    pub location: Location,
}

/// Mathematical model of a `PypiPackage`.
#[verifier::ext_equal]
pub ghost struct PypiPackageModel {
    pub name: Seq<u8>,
    pub version: Seq<u8>,
    pub file_name: Seq<u8>,
    pub location: LocationModel,
}

impl View for PypiPackage {
    type V = PypiPackageModel;

    open spec fn view(&self) -> PypiPackageModel {
        PypiPackageModel {
            name: self.name@,
            version: self.version@,
            file_name: self.file_name@,
            location: self.location@,
        }
    }
}

impl DeepView for PypiPackage {
    type V = PypiPackageModel;

    open spec fn deep_view(&self) -> PypiPackageModel {
        self.view()
    }
}

/// A file-system-safe path component: non-empty, without a path separator and
/// without a NUL byte. Subdirectory names and package file names must satisfy
/// this before they are spliced into archive paths.
pub open spec fn is_path_component(s: Seq<u8>) -> bool {
    &&& s.len() > 0
    &&& forall|i: int| 0 <= i < s.len() ==> s[i] != 0x2fu8 && s[i] != 0u8
}

/// Well-formedness of one conda package: the names that become paths are safe
/// path components.
pub open spec fn wf_conda_package(p: CondaPackageModel) -> bool {
    &&& is_path_component(p.record.subdir)
    &&& is_path_component(p.file_name)
}

/// The identity of a conda package inside a working set: the pair of its name
/// and its subdirectory bucket. The working set holds at most one package per
/// identity.
pub open spec fn same_identity(a: CondaPackageModel, b: CondaPackageModel) -> bool {
    a.record.name == b.record.name && a.record.subdir == b.record.subdir
}

/// Well-formedness of a whole working set: every member is well formed, no
/// two members share an identity, and no two members claim the same archive
/// slot.
pub open spec fn wf_working_set(conda: Seq<CondaPackageModel>) -> bool {
    &&& forall|i: int| 0 <= i < conda.len() ==> wf_conda_package(#[trigger] conda[i])
    &&& forall|i: int, j: int|
        0 <= i < conda.len() && 0 <= j < conda.len() && i != j ==> !same_identity(
            #[trigger] conda[i],
            #[trigger] conda[j],
        )
    &&& forall|i: int, j: int|
        0 <= i < conda.len() && 0 <= j < conda.len() && i != j ==> !((#[trigger] conda[i]).file_name
            == (#[trigger] conda[j]).file_name && conda[i].record.subdir
            == conda[j].record.subdir)
}

/// Check one byte string for path-component safety.
fn check_path_component(s: &[u8]) -> (r: bool)
    ensures
        r == is_path_component(s@),
{
    if s.len() == 0 {
        return false;
    }
    let mut i: usize = 0;
    while i < s.len()
        invariant
            i <= s.len(),
            s@.len() > 0,
            forall|j: int| 0 <= j < i ==> s@[j] != 0x2fu8 && s@[j] != 0u8,
        decreases s.len() - i,
    {
        if s[i] == 0x2fu8 || s[i] == 0u8 {
            return false;
        }
        i += 1;
    }
    true
}

/// Check a working set for its invariant: every member well formed, no two
/// members of one identity, no two members in one archive slot.
pub fn check_working_set(conda: &Vec<CondaPackage>) -> (r: bool)
    ensures
        r == wf_working_set(conda.deep_view()),
{
    let ghost cs = conda.deep_view();
    let mut i: usize = 0;
    while i < conda.len()
        invariant
            i <= conda.len(),
            cs == conda.deep_view(),
            forall|a: int| 0 <= a < i ==> wf_conda_package(#[trigger] cs[a]),
            forall|a: int, b: int|
                0 <= a < b < i ==> !same_identity(#[trigger] cs[a], #[trigger] cs[b]) && !(cs[a].file_name
                    == cs[b].file_name && cs[a].record.subdir == cs[b].record.subdir),
        decreases conda.len() - i,
    {
        proof {
            assert(cs[i as int] == conda@[i as int]@);
        }
        if !check_path_component(conda[i].record.subdir.as_slice()) || !check_path_component(
            conda[i].file_name.as_slice(),
        ) {
            return false;
        }
        let mut j: usize = 0;
        while j < i
            invariant
                j <= i < conda.len(),
                cs == conda.deep_view(),
                cs[i as int] == conda@[i as int]@,
                forall|a: int|
                    0 <= a < j ==> !same_identity(#[trigger] cs[a], cs[i as int]) && !(cs[a].file_name
                        == cs[i as int].file_name && cs[a].record.subdir
                        == cs[i as int].record.subdir),
            decreases i - j,
        {
            proof {
                assert(cs[j as int] == conda@[j as int]@);
            }
            let same_subdir = crate::bytes::bytes_eq(
                conda[j].record.subdir.as_slice(),
                conda[i].record.subdir.as_slice(),
            );
            if same_subdir {
                if crate::bytes::bytes_eq(
                    conda[j].record.name.as_slice(),
                    conda[i].record.name.as_slice(),
                ) {
                    return false;
                }
                if crate::bytes::bytes_eq(
                    conda[j].file_name.as_slice(),
                    conda[i].file_name.as_slice(),
                ) {
                    return false;
                }
            }
            j += 1;
        }
        i += 1;
    }
    proof {
        assert forall|a: int, b: int|
            0 <= a < cs.len() && 0 <= b < cs.len() && a != b implies !same_identity(
            #[trigger] cs[a],
            #[trigger] cs[b],
        ) && !(cs[a].file_name == cs[b].file_name && cs[a].record.subdir == cs[b].record.subdir)
        by {
            if a < b {
            } else {
                assert(!same_identity(cs[b], cs[a]));
                assert(!(cs[b].file_name == cs[a].file_name && cs[b].record.subdir
                    == cs[a].record.subdir));
            }
        }
    }
    true
}

} // verus!
