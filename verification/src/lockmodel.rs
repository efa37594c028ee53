use vstd::prelude::*;

use crate::bytes::{bytes_eq, copy_bytes, ends_with, is_suffix_of};
use crate::record::{CondaPackage, CondaPackageModel, PypiPackage, PypiPackageModel};
use crate::repodata::clone_record;
use crate::text::{spec_wheel_suffix, wheel_suffix};

verus! {

/// One locked package as the lock file describes it: a conda binary package
/// with its full record, a conda source package (which this tool does not
/// support), or a PyPI package.
#[derive(Debug)]
pub enum LockedEntry {
    CondaBinary(CondaPackage),
    CondaSource(Vec<u8>),
    Pypi(PypiPackage),
}

/// Mathematical model of a locked entry.
#[verifier::ext_equal]
pub ghost enum LockedEntryModel {
    CondaBinary(CondaPackageModel),
    CondaSource(Seq<u8>),
    Pypi(PypiPackageModel),
}

impl View for LockedEntry {
    type V = LockedEntryModel;

    open spec fn view(&self) -> LockedEntryModel {
        match self {
            LockedEntry::CondaBinary(p) => LockedEntryModel::CondaBinary(p@),
            LockedEntry::CondaSource(n) => LockedEntryModel::CondaSource(n@),
            LockedEntry::Pypi(p) => LockedEntryModel::Pypi(p@),
        }
    }
}

impl DeepView for LockedEntry {
    type V = LockedEntryModel;

    open spec fn deep_view(&self) -> LockedEntryModel {
        self.view()
    }
}

/// Whether a PyPI package is a wheel: its file name ends in the wheel
/// suffix.
pub open spec fn spec_is_wheel(p: PypiPackageModel) -> bool {
    is_suffix_of(spec_wheel_suffix(), p.file_name)
}

/// The conda binary packages of a list of locked entries, in order.
pub open spec fn spec_conda_of(es: Seq<LockedEntryModel>) -> Seq<CondaPackageModel>
    decreases es.len(),
{
    if es.len() == 0 {
        seq![]
    } else {
        let rest = spec_conda_of(es.take(es.len() - 1));
        match es[es.len() - 1] {
            LockedEntryModel::CondaBinary(p) => rest.push(p),
            _ => rest,
        }
    }
}

/// The wheel packages of a list of locked entries, in order; non-wheel PyPI
/// entries are left out.
pub open spec fn spec_wheels_of(es: Seq<LockedEntryModel>) -> Seq<PypiPackageModel>
    decreases es.len(),
{
    if es.len() == 0 {
        seq![]
    } else {
        let rest = spec_wheels_of(es.take(es.len() - 1));
        match es[es.len() - 1] {
            LockedEntryModel::Pypi(p) => if spec_is_wheel(p) {
                rest.push(p)
            } else {
                rest
            },
            _ => rest,
        }
    }
}

/// A list of locked entries is acceptable: it holds no conda source package,
/// and a non-wheel PyPI entry appears only when the policy flag says to skip
/// such entries.
pub open spec fn spec_classify_ok(es: Seq<LockedEntryModel>, ignore_non_wheel: bool) -> bool {
    forall|i: int|
        0 <= i < es.len() ==> match #[trigger] es[i] {
            LockedEntryModel::CondaBinary(_) => true,
            LockedEntryModel::CondaSource(_) => false,
            LockedEntryModel::Pypi(p) => spec_is_wheel(p) || ignore_non_wheel,
        }
}

/// Why a lock's entries could not be classified.
#[derive(Debug)]
pub enum ClassifyError {
    /// The lock holds a conda source package, which this tool does not
    /// support; carries the package name.
    CondaSourceNotSupported { name: Vec<u8> },
    /// The lock holds a PyPI package that is not a wheel, and the policy
    /// flag does not say to skip it; carries the package name.
    NonWheelPackage { name: Vec<u8> },
}

/// The two halves of a classified working set.
#[derive(Debug)]
pub struct Classified {
    pub conda: Vec<CondaPackage>,
    pub pypi: Vec<PypiPackage>,
}

/// Copy one wheel package.
fn clone_pypi(p: &PypiPackage) -> (c: PypiPackage)
    ensures
        c@ == p@,
{
    let c = PypiPackage {
        name: copy_bytes(p.name.as_slice()),
        version: copy_bytes(p.version.as_slice()),
        file_name: copy_bytes(p.file_name.as_slice()),
        location: clone_location(&p.location),
    };
    proof {
        assert(c@ =~~= p@);
    }
    c
}

/// Copy a location.
pub fn clone_location(l: &crate::record::Location) -> (c: crate::record::Location)
    ensures
        c@ == l@,
{
    match l {
        crate::record::Location::Url(u) => crate::record::Location::Url(copy_bytes(u.as_slice())),
        crate::record::Location::Path(p) => crate::record::Location::Path(
            copy_bytes(p.as_slice()),
        ),
    }
}

/// Copy one conda package.
pub fn clone_conda(p: &CondaPackage) -> (c: CondaPackage)
    ensures
        c@ == p@,
{
    let c = CondaPackage {
        file_name: copy_bytes(p.file_name.as_slice()),
        location: clone_location(&p.location),
        record: clone_record(&p.record),
    };
    proof {
        assert(c@ =~~= p@);
    }
    c
}

/// Split the locked entries of one environment and platform into conda
/// binary packages and wheels. A conda source package is always an error; a
/// non-wheel PyPI package is skipped when the policy flag says so and an
/// error otherwise, and a skipped entry appears nowhere in the result.
pub fn classify_packages(entries: &Vec<LockedEntry>, ignore_non_wheel: bool) -> (r: Result<
    Classified,
    ClassifyError,
>)
    ensures
        r is Ok <==> spec_classify_ok(entries.deep_view(), ignore_non_wheel),
        r matches Ok(c) ==> c.conda.deep_view() == spec_conda_of(entries.deep_view())
            && c.pypi.deep_view() == spec_wheels_of(entries.deep_view()),
        r matches Err(ClassifyError::CondaSourceNotSupported { name }) ==> exists|i: int|
            0 <= i < entries.deep_view().len() && #[trigger] entries.deep_view()[i]
                == LockedEntryModel::CondaSource(name@),
        r matches Err(ClassifyError::NonWheelPackage { name }) ==> !ignore_non_wheel && exists|
            i: int,
        |
            0 <= i < entries.deep_view().len() && ((#[trigger] entries.deep_view()[i]) matches
                LockedEntryModel::Pypi(p) && p.name == name@ && !spec_is_wheel(p)),
{
    let ghost es = entries.deep_view();
    let mut conda: Vec<CondaPackage> = Vec::new();
    let mut pypi: Vec<PypiPackage> = Vec::new();
    let mut i: usize = 0;
    proof {
        assert(es.take(0) =~= Seq::<LockedEntryModel>::empty());
        assert(conda.deep_view() =~= spec_conda_of(es.take(0)));
        assert(pypi.deep_view() =~= spec_wheels_of(es.take(0)));
    }
    while i < entries.len()
        invariant
            i <= entries.len(),
            es == entries.deep_view(),
            conda.deep_view() == spec_conda_of(es.take(i as int)),
            pypi.deep_view() == spec_wheels_of(es.take(i as int)),
            forall|j: int|
                0 <= j < i ==> match #[trigger] es[j] {
                    LockedEntryModel::CondaBinary(_) => true,
                    LockedEntryModel::CondaSource(_) => false,
                    LockedEntryModel::Pypi(p) => spec_is_wheel(p) || ignore_non_wheel,
                },
        decreases entries.len() - i,
    {
        proof {
            assert(es[i as int] == entries@[i as int]@);
        }
        let ghost conda_before = conda.deep_view();
        let ghost pypi_before = pypi.deep_view();
        match &entries[i] {
            LockedEntry::CondaBinary(p) => {
                conda.push(clone_conda(p));
                proof {
                    assert(conda.deep_view() =~~= conda_before.push(p@));
                }
            },
            LockedEntry::CondaSource(n) => {
                return Err(
                    ClassifyError::CondaSourceNotSupported { name: copy_bytes(n.as_slice()) },
                );
            },
            LockedEntry::Pypi(p) => {
                let suffix = wheel_suffix();
                if ends_with(p.file_name.as_slice(), suffix.as_slice()) {
                    pypi.push(clone_pypi(p));
                    proof {
                        assert(pypi.deep_view() =~~= pypi_before.push(p@));
                    }
                } else if !ignore_non_wheel {
                    return Err(
                        ClassifyError::NonWheelPackage { name: copy_bytes(p.name.as_slice()) },
                    );
                }
            },
        }
        proof {
            let t1 = es.take(i + 1);
            assert(t1.take(t1.len() - 1) =~~= es.take(i as int));
            assert(t1[t1.len() - 1] == es[i as int]);
            assert(conda.deep_view() =~~= spec_conda_of(es.take(i + 1)));
            assert(pypi.deep_view() =~~= spec_wheels_of(es.take(i + 1)));
        }
        i += 1;
    }
    proof {
        assert(es.take(es.len() as int) =~~= es);
    }
    Ok(Classified { conda, pypi })
}

/// One environment of the lock: its name and its per-platform package lists.
#[derive(Debug)]
pub struct LockEnvironment {
    pub name: Vec<u8>,
    pub platforms: Vec<LockPlatform>,
}

/// The locked packages of one environment on one platform.
#[derive(Debug)]
pub struct LockPlatform {
    pub platform: Vec<u8>,
    pub entries: Vec<LockedEntry>,
}

/// Why a lock could not be resolved to an environment and platform.
#[derive(Debug)]
pub enum LockError {
    /// The lock has no environment of the requested name.
    EnvironmentNotFound { environment: Vec<u8> },
    /// The environment exists but was not solved for the requested platform.
    PlatformNotFound { platform: Vec<u8> },
}

/// Whether the lock holds an environment of this name.
pub open spec fn spec_has_environment(lock: Seq<LockEnvironment>, env: Seq<u8>) -> bool {
    exists|i: int| 0 <= i < lock.len() && (#[trigger] lock[i]).name@ == env
}

/// The first environment of this name at or after `i`, if any.
pub open spec fn spec_first_env(lock: Seq<LockEnvironment>, env: Seq<u8>, i: int) -> Option<int>
    decreases lock.len() - i,
{
    if i < 0 || i >= lock.len() {
        None
    } else if lock[i].name@ == env {
        Some(i)
    } else {
        spec_first_env(lock, env, i + 1)
    }
}

/// Whether an environment holds this platform.
pub open spec fn spec_has_platform(e: LockEnvironment, platform: Seq<u8>) -> bool {
    exists|j: int|
        0 <= j < e.platforms.len() && (#[trigger] e.platforms[j]).platform@ == platform
}

/// Resolve the lock to the requested environment and platform: the indices
/// of the first environment of that name and of the first of its platform
/// lists for that platform. A missing environment and a missing platform are
/// distinct errors.
pub fn resolve_environment(lock: &Vec<LockEnvironment>, env: &[u8], platform: &[u8]) -> (r: Result<
    (usize, usize),
    LockError,
>)
    ensures
        r matches Ok((i, j)) ==> i < lock.len() && lock@[i as int].name@ == env@ && j
            < lock@[i as int].platforms.len() && lock@[i as int].platforms@[j as int].platform@
            == platform@,
        r matches Err(LockError::EnvironmentNotFound { environment }) ==> environment@ == env@
            && !spec_has_environment(lock@, env@),
        r matches Err(LockError::PlatformNotFound { platform: p }) ==> p@ == platform@ && exists|
            i: int,
        |
            0 <= i < lock@.len() && (#[trigger] lock@[i]).name@ == env@ && !spec_has_platform(
                lock@[i],
                platform@,
            ),
        r is Ok <==> (match spec_first_env(lock@, env@, 0) {
            Some(i) => spec_has_platform(lock@[i], platform@),
            None => false,
        }),
{
    let mut i: usize = 0;
    while i < lock.len()
        invariant
            i <= lock.len(),
            forall|m: int| 0 <= m < i ==> (#[trigger] lock@[m]).name@ != env@,
            spec_first_env(lock@, env@, 0) == spec_first_env(lock@, env@, i as int),
        decreases lock.len() - i,
    {
        if bytes_eq(lock[i].name.as_slice(), env) {
            let e = &lock[i];
            let mut j: usize = 0;
            while j < e.platforms.len()
                invariant
                    i < lock.len(),
                    e == &lock@[i as int],
                    j <= e.platforms.len(),
                    forall|m: int|
                        0 <= m < j ==> (#[trigger] lock@[i as int].platforms@[m]).platform@
                            != platform@,
                decreases e.platforms.len() - j,
            {
                if bytes_eq(e.platforms[j].platform.as_slice(), platform) {
                    return Ok((i, j));
                }
                j += 1;
            }
            return Err(LockError::PlatformNotFound { platform: copy_bytes(platform) });
        }
        i += 1;
    }
    Err(LockError::EnvironmentNotFound { environment: copy_bytes(env) })
}

/// The first index of a dash in `s`, or the length when none occurs.
pub open spec fn spec_first_dash(s: Seq<u8>) -> int
    decreases s.len(),
{
    if s.len() == 0 {
        0
    } else if s[0] == 0x2du8 {
        0
    } else {
        1 + spec_first_dash(s.skip(1))
    }
}

/// The first dash is where the dash-free run ends.
proof fn lemma_first_dash_value(s: Seq<u8>, k: int)
    requires
        0 <= k <= s.len(),
        forall|j: int| 0 <= j < k ==> s[j] != 0x2du8,
        k < s.len() ==> s[k] == 0x2du8,
    ensures
        spec_first_dash(s) == k,
    decreases s.len(),
{
    if s.len() == 0 {
    } else if k == 0 {
    } else {
        lemma_first_dash_value(s.skip(1), k - 1);
    }
}

/// How a wheel file name splits into the distribution name and the version:
/// the first two dash-separated fields, both non-empty, of a name with the
/// wheel suffix. In a built wheel's file name the distribution part carries
/// no dash, so these two fields are unambiguous.
pub open spec fn spec_split_wheel_name(file_name: Seq<u8>) -> Option<(Seq<u8>, Seq<u8>)> {
    if !is_suffix_of(spec_wheel_suffix(), file_name) {
        None
    } else {
        let d1 = spec_first_dash(file_name);
        if d1 == 0 || d1 >= file_name.len() {
            None
        } else {
            let rest = file_name.skip(d1 + 1);
            let d2 = spec_first_dash(rest);
            if d2 == 0 || d2 >= rest.len() {
                None
            } else {
                Some((file_name.take(d1), rest.take(d2)))
            }
        }
    }
}

/// Split an injected wheel's file name into its distribution name and
/// version, so that the wheel can join the working set without reading its
/// contents.
pub fn split_wheel_name(file_name: &[u8]) -> (r: Option<(Vec<u8>, Vec<u8>)>)
    ensures
        match r {
            Some((n, v)) => spec_split_wheel_name(file_name@) == Some((n@, v@)),
            None => spec_split_wheel_name(file_name@) is None,
        },
{
    let suffix = wheel_suffix();
    if !ends_with(file_name, suffix.as_slice()) {
        return None;
    }
    let mut d1: usize = 0;
    while d1 < file_name.len() && file_name[d1] != 0x2du8
        invariant
            d1 <= file_name@.len(),
            forall|j: int| 0 <= j < d1 ==> file_name@[j] != 0x2du8,
        decreases file_name.len() - d1,
    {
        d1 += 1;
    }
    proof {
        lemma_first_dash_value(file_name@, d1 as int);
    }
    if d1 == 0 || d1 == file_name.len() {
        return None;
    }
    let ghost rest = file_name@.skip(d1 + 1);
    let mut d2: usize = d1 + 1;
    while d2 < file_name.len() && file_name[d2] != 0x2du8
        invariant
            d1 + 1 <= d2 <= file_name@.len(),
            forall|j: int| d1 + 1 <= j < d2 ==> file_name@[j] != 0x2du8,
        decreases file_name.len() - d2,
    {
        d2 += 1;
    }
    proof {
        assert(forall|j: int| 0 <= j < rest.len() ==> #[trigger] rest[j] == file_name@[d1 + 1 + j]);
        lemma_first_dash_value(rest, d2 - (d1 + 1));
    }
    if d2 == d1 + 1 || d2 == file_name.len() {
        return None;
    }
    let name = crate::bytes::copy_range(file_name, 0, d1);
    let version = crate::bytes::copy_range(file_name, d1 + 1, d2);
    proof {
        assert(name@ =~= file_name@.take(d1 as int));
        assert(version@ =~= rest.take(spec_first_dash(rest)));
    }
    Some((name, version))
}

} // verus!
