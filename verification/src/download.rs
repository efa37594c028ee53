use vstd::prelude::*;

use crate::bytes::{copy_bytes, copy_range, is_prefix_of, push_bytes, starts_with};
use crate::record::{
    CondaPackage, CondaPackageModel, PypiPackage, is_path_component, wf_conda_package,
    wf_working_set,
};
use crate::text::{
    arch_aarch64, arch_x86_64, channel_dir_name, dash, direct_url_prefix, exe_suffix,
    file_url_scheme, plat_linux_64, plat_linux_aarch64, plat_osx_64, plat_osx_arm64, plat_win_64,
    plat_win_arm64, pypi_dir_name, release_url_prefix, slash, spec_arch_aarch64,
    spec_arch_x86_64, spec_channel_dir_name, spec_dash, spec_direct_url_prefix, spec_exe_suffix,
    spec_file_url_scheme, spec_plat_linux_64, spec_plat_linux_aarch64, spec_plat_osx_64,
    spec_plat_osx_arm64, spec_plat_win_64, spec_plat_win_arm64, spec_pypi_dir_name,
    spec_release_url_prefix, spec_slash, spec_target_linux, spec_target_osx, spec_target_windows,
    spec_unpack_executable_prefix, spec_win_platform_prefix, target_linux, target_osx,
    target_windows, unpack_executable_prefix, win_platform_prefix,
};

verus! {

/// Whether a platform string names a Windows target.
pub open spec fn spec_is_windows_platform(platform: Seq<u8>) -> bool {
    is_prefix_of(spec_win_platform_prefix(), platform)
}

/// Check a platform string for a Windows target.
pub fn is_windows_platform(platform: &[u8]) -> (r: bool)
    ensures
        r == spec_is_windows_platform(platform@),
{
    let prefix = win_platform_prefix();
    starts_with(platform, prefix.as_slice())
}

/// The destination of one package file inside the artifact, relative to its
/// root: the channel directory, the subdirectory bucket, the file name.
pub open spec fn spec_package_dest(subdir: Seq<u8>, file_name: Seq<u8>) -> Seq<u8> {
    spec_channel_dir_name() + spec_slash() + subdir + spec_slash() + file_name
}

/// Build the in-artifact destination path of a package file.
pub fn package_dest(subdir: &[u8], file_name: &[u8]) -> (r: Vec<u8>)
    ensures
        r@ == spec_package_dest(subdir@, file_name@),
{
    let mut out = channel_dir_name();
    let sep = slash();
    push_bytes(&mut out, sep.as_slice());
    push_bytes(&mut out, subdir);
    push_bytes(&mut out, sep.as_slice());
    push_bytes(&mut out, file_name);
    proof {
        assert(out@ =~= spec_package_dest(subdir@, file_name@));
    }
    out
}

/// The cache key of a conda package, as a path relative to the cache root:
/// the subdirectory bucket and the file name. It is derived from the
/// package's identity alone, never from where the package was fetched.
pub open spec fn spec_cache_key(subdir: Seq<u8>, file_name: Seq<u8>) -> Seq<u8> {
    subdir + spec_slash() + file_name
}

/// Build the cache key path of a conda package.
pub fn cache_key(subdir: &[u8], file_name: &[u8]) -> (r: Vec<u8>)
    ensures
        r@ == spec_cache_key(subdir@, file_name@),
{
    let mut out = copy_bytes(subdir);
    let sep = slash();
    push_bytes(&mut out, sep.as_slice());
    push_bytes(&mut out, file_name);
    proof {
        assert(out@ =~= spec_cache_key(subdir@, file_name@));
    }
    out
}

/// Two packages of the same identity share the cache key, wherever each was
/// fetched from: the key reads nothing but the subdirectory and file name.
pub proof fn lemma_cache_key_identity(a: CondaPackageModel, b: CondaPackageModel)
    requires
        a.record.subdir == b.record.subdir,
        a.file_name == b.file_name,
    ensures
        spec_cache_key(a.record.subdir, a.file_name) == spec_cache_key(
            b.record.subdir,
            b.file_name,
        ),
{
}

/// The first index of a separator byte in `s`, or the length when none.
pub open spec fn spec_first_slash(s: Seq<u8>) -> int
    decreases s.len(),
{
    if s.len() == 0 {
        0
    } else if s[0] == 0x2fu8 {
        0
    } else {
        1 + spec_first_slash(s.skip(1))
    }
}

/// In a join of two separator-free components the first separator sits
/// between them.
pub proof fn lemma_first_slash_of_join(a: Seq<u8>, b: Seq<u8>)
    requires
        is_path_component(a),
    ensures
        spec_first_slash(a + spec_slash() + b) == a.len(),
    decreases a.len(),
{
    let s = a + spec_slash() + b;
    assert(s[0] == a[0]);
    assert(s[0] != 0x2fu8);
    assert(spec_first_slash(s) == 1 + spec_first_slash(s.skip(1)));
    if a.len() == 1 {
        let t = spec_slash() + b;
        assert(s.skip(1) =~= t);
        assert(t[0] == 0x2fu8);
        assert(spec_first_slash(t) == 0);
    } else {
        assert(is_path_component(a.skip(1))) by {
            assert(forall|i: int| 0 <= i < a.skip(1).len() ==> #[trigger] a.skip(1)[i] == a[i
                + 1]);
        }
        lemma_first_slash_of_join(a.skip(1), b);
        assert(s.skip(1) =~= a.skip(1) + spec_slash() + b);
    }
}

/// Distinct identities give distinct cache keys: the key can be split back
/// into its two components, so no two identities collide.
pub proof fn lemma_cache_key_injective(a: CondaPackageModel, b: CondaPackageModel)
    requires
        wf_conda_package(a),
        wf_conda_package(b),
        spec_cache_key(a.record.subdir, a.file_name) == spec_cache_key(
            b.record.subdir,
            b.file_name,
        ),
    ensures
        a.record.subdir == b.record.subdir,
        a.file_name == b.file_name,
{
    let ka = a.record.subdir + spec_slash() + a.file_name;
    let kb = b.record.subdir + spec_slash() + b.file_name;
    lemma_first_slash_of_join(a.record.subdir, a.file_name);
    lemma_first_slash_of_join(b.record.subdir, b.file_name);
    assert(ka == kb);
    assert(a.record.subdir.len() == b.record.subdir.len());
    assert forall|i: int|
        0 <= i < a.record.subdir.len() implies a.record.subdir[i] == #[trigger] b.record.subdir[i]
    by {
        assert(ka[i] == a.record.subdir[i]);
        assert(kb[i] == b.record.subdir[i]);
    }
    assert(a.record.subdir =~= b.record.subdir);
    assert(a.file_name.len() == b.file_name.len());
    assert forall|i: int|
        0 <= i < a.file_name.len() implies a.file_name[i] == #[trigger] b.file_name[i] by {
        assert(ka[a.record.subdir.len() + 1 + i] == a.file_name[i]);
        assert(kb[b.record.subdir.len() + 1 + i] == b.file_name[i]);
    }
    assert(a.file_name =~= b.file_name);
}

/// Distinct identities give distinct destinations inside the artifact, so
/// every package of the working set lands in the artifact exactly once: the
/// channel prefix is fixed, and the rest is the injective cache key.
pub proof fn lemma_package_dest_injective(a: CondaPackageModel, b: CondaPackageModel)
    requires
        wf_conda_package(a),
        wf_conda_package(b),
        spec_package_dest(a.record.subdir, a.file_name) == spec_package_dest(
            b.record.subdir,
            b.file_name,
        ),
    ensures
        a.record.subdir == b.record.subdir,
        a.file_name == b.file_name,
{
    let da = spec_package_dest(a.record.subdir, a.file_name);
    let db = spec_package_dest(b.record.subdir, b.file_name);
    let ka = spec_cache_key(a.record.subdir, a.file_name);
    let kb = spec_cache_key(b.record.subdir, b.file_name);
    let p = spec_channel_dir_name() + spec_slash();
    assert(da =~= p + ka);
    assert(db =~= p + kb);
    assert(ka.len() == kb.len());
    assert forall|i: int| 0 <= i < ka.len() implies ka[i] == #[trigger] kb[i] by {
        assert(da[p.len() + i] == ka[i]);
        assert(db[p.len() + i] == kb[i]);
    }
    assert(ka =~= kb);
    lemma_cache_key_injective(a, b);
}

/// In a well-formed working set every package lands at its own destination:
/// no two members of the set write the same artifact path, so each required
/// package ends up in the artifact exactly once.
pub proof fn lemma_destinations_distinct(conda: Seq<CondaPackageModel>)
    requires
        wf_working_set(conda),
    ensures
        forall|i: int, j: int|
            0 <= i < conda.len() && 0 <= j < conda.len() && i != j ==> spec_package_dest(
                (#[trigger] conda[i]).record.subdir,
                conda[i].file_name,
            ) != spec_package_dest((#[trigger] conda[j]).record.subdir, conda[j].file_name),
{
    assert forall|i: int, j: int|
        0 <= i < conda.len() && 0 <= j < conda.len() && i != j implies spec_package_dest(
        (#[trigger] conda[i]).record.subdir,
        conda[i].file_name,
    ) != spec_package_dest((#[trigger] conda[j]).record.subdir, conda[j].file_name) by {
        if spec_package_dest(conda[i].record.subdir, conda[i].file_name) == spec_package_dest(
            conda[j].record.subdir,
            conda[j].file_name,
        ) {
            lemma_package_dest_injective(conda[i], conda[j]);
        }
    }
}

/// Where the bytes of one package come from during the download phase.
#[derive(Debug)]
pub enum DownloadSource {
    /// Copy the cached file; the network is not touched.
    CacheCopy,
    /// Copy a local file at this path.
    LocalCopy(Vec<u8>),
    /// Fetch this URL over the transport.
    Fetch(Vec<u8>),
}

/// The plan for one package of the download phase: where its bytes come
/// from, where they go below the working directory, and which cache entry to
/// fill once the destination file is complete. The cache is written only
/// after the destination is whole, so a truncated download never becomes a
/// cache entry.
#[derive(Debug)]
pub struct DownloadPlan {
    pub dest_rel: Vec<u8>,
    pub source: DownloadSource,
    pub cache_write_rel: Option<Vec<u8>>,
}

/// Plan the download of one conda package. With a cache hit the bytes come
/// from the cache; a `file://` URL or a local path is copied from disk; any
/// other URL is fetched. The cache is filled afterwards exactly when caching
/// is on and the bytes did not come from the cache.
pub fn plan_download(pkg: &CondaPackage, cache_enabled: bool, cache_has: bool) -> (r: DownloadPlan)
    ensures
        r.dest_rel@ == spec_package_dest(pkg@.record.subdir, pkg@.file_name),
        cache_enabled && cache_has ==> r.source is CacheCopy && r.cache_write_rel is None,
        !(cache_enabled && cache_has) ==> {
            &&& !pkg@.location.is_url ==> (r.source matches DownloadSource::LocalCopy(p) && p@
                == pkg@.location.text)
            &&& pkg@.location.is_url && is_prefix_of(spec_file_url_scheme(), pkg@.location.text)
                ==> (r.source matches DownloadSource::LocalCopy(p) && p@ == pkg@.location.text)
            &&& pkg@.location.is_url && !is_prefix_of(spec_file_url_scheme(), pkg@.location.text)
                ==> (r.source matches DownloadSource::Fetch(u) && u@ == pkg@.location.text)
            &&& cache_enabled ==> (r.cache_write_rel matches Some(c) && c@ == spec_cache_key(
                pkg@.record.subdir,
                pkg@.file_name,
            ))
            &&& !cache_enabled ==> r.cache_write_rel is None
        },
{
    let dest_rel = package_dest(pkg.record.subdir.as_slice(), pkg.file_name.as_slice());
    if cache_enabled && cache_has {
        return DownloadPlan { dest_rel, source: DownloadSource::CacheCopy, cache_write_rel: None };
    }
    let source = match &pkg.location {
        crate::record::Location::Path(p) => DownloadSource::LocalCopy(copy_bytes(p.as_slice())),
        crate::record::Location::Url(u) => {
            let scheme = file_url_scheme();
            if starts_with(u.as_slice(), scheme.as_slice()) {
                DownloadSource::LocalCopy(copy_bytes(u.as_slice()))
            } else {
                DownloadSource::Fetch(copy_bytes(u.as_slice()))
            }
        },
    };
    let cache_write_rel = if cache_enabled {
        Some(cache_key(pkg.record.subdir.as_slice(), pkg.file_name.as_slice()))
    } else {
        None
    };
    DownloadPlan { dest_rel, source, cache_write_rel }
}

/// The cache key path of a wheel, relative to the cache root: the wheel
/// directory and the wheel's file name.
pub open spec fn spec_pypi_cache_key(file_name: Seq<u8>) -> Seq<u8> {
    spec_pypi_dir_name() + spec_slash() + file_name
}

/// A wheel URL with any `direct+` marker stripped: the lock writes the
/// marker in front of a direct reference, and the transport fetches the
/// bare URL behind it.
pub open spec fn spec_strip_direct(url: Seq<u8>) -> Seq<u8> {
    if is_prefix_of(spec_direct_url_prefix(), url) {
        url.skip(spec_direct_url_prefix().len() as int)
    } else {
        url
    }
}

/// A wheel with a non-URL location cannot be downloaded; carries the path.
#[derive(Debug)]
pub struct PypiPlanError {
    pub path: Vec<u8>,
}

/// Plan the download of one wheel. Only a URL source is accepted; a local
/// path is a distinct error, as the lock is expected to pin wheels by URL.
/// The destination is the wheel directory plus the file name the stripped
/// URL points at; with a cache hit the bytes come from the cache, else they
/// are fetched from the stripped URL, and the cache is filled afterwards
/// exactly when caching is on and the bytes did not come from the cache.
pub fn plan_pypi_download(pkg: &PypiPackage, cache_enabled: bool, cache_has: bool) -> (r: Result<
    DownloadPlan,
    PypiPlanError,
>)
    ensures
        r is Ok <==> pkg@.location.is_url,
        r matches Err(e) ==> !pkg@.location.is_url && e.path@ == pkg@.location.text,
        r matches Ok(p) ==> {
            let url = spec_strip_direct(pkg@.location.text);
            let file_name = spec_url_file_name(url);
            &&& p.dest_rel@ == spec_pypi_dir_name() + spec_slash() + file_name
            &&& cache_enabled && cache_has ==> p.source is CacheCopy && p.cache_write_rel is None
            &&& !(cache_enabled && cache_has) ==> {
                &&& p.source matches DownloadSource::Fetch(u) && u@ == url
                &&& cache_enabled ==> (p.cache_write_rel matches Some(c) && c@
                    == spec_pypi_cache_key(file_name))
                &&& !cache_enabled ==> p.cache_write_rel is None
            }
        },
{
    let url_text = match &pkg.location {
        crate::record::Location::Path(p) => {
            return Err(PypiPlanError { path: copy_bytes(p.as_slice()) });
        },
        crate::record::Location::Url(u) => u,
    };
    let marker = direct_url_prefix();
    let url = if starts_with(url_text.as_slice(), marker.as_slice()) {
        copy_range(url_text.as_slice(), marker.len(), url_text.len())
    } else {
        copy_bytes(url_text.as_slice())
    };
    proof {
        assert(url@ =~= spec_strip_direct(pkg@.location.text));
    }
    let file_name = url_file_name(url.as_slice());
    let mut dest_rel = pypi_dir_name();
    let sep = slash();
    push_bytes(&mut dest_rel, sep.as_slice());
    push_bytes(&mut dest_rel, file_name.as_slice());
    proof {
        assert(dest_rel@ =~= spec_pypi_dir_name() + spec_slash() + spec_url_file_name(url@));
    }
    if cache_enabled && cache_has {
        return Ok(
            DownloadPlan { dest_rel, source: DownloadSource::CacheCopy, cache_write_rel: None },
        );
    }
    let cache_write_rel = if cache_enabled {
        let mut c = pypi_dir_name();
        push_bytes(&mut c, sep.as_slice());
        push_bytes(&mut c, file_name.as_slice());
        proof {
            assert(c@ =~= spec_pypi_cache_key(spec_url_file_name(url@)));
        }
        Some(c)
    } else {
        None
    };
    Ok(DownloadPlan { dest_rel, source: DownloadSource::Fetch(url), cache_write_rel })
}

/// The report of one finished download unit: the package's name, and its
/// error text when the unit failed.
#[derive(Debug)]
pub struct UnitReport {
    pub package: Vec<u8>,
    pub error: Option<Vec<u8>>,
}

/// A failed download phase: the package whose unit failed first in
/// working-set order, with its error text.
#[derive(Debug)]
pub struct DownloadError {
    pub package: Vec<u8>,
    pub message: Vec<u8>,
}

/// Settle the download phase once every unit has reported: all in-flight
/// units are allowed to finish, then the first failure in working-set order
/// surfaces as the phase's single error, naming the package. The phase
/// succeeds exactly when no unit failed.
pub fn settle_download_phase(reports: &Vec<UnitReport>) -> (r: Result<(), DownloadError>)
    ensures
        r is Ok <==> forall|i: int|
            0 <= i < reports@.len() ==> (#[trigger] reports@[i]).error is None,
        r matches Err(e) ==> exists|i: int|
            0 <= i < reports@.len() && ((#[trigger] reports@[i]).error matches Some(m) && m@
                == e.message@ && reports@[i].package@ == e.package@) && (forall|j: int|
                0 <= j < i ==> (#[trigger] reports@[j]).error is None),
{
    let mut i: usize = 0;
    while i < reports.len()
        invariant
            i <= reports.len(),
            forall|j: int| 0 <= j < i ==> (#[trigger] reports@[j]).error is None,
        decreases reports.len() - i,
    {
        match &reports[i].error {
            Some(m) => {
                return Err(
                    DownloadError {
                        package: copy_bytes(reports[i].package.as_slice()),
                        message: copy_bytes(m.as_slice()),
                    },
                );
            },
            None => {},
        }
        i += 1;
    }
    Ok(())
}

/// The release artifact name of the companion extractor for one platform:
/// the architecture and the target triple tail, or nothing for a platform no
/// extractor is published for.
pub open spec fn spec_extractor_target(platform: Seq<u8>) -> Option<(Seq<u8>, Seq<u8>)> {
    if platform == spec_plat_linux_64() {
        Some((spec_arch_x86_64(), spec_target_linux()))
    } else if platform == spec_plat_linux_aarch64() {
        Some((spec_arch_aarch64(), spec_target_linux()))
    } else if platform == spec_plat_osx_64() {
        Some((spec_arch_x86_64(), spec_target_osx()))
    } else if platform == spec_plat_osx_arm64() {
        Some((spec_arch_aarch64(), spec_target_osx()))
    } else if platform == spec_plat_win_64() {
        Some((spec_arch_x86_64(), spec_target_windows()))
    } else if platform == spec_plat_win_arm64() {
        Some((spec_arch_aarch64(), spec_target_windows()))
    } else {
        None
    }
}

/// The default release URL of the companion extractor, keyed by the tool
/// version and the platform: the release prefix, the version, and the
/// extractor's name for the platform's architecture and target triple, with
/// an executable suffix on Windows.
pub open spec fn spec_extractor_release_url(version: Seq<u8>, platform: Seq<u8>) -> Option<
    Seq<u8>,
> {
    match spec_extractor_target(platform) {
        None => None,
        Some((arch, triple)) => Some(
            spec_release_url_prefix() + version + spec_slash() + spec_unpack_executable_prefix()
                + arch + spec_dash() + triple + (if spec_is_windows_platform(platform) {
                spec_exe_suffix()
            } else {
                Seq::<u8>::empty()
            }),
        ),
    }
}

/// Build the default release URL of the companion extractor.
pub fn extractor_release_url(version: &[u8], platform: &[u8]) -> (r: Option<Vec<u8>>)
    ensures
        match r {
            Some(u) => spec_extractor_release_url(version@, platform@) == Some(u@),
            None => spec_extractor_release_url(version@, platform@) is None,
        },
{
    let lin64 = plat_linux_64();
    let lin_a = plat_linux_aarch64();
    let osx64 = plat_osx_64();
    let osx_a = plat_osx_arm64();
    let win64 = plat_win_64();
    let win_a = plat_win_arm64();
    let (arch, triple) = if crate::bytes::bytes_eq(platform, lin64.as_slice()) {
        (arch_x86_64(), target_linux())
    } else if crate::bytes::bytes_eq(platform, lin_a.as_slice()) {
        (arch_aarch64(), target_linux())
    } else if crate::bytes::bytes_eq(platform, osx64.as_slice()) {
        (arch_x86_64(), target_osx())
    } else if crate::bytes::bytes_eq(platform, osx_a.as_slice()) {
        (arch_aarch64(), target_osx())
    } else if crate::bytes::bytes_eq(platform, win64.as_slice()) {
        (arch_x86_64(), target_windows())
    } else if crate::bytes::bytes_eq(platform, win_a.as_slice()) {
        (arch_aarch64(), target_windows())
    } else {
        return None;
    };
    let mut url = release_url_prefix();
    push_bytes(&mut url, version);
    let sep = slash();
    push_bytes(&mut url, sep.as_slice());
    let name = unpack_executable_prefix();
    push_bytes(&mut url, name.as_slice());
    push_bytes(&mut url, arch.as_slice());
    let d = dash();
    push_bytes(&mut url, d.as_slice());
    push_bytes(&mut url, triple.as_slice());
    if is_windows_platform(platform) {
        let suffix = exe_suffix();
        push_bytes(&mut url, suffix.as_slice());
    }
    proof {
        assert(url@ =~= spec_extractor_release_url(version@, platform@)->0);
    }
    Some(url)
}

/// The first index of a query or fragment delimiter, or the length when
/// none occurs.
pub open spec fn spec_first_delim(s: Seq<u8>) -> int
    decreases s.len(),
{
    if s.len() == 0 {
        0
    } else if s[0] == 0x3fu8 || s[0] == 0x23u8 {
        0
    } else {
        1 + spec_first_delim(s.skip(1))
    }
}

/// The start of the last segment of a path: the position just after the
/// last separator, or zero when there is none.
pub open spec fn spec_segment_start(s: Seq<u8>) -> int
    decreases s.len(),
{
    if s.len() == 0 {
        0
    } else if s[s.len() - 1] == 0x2fu8 {
        s.len() as int
    } else {
        spec_segment_start(s.take(s.len() - 1))
    }
}

/// The value of one percent-encoding hex digit, upper or lower case.
pub open spec fn spec_pct_hex(c: u8) -> Option<int> {
    if 0x30 <= c <= 0x39 {
        Some((c - 0x30) as int)
    } else if 0x41 <= c <= 0x46 {
        Some((10 + (c - 0x41)) as int)
    } else if 0x61 <= c <= 0x66 {
        Some((10 + (c - 0x61)) as int)
    } else {
        None
    }
}

/// A percent-encoded text decoded: each `%XX` becomes its byte, everything
/// else passes through, a malformed escape passes through unchanged.
pub open spec fn spec_percent_decode(s: Seq<u8>) -> Seq<u8>
    decreases s.len(),
{
    if s.len() == 0 {
        seq![]
    } else if s[0] == 0x25u8 && s.len() >= 3 && spec_pct_hex(s[1]) is Some && spec_pct_hex(
        s[2],
    ) is Some {
        seq![(spec_pct_hex(s[1])->0 * 16 + spec_pct_hex(s[2])->0) as u8] + spec_percent_decode(
            s.skip(3),
        )
    } else {
        seq![s[0]] + spec_percent_decode(s.skip(1))
    }
}

/// The file name a package URL points at: the last segment of the URL's
/// path, before any query or fragment, percent-decoded.
pub open spec fn spec_url_file_name(url: Seq<u8>) -> Seq<u8> {
    let core = url.take(spec_first_delim(url));
    spec_percent_decode(core.skip(spec_segment_start(core)))
}

/// The first delimiter is where the delimiter-free run ends.
proof fn lemma_first_delim_value(s: Seq<u8>, k: int)
    requires
        0 <= k <= s.len(),
        forall|j: int| 0 <= j < k ==> s[j] != 0x3fu8 && s[j] != 0x23u8,
        k < s.len() ==> (s[k] == 0x3fu8 || s[k] == 0x23u8),
    ensures
        spec_first_delim(s) == k,
    decreases s.len(),
{
    if s.len() == 0 {
    } else if k == 0 {
    } else {
        lemma_first_delim_value(s.skip(1), k - 1);
    }
}

/// The last segment starts just after the last separator.
proof fn lemma_segment_start_value(s: Seq<u8>, k: int)
    requires
        0 <= k <= s.len(),
        forall|j: int| k <= j < s.len() ==> s[j] != 0x2fu8,
        k > 0 ==> s[k - 1] == 0x2fu8,
    ensures
        spec_segment_start(s) == k,
    decreases s.len(),
{
    if s.len() == 0 {
    } else if k == s.len() {
    } else {
        assert(s[s.len() - 1] != 0x2fu8);
        assert(s.take(s.len() - 1).len() == s.len() - 1);
        assert(forall|j: int| k <= j < s.len() - 1 ==> #[trigger] s.take(s.len() - 1)[j] == s[j]);
        if k > 0 {
            assert(s.take(s.len() - 1)[k - 1] == s[k - 1]);
        }
        lemma_segment_start_value(s.take(s.len() - 1), k);
    }
}

/// Extract the file name a package URL points at. Mirrors how the wheel's
/// destination name is derived from its source URL: the last path segment,
/// percent-decoded.
#[verifier::rlimit(100)]
pub fn url_file_name(url: &[u8]) -> (r: Vec<u8>)
    ensures
        r@ == spec_url_file_name(url@),
{
    // cut the query and fragment off
    let mut cut: usize = 0;
    while cut < url.len() && url[cut] != 0x3fu8 && url[cut] != 0x23u8
        invariant
            cut <= url@.len(),
            forall|j: int| 0 <= j < cut ==> url@[j] != 0x3fu8 && url@[j] != 0x23u8,
        decreases url.len() - cut,
    {
        cut += 1;
    }
    proof {
        lemma_first_delim_value(url@, cut as int);
    }
    let ghost core = url@.take(cut as int);
    // find the start of the last segment
    let mut start: usize = cut;
    while start > 0 && url[start - 1] != 0x2fu8
        invariant
            start <= cut <= url@.len(),
            forall|j: int| start <= j < cut ==> url@[j] != 0x2fu8,
        decreases start,
    {
        start -= 1;
    }
    proof {
        assert(forall|j: int| start <= j < core.len() ==> #[trigger] core[j] == url@[j]);
        if start > 0 {
            assert(core[start - 1] == url@[start - 1]);
        }
        lemma_segment_start_value(core, start as int);
    }
    let ghost segment = core.skip(spec_segment_start(core));
    // percent-decode the segment
    let mut out: Vec<u8> = Vec::new();
    let mut i: usize = start;
    proof {
        assert(segment =~= url@.subrange(start as int, cut as int));
        assert(segment.skip(0) =~= segment);
        assert(out@ + spec_percent_decode(segment) =~= spec_percent_decode(segment));
    }
    while i < cut
        invariant
            start <= i <= cut <= url@.len(),
            segment == url@.subrange(start as int, cut as int),
            spec_percent_decode(segment) == out@ + spec_percent_decode(
                segment.skip(i - start as int),
            ),
        decreases cut - i,
    {
        let ghost tail = segment.skip(i - start as int);
        proof {
            assert(tail[0] == url@[i as int]);
            if tail.len() >= 3 {
                assert(tail[1] == url@[i + 1]);
                assert(tail[2] == url@[i + 2]);
            }
        }
        let ghost before = out@;
        if url[i] == 0x25u8 && cut - i >= 3 {
            let h1: Option<u8> = pct_hex_of(url[i + 1]);
            let h2: Option<u8> = pct_hex_of(url[i + 2]);
            match (h1, h2) {
                (Some(a), Some(b)) => {
                    out.push(a * 16 + b);
                    proof {
                        assert(tail.skip(3) =~= segment.skip(i + 3 - start as int));
                        assert(out@ =~= before + seq![(a * 16 + b) as u8]);
                        assert(before + (seq![(a * 16 + b) as u8] + spec_percent_decode(
                            tail.skip(3),
                        )) =~= out@ + spec_percent_decode(tail.skip(3)));
                    }
                    i += 3;
                    continue ;
                },
                _ => {},
            }
        }
        let b = url[i];
        out.push(b);
        proof {
            assert(tail.skip(1) =~= segment.skip(i + 1 - start as int));
            assert(out@ =~= before + seq![b]);
            assert(before + (seq![b] + spec_percent_decode(tail.skip(1))) =~= out@
                + spec_percent_decode(tail.skip(1)));
        }
        i += 1;
    }
    proof {
        assert(segment.skip(cut - start as int) =~= Seq::<u8>::empty());
        assert(out@ + Seq::<u8>::empty() =~= out@);
        assert(out@ =~= spec_url_file_name(url@));
    }
    out
}

/// The value of one percent-encoding hex digit.
fn pct_hex_of(c: u8) -> (r: Option<u8>)
    ensures
        match r {
            Some(v) => spec_pct_hex(c) == Some(v as int) && v < 16,
            None => spec_pct_hex(c) is None,
        },
{
    if 0x30 <= c && c <= 0x39 {
        Some(c - 0x30)
    } else if 0x41 <= c && c <= 0x46 {
        Some(10 + (c - 0x41))
    } else if 0x61 <= c && c <= 0x66 {
        Some(10 + (c - 0x61))
    } else {
        None
    }
}

/// Normalize a mirror URL so that joining keeps its last path segment: give
/// it a trailing separator when its text does not already end in one.
pub fn ensure_trailing_slash(url: &[u8]) -> (r: Vec<u8>)
    ensures
        url@.len() > 0 && url@[url@.len() - 1] == 0x2fu8 ==> r@ == url@,
        !(url@.len() > 0 && url@[url@.len() - 1] == 0x2fu8) ==> r@ == url@ + spec_slash(),
{
    let mut out = copy_bytes(url);
    if url.len() == 0 || url[url.len() - 1] != 0x2fu8 {
        out.push(0x2fu8);
        proof {
            assert(out@ =~= url@ + spec_slash());
        }
    }
    out
}

} // verus!
