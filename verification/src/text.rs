use vstd::prelude::*;

verus! {

/// The byte string `"channel"`.
pub open spec fn spec_channel_dir_name() -> Seq<u8> {
    seq![0x63u8, 0x68u8, 0x61u8, 0x6eu8, 0x6eu8, 0x65u8, 0x6cu8]
}

/// Returns the byte string `"channel"`.
pub fn channel_dir_name() -> (r: Vec<u8>)
    ensures
        r@ == spec_channel_dir_name(),
{
    let mut v: Vec<u8> = Vec::new();
    v.push(0x63u8);
    v.push(0x68u8);
    v.push(0x61u8);
    v.push(0x6eu8);
    v.push(0x6eu8);
    v.push(0x65u8);
    v.push(0x6cu8);
    proof {
        assert(v@ =~= spec_channel_dir_name());
    }
    v
}

/// The byte string `"pypi"`.
pub open spec fn spec_pypi_dir_name() -> Seq<u8> {
    seq![0x70u8, 0x79u8, 0x70u8, 0x69u8]
}

/// Returns the byte string `"pypi"`.
pub fn pypi_dir_name() -> (r: Vec<u8>)
    ensures
        r@ == spec_pypi_dir_name(),
{
    let mut v: Vec<u8> = Vec::new();
    v.push(0x70u8);
    v.push(0x79u8);
    v.push(0x70u8);
    v.push(0x69u8);
    proof {
        assert(v@ =~= spec_pypi_dir_name());
    }
    v
}

/// The byte string `"pixi-pack.json"`.
pub open spec fn spec_metadata_file_name() -> Seq<u8> {
    seq![0x70u8, 0x69u8, 0x78u8, 0x69u8, 0x2du8, 0x70u8, 0x61u8, 0x63u8, 0x6bu8, 0x2eu8, 0x6au8, 0x73u8, 0x6fu8, 0x6eu8]
}

/// Returns the byte string `"pixi-pack.json"`.
pub fn metadata_file_name() -> (r: Vec<u8>)
    ensures
        r@ == spec_metadata_file_name(),
{
    let mut v: Vec<u8> = Vec::new();
    v.push(0x70u8);
    v.push(0x69u8);
    v.push(0x78u8);
    v.push(0x69u8);
    v.push(0x2du8);
    v.push(0x70u8);
    v.push(0x61u8);
    v.push(0x63u8);
    v.push(0x6bu8);
    v.push(0x2eu8);
    v.push(0x6au8);
    v.push(0x73u8);
    v.push(0x6fu8);
    v.push(0x6eu8);
    proof {
        assert(v@ =~= spec_metadata_file_name());
    }
    v
}

/// The byte string `"environment.yml"`.
pub open spec fn spec_environment_file_name() -> Seq<u8> {
    seq![0x65u8, 0x6eu8, 0x76u8, 0x69u8, 0x72u8, 0x6fu8, 0x6eu8, 0x6du8, 0x65u8, 0x6eu8, 0x74u8, 0x2eu8, 0x79u8, 0x6du8, 0x6cu8]
}

/// Returns the byte string `"environment.yml"`.
pub fn environment_file_name() -> (r: Vec<u8>)
    ensures
        r@ == spec_environment_file_name(),
{
    let mut v: Vec<u8> = Vec::new();
    v.push(0x65u8);
    v.push(0x6eu8);
    v.push(0x76u8);
    v.push(0x69u8);
    v.push(0x72u8);
    v.push(0x6fu8);
    v.push(0x6eu8);
    v.push(0x6du8);
    v.push(0x65u8);
    v.push(0x6eu8);
    v.push(0x74u8);
    v.push(0x2eu8);
    v.push(0x79u8);
    v.push(0x6du8);
    v.push(0x6cu8);
    proof {
        assert(v@ =~= spec_environment_file_name());
    }
    v
}

/// The byte string `"repodata.json"`.
pub open spec fn spec_repodata_file_name() -> Seq<u8> {
    seq![0x72u8, 0x65u8, 0x70u8, 0x6fu8, 0x64u8, 0x61u8, 0x74u8, 0x61u8, 0x2eu8, 0x6au8, 0x73u8, 0x6fu8, 0x6eu8]
}

/// Returns the byte string `"repodata.json"`.
pub fn repodata_file_name() -> (r: Vec<u8>)
    ensures
        r@ == spec_repodata_file_name(),
{
    let mut v: Vec<u8> = Vec::new();
    v.push(0x72u8);
    v.push(0x65u8);
    v.push(0x70u8);
    v.push(0x6fu8);
    v.push(0x64u8);
    v.push(0x61u8);
    v.push(0x74u8);
    v.push(0x61u8);
    v.push(0x2eu8);
    v.push(0x6au8);
    v.push(0x73u8);
    v.push(0x6fu8);
    v.push(0x6eu8);
    proof {
        assert(v@ =~= spec_repodata_file_name());
    }
    v
}

/// The byte string `"1"`.
pub open spec fn spec_default_pack_version() -> Seq<u8> {
    seq![0x31u8]
}

/// Returns the byte string `"1"`.
pub fn default_pack_version() -> (r: Vec<u8>)
    ensures
        r@ == spec_default_pack_version(),
{
    let mut v: Vec<u8> = Vec::new();
    v.push(0x31u8);
    proof {
        assert(v@ =~= spec_default_pack_version());
    }
    v
}

/// The byte string `"0.1.0"`.
pub open spec fn spec_tool_version() -> Seq<u8> {
    seq![0x30u8, 0x2eu8, 0x31u8, 0x2eu8, 0x30u8]
}

/// Returns the byte string `"0.1.0"`.
pub fn tool_version() -> (r: Vec<u8>)
    ensures
        r@ == spec_tool_version(),
{
    let mut v: Vec<u8> = Vec::new();
    v.push(0x30u8);
    v.push(0x2eu8);
    v.push(0x31u8);
    v.push(0x2eu8);
    v.push(0x30u8);
    proof {
        assert(v@ =~= spec_tool_version());
    }
    v
}

/// The byte string `"/"`.
pub open spec fn spec_slash() -> Seq<u8> {
    seq![0x2fu8]
}

/// Returns the byte string `"/"`.
pub fn slash() -> (r: Vec<u8>)
    ensures
        r@ == spec_slash(),
{
    let mut v: Vec<u8> = Vec::new();
    v.push(0x2fu8);
    proof {
        assert(v@ =~= spec_slash());
    }
    v
}

/// The byte string `"\n"`.
pub open spec fn spec_lf() -> Seq<u8> {
    seq![0x0au8]
}

/// Returns the byte string `"\n"`.
pub fn lf() -> (r: Vec<u8>)
    ensures
        r@ == spec_lf(),
{
    let mut v: Vec<u8> = Vec::new();
    v.push(0x0au8);
    proof {
        assert(v@ =~= spec_lf());
    }
    v
}

/// The byte string `"\r\n"`.
pub open spec fn spec_crlf() -> Seq<u8> {
    seq![0x0du8, 0x0au8]
}

/// Returns the byte string `"\r\n"`.
pub fn crlf() -> (r: Vec<u8>)
    ensures
        r@ == spec_crlf(),
{
    let mut v: Vec<u8> = Vec::new();
    v.push(0x0du8);
    v.push(0x0au8);
    proof {
        assert(v@ =~= spec_crlf());
    }
    v
}

/// The byte string `"@@END_ARCHIVE@@"`.
pub open spec fn spec_sentinel_posix() -> Seq<u8> {
    seq![0x40u8, 0x40u8, 0x45u8, 0x4eu8, 0x44u8, 0x5fu8, 0x41u8, 0x52u8, 0x43u8, 0x48u8, 0x49u8, 0x56u8, 0x45u8, 0x40u8, 0x40u8]
}

/// Returns the byte string `"@@END_ARCHIVE@@"`.
pub fn sentinel_posix() -> (r: Vec<u8>)
    ensures
        r@ == spec_sentinel_posix(),
{
    let mut v: Vec<u8> = Vec::new();
    v.push(0x40u8);
    v.push(0x40u8);
    v.push(0x45u8);
    v.push(0x4eu8);
    v.push(0x44u8);
    v.push(0x5fu8);
    v.push(0x41u8);
    v.push(0x52u8);
    v.push(0x43u8);
    v.push(0x48u8);
    v.push(0x49u8);
    v.push(0x56u8);
    v.push(0x45u8);
    v.push(0x40u8);
    v.push(0x40u8);
    proof {
        assert(v@ =~= spec_sentinel_posix());
    }
    v
}

/// The byte string `"__END_ARCHIVE__"`.
pub open spec fn spec_sentinel_windows() -> Seq<u8> {
    seq![0x5fu8, 0x5fu8, 0x45u8, 0x4eu8, 0x44u8, 0x5fu8, 0x41u8, 0x52u8, 0x43u8, 0x48u8, 0x49u8, 0x56u8, 0x45u8, 0x5fu8, 0x5fu8]
}

/// Returns the byte string `"__END_ARCHIVE__"`.
pub fn sentinel_windows() -> (r: Vec<u8>)
    ensures
        r@ == spec_sentinel_windows(),
{
    let mut v: Vec<u8> = Vec::new();
    v.push(0x5fu8);
    v.push(0x5fu8);
    v.push(0x45u8);
    v.push(0x4eu8);
    v.push(0x44u8);
    v.push(0x5fu8);
    v.push(0x41u8);
    v.push(0x52u8);
    v.push(0x43u8);
    v.push(0x48u8);
    v.push(0x49u8);
    v.push(0x56u8);
    v.push(0x45u8);
    v.push(0x5fu8);
    v.push(0x5fu8);
    proof {
        assert(v@ =~= spec_sentinel_windows());
    }
    v
}

/// The byte string `"version"`.
pub open spec fn spec_key_version() -> Seq<u8> {
    seq![0x76u8, 0x65u8, 0x72u8, 0x73u8, 0x69u8, 0x6fu8, 0x6eu8]
}

/// Returns the byte string `"version"`.
pub fn key_version() -> (r: Vec<u8>)
    ensures
        r@ == spec_key_version(),
{
    let mut v: Vec<u8> = Vec::new();
    v.push(0x76u8);
    v.push(0x65u8);
    v.push(0x72u8);
    v.push(0x73u8);
    v.push(0x69u8);
    v.push(0x6fu8);
    v.push(0x6eu8);
    proof {
        assert(v@ =~= spec_key_version());
    }
    v
}

/// The byte string `"pixi-pack-version"`.
pub open spec fn spec_key_pixi_pack_version() -> Seq<u8> {
    seq![0x70u8, 0x69u8, 0x78u8, 0x69u8, 0x2du8, 0x70u8, 0x61u8, 0x63u8, 0x6bu8, 0x2du8, 0x76u8, 0x65u8, 0x72u8, 0x73u8, 0x69u8, 0x6fu8, 0x6eu8]
}

/// Returns the byte string `"pixi-pack-version"`.
pub fn key_pixi_pack_version() -> (r: Vec<u8>)
    ensures
        r@ == spec_key_pixi_pack_version(),
{
    let mut v: Vec<u8> = Vec::new();
    v.push(0x70u8);
    v.push(0x69u8);
    v.push(0x78u8);
    v.push(0x69u8);
    v.push(0x2du8);
    v.push(0x70u8);
    v.push(0x61u8);
    v.push(0x63u8);
    v.push(0x6bu8);
    v.push(0x2du8);
    v.push(0x76u8);
    v.push(0x65u8);
    v.push(0x72u8);
    v.push(0x73u8);
    v.push(0x69u8);
    v.push(0x6fu8);
    v.push(0x6eu8);
    proof {
        assert(v@ =~= spec_key_pixi_pack_version());
    }
    v
}

/// The byte string `"platform"`.
pub open spec fn spec_key_platform() -> Seq<u8> {
    seq![0x70u8, 0x6cu8, 0x61u8, 0x74u8, 0x66u8, 0x6fu8, 0x72u8, 0x6du8]
}

/// Returns the byte string `"platform"`.
pub fn key_platform() -> (r: Vec<u8>)
    ensures
        r@ == spec_key_platform(),
{
    let mut v: Vec<u8> = Vec::new();
    v.push(0x70u8);
    v.push(0x6cu8);
    v.push(0x61u8);
    v.push(0x74u8);
    v.push(0x66u8);
    v.push(0x6fu8);
    v.push(0x72u8);
    v.push(0x6du8);
    proof {
        assert(v@ =~= spec_key_platform());
    }
    v
}

/// The byte string `"info"`.
pub open spec fn spec_key_info() -> Seq<u8> {
    seq![0x69u8, 0x6eu8, 0x66u8, 0x6fu8]
}

/// Returns the byte string `"info"`.
pub fn key_info() -> (r: Vec<u8>)
    ensures
        r@ == spec_key_info(),
{
    let mut v: Vec<u8> = Vec::new();
    v.push(0x69u8);
    v.push(0x6eu8);
    v.push(0x66u8);
    v.push(0x6fu8);
    proof {
        assert(v@ =~= spec_key_info());
    }
    v
}

/// The byte string `"subdir"`.
pub open spec fn spec_key_subdir() -> Seq<u8> {
    seq![0x73u8, 0x75u8, 0x62u8, 0x64u8, 0x69u8, 0x72u8]
}

/// Returns the byte string `"subdir"`.
pub fn key_subdir() -> (r: Vec<u8>)
    ensures
        r@ == spec_key_subdir(),
{
    let mut v: Vec<u8> = Vec::new();
    v.push(0x73u8);
    v.push(0x75u8);
    v.push(0x62u8);
    v.push(0x64u8);
    v.push(0x69u8);
    v.push(0x72u8);
    proof {
        assert(v@ =~= spec_key_subdir());
    }
    v
}

/// The byte string `"packages"`.
pub open spec fn spec_key_packages() -> Seq<u8> {
    seq![0x70u8, 0x61u8, 0x63u8, 0x6bu8, 0x61u8, 0x67u8, 0x65u8, 0x73u8]
}

/// Returns the byte string `"packages"`.
pub fn key_packages() -> (r: Vec<u8>)
    ensures
        r@ == spec_key_packages(),
{
    let mut v: Vec<u8> = Vec::new();
    v.push(0x70u8);
    v.push(0x61u8);
    v.push(0x63u8);
    v.push(0x6bu8);
    v.push(0x61u8);
    v.push(0x67u8);
    v.push(0x65u8);
    v.push(0x73u8);
    proof {
        assert(v@ =~= spec_key_packages());
    }
    v
}

/// The byte string `"packages.conda"`.
pub open spec fn spec_key_packages_conda() -> Seq<u8> {
    seq![0x70u8, 0x61u8, 0x63u8, 0x6bu8, 0x61u8, 0x67u8, 0x65u8, 0x73u8, 0x2eu8, 0x63u8, 0x6fu8, 0x6eu8, 0x64u8, 0x61u8]
}

/// Returns the byte string `"packages.conda"`.
pub fn key_packages_conda() -> (r: Vec<u8>)
    ensures
        r@ == spec_key_packages_conda(),
{
    let mut v: Vec<u8> = Vec::new();
    v.push(0x70u8);
    v.push(0x61u8);
    v.push(0x63u8);
    v.push(0x6bu8);
    v.push(0x61u8);
    v.push(0x67u8);
    v.push(0x65u8);
    v.push(0x73u8);
    v.push(0x2eu8);
    v.push(0x63u8);
    v.push(0x6fu8);
    v.push(0x6eu8);
    v.push(0x64u8);
    v.push(0x61u8);
    proof {
        assert(v@ =~= spec_key_packages_conda());
    }
    v
}

/// The byte string `"removed"`.
pub open spec fn spec_key_removed() -> Seq<u8> {
    seq![0x72u8, 0x65u8, 0x6du8, 0x6fu8, 0x76u8, 0x65u8, 0x64u8]
}

/// Returns the byte string `"removed"`.
pub fn key_removed() -> (r: Vec<u8>)
    ensures
        r@ == spec_key_removed(),
{
    let mut v: Vec<u8> = Vec::new();
    v.push(0x72u8);
    v.push(0x65u8);
    v.push(0x6du8);
    v.push(0x6fu8);
    v.push(0x76u8);
    v.push(0x65u8);
    v.push(0x64u8);
    proof {
        assert(v@ =~= spec_key_removed());
    }
    v
}

/// The byte string `"repodata_version"`.
pub open spec fn spec_key_repodata_version() -> Seq<u8> {
    seq![0x72u8, 0x65u8, 0x70u8, 0x6fu8, 0x64u8, 0x61u8, 0x74u8, 0x61u8, 0x5fu8, 0x76u8, 0x65u8, 0x72u8, 0x73u8, 0x69u8, 0x6fu8, 0x6eu8]
}

/// Returns the byte string `"repodata_version"`.
pub fn key_repodata_version() -> (r: Vec<u8>)
    ensures
        r@ == spec_key_repodata_version(),
{
    let mut v: Vec<u8> = Vec::new();
    v.push(0x72u8);
    v.push(0x65u8);
    v.push(0x70u8);
    v.push(0x6fu8);
    v.push(0x64u8);
    v.push(0x61u8);
    v.push(0x74u8);
    v.push(0x61u8);
    v.push(0x5fu8);
    v.push(0x76u8);
    v.push(0x65u8);
    v.push(0x72u8);
    v.push(0x73u8);
    v.push(0x69u8);
    v.push(0x6fu8);
    v.push(0x6eu8);
    proof {
        assert(v@ =~= spec_key_repodata_version());
    }
    v
}

/// The byte string `"name"`.
pub open spec fn spec_key_name() -> Seq<u8> {
    seq![0x6eu8, 0x61u8, 0x6du8, 0x65u8]
}

/// Returns the byte string `"name"`.
pub fn key_name() -> (r: Vec<u8>)
    ensures
        r@ == spec_key_name(),
{
    let mut v: Vec<u8> = Vec::new();
    v.push(0x6eu8);
    v.push(0x61u8);
    v.push(0x6du8);
    v.push(0x65u8);
    proof {
        assert(v@ =~= spec_key_name());
    }
    v
}

/// The byte string `"build"`.
pub open spec fn spec_key_build() -> Seq<u8> {
    seq![0x62u8, 0x75u8, 0x69u8, 0x6cu8, 0x64u8]
}

/// Returns the byte string `"build"`.
pub fn key_build() -> (r: Vec<u8>)
    ensures
        r@ == spec_key_build(),
{
    let mut v: Vec<u8> = Vec::new();
    v.push(0x62u8);
    v.push(0x75u8);
    v.push(0x69u8);
    v.push(0x6cu8);
    v.push(0x64u8);
    proof {
        assert(v@ =~= spec_key_build());
    }
    v
}

/// The byte string `"build_number"`.
pub open spec fn spec_key_build_number() -> Seq<u8> {
    seq![0x62u8, 0x75u8, 0x69u8, 0x6cu8, 0x64u8, 0x5fu8, 0x6eu8, 0x75u8, 0x6du8, 0x62u8, 0x65u8, 0x72u8]
}

/// Returns the byte string `"build_number"`.
pub fn key_build_number() -> (r: Vec<u8>)
    ensures
        r@ == spec_key_build_number(),
{
    let mut v: Vec<u8> = Vec::new();
    v.push(0x62u8);
    v.push(0x75u8);
    v.push(0x69u8);
    v.push(0x6cu8);
    v.push(0x64u8);
    v.push(0x5fu8);
    v.push(0x6eu8);
    v.push(0x75u8);
    v.push(0x6du8);
    v.push(0x62u8);
    v.push(0x65u8);
    v.push(0x72u8);
    proof {
        assert(v@ =~= spec_key_build_number());
    }
    v
}

/// The byte string `"depends"`.
pub open spec fn spec_key_depends() -> Seq<u8> {
    seq![0x64u8, 0x65u8, 0x70u8, 0x65u8, 0x6eu8, 0x64u8, 0x73u8]
}

/// Returns the byte string `"depends"`.
pub fn key_depends() -> (r: Vec<u8>)
    ensures
        r@ == spec_key_depends(),
{
    let mut v: Vec<u8> = Vec::new();
    v.push(0x64u8);
    v.push(0x65u8);
    v.push(0x70u8);
    v.push(0x65u8);
    v.push(0x6eu8);
    v.push(0x64u8);
    v.push(0x73u8);
    proof {
        assert(v@ =~= spec_key_depends());
    }
    v
}

/// The byte string `"constrains"`.
pub open spec fn spec_key_constrains() -> Seq<u8> {
    seq![0x63u8, 0x6fu8, 0x6eu8, 0x73u8, 0x74u8, 0x72u8, 0x61u8, 0x69u8, 0x6eu8, 0x73u8]
}

/// Returns the byte string `"constrains"`.
pub fn key_constrains() -> (r: Vec<u8>)
    ensures
        r@ == spec_key_constrains(),
{
    let mut v: Vec<u8> = Vec::new();
    v.push(0x63u8);
    v.push(0x6fu8);
    v.push(0x6eu8);
    v.push(0x73u8);
    v.push(0x74u8);
    v.push(0x72u8);
    v.push(0x61u8);
    v.push(0x69u8);
    v.push(0x6eu8);
    v.push(0x73u8);
    proof {
        assert(v@ =~= spec_key_constrains());
    }
    v
}

/// The byte string `"md5"`.
pub open spec fn spec_key_md5() -> Seq<u8> {
    seq![0x6du8, 0x64u8, 0x35u8]
}

/// Returns the byte string `"md5"`.
pub fn key_md5() -> (r: Vec<u8>)
    ensures
        r@ == spec_key_md5(),
{
    let mut v: Vec<u8> = Vec::new();
    v.push(0x6du8);
    v.push(0x64u8);
    v.push(0x35u8);
    proof {
        assert(v@ =~= spec_key_md5());
    }
    v
}

/// The byte string `"sha256"`.
pub open spec fn spec_key_sha256() -> Seq<u8> {
    seq![0x73u8, 0x68u8, 0x61u8, 0x32u8, 0x35u8, 0x36u8]
}

/// Returns the byte string `"sha256"`.
pub fn key_sha256() -> (r: Vec<u8>)
    ensures
        r@ == spec_key_sha256(),
{
    let mut v: Vec<u8> = Vec::new();
    v.push(0x73u8);
    v.push(0x68u8);
    v.push(0x61u8);
    v.push(0x32u8);
    v.push(0x35u8);
    v.push(0x36u8);
    proof {
        assert(v@ =~= spec_key_sha256());
    }
    v
}

/// The byte string `"size"`.
pub open spec fn spec_key_size() -> Seq<u8> {
    seq![0x73u8, 0x69u8, 0x7au8, 0x65u8]
}

/// Returns the byte string `"size"`.
pub fn key_size() -> (r: Vec<u8>)
    ensures
        r@ == spec_key_size(),
{
    let mut v: Vec<u8> = Vec::new();
    v.push(0x73u8);
    v.push(0x69u8);
    v.push(0x7au8);
    v.push(0x65u8);
    proof {
        assert(v@ =~= spec_key_size());
    }
    v
}

/// The byte string `"timestamp"`.
pub open spec fn spec_key_timestamp() -> Seq<u8> {
    seq![0x74u8, 0x69u8, 0x6du8, 0x65u8, 0x73u8, 0x74u8, 0x61u8, 0x6du8, 0x70u8]
}

/// Returns the byte string `"timestamp"`.
pub fn key_timestamp() -> (r: Vec<u8>)
    ensures
        r@ == spec_key_timestamp(),
{
    let mut v: Vec<u8> = Vec::new();
    v.push(0x74u8);
    v.push(0x69u8);
    v.push(0x6du8);
    v.push(0x65u8);
    v.push(0x73u8);
    v.push(0x74u8);
    v.push(0x61u8);
    v.push(0x6du8);
    v.push(0x70u8);
    proof {
        assert(v@ =~= spec_key_timestamp());
    }
    v
}

/// The byte string `"channels:\n"`.
pub open spec fn spec_env_channels_header() -> Seq<u8> {
    seq![0x63u8, 0x68u8, 0x61u8, 0x6eu8, 0x6eu8, 0x65u8, 0x6cu8, 0x73u8, 0x3au8, 0x0au8]
}

/// Returns the byte string `"channels:\n"`.
pub fn env_channels_header() -> (r: Vec<u8>)
    ensures
        r@ == spec_env_channels_header(),
{
    let mut v: Vec<u8> = Vec::new();
    v.push(0x63u8);
    v.push(0x68u8);
    v.push(0x61u8);
    v.push(0x6eu8);
    v.push(0x6eu8);
    v.push(0x65u8);
    v.push(0x6cu8);
    v.push(0x73u8);
    v.push(0x3au8);
    v.push(0x0au8);
    proof {
        assert(v@ =~= spec_env_channels_header());
    }
    v
}

/// The byte string `"  - ./"`.
pub open spec fn spec_env_local_channel_prefix() -> Seq<u8> {
    seq![0x20u8, 0x20u8, 0x2du8, 0x20u8, 0x2eu8, 0x2fu8]
}

/// Returns the byte string `"  - ./"`.
pub fn env_local_channel_prefix() -> (r: Vec<u8>)
    ensures
        r@ == spec_env_local_channel_prefix(),
{
    let mut v: Vec<u8> = Vec::new();
    v.push(0x20u8);
    v.push(0x20u8);
    v.push(0x2du8);
    v.push(0x20u8);
    v.push(0x2eu8);
    v.push(0x2fu8);
    proof {
        assert(v@ =~= spec_env_local_channel_prefix());
    }
    v
}

/// The byte string `"  - nodefaults\n"`.
pub open spec fn spec_env_nodefaults_line() -> Seq<u8> {
    seq![0x20u8, 0x20u8, 0x2du8, 0x20u8, 0x6eu8, 0x6fu8, 0x64u8, 0x65u8, 0x66u8, 0x61u8, 0x75u8, 0x6cu8, 0x74u8, 0x73u8, 0x0au8]
}

/// Returns the byte string `"  - nodefaults\n"`.
pub fn env_nodefaults_line() -> (r: Vec<u8>)
    ensures
        r@ == spec_env_nodefaults_line(),
{
    let mut v: Vec<u8> = Vec::new();
    v.push(0x20u8);
    v.push(0x20u8);
    v.push(0x2du8);
    v.push(0x20u8);
    v.push(0x6eu8);
    v.push(0x6fu8);
    v.push(0x64u8);
    v.push(0x65u8);
    v.push(0x66u8);
    v.push(0x61u8);
    v.push(0x75u8);
    v.push(0x6cu8);
    v.push(0x74u8);
    v.push(0x73u8);
    v.push(0x0au8);
    proof {
        assert(v@ =~= spec_env_nodefaults_line());
    }
    v
}

/// The byte string `"dependencies:\n"`.
pub open spec fn spec_env_dependencies_header() -> Seq<u8> {
    seq![0x64u8, 0x65u8, 0x70u8, 0x65u8, 0x6eu8, 0x64u8, 0x65u8, 0x6eu8, 0x63u8, 0x69u8, 0x65u8, 0x73u8, 0x3au8, 0x0au8]
}

/// Returns the byte string `"dependencies:\n"`.
pub fn env_dependencies_header() -> (r: Vec<u8>)
    ensures
        r@ == spec_env_dependencies_header(),
{
    let mut v: Vec<u8> = Vec::new();
    v.push(0x64u8);
    v.push(0x65u8);
    v.push(0x70u8);
    v.push(0x65u8);
    v.push(0x6eu8);
    v.push(0x64u8);
    v.push(0x65u8);
    v.push(0x6eu8);
    v.push(0x63u8);
    v.push(0x69u8);
    v.push(0x65u8);
    v.push(0x73u8);
    v.push(0x3au8);
    v.push(0x0au8);
    proof {
        assert(v@ =~= spec_env_dependencies_header());
    }
    v
}

/// The byte string `"  - "`.
pub open spec fn spec_env_dep_prefix() -> Seq<u8> {
    seq![0x20u8, 0x20u8, 0x2du8, 0x20u8]
}

/// Returns the byte string `"  - "`.
pub fn env_dep_prefix() -> (r: Vec<u8>)
    ensures
        r@ == spec_env_dep_prefix(),
{
    let mut v: Vec<u8> = Vec::new();
    v.push(0x20u8);
    v.push(0x20u8);
    v.push(0x2du8);
    v.push(0x20u8);
    proof {
        assert(v@ =~= spec_env_dep_prefix());
    }
    v
}

/// The byte string `"="`.
pub open spec fn spec_equals_sign() -> Seq<u8> {
    seq![0x3du8]
}

/// Returns the byte string `"="`.
pub fn equals_sign() -> (r: Vec<u8>)
    ensures
        r@ == spec_equals_sign(),
{
    let mut v: Vec<u8> = Vec::new();
    v.push(0x3du8);
    proof {
        assert(v@ =~= spec_equals_sign());
    }
    v
}

/// The byte string `"  - pip:\n"`.
pub open spec fn spec_env_pip_header() -> Seq<u8> {
    seq![0x20u8, 0x20u8, 0x2du8, 0x20u8, 0x70u8, 0x69u8, 0x70u8, 0x3au8, 0x0au8]
}

/// Returns the byte string `"  - pip:\n"`.
pub fn env_pip_header() -> (r: Vec<u8>)
    ensures
        r@ == spec_env_pip_header(),
{
    let mut v: Vec<u8> = Vec::new();
    v.push(0x20u8);
    v.push(0x20u8);
    v.push(0x2du8);
    v.push(0x20u8);
    v.push(0x70u8);
    v.push(0x69u8);
    v.push(0x70u8);
    v.push(0x3au8);
    v.push(0x0au8);
    proof {
        assert(v@ =~= spec_env_pip_header());
    }
    v
}

/// The byte string `"    - --no-index\n"`.
pub open spec fn spec_env_no_index_line() -> Seq<u8> {
    seq![0x20u8, 0x20u8, 0x20u8, 0x20u8, 0x2du8, 0x20u8, 0x2du8, 0x2du8, 0x6eu8, 0x6fu8, 0x2du8, 0x69u8, 0x6eu8, 0x64u8, 0x65u8, 0x78u8, 0x0au8]
}

/// Returns the byte string `"    - --no-index\n"`.
pub fn env_no_index_line() -> (r: Vec<u8>)
    ensures
        r@ == spec_env_no_index_line(),
{
    let mut v: Vec<u8> = Vec::new();
    v.push(0x20u8);
    v.push(0x20u8);
    v.push(0x20u8);
    v.push(0x20u8);
    v.push(0x2du8);
    v.push(0x20u8);
    v.push(0x2du8);
    v.push(0x2du8);
    v.push(0x6eu8);
    v.push(0x6fu8);
    v.push(0x2du8);
    v.push(0x69u8);
    v.push(0x6eu8);
    v.push(0x64u8);
    v.push(0x65u8);
    v.push(0x78u8);
    v.push(0x0au8);
    proof {
        assert(v@ =~= spec_env_no_index_line());
    }
    v
}

/// The byte string `"    - --find-links ./"`.
pub open spec fn spec_env_find_links_prefix() -> Seq<u8> {
    seq![0x20u8, 0x20u8, 0x20u8, 0x20u8, 0x2du8, 0x20u8, 0x2du8, 0x2du8, 0x66u8, 0x69u8, 0x6eu8, 0x64u8, 0x2du8, 0x6cu8, 0x69u8, 0x6eu8, 0x6bu8, 0x73u8, 0x20u8, 0x2eu8, 0x2fu8]
}

/// Returns the byte string `"    - --find-links ./"`.
pub fn env_find_links_prefix() -> (r: Vec<u8>)
    ensures
        r@ == spec_env_find_links_prefix(),
{
    let mut v: Vec<u8> = Vec::new();
    v.push(0x20u8);
    v.push(0x20u8);
    v.push(0x20u8);
    v.push(0x20u8);
    v.push(0x2du8);
    v.push(0x20u8);
    v.push(0x2du8);
    v.push(0x2du8);
    v.push(0x66u8);
    v.push(0x69u8);
    v.push(0x6eu8);
    v.push(0x64u8);
    v.push(0x2du8);
    v.push(0x6cu8);
    v.push(0x69u8);
    v.push(0x6eu8);
    v.push(0x6bu8);
    v.push(0x73u8);
    v.push(0x20u8);
    v.push(0x2eu8);
    v.push(0x2fu8);
    proof {
        assert(v@ =~= spec_env_find_links_prefix());
    }
    v
}

/// The byte string `"    - "`.
pub open spec fn spec_env_pip_dep_prefix() -> Seq<u8> {
    seq![0x20u8, 0x20u8, 0x20u8, 0x20u8, 0x2du8, 0x20u8]
}

/// Returns the byte string `"    - "`.
pub fn env_pip_dep_prefix() -> (r: Vec<u8>)
    ensures
        r@ == spec_env_pip_dep_prefix(),
{
    let mut v: Vec<u8> = Vec::new();
    v.push(0x20u8);
    v.push(0x20u8);
    v.push(0x20u8);
    v.push(0x20u8);
    v.push(0x2du8);
    v.push(0x20u8);
    proof {
        assert(v@ =~= spec_env_pip_dep_prefix());
    }
    v
}

/// The byte string `"=="`.
pub open spec fn spec_double_equals() -> Seq<u8> {
    seq![0x3du8, 0x3du8]
}

/// Returns the byte string `"=="`.
pub fn double_equals() -> (r: Vec<u8>)
    ensures
        r@ == spec_double_equals(),
{
    let mut v: Vec<u8> = Vec::new();
    v.push(0x3du8);
    v.push(0x3du8);
    proof {
        assert(v@ =~= spec_double_equals());
    }
    v
}

/// The byte string `"linux-64"`.
pub open spec fn spec_plat_linux_64() -> Seq<u8> {
    seq![0x6cu8, 0x69u8, 0x6eu8, 0x75u8, 0x78u8, 0x2du8, 0x36u8, 0x34u8]
}

/// Returns the byte string `"linux-64"`.
pub fn plat_linux_64() -> (r: Vec<u8>)
    ensures
        r@ == spec_plat_linux_64(),
{
    let mut v: Vec<u8> = Vec::new();
    v.push(0x6cu8);
    v.push(0x69u8);
    v.push(0x6eu8);
    v.push(0x75u8);
    v.push(0x78u8);
    v.push(0x2du8);
    v.push(0x36u8);
    v.push(0x34u8);
    proof {
        assert(v@ =~= spec_plat_linux_64());
    }
    v
}

/// The byte string `"linux-aarch64"`.
pub open spec fn spec_plat_linux_aarch64() -> Seq<u8> {
    seq![0x6cu8, 0x69u8, 0x6eu8, 0x75u8, 0x78u8, 0x2du8, 0x61u8, 0x61u8, 0x72u8, 0x63u8, 0x68u8, 0x36u8, 0x34u8]
}

/// Returns the byte string `"linux-aarch64"`.
pub fn plat_linux_aarch64() -> (r: Vec<u8>)
    ensures
        r@ == spec_plat_linux_aarch64(),
{
    let mut v: Vec<u8> = Vec::new();
    v.push(0x6cu8);
    v.push(0x69u8);
    v.push(0x6eu8);
    v.push(0x75u8);
    v.push(0x78u8);
    v.push(0x2du8);
    v.push(0x61u8);
    v.push(0x61u8);
    v.push(0x72u8);
    v.push(0x63u8);
    v.push(0x68u8);
    v.push(0x36u8);
    v.push(0x34u8);
    proof {
        assert(v@ =~= spec_plat_linux_aarch64());
    }
    v
}

/// The byte string `"osx-64"`.
pub open spec fn spec_plat_osx_64() -> Seq<u8> {
    seq![0x6fu8, 0x73u8, 0x78u8, 0x2du8, 0x36u8, 0x34u8]
}

/// Returns the byte string `"osx-64"`.
pub fn plat_osx_64() -> (r: Vec<u8>)
    ensures
        r@ == spec_plat_osx_64(),
{
    let mut v: Vec<u8> = Vec::new();
    v.push(0x6fu8);
    v.push(0x73u8);
    v.push(0x78u8);
    v.push(0x2du8);
    v.push(0x36u8);
    v.push(0x34u8);
    proof {
        assert(v@ =~= spec_plat_osx_64());
    }
    v
}

/// The byte string `"osx-arm64"`.
pub open spec fn spec_plat_osx_arm64() -> Seq<u8> {
    seq![0x6fu8, 0x73u8, 0x78u8, 0x2du8, 0x61u8, 0x72u8, 0x6du8, 0x36u8, 0x34u8]
}

/// Returns the byte string `"osx-arm64"`.
pub fn plat_osx_arm64() -> (r: Vec<u8>)
    ensures
        r@ == spec_plat_osx_arm64(),
{
    let mut v: Vec<u8> = Vec::new();
    v.push(0x6fu8);
    v.push(0x73u8);
    v.push(0x78u8);
    v.push(0x2du8);
    v.push(0x61u8);
    v.push(0x72u8);
    v.push(0x6du8);
    v.push(0x36u8);
    v.push(0x34u8);
    proof {
        assert(v@ =~= spec_plat_osx_arm64());
    }
    v
}

/// The byte string `"win-64"`.
pub open spec fn spec_plat_win_64() -> Seq<u8> {
    seq![0x77u8, 0x69u8, 0x6eu8, 0x2du8, 0x36u8, 0x34u8]
}

/// Returns the byte string `"win-64"`.
pub fn plat_win_64() -> (r: Vec<u8>)
    ensures
        r@ == spec_plat_win_64(),
{
    let mut v: Vec<u8> = Vec::new();
    v.push(0x77u8);
    v.push(0x69u8);
    v.push(0x6eu8);
    v.push(0x2du8);
    v.push(0x36u8);
    v.push(0x34u8);
    proof {
        assert(v@ =~= spec_plat_win_64());
    }
    v
}

/// The byte string `"win-arm64"`.
pub open spec fn spec_plat_win_arm64() -> Seq<u8> {
    seq![0x77u8, 0x69u8, 0x6eu8, 0x2du8, 0x61u8, 0x72u8, 0x6du8, 0x36u8, 0x34u8]
}

/// Returns the byte string `"win-arm64"`.
pub fn plat_win_arm64() -> (r: Vec<u8>)
    ensures
        r@ == spec_plat_win_arm64(),
{
    let mut v: Vec<u8> = Vec::new();
    v.push(0x77u8);
    v.push(0x69u8);
    v.push(0x6eu8);
    v.push(0x2du8);
    v.push(0x61u8);
    v.push(0x72u8);
    v.push(0x6du8);
    v.push(0x36u8);
    v.push(0x34u8);
    proof {
        assert(v@ =~= spec_plat_win_arm64());
    }
    v
}

/// The byte string `"win-"`.
pub open spec fn spec_win_platform_prefix() -> Seq<u8> {
    seq![0x77u8, 0x69u8, 0x6eu8, 0x2du8]
}

/// Returns the byte string `"win-"`.
pub fn win_platform_prefix() -> (r: Vec<u8>)
    ensures
        r@ == spec_win_platform_prefix(),
{
    let mut v: Vec<u8> = Vec::new();
    v.push(0x77u8);
    v.push(0x69u8);
    v.push(0x6eu8);
    v.push(0x2du8);
    proof {
        assert(v@ =~= spec_win_platform_prefix());
    }
    v
}

/// The byte string `"unknown-linux-musl"`.
pub open spec fn spec_target_linux() -> Seq<u8> {
    seq![0x75u8, 0x6eu8, 0x6bu8, 0x6eu8, 0x6fu8, 0x77u8, 0x6eu8, 0x2du8, 0x6cu8, 0x69u8, 0x6eu8, 0x75u8, 0x78u8, 0x2du8, 0x6du8, 0x75u8, 0x73u8, 0x6cu8]
}

/// Returns the byte string `"unknown-linux-musl"`.
pub fn target_linux() -> (r: Vec<u8>)
    ensures
        r@ == spec_target_linux(),
{
    let mut v: Vec<u8> = Vec::new();
    v.push(0x75u8);
    v.push(0x6eu8);
    v.push(0x6bu8);
    v.push(0x6eu8);
    v.push(0x6fu8);
    v.push(0x77u8);
    v.push(0x6eu8);
    v.push(0x2du8);
    v.push(0x6cu8);
    v.push(0x69u8);
    v.push(0x6eu8);
    v.push(0x75u8);
    v.push(0x78u8);
    v.push(0x2du8);
    v.push(0x6du8);
    v.push(0x75u8);
    v.push(0x73u8);
    v.push(0x6cu8);
    proof {
        assert(v@ =~= spec_target_linux());
    }
    v
}

/// The byte string `"apple-darwin"`.
pub open spec fn spec_target_osx() -> Seq<u8> {
    seq![0x61u8, 0x70u8, 0x70u8, 0x6cu8, 0x65u8, 0x2du8, 0x64u8, 0x61u8, 0x72u8, 0x77u8, 0x69u8, 0x6eu8]
}

/// Returns the byte string `"apple-darwin"`.
pub fn target_osx() -> (r: Vec<u8>)
    ensures
        r@ == spec_target_osx(),
{
    let mut v: Vec<u8> = Vec::new();
    v.push(0x61u8);
    v.push(0x70u8);
    v.push(0x70u8);
    v.push(0x6cu8);
    v.push(0x65u8);
    v.push(0x2du8);
    v.push(0x64u8);
    v.push(0x61u8);
    v.push(0x72u8);
    v.push(0x77u8);
    v.push(0x69u8);
    v.push(0x6eu8);
    proof {
        assert(v@ =~= spec_target_osx());
    }
    v
}

/// The byte string `"pc-windows-msvc"`.
pub open spec fn spec_target_windows() -> Seq<u8> {
    seq![0x70u8, 0x63u8, 0x2du8, 0x77u8, 0x69u8, 0x6eu8, 0x64u8, 0x6fu8, 0x77u8, 0x73u8, 0x2du8, 0x6du8, 0x73u8, 0x76u8, 0x63u8]
}

/// Returns the byte string `"pc-windows-msvc"`.
pub fn target_windows() -> (r: Vec<u8>)
    ensures
        r@ == spec_target_windows(),
{
    let mut v: Vec<u8> = Vec::new();
    v.push(0x70u8);
    v.push(0x63u8);
    v.push(0x2du8);
    v.push(0x77u8);
    v.push(0x69u8);
    v.push(0x6eu8);
    v.push(0x64u8);
    v.push(0x6fu8);
    v.push(0x77u8);
    v.push(0x73u8);
    v.push(0x2du8);
    v.push(0x6du8);
    v.push(0x73u8);
    v.push(0x76u8);
    v.push(0x63u8);
    proof {
        assert(v@ =~= spec_target_windows());
    }
    v
}

/// The byte string `"x86_64"`.
pub open spec fn spec_arch_x86_64() -> Seq<u8> {
    seq![0x78u8, 0x38u8, 0x36u8, 0x5fu8, 0x36u8, 0x34u8]
}

/// Returns the byte string `"x86_64"`.
pub fn arch_x86_64() -> (r: Vec<u8>)
    ensures
        r@ == spec_arch_x86_64(),
{
    let mut v: Vec<u8> = Vec::new();
    v.push(0x78u8);
    v.push(0x38u8);
    v.push(0x36u8);
    v.push(0x5fu8);
    v.push(0x36u8);
    v.push(0x34u8);
    proof {
        assert(v@ =~= spec_arch_x86_64());
    }
    v
}

/// The byte string `"aarch64"`.
pub open spec fn spec_arch_aarch64() -> Seq<u8> {
    seq![0x61u8, 0x61u8, 0x72u8, 0x63u8, 0x68u8, 0x36u8, 0x34u8]
}

/// Returns the byte string `"aarch64"`.
pub fn arch_aarch64() -> (r: Vec<u8>)
    ensures
        r@ == spec_arch_aarch64(),
{
    let mut v: Vec<u8> = Vec::new();
    v.push(0x61u8);
    v.push(0x61u8);
    v.push(0x72u8);
    v.push(0x63u8);
    v.push(0x68u8);
    v.push(0x36u8);
    v.push(0x34u8);
    proof {
        assert(v@ =~= spec_arch_aarch64());
    }
    v
}

/// The byte string `"pixi-unpack-"`.
pub open spec fn spec_unpack_executable_prefix() -> Seq<u8> {
    seq![0x70u8, 0x69u8, 0x78u8, 0x69u8, 0x2du8, 0x75u8, 0x6eu8, 0x70u8, 0x61u8, 0x63u8, 0x6bu8, 0x2du8]
}

/// Returns the byte string `"pixi-unpack-"`.
pub fn unpack_executable_prefix() -> (r: Vec<u8>)
    ensures
        r@ == spec_unpack_executable_prefix(),
{
    let mut v: Vec<u8> = Vec::new();
    v.push(0x70u8);
    v.push(0x69u8);
    v.push(0x78u8);
    v.push(0x69u8);
    v.push(0x2du8);
    v.push(0x75u8);
    v.push(0x6eu8);
    v.push(0x70u8);
    v.push(0x61u8);
    v.push(0x63u8);
    v.push(0x6bu8);
    v.push(0x2du8);
    proof {
        assert(v@ =~= spec_unpack_executable_prefix());
    }
    v
}

/// The byte string `".exe"`.
pub open spec fn spec_exe_suffix() -> Seq<u8> {
    seq![0x2eu8, 0x65u8, 0x78u8, 0x65u8]
}

/// Returns the byte string `".exe"`.
pub fn exe_suffix() -> (r: Vec<u8>)
    ensures
        r@ == spec_exe_suffix(),
{
    let mut v: Vec<u8> = Vec::new();
    v.push(0x2eu8);
    v.push(0x65u8);
    v.push(0x78u8);
    v.push(0x65u8);
    proof {
        assert(v@ =~= spec_exe_suffix());
    }
    v
}

/// The byte string `"https://github.com/Quantco/pixi-pack/releases/download/v"`.
pub open spec fn spec_release_url_prefix() -> Seq<u8> {
    seq![0x68u8, 0x74u8, 0x74u8, 0x70u8, 0x73u8, 0x3au8, 0x2fu8, 0x2fu8, 0x67u8, 0x69u8, 0x74u8, 0x68u8, 0x75u8, 0x62u8, 0x2eu8, 0x63u8, 0x6fu8, 0x6du8, 0x2fu8, 0x51u8, 0x75u8, 0x61u8, 0x6eu8, 0x74u8, 0x63u8, 0x6fu8, 0x2fu8, 0x70u8, 0x69u8, 0x78u8, 0x69u8, 0x2du8, 0x70u8, 0x61u8, 0x63u8, 0x6bu8, 0x2fu8, 0x72u8, 0x65u8, 0x6cu8, 0x65u8, 0x61u8, 0x73u8, 0x65u8, 0x73u8, 0x2fu8, 0x64u8, 0x6fu8, 0x77u8, 0x6eu8, 0x6cu8, 0x6fu8, 0x61u8, 0x64u8, 0x2fu8, 0x76u8]
}

/// Returns the byte string `"https://github.com/Quantco/pixi-pack/releases/download/v"`.
pub fn release_url_prefix() -> (r: Vec<u8>)
    ensures
        r@ == spec_release_url_prefix(),
{
    let mut v: Vec<u8> = Vec::new();
    v.push(0x68u8);
    v.push(0x74u8);
    v.push(0x74u8);
    v.push(0x70u8);
    v.push(0x73u8);
    v.push(0x3au8);
    v.push(0x2fu8);
    v.push(0x2fu8);
    v.push(0x67u8);
    v.push(0x69u8);
    v.push(0x74u8);
    v.push(0x68u8);
    v.push(0x75u8);
    v.push(0x62u8);
    v.push(0x2eu8);
    v.push(0x63u8);
    v.push(0x6fu8);
    v.push(0x6du8);
    v.push(0x2fu8);
    v.push(0x51u8);
    v.push(0x75u8);
    v.push(0x61u8);
    v.push(0x6eu8);
    v.push(0x74u8);
    v.push(0x63u8);
    v.push(0x6fu8);
    v.push(0x2fu8);
    v.push(0x70u8);
    v.push(0x69u8);
    v.push(0x78u8);
    v.push(0x69u8);
    v.push(0x2du8);
    v.push(0x70u8);
    v.push(0x61u8);
    v.push(0x63u8);
    v.push(0x6bu8);
    v.push(0x2fu8);
    v.push(0x72u8);
    v.push(0x65u8);
    v.push(0x6cu8);
    v.push(0x65u8);
    v.push(0x61u8);
    v.push(0x73u8);
    v.push(0x65u8);
    v.push(0x73u8);
    v.push(0x2fu8);
    v.push(0x64u8);
    v.push(0x6fu8);
    v.push(0x77u8);
    v.push(0x6eu8);
    v.push(0x6cu8);
    v.push(0x6fu8);
    v.push(0x61u8);
    v.push(0x64u8);
    v.push(0x2fu8);
    v.push(0x76u8);
    proof {
        assert(v@ =~= spec_release_url_prefix());
    }
    v
}

/// The byte string `"python"`.
pub open spec fn spec_python_package_name() -> Seq<u8> {
    seq![0x70u8, 0x79u8, 0x74u8, 0x68u8, 0x6fu8, 0x6eu8]
}

/// Returns the byte string `"python"`.
pub fn python_package_name() -> (r: Vec<u8>)
    ensures
        r@ == spec_python_package_name(),
{
    let mut v: Vec<u8> = Vec::new();
    v.push(0x70u8);
    v.push(0x79u8);
    v.push(0x74u8);
    v.push(0x68u8);
    v.push(0x6fu8);
    v.push(0x6eu8);
    proof {
        assert(v@ =~= spec_python_package_name());
    }
    v
}

/// The byte string `"__"`.
pub open spec fn spec_virtual_package_prefix() -> Seq<u8> {
    seq![0x5fu8, 0x5fu8]
}

/// Returns the byte string `"__"`.
pub fn virtual_package_prefix() -> (r: Vec<u8>)
    ensures
        r@ == spec_virtual_package_prefix(),
{
    let mut v: Vec<u8> = Vec::new();
    v.push(0x5fu8);
    v.push(0x5fu8);
    proof {
        assert(v@ =~= spec_virtual_package_prefix());
    }
    v
}

/// The byte string `"whl"`.
pub open spec fn spec_wheel_suffix() -> Seq<u8> {
    seq![0x77u8, 0x68u8, 0x6cu8]
}

/// Returns the byte string `"whl"`.
pub fn wheel_suffix() -> (r: Vec<u8>)
    ensures
        r@ == spec_wheel_suffix(),
{
    let mut v: Vec<u8> = Vec::new();
    v.push(0x77u8);
    v.push(0x68u8);
    v.push(0x6cu8);
    proof {
        assert(v@ =~= spec_wheel_suffix());
    }
    v
}

/// The byte string `"file://"`.
pub open spec fn spec_file_url_scheme() -> Seq<u8> {
    seq![0x66u8, 0x69u8, 0x6cu8, 0x65u8, 0x3au8, 0x2fu8, 0x2fu8]
}

/// Returns the byte string `"file://"`.
pub fn file_url_scheme() -> (r: Vec<u8>)
    ensures
        r@ == spec_file_url_scheme(),
{
    let mut v: Vec<u8> = Vec::new();
    v.push(0x66u8);
    v.push(0x69u8);
    v.push(0x6cu8);
    v.push(0x65u8);
    v.push(0x3au8);
    v.push(0x2fu8);
    v.push(0x2fu8);
    proof {
        assert(v@ =~= spec_file_url_scheme());
    }
    v
}

/// The byte string `"Unsupported pixi-pack version: "`.
pub open spec fn spec_msg_unsupported_version() -> Seq<u8> {
    seq![0x55u8, 0x6eu8, 0x73u8, 0x75u8, 0x70u8, 0x70u8, 0x6fu8, 0x72u8, 0x74u8, 0x65u8, 0x64u8, 0x20u8, 0x70u8, 0x69u8, 0x78u8, 0x69u8, 0x2du8, 0x70u8, 0x61u8, 0x63u8, 0x6bu8, 0x20u8, 0x76u8, 0x65u8, 0x72u8, 0x73u8, 0x69u8, 0x6fu8, 0x6eu8, 0x3au8, 0x20u8]
}

/// Returns the byte string `"Unsupported pixi-pack version: "`.
pub fn msg_unsupported_version() -> (r: Vec<u8>)
    ensures
        r@ == spec_msg_unsupported_version(),
{
    let mut v: Vec<u8> = Vec::new();
    v.push(0x55u8);
    v.push(0x6eu8);
    v.push(0x73u8);
    v.push(0x75u8);
    v.push(0x70u8);
    v.push(0x70u8);
    v.push(0x6fu8);
    v.push(0x72u8);
    v.push(0x74u8);
    v.push(0x65u8);
    v.push(0x64u8);
    v.push(0x20u8);
    v.push(0x70u8);
    v.push(0x69u8);
    v.push(0x78u8);
    v.push(0x69u8);
    v.push(0x2du8);
    v.push(0x70u8);
    v.push(0x61u8);
    v.push(0x63u8);
    v.push(0x6bu8);
    v.push(0x20u8);
    v.push(0x76u8);
    v.push(0x65u8);
    v.push(0x72u8);
    v.push(0x73u8);
    v.push(0x69u8);
    v.push(0x6fu8);
    v.push(0x6eu8);
    v.push(0x3au8);
    v.push(0x20u8);
    proof {
        assert(v@ =~= spec_msg_unsupported_version());
    }
    v
}

/// The byte string `"The pack was created for a different platform"`.
pub open spec fn spec_msg_platform_mismatch() -> Seq<u8> {
    seq![0x54u8, 0x68u8, 0x65u8, 0x20u8, 0x70u8, 0x61u8, 0x63u8, 0x6bu8, 0x20u8, 0x77u8, 0x61u8, 0x73u8, 0x20u8, 0x63u8, 0x72u8, 0x65u8, 0x61u8, 0x74u8, 0x65u8, 0x64u8, 0x20u8, 0x66u8, 0x6fu8, 0x72u8, 0x20u8, 0x61u8, 0x20u8, 0x64u8, 0x69u8, 0x66u8, 0x66u8, 0x65u8, 0x72u8, 0x65u8, 0x6eu8, 0x74u8, 0x20u8, 0x70u8, 0x6cu8, 0x61u8, 0x74u8, 0x66u8, 0x6fu8, 0x72u8, 0x6du8]
}

/// Returns the byte string `"The pack was created for a different platform"`.
pub fn msg_platform_mismatch() -> (r: Vec<u8>)
    ensures
        r@ == spec_msg_platform_mismatch(),
{
    let mut v: Vec<u8> = Vec::new();
    v.push(0x54u8);
    v.push(0x68u8);
    v.push(0x65u8);
    v.push(0x20u8);
    v.push(0x70u8);
    v.push(0x61u8);
    v.push(0x63u8);
    v.push(0x6bu8);
    v.push(0x20u8);
    v.push(0x77u8);
    v.push(0x61u8);
    v.push(0x73u8);
    v.push(0x20u8);
    v.push(0x63u8);
    v.push(0x72u8);
    v.push(0x65u8);
    v.push(0x61u8);
    v.push(0x74u8);
    v.push(0x65u8);
    v.push(0x64u8);
    v.push(0x20u8);
    v.push(0x66u8);
    v.push(0x6fu8);
    v.push(0x72u8);
    v.push(0x20u8);
    v.push(0x61u8);
    v.push(0x20u8);
    v.push(0x64u8);
    v.push(0x69u8);
    v.push(0x66u8);
    v.push(0x66u8);
    v.push(0x65u8);
    v.push(0x72u8);
    v.push(0x65u8);
    v.push(0x6eu8);
    v.push(0x74u8);
    v.push(0x20u8);
    v.push(0x70u8);
    v.push(0x6cu8);
    v.push(0x61u8);
    v.push(0x74u8);
    v.push(0x66u8);
    v.push(0x6fu8);
    v.push(0x72u8);
    v.push(0x6du8);
    proof {
        assert(v@ =~= spec_msg_platform_mismatch());
    }
    v
}

/// The byte string `"sh"`.
pub open spec fn spec_ext_sh() -> Seq<u8> {
    seq![0x73u8, 0x68u8]
}

/// Returns the byte string `"sh"`.
pub fn ext_sh() -> (r: Vec<u8>)
    ensures
        r@ == spec_ext_sh(),
{
    let mut v: Vec<u8> = Vec::new();
    v.push(0x73u8);
    v.push(0x68u8);
    proof {
        assert(v@ =~= spec_ext_sh());
    }
    v
}

/// The byte string `"ps1"`.
pub open spec fn spec_ext_ps1() -> Seq<u8> {
    seq![0x70u8, 0x73u8, 0x31u8]
}

/// Returns the byte string `"ps1"`.
pub fn ext_ps1() -> (r: Vec<u8>)
    ensures
        r@ == spec_ext_ps1(),
{
    let mut v: Vec<u8> = Vec::new();
    v.push(0x70u8);
    v.push(0x73u8);
    v.push(0x31u8);
    proof {
        assert(v@ =~= spec_ext_ps1());
    }
    v
}

/// The byte string `"tar"`.
pub open spec fn spec_ext_tar() -> Seq<u8> {
    seq![0x74u8, 0x61u8, 0x72u8]
}

/// Returns the byte string `"tar"`.
pub fn ext_tar() -> (r: Vec<u8>)
    ensures
        r@ == spec_ext_tar(),
{
    let mut v: Vec<u8> = Vec::new();
    v.push(0x74u8);
    v.push(0x61u8);
    v.push(0x72u8);
    proof {
        assert(v@ =~= spec_ext_tar());
    }
    v
}

/// The byte string `"activate."`.
pub open spec fn spec_activate_file_prefix() -> Seq<u8> {
    seq![0x61u8, 0x63u8, 0x74u8, 0x69u8, 0x76u8, 0x61u8, 0x74u8, 0x65u8, 0x2eu8]
}

/// Returns the byte string `"activate."`.
pub fn activate_file_prefix() -> (r: Vec<u8>)
    ensures
        r@ == spec_activate_file_prefix(),
{
    let mut v: Vec<u8> = Vec::new();
    v.push(0x61u8);
    v.push(0x63u8);
    v.push(0x74u8);
    v.push(0x69u8);
    v.push(0x76u8);
    v.push(0x61u8);
    v.push(0x74u8);
    v.push(0x65u8);
    v.push(0x2eu8);
    proof {
        assert(v@ =~= spec_activate_file_prefix());
    }
    v
}

/// The byte string `"environment"`.
pub open spec fn spec_output_stem_default() -> Seq<u8> {
    seq![0x65u8, 0x6eu8, 0x76u8, 0x69u8, 0x72u8, 0x6fu8, 0x6eu8, 0x6du8, 0x65u8, 0x6eu8, 0x74u8]
}

/// Returns the byte string `"environment"`.
pub fn output_stem_default() -> (r: Vec<u8>)
    ensures
        r@ == spec_output_stem_default(),
{
    let mut v: Vec<u8> = Vec::new();
    v.push(0x65u8);
    v.push(0x6eu8);
    v.push(0x76u8);
    v.push(0x69u8);
    v.push(0x72u8);
    v.push(0x6fu8);
    v.push(0x6eu8);
    v.push(0x6du8);
    v.push(0x65u8);
    v.push(0x6eu8);
    v.push(0x74u8);
    proof {
        assert(v@ =~= spec_output_stem_default());
    }
    v
}

/// The byte string `"-"`.
pub open spec fn spec_dash() -> Seq<u8> {
    seq![0x2du8]
}

/// Returns the byte string `"-"`.
pub fn dash() -> (r: Vec<u8>)
    ensures
        r@ == spec_dash(),
{
    let mut v: Vec<u8> = Vec::new();
    v.push(0x2du8);
    proof {
        assert(v@ =~= spec_dash());
    }
    v
}

/// The byte string `"."`.
pub open spec fn spec_dot() -> Seq<u8> {
    seq![0x2eu8]
}

/// Returns the byte string `"."`.
pub fn dot() -> (r: Vec<u8>)
    ensures
        r@ == spec_dot(),
{
    let mut v: Vec<u8> = Vec::new();
    v.push(0x2eu8);
    proof {
        assert(v@ =~= spec_dot());
    }
    v
}

/// The byte string `"direct+"`.
pub open spec fn spec_direct_url_prefix() -> Seq<u8> {
    seq![0x64u8, 0x69u8, 0x72u8, 0x65u8, 0x63u8, 0x74u8, 0x2bu8]
}

/// Returns the byte string `"direct+"`.
pub fn direct_url_prefix() -> (r: Vec<u8>)
    ensures
        r@ == spec_direct_url_prefix(),
{
    let mut v: Vec<u8> = Vec::new();
    v.push(0x64u8);
    v.push(0x69u8);
    v.push(0x72u8);
    v.push(0x65u8);
    v.push(0x63u8);
    v.push(0x74u8);
    v.push(0x2bu8);
    proof {
        assert(v@ =~= spec_direct_url_prefix());
    }
    v
}

/// The byte string `"null"`.
pub open spec fn spec_json_null() -> Seq<u8> {
    seq![0x6eu8, 0x75u8, 0x6cu8, 0x6cu8]
}

/// Returns the byte string `"null"`.
pub fn json_null() -> (r: Vec<u8>)
    ensures
        r@ == spec_json_null(),
{
    let mut v: Vec<u8> = Vec::new();
    v.push(0x6eu8);
    v.push(0x75u8);
    v.push(0x6cu8);
    v.push(0x6cu8);
    proof {
        assert(v@ =~= spec_json_null());
    }
    v
}

/// The byte string `": "`.
pub open spec fn spec_colon_space() -> Seq<u8> {
    seq![0x3au8, 0x20u8]
}

/// Returns the byte string `": "`.
pub fn colon_space() -> (r: Vec<u8>)
    ensures
        r@ == spec_colon_space(),
{
    let mut v: Vec<u8> = Vec::new();
    v.push(0x3au8);
    v.push(0x20u8);
    proof {
        assert(v@ =~= spec_colon_space());
    }
    v
}

/// The byte string `",\n"`.
pub open spec fn spec_comma_newline() -> Seq<u8> {
    seq![0x2cu8, 0x0au8]
}

/// Returns the byte string `",\n"`.
pub fn comma_newline() -> (r: Vec<u8>)
    ensures
        r@ == spec_comma_newline(),
{
    let mut v: Vec<u8> = Vec::new();
    v.push(0x2cu8);
    v.push(0x0au8);
    proof {
        assert(v@ =~= spec_comma_newline());
    }
    v
}

/// The byte string `"  "`.
pub open spec fn spec_indent2() -> Seq<u8> {
    seq![0x20u8, 0x20u8]
}

/// Returns the byte string `"  "`.
pub fn indent2() -> (r: Vec<u8>)
    ensures
        r@ == spec_indent2(),
{
    let mut v: Vec<u8> = Vec::new();
    v.push(0x20u8);
    v.push(0x20u8);
    proof {
        assert(v@ =~= spec_indent2());
    }
    v
}

/// The byte string `"    "`.
pub open spec fn spec_indent4() -> Seq<u8> {
    seq![0x20u8, 0x20u8, 0x20u8, 0x20u8]
}

/// Returns the byte string `"    "`.
pub fn indent4() -> (r: Vec<u8>)
    ensures
        r@ == spec_indent4(),
{
    let mut v: Vec<u8> = Vec::new();
    v.push(0x20u8);
    v.push(0x20u8);
    v.push(0x20u8);
    v.push(0x20u8);
    proof {
        assert(v@ =~= spec_indent4());
    }
    v
}

/// The byte string `"      "`.
pub open spec fn spec_indent6() -> Seq<u8> {
    seq![0x20u8, 0x20u8, 0x20u8, 0x20u8, 0x20u8, 0x20u8]
}

/// Returns the byte string `"      "`.
pub fn indent6() -> (r: Vec<u8>)
    ensures
        r@ == spec_indent6(),
{
    let mut v: Vec<u8> = Vec::new();
    v.push(0x20u8);
    v.push(0x20u8);
    v.push(0x20u8);
    v.push(0x20u8);
    v.push(0x20u8);
    v.push(0x20u8);
    proof {
        assert(v@ =~= spec_indent6());
    }
    v
}

} // verus!
