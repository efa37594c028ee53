use vstd::prelude::*;

use crate::bytes::{bytes_eq, copy_bytes, push_bytes};
use crate::jsonfmt::{push_dec_u64, push_json_string, spec_dec, spec_json_string};
use crate::record::{CondaPackage, CondaPackageModel, CondaRecord, CondaRecordModel};
use crate::text::{
    colon_space, indent2, indent4, indent6, key_build, key_build_number, key_constrains,
    key_depends, key_info, key_md5, key_name, key_packages, key_packages_conda,
    key_repodata_version, key_sha256, key_size, key_subdir, key_timestamp, key_version, lf,
    spec_colon_space, spec_indent2, spec_indent4, spec_indent6, spec_key_build,
    spec_key_build_number, spec_key_constrains, spec_key_depends, spec_key_info, spec_key_md5,
    spec_key_name, spec_key_packages, spec_key_packages_conda, spec_key_repodata_version,
    spec_key_sha256, spec_key_size, spec_key_subdir, spec_key_timestamp, spec_key_version,
    spec_lf,
};

verus! {

/// One row of a repodata index: a package file name and its record.
#[derive(Debug)]
pub struct RepodataEntry {
    pub file_name: Vec<u8>,
    pub record: CondaRecord,
}

/// Mathematical model of a `RepodataEntry`.
#[verifier::ext_equal]
pub ghost struct RepodataEntryModel {
    pub file_name: Seq<u8>,
    pub record: CondaRecordModel,
}

impl View for RepodataEntry {
    type V = RepodataEntryModel;

    open spec fn view(&self) -> RepodataEntryModel {
        RepodataEntryModel { file_name: self.file_name@, record: self.record@ }
    }
}

impl DeepView for RepodataEntry {
    type V = RepodataEntryModel;

    open spec fn deep_view(&self) -> RepodataEntryModel {
        self.view()
    }
}

/// The eight-space indent used by array items inside a record.
pub open spec fn spec_indent8() -> Seq<u8> {
    spec_indent4() + spec_indent4()
}

/// The items of a JSON string array, one per line at the item indent, a comma
/// after each but the last.
pub open spec fn spec_string_items(s: Seq<Seq<u8>>) -> Seq<u8>
    decreases s.len(),
{
    if s.len() == 0 {
        seq![]
    } else if s.len() == 1 {
        spec_indent8() + spec_json_string(s[0]) + spec_lf()
    } else {
        spec_indent8() + spec_json_string(s[0]) + seq![0x2cu8, 0x0au8] + spec_string_items(
            s.skip(1),
        )
    }
}

/// A JSON array of strings as it appears as a record field value: `[]` when
/// empty, one item per line otherwise.
pub open spec fn spec_string_list(s: Seq<Seq<u8>>) -> Seq<u8> {
    if s.len() == 0 {
        seq![0x5bu8, 0x5du8]
    } else {
        seq![0x5bu8, 0x0au8] + spec_string_items(s) + spec_indent6() + seq![0x5du8]
    }
}

/// Append the items of a string array, starting at item `i`.
fn push_string_items(out: &mut Vec<u8>, items: &Vec<Vec<u8>>, i: usize)
    requires
        i <= items.len(),
    ensures
        final(out)@ == old(out)@ + spec_string_items(items.deep_view().skip(i as int)),
    decreases items.len() - i,
{
    if i == items.len() {
        proof {
            assert(items.deep_view().skip(i as int) =~= Seq::<Seq<u8>>::empty());
        }
        return ;
    }
    let indent = indent2();
    push_bytes(out, indent.as_slice());
    push_bytes(out, indent.as_slice());
    push_bytes(out, indent.as_slice());
    push_bytes(out, indent.as_slice());
    push_json_string(out, items[i].as_slice());
    if i + 1 == items.len() {
        out.push(0x0au8);
    } else {
        out.push(0x2cu8);
        out.push(0x0au8);
    }
    push_string_items(out, items, i + 1);
    proof {
        assert(items.deep_view().skip(i as int).skip(1) =~~= items.deep_view().skip(i + 1));
        assert(items.deep_view().skip(i as int)[0] == items.deep_view()[i as int]);
        assert(items.deep_view()[i as int] == items@[i as int]@);
        assert(spec_indent8() =~= spec_indent2() + spec_indent2() + spec_indent2()
            + spec_indent2());
        assert(out@ =~= old(out)@ + spec_string_items(items.deep_view().skip(i as int)));
    }
}

/// Append a whole string array value.
fn push_string_list(out: &mut Vec<u8>, items: &Vec<Vec<u8>>)
    ensures
        final(out)@ == old(out)@ + spec_string_list(items.deep_view()),
{
    if items.len() == 0 {
        out.push(0x5bu8);
        out.push(0x5du8);
        proof {
            assert(final(out)@ =~= old(out)@ + spec_string_list(items.deep_view()));
        }
        return ;
    }
    out.push(0x5bu8);
    out.push(0x0au8);
    push_string_items(out, items, 0);
    let indent = indent6();
    push_bytes(out, indent.as_slice());
    out.push(0x5du8);
    proof {
        assert(items.deep_view().skip(0) =~= items.deep_view());
        assert(final(out)@ =~= old(out)@ + spec_string_list(items.deep_view()));
    }
}

/// One field line of a record: indent, the quoted key, `: `, the rendered
/// value, then a comma and newline (a bare newline on the last field).
#[verifier::opaque]
pub open spec fn spec_field(key: Seq<u8>, value: Seq<u8>, last: bool) -> Seq<u8> {
    spec_indent6() + spec_json_string(key) + spec_colon_space() + value + (if last {
        seq![0x0au8]
    } else {
        seq![0x2cu8, 0x0au8]
    })
}

/// The first fields of a record: the build string, the build number, the
/// run constraints when present, and the dependencies.
#[verifier::opaque]
pub open spec fn spec_record_fields_a(r: CondaRecordModel) -> Seq<u8> {
    spec_field(spec_key_build(), spec_json_string(r.build), false) + spec_field(
        spec_key_build_number(),
        spec_dec(r.build_number as int),
        false,
    ) + (if r.constrains.len() > 0 {
        spec_field(spec_key_constrains(), spec_string_list(r.constrains), false)
    } else {
        seq![]
    }) + spec_field(spec_key_depends(), spec_string_list(r.depends), false)
}

/// The middle fields of a record: the md5 digest when present, the package
/// name, the sha256 digest when present.
#[verifier::opaque]
pub open spec fn spec_record_fields_b(r: CondaRecordModel) -> Seq<u8> {
    (match r.md5 {
        Some(v) => spec_field(spec_key_md5(), spec_json_string(v), false),
        None => seq![],
    }) + spec_field(spec_key_name(), spec_json_string(r.name), false) + (match r.sha256 {
        Some(v) => spec_field(spec_key_sha256(), spec_json_string(v), false),
        None => seq![],
    })
}

/// The last optional fields of a record: the size when present, the
/// subdirectory, the timestamp when present.
#[verifier::opaque]
pub open spec fn spec_record_fields_c(r: CondaRecordModel) -> Seq<u8> {
    (match r.size {
        Some(n) => spec_field(spec_key_size(), spec_dec(n as int), false),
        None => seq![],
    }) + spec_field(spec_key_subdir(), spec_json_string(r.subdir), false) + (match r.timestamp {
        Some(n) => spec_field(spec_key_timestamp(), spec_dec(n as int), false),
        None => seq![],
    })
}

/// A package record as JSON, fields in alphabetical order as the repodata
/// format writes them; the optional digests, size and timestamp appear only
/// when present.
#[verifier::opaque]
pub open spec fn spec_record_json(r: CondaRecordModel) -> Seq<u8> {
    seq![0x7bu8, 0x0au8] + spec_record_fields_a(r) + spec_record_fields_b(r)
        + spec_record_fields_c(r) + spec_field(spec_key_version(), spec_json_string(r.version), true)
        + spec_indent4() + seq![0x7du8]
}

/// Append one field line whose value is a JSON string.
fn push_field_string(out: &mut Vec<u8>, key: &Vec<u8>, value: &[u8], last: bool)
    ensures
        final(out)@ == old(out)@ + spec_field(key@, spec_json_string(value@), last),
{
    let indent = indent6();
    push_bytes(out, indent.as_slice());
    push_json_string(out, key.as_slice());
    let colon = colon_space();
    push_bytes(out, colon.as_slice());
    push_json_string(out, value);
    if !last {
        out.push(0x2cu8);
    }
    out.push(0x0au8);
    proof {
        reveal(spec_field);
        assert(out@ =~= old(out)@ + spec_field(key@, spec_json_string(value@), last));
    }
}

/// Append one field line whose value is a number.
fn push_field_number(out: &mut Vec<u8>, key: &Vec<u8>, n: u64, last: bool)
    ensures
        final(out)@ == old(out)@ + spec_field(key@, spec_dec(n as int), last),
{
    let indent = indent6();
    push_bytes(out, indent.as_slice());
    push_json_string(out, key.as_slice());
    let colon = colon_space();
    push_bytes(out, colon.as_slice());
    push_dec_u64(out, n);
    if !last {
        out.push(0x2cu8);
    }
    out.push(0x0au8);
    proof {
        reveal(spec_field);
        assert(out@ =~= old(out)@ + spec_field(key@, spec_dec(n as int), last));
    }
}

/// Append one field line whose value is a string array.
fn push_field_list(out: &mut Vec<u8>, key: &Vec<u8>, items: &Vec<Vec<u8>>, last: bool)
    ensures
        final(out)@ == old(out)@ + spec_field(key@, spec_string_list(items.deep_view()), last),
{
    let indent = indent6();
    push_bytes(out, indent.as_slice());
    push_json_string(out, key.as_slice());
    let colon = colon_space();
    push_bytes(out, colon.as_slice());
    push_string_list(out, items);
    if !last {
        out.push(0x2cu8);
    }
    out.push(0x0au8);
    proof {
        reveal(spec_field);
        assert(out@ =~= old(out)@ + spec_field(key@, spec_string_list(items.deep_view()), last));
    }
}

/// Append the first fields of a record.
fn push_record_fields_a(out: &mut Vec<u8>, r: &CondaRecord)
    ensures
        final(out)@ == old(out)@ + spec_record_fields_a(r@),
{
    let key = key_build();
    push_field_string(out, &key, r.build.as_slice(), false);
    let key = key_build_number();
    push_field_number(out, &key, r.build_number, false);
    if r.constrains.len() > 0 {
        let key = key_constrains();
        push_field_list(out, &key, &r.constrains, false);
    }
    let key = key_depends();
    push_field_list(out, &key, &r.depends, false);
    proof {
        reveal(spec_record_fields_a);
        assert(out@ =~= old(out)@ + spec_record_fields_a(r@));
    }
}

/// Append the middle fields of a record.
fn push_record_fields_b(out: &mut Vec<u8>, r: &CondaRecord)
    ensures
        final(out)@ == old(out)@ + spec_record_fields_b(r@),
{
    match &r.md5 {
        Some(v) => {
            let key = key_md5();
            push_field_string(out, &key, v.as_slice(), false);
        },
        None => {},
    }
    let key = key_name();
    push_field_string(out, &key, r.name.as_slice(), false);
    match &r.sha256 {
        Some(v) => {
            let key = key_sha256();
            push_field_string(out, &key, v.as_slice(), false);
        },
        None => {},
    }
    proof {
        reveal(spec_record_fields_b);
        assert(out@ =~= old(out)@ + spec_record_fields_b(r@));
    }
}

/// Append the last fields of a record.
fn push_record_fields_c(out: &mut Vec<u8>, r: &CondaRecord)
    ensures
        final(out)@ == old(out)@ + spec_record_fields_c(r@),
{
    match r.size {
        Some(n) => {
            let key = key_size();
            push_field_number(out, &key, n, false);
        },
        None => {},
    }
    let key = key_subdir();
    push_field_string(out, &key, r.subdir.as_slice(), false);
    match r.timestamp {
        Some(n) => {
            let key = key_timestamp();
            push_field_number(out, &key, n, false);
        },
        None => {},
    }
    proof {
        reveal(spec_record_fields_c);
        assert(out@ =~= old(out)@ + spec_record_fields_c(r@));
    }
}

/// Append a package record as JSON.
pub fn push_record_json(out: &mut Vec<u8>, r: &CondaRecord)
    ensures
        final(out)@ == old(out)@ + spec_record_json(r@),
{
    out.push(0x7bu8);
    out.push(0x0au8);
    push_record_fields_a(out, r);
    push_record_fields_b(out, r);
    push_record_fields_c(out, r);
    let key = key_version();
    push_field_string(out, &key, r.version.as_slice(), true);
    let indent = indent4();
    push_bytes(out, indent.as_slice());
    out.push(0x7du8);
    proof {
        reveal(spec_record_json);
        assert(out@ =~= old(out)@ + spec_record_json(r@));
    }
}

/// The rows of a repodata index, one `"file name": record` entry per row, a
/// comma after each but the last.
pub open spec fn spec_repodata_rows(s: Seq<RepodataEntryModel>) -> Seq<u8>
    decreases s.len(),
{
    if s.len() == 0 {
        seq![]
    } else if s.len() == 1 {
        spec_indent4() + spec_json_string(s[0].file_name) + spec_colon_space() + spec_record_json(
            s[0].record,
        ) + spec_lf()
    } else {
        spec_indent4() + spec_json_string(s[0].file_name) + spec_colon_space() + spec_record_json(
            s[0].record,
        ) + seq![0x2cu8, 0x0au8] + spec_repodata_rows(s.skip(1))
    }
}

/// Append the rows starting at row `i`.
#[verifier::rlimit(100)]
fn push_repodata_rows(out: &mut Vec<u8>, rows: &Vec<RepodataEntry>, i: usize)
    requires
        i <= rows.len(),
    ensures
        final(out)@ == old(out)@ + spec_repodata_rows(rows.deep_view().skip(i as int)),
    decreases rows.len() - i,
{
    if i == rows.len() {
        proof {
            assert(rows.deep_view().skip(i as int) =~= Seq::<RepodataEntryModel>::empty());
        }
        return ;
    }
    let indent = indent4();
    push_bytes(out, indent.as_slice());
    push_json_string(out, rows[i].file_name.as_slice());
    let colon = colon_space();
    push_bytes(out, colon.as_slice());
    push_record_json(out, &rows[i].record);
    if i + 1 == rows.len() {
        out.push(0x0au8);
    } else {
        out.push(0x2cu8);
        out.push(0x0au8);
    }
    push_repodata_rows(out, rows, i + 1);
    proof {
        assert(rows.deep_view().skip(i as int).skip(1) =~= rows.deep_view().skip(i + 1));
        assert(rows.deep_view().skip(i as int)[0] == rows.deep_view()[i as int]);
        assert(final(out)@ =~= old(out)@ + spec_repodata_rows(rows.deep_view().skip(i as int)));
    }
}

/// A whole repodata index file for one subdirectory bucket: the channel info
/// naming the bucket, the (always empty) legacy package map, the rows under
/// `packages.conda`, and the repodata format version 2.
pub open spec fn spec_repodata_file(subdir: Seq<u8>, rows: Seq<RepodataEntryModel>) -> Seq<u8> {
    seq![0x7bu8, 0x0au8] + spec_indent2() + spec_json_string(spec_key_info()) + spec_colon_space()
        + seq![0x7bu8, 0x0au8] + spec_indent4() + spec_json_string(spec_key_subdir())
        + spec_colon_space() + spec_json_string(subdir) + spec_lf() + spec_indent2()
        + seq![0x7du8, 0x2cu8, 0x0au8] + spec_indent2() + spec_json_string(spec_key_packages())
        + spec_colon_space() + seq![0x7bu8, 0x7du8, 0x2cu8, 0x0au8] + spec_indent2()
        + spec_json_string(spec_key_packages_conda()) + spec_colon_space() + (if rows.len() == 0 {
        seq![0x7bu8, 0x7du8, 0x2cu8, 0x0au8]
    } else {
        seq![0x7bu8, 0x0au8] + spec_repodata_rows(rows) + spec_indent2() + seq![
            0x7du8,
            0x2cu8,
            0x0au8,
        ]
    }) + spec_indent2() + spec_json_string(spec_key_repodata_version()) + spec_colon_space()
        + seq![0x32u8, 0x0au8, 0x7du8]
}

/// Render the repodata index file for one subdirectory bucket.
#[verifier::rlimit(100)]
pub fn render_repodata_file(subdir: &Vec<u8>, rows: &Vec<RepodataEntry>) -> (r: Vec<u8>)
    ensures
        r@ == spec_repodata_file(subdir@, rows.deep_view()),
{
    let mut out: Vec<u8> = Vec::new();
    out.push(0x7bu8);
    out.push(0x0au8);
    let ind2 = indent2();
    let ind4 = indent4();
    let colon = colon_space();
    push_bytes(&mut out, ind2.as_slice());
    let key = key_info();
    push_json_string(&mut out, key.as_slice());
    push_bytes(&mut out, colon.as_slice());
    out.push(0x7bu8);
    out.push(0x0au8);
    push_bytes(&mut out, ind4.as_slice());
    let key = key_subdir();
    push_json_string(&mut out, key.as_slice());
    push_bytes(&mut out, colon.as_slice());
    push_json_string(&mut out, subdir.as_slice());
    out.push(0x0au8);
    push_bytes(&mut out, ind2.as_slice());
    out.push(0x7du8);
    out.push(0x2cu8);
    out.push(0x0au8);
    push_bytes(&mut out, ind2.as_slice());
    let key = key_packages();
    push_json_string(&mut out, key.as_slice());
    push_bytes(&mut out, colon.as_slice());
    out.push(0x7bu8);
    out.push(0x7du8);
    out.push(0x2cu8);
    out.push(0x0au8);
    push_bytes(&mut out, ind2.as_slice());
    let key = key_packages_conda();
    push_json_string(&mut out, key.as_slice());
    push_bytes(&mut out, colon.as_slice());
    if rows.len() == 0 {
        out.push(0x7bu8);
        out.push(0x7du8);
        out.push(0x2cu8);
        out.push(0x0au8);
    } else {
        out.push(0x7bu8);
        out.push(0x0au8);
        push_repodata_rows(&mut out, rows, 0);
        proof {
            assert(rows.deep_view().skip(0) =~= rows.deep_view());
        }
        push_bytes(&mut out, ind2.as_slice());
        out.push(0x7du8);
        out.push(0x2cu8);
        out.push(0x0au8);
    }
    push_bytes(&mut out, ind2.as_slice());
    let key = key_repodata_version();
    push_json_string(&mut out, key.as_slice());
    push_bytes(&mut out, colon.as_slice());
    out.push(0x32u8);
    out.push(0x0au8);
    out.push(0x7du8);
    proof {
        assert(out@ =~= spec_repodata_file(subdir@, rows.deep_view()));
    }
    out
}

/// The distinct subdirectory names of a package sequence, in order of first
/// occurrence.
pub open spec fn spec_subdirs_in_order(s: Seq<CondaPackageModel>) -> Seq<Seq<u8>>
    decreases s.len(),
{
    if s.len() == 0 {
        seq![]
    } else {
        let rest = spec_subdirs_in_order(s.take(s.len() - 1));
        if rest.contains(s[s.len() - 1].record.subdir) {
            rest
        } else {
            rest.push(s[s.len() - 1].record.subdir)
        }
    }
}

/// The repodata rows of one subdirectory: the packages of `s` whose record
/// names that subdirectory, in order, each as a file-name/record row.
pub open spec fn spec_rows_of_subdir(s: Seq<CondaPackageModel>, d: Seq<u8>) -> Seq<
    RepodataEntryModel,
>
    decreases s.len(),
{
    if s.len() == 0 {
        seq![]
    } else {
        let rest = spec_rows_of_subdir(s.take(s.len() - 1), d);
        if s[s.len() - 1].record.subdir == d {
            rest.push(
                RepodataEntryModel {
                    file_name: s[s.len() - 1].file_name,
                    record: s[s.len() - 1].record,
                },
            )
        } else {
            rest
        }
    }
}

/// Whether a list of byte strings contains `d`.
fn vecs_contain(v: &Vec<Vec<u8>>, d: &[u8]) -> (r: bool)
    ensures
        r == v.deep_view().contains(d@),
{
    let mut i: usize = 0;
    while i < v.len()
        invariant
            i <= v.len(),
            forall|j: int| 0 <= j < i ==> v.deep_view()[j] != d@,
        decreases v.len() - i,
    {
        if bytes_eq(v[i].as_slice(), d) {
            proof {
                assert(v.deep_view()[i as int] == d@);
            }
            return true;
        }
        proof {
            assert(v.deep_view()[i as int] == v@[i as int]@);
        }
        i += 1;
    }
    proof {
        assert(forall|j: int| 0 <= j < v.deep_view().len() ==> v.deep_view()[j] != d@);
    }
    false
}

/// The distinct subdirectories of the working set, in order of first
/// occurrence.
pub fn subdirs_in_order(conda: &Vec<CondaPackage>) -> (r: Vec<Vec<u8>>)
    ensures
        r.deep_view() == spec_subdirs_in_order(conda.deep_view()),
{
    let mut subdirs: Vec<Vec<u8>> = Vec::new();
    let mut i: usize = 0;
    proof {
        assert(conda.deep_view().take(0) =~= Seq::<CondaPackageModel>::empty());
        assert(subdirs.deep_view() =~= spec_subdirs_in_order(conda.deep_view().take(0)));
    }
    while i < conda.len()
        invariant
            i <= conda.len(),
            subdirs.deep_view() == spec_subdirs_in_order(conda.deep_view().take(i as int)),
        decreases conda.len() - i,
    {
        let present = vecs_contain(&subdirs, conda[i].record.subdir.as_slice());
        let ghost before = subdirs.deep_view();
        if !present {
            let d = copy_bytes(conda[i].record.subdir.as_slice());
            subdirs.push(d);
            proof {
                assert(conda.deep_view()[i as int] == conda@[i as int]@);
                assert(subdirs.deep_view() =~~= before.push(
                    conda.deep_view()[i as int].record.subdir,
                ));
            }
        }
        proof {
            let t1 = conda.deep_view().take(i + 1);
            assert(t1.take(t1.len() - 1) =~~= conda.deep_view().take(i as int));
            assert(t1[t1.len() - 1] == conda.deep_view()[i as int]);
            assert(subdirs.deep_view() =~~= spec_subdirs_in_order(conda.deep_view().take(i + 1)));
        }
        i += 1;
    }
    proof {
        assert(conda.deep_view().take(conda.deep_view().len() as int) =~= conda.deep_view());
    }
    subdirs
}

/// The rows of one subdirectory bucket, in working-set order.
pub fn rows_of_subdir(conda: &Vec<CondaPackage>, d: &[u8]) -> (r: Vec<RepodataEntry>)
    ensures
        r.deep_view() == spec_rows_of_subdir(conda.deep_view(), d@),
{
    let mut rows: Vec<RepodataEntry> = Vec::new();
    let mut i: usize = 0;
    proof {
        assert(conda.deep_view().take(0) =~= Seq::<CondaPackageModel>::empty());
        assert(rows.deep_view() =~= spec_rows_of_subdir(conda.deep_view().take(0), d@));
    }
    while i < conda.len()
        invariant
            i <= conda.len(),
            rows.deep_view() == spec_rows_of_subdir(conda.deep_view().take(i as int), d@),
        decreases conda.len() - i,
    {
        let ghost before = rows.deep_view();
        if bytes_eq(conda[i].record.subdir.as_slice(), d) {
            let entry = RepodataEntry {
                file_name: copy_bytes(conda[i].file_name.as_slice()),
                record: clone_record(&conda[i].record),
            };
            rows.push(entry);
            proof {
                assert(conda.deep_view()[i as int] == conda@[i as int]@);
                assert(rows.deep_view() =~~= before.push(
                    RepodataEntryModel {
                        file_name: conda.deep_view()[i as int].file_name,
                        record: conda.deep_view()[i as int].record,
                    },
                ));
            }
        }
        proof {
            let t1 = conda.deep_view().take(i + 1);
            assert(t1.take(t1.len() - 1) =~~= conda.deep_view().take(i as int));
            assert(t1[t1.len() - 1] == conda.deep_view()[i as int]);
            assert(rows.deep_view() =~~= spec_rows_of_subdir(conda.deep_view().take(i + 1), d@));
        }
        i += 1;
    }
    proof {
        assert(conda.deep_view().take(conda.deep_view().len() as int) =~= conda.deep_view());
    }
    rows
}

/// Copy a record.
pub fn clone_record(r: &CondaRecord) -> (c: CondaRecord)
    ensures
        c@ == r@,
{
    let c = CondaRecord {
        name: copy_bytes(r.name.as_slice()),
        version: copy_bytes(r.version.as_slice()),
        build: copy_bytes(r.build.as_slice()),
        build_number: r.build_number,
        subdir: copy_bytes(r.subdir.as_slice()),
        depends: clone_vecs(&r.depends),
        constrains: clone_vecs(&r.constrains),
        md5: match &r.md5 {
            Some(v) => Some(copy_bytes(v.as_slice())),
            None => None,
        },
        sha256: match &r.sha256 {
            Some(v) => Some(copy_bytes(v.as_slice())),
            None => None,
        },
        size: r.size,
        timestamp: r.timestamp,
    };
    proof {
        assert(c@ =~~= r@);
    }
    c
}

/// Copy a list of byte strings.
pub fn clone_vecs(v: &Vec<Vec<u8>>) -> (c: Vec<Vec<u8>>)
    ensures
        c.deep_view() == v.deep_view(),
{
    let mut c: Vec<Vec<u8>> = Vec::new();
    let mut i: usize = 0;
    while i < v.len()
        invariant
            i <= v.len(),
            c.deep_view() == v.deep_view().take(i as int),
        decreases v.len() - i,
    {
        c.push(copy_bytes(v[i].as_slice()));
        proof {
            assert(v.deep_view()[i as int] == v@[i as int]@);
            assert(c.deep_view() =~~= v.deep_view().take(i + 1));
        }
        i += 1;
    }
    proof {
        assert(v.deep_view().take(v.deep_view().len() as int) =~~= v.deep_view());
    }
    c
}

} // verus!
