use vstd::prelude::*;

use crate::bytes::push_bytes;
use crate::record::{CondaPackage, CondaPackageModel, PypiPackage, PypiPackageModel};
use crate::text::{
    channel_dir_name, double_equals, env_channels_header, env_dep_prefix, env_dependencies_header,
    env_find_links_prefix, env_local_channel_prefix, env_no_index_line, env_nodefaults_line,
    env_pip_dep_prefix, env_pip_header, equals_sign, lf, pypi_dir_name, spec_channel_dir_name,
    spec_double_equals, spec_env_channels_header, spec_env_dep_prefix,
    spec_env_dependencies_header, spec_env_find_links_prefix, spec_env_local_channel_prefix,
    spec_env_no_index_line, spec_env_nodefaults_line, spec_env_pip_dep_prefix,
    spec_env_pip_header, spec_equals_sign, spec_lf, spec_pypi_dir_name,
};

verus! {

/// One conda dependency line of the environment file:
/// `  - <name>=<version>=<build>` and a newline.
pub open spec fn spec_conda_dep_line(p: CondaPackageModel) -> Seq<u8> {
    spec_env_dep_prefix() + p.record.name + spec_equals_sign() + p.record.version
        + spec_equals_sign() + p.record.build + spec_lf()
}

/// The conda dependency lines, one per package, in order.
pub open spec fn spec_conda_dep_lines(s: Seq<CondaPackageModel>) -> Seq<u8>
    decreases s.len(),
{
    if s.len() == 0 {
        seq![]
    } else {
        spec_conda_dep_line(s[0]) + spec_conda_dep_lines(s.skip(1))
    }
}

/// Appending a package appends its line.
pub proof fn lemma_conda_dep_lines_push(s: Seq<CondaPackageModel>, x: CondaPackageModel)
    ensures
        spec_conda_dep_lines(s.push(x)) == spec_conda_dep_lines(s) + spec_conda_dep_line(x),
    decreases s.len(),
{
    if s.len() == 0 {
        assert(s.push(x).skip(1) =~= Seq::<CondaPackageModel>::empty());
        assert(s.push(x)[0] == x);
        assert(spec_conda_dep_lines(Seq::<CondaPackageModel>::empty()) =~= Seq::<u8>::empty());
        assert(spec_conda_dep_lines(s.push(x)) =~= spec_conda_dep_line(x));
        assert(spec_conda_dep_lines(s) + spec_conda_dep_line(x) =~= spec_conda_dep_line(x));
    } else {
        lemma_conda_dep_lines_push(s.skip(1), x);
        assert(s.push(x).skip(1) =~= s.skip(1).push(x));
        assert(s.push(x)[0] == s[0]);
        assert(spec_conda_dep_line(s[0]) + (spec_conda_dep_lines(s.skip(1)) + spec_conda_dep_line(
            x,
        )) =~= (spec_conda_dep_line(s[0]) + spec_conda_dep_lines(s.skip(1))) + spec_conda_dep_line(
            x,
        ));
    }
}

/// One pip dependency line of the environment file:
/// `    - <name>==<version>` and a newline.
pub open spec fn spec_pypi_dep_line(p: PypiPackageModel) -> Seq<u8> {
    spec_env_pip_dep_prefix() + p.name + spec_double_equals() + p.version + spec_lf()
}

/// The pip dependency lines, one per wheel, in order.
pub open spec fn spec_pypi_dep_lines(s: Seq<PypiPackageModel>) -> Seq<u8>
    decreases s.len(),
{
    if s.len() == 0 {
        seq![]
    } else {
        spec_pypi_dep_line(s[0]) + spec_pypi_dep_lines(s.skip(1))
    }
}

/// Appending a wheel appends its line.
pub proof fn lemma_pypi_dep_lines_push(s: Seq<PypiPackageModel>, x: PypiPackageModel)
    ensures
        spec_pypi_dep_lines(s.push(x)) == spec_pypi_dep_lines(s) + spec_pypi_dep_line(x),
    decreases s.len(),
{
    if s.len() == 0 {
        assert(s.push(x).skip(1) =~= Seq::<PypiPackageModel>::empty());
        assert(s.push(x)[0] == x);
        assert(spec_pypi_dep_lines(Seq::<PypiPackageModel>::empty()) =~= Seq::<u8>::empty());
        assert(spec_pypi_dep_lines(s.push(x)) =~= spec_pypi_dep_line(x));
        assert(spec_pypi_dep_lines(s) + spec_pypi_dep_line(x) =~= spec_pypi_dep_line(x));
    } else {
        lemma_pypi_dep_lines_push(s.skip(1), x);
        assert(s.push(x).skip(1) =~= s.skip(1).push(x));
        assert(s.push(x)[0] == s[0]);
        assert(spec_pypi_dep_line(s[0]) + (spec_pypi_dep_lines(s.skip(1)) + spec_pypi_dep_line(x))
            =~= (spec_pypi_dep_line(s[0]) + spec_pypi_dep_lines(s.skip(1))) + spec_pypi_dep_line(
            x,
        ));
    }
}

/// The pip block of the environment file: present exactly when wheels are
/// present, it turns the package index off and points pip at the bundled
/// wheel directory.
pub open spec fn spec_pip_block(pypi: Seq<PypiPackageModel>) -> Seq<u8> {
    if pypi.len() == 0 {
        seq![]
    } else {
        spec_env_pip_header() + spec_env_no_index_line() + spec_env_find_links_prefix()
            + spec_pypi_dir_name() + spec_lf() + spec_pypi_dep_lines(pypi)
    }
}

/// The whole portable environment descriptor: the bundled channel directory
/// and `nodefaults` as channels, one `name=version=build` line per conda
/// package in working-set order, and the pip block when wheels are present.
pub open spec fn spec_environment_file(
    conda: Seq<CondaPackageModel>,
    pypi: Seq<PypiPackageModel>,
) -> Seq<u8> {
    spec_env_channels_header() + spec_env_local_channel_prefix() + spec_channel_dir_name()
        + spec_lf() + spec_env_nodefaults_line() + spec_env_dependencies_header() + spec_conda_dep_lines(conda)
        + spec_pip_block(pypi)
}

/// Render the environment descriptor for the given working set.
pub fn render_environment_file(conda: &Vec<CondaPackage>, pypi: &Vec<PypiPackage>) -> (r: Vec<u8>)
    ensures
        r@ == spec_environment_file(conda.deep_view(), pypi.deep_view()),
{
    let mut out: Vec<u8> = Vec::new();
    let fragment = env_channels_header();
    push_bytes(&mut out, fragment.as_slice());
    let fragment = env_local_channel_prefix();
    push_bytes(&mut out, fragment.as_slice());
    let fragment = channel_dir_name();
    push_bytes(&mut out, fragment.as_slice());
    let newline = lf();
    push_bytes(&mut out, newline.as_slice());
    let fragment = env_nodefaults_line();
    push_bytes(&mut out, fragment.as_slice());
    let fragment = env_dependencies_header();
    push_bytes(&mut out, fragment.as_slice());
    let ghost head = out@;
    let mut i: usize = 0;
    proof {
        assert(conda.deep_view().take(0) =~= Seq::<CondaPackageModel>::empty());
        assert(out@ =~= head + spec_conda_dep_lines(conda.deep_view().take(0)));
    }
    while i < conda.len()
        invariant
            i <= conda.len(),
            conda.deep_view().len() == conda.len(),
            forall|j: int| 0 <= j < conda.len() ==> conda.deep_view()[j] == #[trigger] conda@[j]@,
            out@ == head + spec_conda_dep_lines(conda.deep_view().take(i as int)),
        decreases conda.len() - i,
    {
        let p = &conda[i];
        let fragment = env_dep_prefix();
        push_bytes(&mut out, fragment.as_slice());
        push_bytes(&mut out, p.record.name.as_slice());
        let eq = equals_sign();
        push_bytes(&mut out, eq.as_slice());
        push_bytes(&mut out, p.record.version.as_slice());
        push_bytes(&mut out, eq.as_slice());
        push_bytes(&mut out, p.record.build.as_slice());
        push_bytes(&mut out, newline.as_slice());
        proof {
            lemma_conda_dep_lines_push(
                conda.deep_view().take(i as int),
                conda.deep_view()[i as int],
            );
            assert(conda.deep_view().take(i + 1) =~= conda.deep_view().take(i as int).push(
                conda.deep_view()[i as int],
            ));
            assert(out@ =~= head + spec_conda_dep_lines(conda.deep_view().take(i + 1)));
        }
        i += 1;
    }
    proof {
        assert(conda.deep_view().take(conda.deep_view().len() as int) =~= conda.deep_view());
    }
    if pypi.len() > 0 {
        let fragment = env_pip_header();
        push_bytes(&mut out, fragment.as_slice());
        let fragment = env_no_index_line();
        push_bytes(&mut out, fragment.as_slice());
        let fragment = env_find_links_prefix();
        push_bytes(&mut out, fragment.as_slice());
        let fragment = pypi_dir_name();
        push_bytes(&mut out, fragment.as_slice());
        push_bytes(&mut out, newline.as_slice());
        let ghost mid = out@;
        let mut k: usize = 0;
        proof {
            assert(pypi.deep_view().take(0) =~= Seq::<PypiPackageModel>::empty());
            assert(out@ =~= mid + spec_pypi_dep_lines(pypi.deep_view().take(0)));
        }
        while k < pypi.len()
            invariant
                k <= pypi.len(),
                pypi.deep_view().len() == pypi.len(),
                forall|j: int| 0 <= j < pypi.len() ==> pypi.deep_view()[j] == #[trigger] pypi@[j]@,
                out@ == mid + spec_pypi_dep_lines(pypi.deep_view().take(k as int)),
            decreases pypi.len() - k,
        {
            let p = &pypi[k];
            let fragment = env_pip_dep_prefix();
            push_bytes(&mut out, fragment.as_slice());
            push_bytes(&mut out, p.name.as_slice());
            let fragment = double_equals();
            push_bytes(&mut out, fragment.as_slice());
            push_bytes(&mut out, p.version.as_slice());
            push_bytes(&mut out, newline.as_slice());
            proof {
                lemma_pypi_dep_lines_push(
                    pypi.deep_view().take(k as int),
                    pypi.deep_view()[k as int],
                );
                assert(pypi.deep_view().take(k + 1) =~= pypi.deep_view().take(k as int).push(
                    pypi.deep_view()[k as int],
                ));
                assert(out@ =~= mid + spec_pypi_dep_lines(pypi.deep_view().take(k + 1)));
            }
            k += 1;
        }
        proof {
            assert(pypi.deep_view().take(pypi.deep_view().len() as int) =~= pypi.deep_view());
            assert(out@ =~= spec_environment_file(conda.deep_view(), pypi.deep_view()));
        }
    } else {
        proof {
            assert(out@ =~= spec_environment_file(conda.deep_view(), pypi.deep_view()));
        }
    }
    out
}

} // verus!
