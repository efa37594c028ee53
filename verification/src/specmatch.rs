use vstd::prelude::*;

use crate::bytes::{copy_bytes, is_prefix_of, starts_with};
use crate::record::{CondaRecord, CondaRecordModel};
use crate::text::{spec_virtual_package_prefix, virtual_package_prefix};

verus! {

/// Whether a clause parses as a package match specification: what
/// `rattler_conda_types::MatchSpec::from_str` accepts leniently, on clauses
/// without channel or bracket qualifiers.
pub uninterp spec fn spec_clause_parses(clause: Seq<u8>) -> bool;

/// Whether a match specification matches a record with exactly these fields:
/// what `rattler_conda_types::MatchSpec::matches` answers for a record built
/// from them alone, and nothing when the clause or a field does not parse.
pub uninterp spec fn spec_clause_match(
    clause: Seq<u8>,
    name: Seq<u8>,
    version: Seq<u8>,
    build: Seq<u8>,
    subdir: Seq<u8>,
    build_number: u64,
) -> Option<bool>;

/// Whether a match specification's package name part matches a name: what
/// the specification's name matcher answers, and nothing when the clause or
/// the name does not parse.
pub uninterp spec fn spec_clause_name_match(clause: Seq<u8>, name: Seq<u8>) -> Option<bool>;

/// A clause free of channel, namespace and bracket qualifiers: no `[` byte
/// and no `:` byte. Only such clauses are handed to the match-specification
/// parser: a colon starts the parser's channel and namespace forms, and a
/// channel reference is resolved against the process's home and working
/// directories, which would make the answer depend on more than the clause.
pub open spec fn spec_clause_plain(clause: Seq<u8>) -> bool {
    forall|i: int|
        0 <= i < clause.len() ==> (#[trigger] clause[i] != 0x5bu8 && clause[i] != 0x3au8)
}

/// Check a clause for channel, namespace and bracket qualifiers.
pub fn clause_plain(clause: &[u8]) -> (r: bool)
    ensures
        r == spec_clause_plain(clause@),
{
    let mut i: usize = 0;
    while i < clause.len()
        invariant
            i <= clause@.len(),
            forall|j: int|
                0 <= j < i ==> (#[trigger] clause@[j] != 0x5bu8 && clause@[j] != 0x3au8),
        decreases clause.len() - i,
    {
        if clause[i] == 0x5bu8 || clause[i] == 0x3au8 {
            return false;
        }
        i += 1;
    }
    true
}

/// Relies on `rattler_conda_types::MatchSpec::from_str` with lenient
/// strictness: whether the clause parses. On a clause without colons or
/// brackets the parser's channel, namespace and bracket paths — the ones
/// that read the home and working directories — are unreachable, so the
/// answer is a function of the clause alone.
#[verifier::external_body]
fn clause_parses(clause: &[u8]) -> (r: bool)
    requires
        spec_clause_plain(clause@),
    ensures
        r == spec_clause_parses(clause@),
{
    match std::str::from_utf8(clause) {
        Ok(s) => rattler_conda_types::MatchSpec::from_str(
            s,
            rattler_conda_types::ParseStrictness::Lenient,
        ).is_ok(),
        Err(_) => false,
    }
}

/// Relies on `rattler_conda_types::MatchSpec`: the clause parsed leniently
/// and matched against a package record built from exactly the given name,
/// version, build string, subdirectory and build number. On a clause
/// without colons or brackets both the parse and the match read only their
/// arguments: the matcher checks the name, version, build and build number
/// fields, and the record fields it could also read stay at the defaults a
/// colon- and bracket-free clause cannot constrain.
#[verifier::external_body]
fn clause_match(
    clause: &[u8],
    name: &[u8],
    version: &[u8],
    build: &[u8],
    subdir: &[u8],
    build_number: u64,
) -> (r: Option<bool>)
    requires
        spec_clause_plain(clause@),
    ensures
        r == spec_clause_match(clause@, name@, version@, build@, subdir@, build_number),
{
    let spec_str = std::str::from_utf8(clause).ok()?;
    let name_str = std::str::from_utf8(name).ok()?;
    let version_str = std::str::from_utf8(version).ok()?;
    let build_str = std::str::from_utf8(build).ok()?;
    let subdir_str = std::str::from_utf8(subdir).ok()?;
    let ms = rattler_conda_types::MatchSpec::from_str(
        spec_str,
        rattler_conda_types::ParseStrictness::Lenient,
    ).ok()?;
    let pkg_name: rattler_conda_types::PackageName = name_str.parse().ok()?;
    let ver: rattler_conda_types::Version = version_str.parse().ok()?;
    let mut rec = rattler_conda_types::PackageRecord::new(pkg_name, ver, build_str.to_string());
    rec.subdir = subdir_str.to_string();
    rec.build_number = build_number;
    Some(rattler_conda_types::Matches::matches(&ms, &rec))
}

/// Relies on `rattler_conda_types::PackageNameMatcher::matches`: whether the
/// clause's name part matches the given package name. The same colon- and
/// bracket-free guard as above keeps the parse a function of the clause.
#[verifier::external_body]
fn clause_name_match(clause: &[u8], name: &[u8]) -> (r: Option<bool>)
    requires
        spec_clause_plain(clause@),
    ensures
        r == spec_clause_name_match(clause@, name@),
{
    let spec_str = std::str::from_utf8(clause).ok()?;
    let name_str = std::str::from_utf8(name).ok()?;
    let ms = rattler_conda_types::MatchSpec::from_str(
        spec_str,
        rattler_conda_types::ParseStrictness::Lenient,
    ).ok()?;
    let pkg_name: rattler_conda_types::PackageName = name_str.parse().ok()?;
    Some(ms.name.matches(&pkg_name))
}

/// Whether a dependency clause names a virtual package, which the host
/// provides and the working set need not contain.
pub open spec fn spec_is_virtual(clause: Seq<u8>) -> bool {
    is_prefix_of(spec_virtual_package_prefix(), clause)
}

/// Whether the clause matches the record's fields.
pub open spec fn spec_record_match(clause: Seq<u8>, r: CondaRecordModel) -> Option<bool> {
    spec_clause_match(clause, r.name, r.version, r.build, r.subdir, r.build_number)
}

/// Whether some member of the set satisfies the dependency clause.
pub open spec fn spec_dep_satisfied(clause: Seq<u8>, rs: Seq<CondaRecordModel>) -> bool {
    exists|j: int| 0 <= j < rs.len() && spec_record_match(clause, #[trigger] rs[j]) == Some(true)
}

/// The first member whose name the clause's name part matches, if any.
pub open spec fn spec_first_named(clause: Seq<u8>, rs: Seq<CondaRecordModel>, i: int) -> Option<
    int,
>
    decreases rs.len() - i,
{
    if i < 0 || i >= rs.len() {
        None
    } else if spec_clause_name_match(clause, rs[i].name) == Some(true) {
        Some(i)
    } else {
        spec_first_named(clause, rs, i + 1)
    }
}

/// One dependency clause holds of the set: it names a virtual package, or it
/// parses (free of qualifiers) and some member satisfies it.
pub open spec fn spec_dep_ok(clause: Seq<u8>, rs: Seq<CondaRecordModel>) -> bool {
    spec_is_virtual(clause) || (spec_clause_plain(clause) && spec_clause_parses(clause)
        && spec_dep_satisfied(clause, rs))
}

/// One run constraint holds of the set: it parses (free of qualifiers), and
/// if a member carries the constrained name, the first such member satisfies
/// the constraint in full.
pub open spec fn spec_constraint_ok(clause: Seq<u8>, rs: Seq<CondaRecordModel>) -> bool {
    &&& spec_clause_plain(clause)
    &&& spec_clause_parses(clause)
    &&& match spec_first_named(clause, rs, 0) {
        Some(k) => spec_record_match(clause, rs[k]) == Some(true),
        None => true,
    }
}

/// The whole set is valid: every dependency of every member is satisfiable
/// inside the set, and every constraint of every member holds of the set.
pub open spec fn spec_valid_set(rs: Seq<CondaRecordModel>) -> bool {
    &&& forall|i: int, d: int|
        0 <= i < rs.len() && 0 <= d < rs[i].depends.len() ==> spec_dep_ok(
            #[trigger] rs[i].depends[d],
            rs,
        )
    &&& forall|i: int, c: int|
        0 <= i < rs.len() && 0 <= c < rs[i].constrains.len() ==> spec_constraint_ok(
            #[trigger] rs[i].constrains[c],
            rs,
        )
}

/// Why a working set failed validation; each variant names the member and
/// the clause at fault.
#[derive(Debug)]
pub enum ValidationError {
    /// A clause could not be parsed as a match specification, or carries a
    /// channel, namespace or bracket qualifier this validator does not
    /// accept.
    UnparsableClause { package: Vec<u8>, clause: Vec<u8> },
    /// A dependency clause is satisfied by no member of the set.
    DependencyNotFound { package: Vec<u8>, dependency: Vec<u8> },
    /// A constraint clause names a present member that does not satisfy it.
    ConstraintViolated { package: Vec<u8>, constraint: Vec<u8>, violating: Vec<u8> },
}

/// Search the set for a member satisfying a dependency clause.
fn find_dep_match(clause: &[u8], records: &Vec<CondaRecord>) -> (r: bool)
    requires
        spec_clause_plain(clause@),
    ensures
        r == spec_dep_satisfied(clause@, records.deep_view()),
{
    let mut j: usize = 0;
    while j < records.len()
        invariant
            j <= records.len(),
            spec_clause_plain(clause@),
            forall|m: int|
                0 <= m < j ==> spec_record_match(clause@, #[trigger] records.deep_view()[m])
                    != Some(true),
        decreases records.len() - j,
    {
        let rec = &records[j];
        let m = clause_match(
            clause,
            rec.name.as_slice(),
            rec.version.as_slice(),
            rec.build.as_slice(),
            rec.subdir.as_slice(),
            rec.build_number,
        );
        proof {
            assert(records.deep_view()[j as int] == records@[j as int]@);
        }
        match m {
            Some(true) => {
                return true;
            },
            _ => {},
        }
        j += 1;
    }
    false
}

/// Search the set for the first member whose name the clause names.
fn find_named(clause: &[u8], records: &Vec<CondaRecord>) -> (r: Option<usize>)
    requires
        spec_clause_plain(clause@),
    ensures
        match r {
            Some(k) => spec_first_named(clause@, records.deep_view(), 0) == Some(k as int) && k
                < records.len(),
            None => spec_first_named(clause@, records.deep_view(), 0) is None,
        },
{
    let mut j: usize = 0;
    while j < records.len()
        invariant
            j <= records.len(),
            spec_clause_plain(clause@),
            spec_first_named(clause@, records.deep_view(), 0) == spec_first_named(
                clause@,
                records.deep_view(),
                j as int,
            ),
        decreases records.len() - j,
    {
        let rec = &records[j];
        let m = clause_name_match(clause, rec.name.as_slice());
        proof {
            assert(records.deep_view()[j as int] == records@[j as int]@);
        }
        match m {
            Some(true) => {
                return Some(j);
            },
            _ => {},
        }
        j += 1;
    }
    None
}

/// Validate a working set after injection: every `depends` clause of every
/// member must be satisfiable by some member, and every `constrains` clause
/// whose named package is present must be satisfied by that member. Mirrors
/// the environment validation the lock's producer performed, so that an
/// injected package cannot leave the set unsolvable unnoticed.
pub fn validate_packages(records: &Vec<CondaRecord>) -> (r: Result<(), ValidationError>)
    ensures
        r is Ok <==> spec_valid_set(records.deep_view()),
        r matches Err(ValidationError::DependencyNotFound { package, dependency }) ==> (exists|
            i: int,
            d: int,
        |
            0 <= i < records.deep_view().len() && 0 <= d < records.deep_view()[i].depends.len()
                && records.deep_view()[i].name == package@ && #[trigger] records.deep_view()[i].depends[d]
                == dependency@) && !spec_dep_satisfied(dependency@, records.deep_view()),
        r matches Err(ValidationError::ConstraintViolated { package, constraint, violating })
            ==> (exists|i: int, c: int|
            0 <= i < records.deep_view().len() && 0 <= c < records.deep_view()[i].constrains.len()
                && records.deep_view()[i].name == package@
                && #[trigger] records.deep_view()[i].constrains[c] == constraint@) && (exists|
            k: int,
        |
            spec_first_named(constraint@, records.deep_view(), 0) == Some(k)
                && records.deep_view()[k].name == violating@ && spec_record_match(
                constraint@,
                records.deep_view()[k],
            ) != Some(true)),
{
    let ghost rs = records.deep_view();
    let mut i: usize = 0;
    while i < records.len()
        invariant
            i <= records.len(),
            rs == records.deep_view(),
            forall|m: int, d: int|
                0 <= m < i && 0 <= d < rs[m].depends.len() ==> spec_dep_ok(
                    #[trigger] rs[m].depends[d],
                    rs,
                ),
            forall|m: int, c: int|
                0 <= m < i && 0 <= c < rs[m].constrains.len() ==> spec_constraint_ok(
                    #[trigger] rs[m].constrains[c],
                    rs,
                ),
        decreases records.len() - i,
    {
        proof {
            assert(rs[i as int] == records@[i as int]@);
        }
        let mut d: usize = 0;
        while d < records[i].depends.len()
            invariant
                i < records.len(),
                rs == records.deep_view(),
                rs[i as int] == records@[i as int]@,
                d <= records@[i as int].depends.len(),
                forall|n: int|
                    0 <= n < d ==> spec_dep_ok(#[trigger] rs[i as int].depends[n], rs),
            decreases records@[i as int].depends.len() - d,
        {
            let clause = &records[i].depends[d];
            proof {
                assert(rs[i as int].depends[d as int] == records@[i as int].depends@[d as int]@);
            }
            let vp = virtual_package_prefix();
            if !starts_with(clause.as_slice(), vp.as_slice()) {
                if !clause_plain(clause.as_slice()) || !clause_parses(clause.as_slice()) {
                    return Err(
                        ValidationError::UnparsableClause {
                            package: copy_bytes(records[i].name.as_slice()),
                            clause: copy_bytes(clause.as_slice()),
                        },
                    );
                }
                if !find_dep_match(clause.as_slice(), records) {
                    return Err(
                        ValidationError::DependencyNotFound {
                            package: copy_bytes(records[i].name.as_slice()),
                            dependency: copy_bytes(clause.as_slice()),
                        },
                    );
                }
            }
            d += 1;
        }
        let mut c: usize = 0;
        while c < records[i].constrains.len()
            invariant
                i < records.len(),
                rs == records.deep_view(),
                rs[i as int] == records@[i as int]@,
                c <= records@[i as int].constrains.len(),
                forall|n: int|
                    0 <= n < c ==> spec_constraint_ok(#[trigger] rs[i as int].constrains[n], rs),
            decreases records@[i as int].constrains.len() - c,
        {
            let clause = &records[i].constrains[c];
            proof {
                assert(rs[i as int].constrains[c as int] == records@[i as int].constrains@[c as int]@);
            }
            if !clause_plain(clause.as_slice()) || !clause_parses(clause.as_slice()) {
                return Err(
                    ValidationError::UnparsableClause {
                        package: copy_bytes(records[i].name.as_slice()),
                        clause: copy_bytes(clause.as_slice()),
                    },
                );
            }
            match find_named(clause.as_slice(), records) {
                Some(k) => {
                    let rec = &records[k];
                    let m = clause_match(
                        clause.as_slice(),
                        rec.name.as_slice(),
                        rec.version.as_slice(),
                        rec.build.as_slice(),
                        rec.subdir.as_slice(),
                        rec.build_number,
                    );
                    proof {
                        assert(rs[k as int] == records@[k as int]@);
                    }
                    match m {
                        Some(true) => {},
                        _ => {
                            return Err(
                                ValidationError::ConstraintViolated {
                                    package: copy_bytes(records[i].name.as_slice()),
                                    constraint: copy_bytes(clause.as_slice()),
                                    violating: copy_bytes(rec.name.as_slice()),
                                },
                            );
                        },
                    }
                },
                None => {},
            }
            c += 1;
        }
        i += 1;
    }
    Ok(())
}

/// Validate a working set exactly when packages were injected after the
/// solve: the lock itself is trusted as pre-validated, so with nothing
/// injected the pass is skipped; with any injection the whole set is
/// re-checked.
pub fn validate_after_injection(records: &Vec<CondaRecord>, injected_count: usize) -> (r: Result<
    (),
    ValidationError,
>)
    ensures
        r is Ok <==> injected_count == 0 || spec_valid_set(records.deep_view()),
        injected_count == 0 ==> r is Ok,
        r matches Err(ValidationError::DependencyNotFound { package, dependency }) ==> (exists|
            i: int,
            d: int,
        |
            0 <= i < records.deep_view().len() && 0 <= d < records.deep_view()[i].depends.len()
                && records.deep_view()[i].name == package@ && #[trigger] records.deep_view()[i].depends[d]
                == dependency@) && !spec_dep_satisfied(dependency@, records.deep_view()),
{
    if injected_count == 0 {
        return Ok(());
    }
    validate_packages(records)
}

/// A dependency clause of a member that no member of the set satisfies makes
/// the whole set invalid: validation cannot pass once an injected package
/// demands something the set does not provide.
pub proof fn lemma_unsatisfied_dependency_invalidates(
    rs: Seq<CondaRecordModel>,
    i: int,
    d: int,
)
    requires
        0 <= i < rs.len(),
        0 <= d < rs[i].depends.len(),
        !spec_is_virtual(rs[i].depends[d]),
        !spec_dep_satisfied(rs[i].depends[d], rs),
    ensures
        !spec_valid_set(rs),
{
    assert(!spec_dep_ok(rs[i].depends[d], rs));
}

} // verus!
