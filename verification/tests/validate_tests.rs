use pixi_pack::lockmodel::{
    classify_packages, resolve_environment, split_wheel_name, ClassifyError, LockEnvironment,
    LockError, LockPlatform, LockedEntry,
};
use pixi_pack::record::{check_working_set, CondaPackage, CondaRecord, Location, PypiPackage};
use pixi_pack::specmatch::{validate_after_injection, validate_packages, ValidationError};

fn record(name: &[u8], version: &[u8], build: &[u8]) -> CondaRecord {
    CondaRecord {
        name: name.to_vec(),
        version: version.to_vec(),
        build: build.to_vec(),
        build_number: 0,
        subdir: b"linux-64".to_vec(),
        depends: Vec::new(),
        constrains: Vec::new(),
        md5: None,
        sha256: None,
        size: None,
        timestamp: None,
    }
}

#[test]
fn satisfied_dependencies_validate() {
    let mut python = record(b"python", b"3.12.3", b"h2628c8c_0_cpython");
    python.depends = vec![b"libzlib >=1.2.13,<2.0.0a0".to_vec()];
    let libzlib = record(b"libzlib", b"1.2.13", b"h4ab18f5_6");
    assert!(validate_packages(&vec![python, libzlib]).is_ok());
}

#[test]
fn missing_dependency_names_both_sides() {
    let mut injected = record(b"my-webserver", b"0.1.0", b"pyh4616a5c_0");
    injected.depends = vec![b"nonexistent-pkg >=1".to_vec()];
    let other = record(b"python", b"3.12.3", b"h2628c8c_0_cpython");
    let err = validate_packages(&vec![injected, other]).unwrap_err();
    match err {
        ValidationError::DependencyNotFound { package, dependency } => {
            assert_eq!(package, b"my-webserver".to_vec());
            assert_eq!(dependency, b"nonexistent-pkg >=1".to_vec());
        }
        _ => panic!("expected a missing dependency"),
    }
}

#[test]
fn unsatisfied_version_bound_fails() {
    let mut consumer = record(b"consumer", b"1.0", b"0");
    consumer.depends = vec![b"libzlib >=2".to_vec()];
    let libzlib = record(b"libzlib", b"1.2.13", b"h4ab18f5_6");
    let err = validate_packages(&vec![consumer, libzlib]).unwrap_err();
    assert!(matches!(err, ValidationError::DependencyNotFound { .. }));
}

#[test]
fn satisfied_constraint_validates() {
    let mut constrainer = record(b"constrainer", b"1.0", b"0");
    constrainer.constrains = vec![b"libzlib <2".to_vec()];
    let libzlib = record(b"libzlib", b"1.2.13", b"h4ab18f5_6");
    assert!(validate_packages(&vec![constrainer, libzlib]).is_ok());
}

#[test]
fn constraint_on_absent_package_validates() {
    let mut constrainer = record(b"constrainer", b"1.0", b"0");
    constrainer.constrains = vec![b"somethingelse >=9".to_vec()];
    assert!(validate_packages(&vec![constrainer]).is_ok());
}

#[test]
fn violated_constraint_names_the_violator() {
    let mut constrainer = record(b"constrainer", b"1.0", b"0");
    constrainer.constrains = vec![b"libzlib >=2".to_vec()];
    let libzlib = record(b"libzlib", b"1.2.13", b"h4ab18f5_6");
    let err = validate_packages(&vec![constrainer, libzlib]).unwrap_err();
    match err {
        ValidationError::ConstraintViolated { package, constraint, violating } => {
            assert_eq!(package, b"constrainer".to_vec());
            assert_eq!(constraint, b"libzlib >=2".to_vec());
            assert_eq!(violating, b"libzlib".to_vec());
        }
        _ => panic!("expected a violated constraint"),
    }
}

#[test]
fn virtual_packages_need_no_member() {
    let mut needs_unix = record(b"needs-unix", b"1.0", b"0");
    needs_unix.depends = vec![b"__unix".to_vec()];
    assert!(validate_packages(&vec![needs_unix]).is_ok());
}

#[test]
fn channel_qualified_clause_is_refused() {
    let mut odd = record(b"odd", b"1.0", b"0");
    odd.depends = vec![b"conda-forge::python >=3".to_vec()];
    let err = validate_packages(&vec![odd]).unwrap_err();
    assert!(matches!(err, ValidationError::UnparsableClause { .. }));
}

fn conda_entry(name: &[u8]) -> LockedEntry {
    LockedEntry::CondaBinary(CondaPackage {
        file_name: b"pkg-1.0-0.conda".to_vec(),
        location: Location::Url(b"https://example.invalid/pkg-1.0-0.conda".to_vec()),
        record: record(name, b"1.0", b"0"),
    })
}

fn pypi_entry(name: &[u8], file_name: &[u8]) -> LockedEntry {
    LockedEntry::Pypi(PypiPackage {
        name: name.to_vec(),
        version: b"1.0".to_vec(),
        file_name: file_name.to_vec(),
        location: Location::Url(b"https://example.invalid/f".to_vec()),
    })
}

#[test]
fn classify_splits_conda_and_wheels() {
    let entries = vec![
        conda_entry(b"python"),
        pypi_entry(b"requests", b"requests-1.0-py3-none-any.whl"),
    ];
    let c = classify_packages(&entries, false).unwrap();
    assert_eq!(c.conda.len(), 1);
    assert_eq!(c.pypi.len(), 1);
}

#[test]
fn classify_rejects_conda_source_packages() {
    let entries = vec![LockedEntry::CondaSource(b"built-from-source".to_vec())];
    let err = classify_packages(&entries, false).unwrap_err();
    match err {
        ClassifyError::CondaSourceNotSupported { name } => {
            assert_eq!(name, b"built-from-source".to_vec());
        }
        _ => panic!("expected the conda source error"),
    }
}

#[test]
fn classify_rejects_non_wheel_without_the_flag() {
    let entries = vec![pypi_entry(b"pysdl2", b"pysdl2-1.0.tar.gz")];
    let err = classify_packages(&entries, false).unwrap_err();
    match err {
        ClassifyError::NonWheelPackage { name } => assert_eq!(name, b"pysdl2".to_vec()),
        _ => panic!("expected the non-wheel error"),
    }
}

#[test]
fn classify_skips_non_wheel_with_the_flag() {
    let entries = vec![
        pypi_entry(b"pysdl2", b"pysdl2-1.0.tar.gz"),
        pypi_entry(b"requests", b"requests-1.0-py3-none-any.whl"),
    ];
    let c = classify_packages(&entries, true).unwrap();
    assert_eq!(c.pypi.len(), 1);
    assert_eq!(c.pypi[0].name, b"requests".to_vec());
}

fn sample_lock() -> Vec<LockEnvironment> {
    vec![LockEnvironment {
        name: b"default".to_vec(),
        platforms: vec![LockPlatform {
            platform: b"linux-64".to_vec(),
            entries: vec![conda_entry(b"python")],
        }],
    }]
}

#[test]
fn resolve_finds_environment_and_platform() {
    let lock = sample_lock();
    let (i, j) = resolve_environment(&lock, b"default", b"linux-64").unwrap();
    assert_eq!((i, j), (0, 0));
}

#[test]
fn resolve_distinguishes_missing_environment() {
    let lock = sample_lock();
    let err = resolve_environment(&lock, b"prod", b"linux-64").unwrap_err();
    assert!(matches!(err, LockError::EnvironmentNotFound { .. }));
}

#[test]
fn resolve_distinguishes_missing_platform() {
    let lock = sample_lock();
    let err = resolve_environment(&lock, b"default", b"osx-arm64").unwrap_err();
    match err {
        LockError::PlatformNotFound { platform } => assert_eq!(platform, b"osx-arm64".to_vec()),
        _ => panic!("expected the platform error"),
    }
}

#[test]
fn wheel_names_split_into_name_and_version() {
    let (name, version) =
        split_wheel_name(b"my_webserver-0.1.0-py3-none-any.whl").unwrap();
    assert_eq!(name, b"my_webserver".to_vec());
    assert_eq!(version, b"0.1.0".to_vec());
    assert!(split_wheel_name(b"not-a-wheel.tar.gz").is_none());
    assert!(split_wheel_name(b"noversion.whl").is_none());
    assert!(split_wheel_name(b"-0.1.0-py3-none-any.whl").is_none());
}

#[test]
fn colon_qualified_clause_is_refused() {
    // a single-colon channel form reaches for the process's directories;
    // the validator refuses it rather than asking the environment
    let mut odd = record(b"odd", b"1.0", b"0");
    odd.depends = vec![b"~/c:ns:pkg".to_vec()];
    let err = validate_packages(&vec![odd]).unwrap_err();
    assert!(matches!(err, ValidationError::UnparsableClause { .. }));
}

#[test]
fn validation_runs_only_after_injection() {
    let mut broken = record(b"broken", b"1.0", b"0");
    broken.depends = vec![b"nonexistent-pkg >=1".to_vec()];
    let mut also_broken = record(b"broken", b"1.0", b"0");
    also_broken.depends = vec![b"nonexistent-pkg >=1".to_vec()];
    // nothing injected: the lock is trusted, the pass is skipped
    assert!(validate_after_injection(&vec![broken], 0).is_ok());
    // one injection: the whole set is re-checked
    assert!(validate_after_injection(&vec![also_broken], 1).is_err());
}

#[test]
fn duplicate_identities_fail_the_working_set_check() {
    let good = vec![
        conda_package(b"python", b"pkg-a-1.0-0.conda"),
        conda_package(b"libzlib", b"pkg-b-1.0-0.conda"),
    ];
    assert!(check_working_set(&good));
    let twice = vec![
        conda_package(b"python", b"pkg-a-1.0-0.conda"),
        conda_package(b"python", b"pkg-b-1.0-0.conda"),
    ];
    assert!(!check_working_set(&twice));
    let same_slot = vec![
        conda_package(b"python", b"pkg-a-1.0-0.conda"),
        conda_package(b"libzlib", b"pkg-a-1.0-0.conda"),
    ];
    assert!(!check_working_set(&same_slot));
}

fn conda_package(name: &[u8], file_name: &[u8]) -> CondaPackage {
    CondaPackage {
        file_name: file_name.to_vec(),
        location: Location::Url(b"https://example.invalid/p.conda".to_vec()),
        record: record(name, b"1.0", b"0"),
    }
}
