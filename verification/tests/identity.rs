use toks_core::process::identity::{
    authorized, cgroup_matches, coordinator_arguments_match, coordinator_build, coordinator_environment,
    coordinator_process_matches, decimal_bytes, entries_of, environment_matches, installed_build_id,
    is_single_component, parse_environment, worker_arguments_match, worker_process_matches,
    InstalledBuildError,
};
use toks_core::process::layout::highest_generation;
use toks_core::GenerationId;

fn pairs(values: &[(&str, &str)]) -> Vec<(Vec<u8>, Vec<u8>)> {
    values
        .iter()
        .map(|(name, value)| (name.as_bytes().to_vec(), value.as_bytes().to_vec()))
        .collect()
}

fn contract(values: &[(&str, Option<&str>)]) -> Vec<(String, Option<String>)> {
    values
        .iter()
        .map(|(name, value)| (name.to_string(), value.map(str::to_owned)))
        .collect()
}

const WORKER_ENVIRONMENT: &[u8] =
    b"HOME=/home/router\0PATH=/bin\0SSL_CERT_FILE=/etc/ssl/cert.pem\0TOKS_CODEX_BIN=/opt/codex\0";

fn worker_contract() -> Vec<(String, Option<String>)> {
    contract(&[
        ("PATH", Some("/bin")),
        ("HOME", Some("/home/router")),
        ("SSL_CERT_FILE", Some("/etc/ssl/cert.pem")),
        ("TOKS_CODEX_BIN", Some("/opt/codex")),
        ("LD_PRELOAD", None),
    ])
}

#[test]
fn baked_identity_does_not_depend_on_the_process_environment() {
    let from_installer = installed_build_id(Some("baked-at-install".into())).unwrap();
    let from_manager = installed_build_id(Some("baked-at-install".into())).unwrap();

    assert_eq!(from_installer, from_manager);
    assert_eq!(from_manager.as_str(), "baked-at-install");
}

#[test]
fn missing_or_blank_baked_identity_is_rejected() {
    assert_eq!(installed_build_id(None).err(), Some(InstalledBuildError::Missing));
    assert_eq!(installed_build_id(Some("  ".into())).err(), Some(InstalledBuildError::Invalid));
}

#[test]
fn process_records_split_at_nul_bytes() {
    let entries = entries_of(b"router\0\0worker\x0019\0");
    assert_eq!(entries, vec![b"router".to_vec(), b"worker".to_vec(), b"19".to_vec()]);
    assert!(entries_of(b"").is_empty());
    assert_eq!(decimal_bytes(0), b"0".to_vec());
    assert_eq!(decimal_bytes(19), b"19".to_vec());
    assert_eq!(decimal_bytes(u64::MAX), u64::MAX.to_string().into_bytes());
}

#[test]
fn worker_arguments_name_the_exact_generation() {
    let generation = GenerationId::from_raw(19);
    assert!(worker_arguments_match(b"router\0worker\x0019\0", generation));
    assert!(!worker_arguments_match(b"router\0worker\x0020\0", generation));
    assert!(!worker_arguments_match(b"router\0worker\x00019\0", generation));
    assert!(!worker_arguments_match(b"router\0worker\x0019\0extra\0", generation));
    assert!(coordinator_arguments_match(b"router\0host\0"));
    assert!(!coordinator_arguments_match(b"router\0worker\0"));
}

#[test]
fn environments_must_match_exactly() {
    let expected = pairs(&[
        ("PATH", "/bin"),
        ("HOME", "/home/router"),
        ("SSL_CERT_FILE", "/etc/ssl/cert.pem"),
        ("TOKS_CODEX_BIN", "/opt/codex"),
    ]);
    assert!(environment_matches(WORKER_ENVIRONMENT, &expected));
    let injected = [WORKER_ENVIRONMENT, b"LD_PRELOAD=/tmp/injected.so\0"].concat();
    assert!(!environment_matches(&injected, &expected));
    assert!(!environment_matches(b"PATH=/bin\0", &expected));
    assert!(!environment_matches(b"PATH=/bin\0PATH=/bin\0", &pairs(&[("PATH", "/bin")])));
    assert!(!environment_matches(b"PATH\0", &pairs(&[("PATH", "")])));
    assert!(!environment_matches(b"PATH=\xff\0", &pairs(&[("PATH", "x")])));
    assert!(environment_matches(b"A=1=2\0", &pairs(&[("A", "0"), ("A", "1=2")])));
    assert_eq!(parse_environment(b"A=1\0B=\0"), Some(pairs(&[("A", "1"), ("B", "")])));
    assert_eq!(parse_environment(b"A=1\0A=2\0"), None);
}

#[test]
fn control_groups_name_the_unit_as_a_path_component() {
    let unit = "toks-router-worker@19.service";
    assert!(cgroup_matches("0::/user.slice/app.slice/toks-router-worker@19.service\n", unit));
    assert!(cgroup_matches("1:name=x:/a\r\n0::/b/toks-router-worker@19.service\r\n", unit));
    assert!(!cgroup_matches("0::/user.slice/app.slice/toks-router-worker@20.service\n", unit));
    assert!(!cgroup_matches("toks-router-worker@19.service\n", unit));
    assert!(!cgroup_matches("0:/toks-router-worker@19.service\n", unit));
    assert!(!cgroup_matches("0::/x/toks-router-worker@19.service.d\n", unit));
    assert!(!cgroup_matches("", unit));
}

#[test]
fn registration_checks_executable_arguments_environment_and_unit() {
    let generation = GenerationId::from_raw(19);
    let unit = "toks-router-worker@19.service";
    let cgroup = "0::/user.slice/app.slice/toks-router-worker@19.service\n";
    let contract = worker_contract();
    let check = |pid: i32, executable: bool, cmdline: &[u8], environ: &[u8], cgroups: Option<&str>| {
        worker_process_matches(generation, pid, executable, cmdline, environ, &contract, cgroups, unit)
    };
    assert!(check(701, true, b"router\0worker\x0019\0", WORKER_ENVIRONMENT, Some(cgroup)));
    assert!(!check(701, true, b"router\0worker\x0020\0", WORKER_ENVIRONMENT, Some(cgroup)));
    let injected = [WORKER_ENVIRONMENT, b"LD_PRELOAD=/tmp/injected.so\0"].concat();
    assert!(!check(701, true, b"router\0worker\x0019\0", &injected, Some(cgroup)));
    assert!(!check(
        701,
        true,
        b"router\0worker\x0019\0",
        WORKER_ENVIRONMENT,
        Some("0::/user.slice/app.slice/toks-router-worker@20.service\n")
    ));
    assert!(!check(701, false, b"router\0worker\x0019\0", WORKER_ENVIRONMENT, Some(cgroup)));
    assert!(!check(-1, true, b"router\0worker\x0019\0", WORKER_ENVIRONMENT, Some(cgroup)));
    assert!(!check(701, true, b"router\0worker\x0019\0", WORKER_ENVIRONMENT, None));
}

#[test]
fn coordinators_are_checked_against_their_installed_build() {
    let environ =
        b"HOME=/home/router\0PATH=/bin\0TOKS_ROUTER_BUILD_ID=build-7\0LISTEN_PID=701\0LISTEN_FDS=1\0LISTEN_FDNAMES=router\0";
    let build = coordinator_build(environ).unwrap();
    assert_eq!(build.as_str(), "build-7");
    let expected = coordinator_environment(
        &contract(&[
            ("HOME", Some("/home/router")),
            ("PATH", Some("/bin")),
            ("TOKS_ROUTER_BUILD_ID", Some("build-7")),
            ("LISTEN_PID", Some("1")),
        ]),
        701,
    );
    let cgroup = "0::/user.slice/app.slice/toks-router.service\n";
    assert!(coordinator_process_matches(701, true, b"router\0host\0", environ, &expected, Some(cgroup)));
    let other_pid = coordinator_environment(&contract(&[("HOME", Some("/home/router"))]), 702);
    assert!(!coordinator_process_matches(701, true, b"router\0host\0", environ, &other_pid, Some(cgroup)));
    assert!(!coordinator_process_matches(701, true, b"router\0worker\0", environ, &expected, Some(cgroup)));
    assert!(coordinator_build(b"TOKS_ROUTER_BUILD_ID=../escape\0").is_none());
    assert!(coordinator_build(b"TOKS_ROUTER_BUILD_ID=a/b\0").is_none());
    assert!(coordinator_build(b"TOKS_ROUTER_BUILD_ID=  \0").is_none());
    assert!(coordinator_build(b"HOME=/home\0").is_none());
    assert_eq!(coordinator_build(b"TOKS_ROUTER_BUILD_ID=build-8/\0").unwrap().as_str(), "build-8/");
}

#[test]
fn build_identities_are_one_plain_path_component() {
    assert!(is_single_component("build-7"));
    assert!(is_single_component("build-7/"));
    assert!(is_single_component("build-7/./"));
    assert!(!is_single_component(""));
    assert!(!is_single_component("."));
    assert!(!is_single_component(".."));
    assert!(!is_single_component("/build"));
    assert!(!is_single_component("./build"));
    assert!(!is_single_component("a/b"));
    assert!(!is_single_component("a/.."));
}

#[test]
fn a_coordinator_peer_needs_a_stable_main_pid() {
    assert!(authorized(1000, 701, 1000, Some(701), Some(701), true));
    assert!(!authorized(1001, 701, 1000, Some(701), Some(701), true));
    assert!(!authorized(1000, 701, 1000, Some(702), Some(702), true));
    assert!(!authorized(1000, 701, 1000, Some(701), Some(702), true));
    assert!(!authorized(1000, 701, 1000, None, None, true));
    assert!(!authorized(1000, 701, 1000, Some(701), Some(701), false));
}

#[test]
fn new_generation_ids_follow_the_highest_numbered_directory() {
    let names: Vec<String> = ["3", "notes", "12", "+4", "007", "-1", "18446744073709551616"]
        .iter()
        .map(|name| name.to_string())
        .collect();
    assert_eq!(highest_generation(&names), 12);
    assert_eq!(highest_generation(&[]), 0);
    assert_eq!(highest_generation(&["x".to_string()]), 0);
}
