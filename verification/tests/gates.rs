use zpr_dev::toml_tree::TomlValue;
use zpr_dev::build::gates::{
    extract_pins, gate_compiler_version, gate_freshness, gate_lock_dual_versions,
    gate_pin_agreement, package_version, policy_min_compiler, Finding, LockSource, ManifestSource,
    PinOccurrence, RefKind, Severity, Version3,
};
use zpr_dev::build::PinDrift;

const CORE_ROOT: &str = r#"# zpr-core
[workspace]
resolver = "3"
members = ["adapter/admin-api", "adapter/ph", "adapter/cli", "libnode2"]

[workspace.package]
version = "0.7.0"
edition = "2024"
license = "Apache-2.0"

[workspace.dependencies]
aws-lc-rs = "1.17"
capnp = { version = "0.25.0", features = ["sync_reader"] }
capnp-futures = "0.25"
capnp-rpc = "0.25.0"
cbpf-rs = { git = "https://github.com/mkolehmainen/zl-zpr-utils.git", tag = "cbpf-rs-v0.2.0" }
clap = { version = "4.5.23", features = ["derive"] }
clap_complete = "4.5.57"
internet-checksum = "0.2.1"
ipnet = "2.11.0"
pcap = "2.0.0"
strum = { version = "0.27.1", features = ["derive"] }
thiserror = "2.0.18"
tokio = { version = "1.48.0", features = ["full"] }
tokio-util = { version = "0.7.17", features = ["rt", "compat"] }
tracing = "0.1.41"
tracing-subscriber = "0.3.20"
x509-cert = "0.3.0"
zpr = { git = "https://github.com/mkolehmainen/zl-zpr-common.git", tag = "v0.27.0", features = ["vsapi", "policy"] }
zpr-ext = { git = "https://github.com/mkolehmainen/zl-zpr-utils.git", tag = "zpr-ext-v0.5.3" }
zpr-utils = { git = "https://github.com/mkolehmainen/zl-zpr-utils.git", tag = "zpr-utils-v0.2.2" }

[profile.release]
panic = "abort"

[patch.crates-io]
capnp = { git = "https://github.com/emilazy/capnproto-rust.git", rev = "cfbcb9b" }
capnp-futures = { git = "https://github.com/emilazy/capnproto-rust.git", rev = "cfbcb9b" }
capnp-rpc = { git = "https://github.com/emilazy/capnproto-rust.git", rev = "cfbcb9b" }
capnpc = { git = "https://github.com/emilazy/capnproto-rust.git", rev = "cfbcb9b" }
"#;

const PH: &str = r#"[package]
name = "ph"
version.workspace = true
edition.workspace = true
license.workspace = true

[dependencies]
admin-api = { path = "../admin-api" }
aws-lc-rs = { workspace = true }
arrayref = { version = "0.3.7" }
base64 = "0.22.1"
blake3 = { version = "1.5.4" }
bytes = { version = "1.11.1" }
capnp = { workspace = true }
capnp-futures = { workspace = true, optional = true }
capnp-rpc = { workspace = true }
cbpf-rs = { workspace = true }
chrono = "0.4.39"
clap = { workspace = true, features = ["env"] }
clap_complete = { workspace = true, optional = true }
cslab = { git = "https://github.com/mkolehmainen/zl-zpr-utils.git", tag = "cslab-v0.1.2" }
curve25519-dalek = "4.1.3"
dashmap = { version = "6.0.1" }
ed25519-dalek = { version = "3.0.0", features = ["pkcs8", "alloc"] }
enum-map = { version = "2.7.3" }
enumset = "1.1.5"
hdrhistogram = { version = "7.5.4" }
internet-checksum = { workspace = true }
ipnet = { workspace = true }
itertools = "0.14"
libc = { version = "0.2.183" }
libnode = { package = "libnode2", path = "../../libnode2" }
nix = { version = "0.29.0", features = ["fs", "ioctl", "net", "poll", "uio", "user"] }
open-enum = { version = "0.5.1" }
pkcs8 = "0.11"
rcu = { git = "https://github.com/mkolehmainen/zl-zpr-utils.git", tag = "rcu-v0.1.2", default-features = false }
replace_with = "0.1.8"
reqwest = { version = "0.13.1", features = ["json", "query"] }
serde = { version = "1.0.214", features = ["derive"] }
serde_json = "1.0.140"
sha2 = "0.10"
snow = "0.10.0"
socket2 = { version = "0.5.7", features = ["all"] }
strum = { workspace = true }
thiserror = { workspace = true }
tokio = { workspace = true }
tokio-util = { workspace = true }
toml = "0.9.11"
tracing = { workspace = true }
tracing-subscriber = { workspace = true }
url = "2.5.4"
x25519-dalek = { version = "3.0.0", features = ["getrandom", "reusable_secrets"] }
x509-cert = { workspace = true, features = ["builder"] }
zerocopy = { version = "0.8.3", features = ["derive", "std"] }
zpr = { workspace = true }
zpr-ext = { workspace = true, features = ["bytes", "tokio", "socket2", "zerocopy"] }
zpr-utils = { workspace = true }

[target.'cfg(target_os = "linux")'.dependencies]
io-uring = { version = "0.7.4", optional = true }
tokio-tun = { version = "0.11.5" }

[dev-dependencies]
futures = "0.3.31"
serial_test = "4.0"
tokio = { workspace = true, features = ["test-util"] }

[features]
default = ["io-uring", "rcu-crossbeam-epoch"]
ci = []
enable-security-testing = []
rcu-aarc = ["rcu/rcu-aarc", "zpr/rcu-aarc"]
rcu-arc-swap = ["rcu/rcu-arc-swap", "zpr/rcu-arc-swap"]
rcu-crossbeam-epoch = ["rcu/rcu-crossbeam-epoch", "zpr/rcu-crossbeam-epoch"]
rcu-mutex-arc = ["rcu/rcu-mutex-arc", "zpr/rcu-mutex-arc"]
rcu-rwlock = ["rcu/rcu-rwlock", "zpr/rcu-rwlock"]
complete = ["clap_complete"]
capnp-ancillary = ["dep:capnp-futures", "capnp-futures/tokio-unix-fd-stream"]

[[bin]]
name = "ph"
path = "src/main.rs"

[[bin]]
name = "generate_completions"
path = "src/generate_completions.rs"
required-features = ["complete"]
"#;

const VS_ROOT: &str = r#"# zpr-visaservice
[workspace]
resolver = "3"
members = ["vs", "libeval", "zpt", "vs-admin", "admin-api-types"]

[workspace.package]
version = "0.19.0"
edition = "2024"
license = "Apache-2.0"

[workspace.dependencies]
base64 = "0.22.1"
bytes = "1.10.1"
capnp = { version = "0.25.0", features = ["sync_reader"] }
capnp-rpc = "0.25.0"
chrono = "0.4.42"
clap = { version = "4.5.50", features = ["derive"] }
colored = "3.0.0"
flate2 = "1.0.34"
openssl = "0.10.80"
rand = "0.9.2"
reqwest = "0.13.1"
serde = { version = "1.0.228", features = ["derive"] }
serde_json = "1.0.149"
serde_with = { version = "3.18.0", default-features = false, features = ["std", "macros", "base64", "chrono"] }
thiserror = "2.0.18"
tracing = "0.1.41"
tracing-subscriber = "0.3.20"
zpr = { git = "https://github.com/mkolehmainen/zl-zpr-common.git", tag = "v0.27.0", features = ["vsapi", "policy"]}
"#;

const COMPILER: &str = r#"[package]
name = "zplc"
version = "0.18.0"
edition = "2024"

[dependencies]
base64 = "0.22.1"
bytes = "1.10.1"
capnp = "0.25.0"
chrono = "0.4.39"
clap = { version = "4.5.23", features = ["derive"] }
colored = "3.0.0"
hex = "0.4.3"
nix = { version = "0.30.1", features = ["hostname"] }
openssl = "0.10.70"
prost = "0.13.4"
ring = "0.17.8"
serde = { version = "1.0.228", features = ["derive"] }
serde_json = "1.0.150"
thiserror = "2.0.8"
toml = "0.9.7"
zpr = { git = "https://github.com/mkolehmainen/zl-zpr-common.git", tag = "v0.26.0", features = ["policy"] }
"#;

const COMMON: &str = r#"[package]
name = "zpr"
version = "0.25.1"
edition = "2024"
license = "Apache-2.0"

[dependencies]
base64 = { version = "0.22.1", optional = true }
bytes = { version = "1.10.1", optional = true }
capnp = { version = "0.25", optional = true }
colored = { version = "3.0.0", optional = true}
criterion = { version = "0.8.2 "}
flate2 = { version = "1.0.34", optional = true}
open-enum = { version = "0.5" }
serde = { version = "1.0.228", features = ["derive"], optional = true }
zerocopy = { version = "0.8", features = ["derive"] }
thiserror = "1.0.65"
url = "2.5.4"
range-set-blaze = { version = "0.5.0" }
ip_network_table-deps-treebitmap = { version = "0.5.0" }
rcu = { git = "https://github.com/mkolehmainen/zl-zpr-utils.git", tag = "zpr-utils-v0.1.0", default-features = false, optional = true }
rand = "0.10.1"
x25519-dalek = { version = "3.0.0", optional = true }

[build-dependencies]
capnpc = "0.25"

[features]
rcu-aarc = ["rcu/rcu-aarc", "rcu"]
rcu-arc-swap = ["rcu/rcu-arc-swap", "rcu"]
rcu-crossbeam-epoch = ["rcu/rcu-crossbeam-epoch", "rcu"]
rcu-mutex-arc = ["rcu/rcu-mutex-arc", "rcu"]
rcu-rwlock = ["rcu/rcu-rwlock", "rcu"]
policy = ["capnp", "bytes", "base64", "colored", "flate2", "serde"]
vsapi = ["capnp", "x25519-dalek"]
all = ["policy", "vsapi"]

[[bench]]
name = "ft_lookup_benchmark"
harness = false
"#;

fn source(path: &str, text: &str) -> ManifestSource {
    ManifestSource {
        path: path.to_string(),
        text: text.to_string(),
    }
}

fn core_pins() -> Vec<PinOccurrence> {
    extract_pins(
        &source("zl-zpr-core/Cargo.toml", CORE_ROOT),
        &[source("zl-zpr-core/adapter/ph/Cargo.toml", PH)],
    )
    .unwrap()
}

fn find<'a>(pins: &'a [PinOccurrence], crate_name: &str, file: &str) -> &'a PinOccurrence {
    pins.iter()
        .find(|p| p.crate_name == crate_name && p.file == file)
        .unwrap_or_else(|| panic!("no pin of `{crate_name}` in {file}: {pins:#?}"))
}

#[test]
fn extracts_git_tag_pin_with_file_and_line() {
    let pins = core_pins();
    let zpr = find(&pins, "zpr", "zl-zpr-core/Cargo.toml");
    assert_eq!(zpr.url, "https://github.com/mkolehmainen/zl-zpr-common.git");
    assert_eq!(zpr.reference, "v0.27.0");
    assert_eq!(zpr.kind, RefKind::Tag);
    assert_eq!(zpr.line, 29);
    assert!(!zpr.inherited);

    let cbpf = find(&pins, "cbpf-rs", "zl-zpr-core/Cargo.toml");
    assert_eq!(cbpf.reference, "cbpf-rs-v0.2.0");
    assert_eq!(cbpf.line, 16);
}

#[test]
fn extracts_rev_pinned_non_zpr_fork_from_patch_table() {
    let pins = core_pins();
    let capnp = find(&pins, "capnp", "zl-zpr-core/Cargo.toml");
    assert_eq!(capnp.url, "https://github.com/emilazy/capnproto-rust.git");
    assert_eq!(capnp.reference, "cfbcb9b");
    assert_eq!(capnp.kind, RefKind::Rev);
    assert_eq!(capnp.line, 37);
    for name in ["capnp", "capnp-futures", "capnp-rpc", "capnpc"] {
        find(&pins, name, "zl-zpr-core/Cargo.toml");
    }
}

#[test]
fn extracts_branch_pin() {
    let text = "[dependencies]\nfoo = { git = \"https://github.com/mkolehmainen/zl-zpr-x.git\", branch = \"zipline\" }\n";
    let pins = extract_pins(&source("x/Cargo.toml", text), &[]).unwrap();
    assert_eq!(pins.len(), 1);
    assert_eq!(pins[0].kind, RefKind::Branch);
    assert_eq!(pins[0].reference, "zipline");
}

#[test]
fn member_workspace_true_inherits_root_pin_attributed_to_member() {
    let pins = core_pins();
    let zpr = find(&pins, "zpr", "zl-zpr-core/adapter/ph/Cargo.toml");
    assert!(zpr.inherited);
    assert_eq!(zpr.reference, "v0.27.0");
    assert_eq!(zpr.url, "https://github.com/mkolehmainen/zl-zpr-common.git");
    assert_eq!(zpr.line, 55);
    let rcu = find(&pins, "rcu", "zl-zpr-core/adapter/ph/Cargo.toml");
    assert_eq!(rcu.reference, "rcu-v0.1.2");
    assert_eq!(rcu.line, 36);
    assert!(!rcu.inherited);
    let cslab = find(&pins, "cslab", "zl-zpr-core/adapter/ph/Cargo.toml");
    assert_eq!(cslab.line, 21);
}

#[test]
fn registry_and_path_dependencies_are_ignored() {
    let pins = core_pins();
    for name in [
        "clap",
        "libnode",
        "libnode2",
        "admin-api",
        "reqwest",
        "toml",
    ] {
        assert!(
            !pins.iter().any(|p| p.crate_name == name),
            "`{name}` must not be captured: {pins:#?}"
        );
    }
    assert_eq!(
        pins.iter().filter(|p| p.crate_name == "capnp").count(),
        1,
        "{pins:#?}"
    );
    assert_eq!(pins.len(), 14, "{pins:#?}");
}

#[test]
fn non_zpr_git_url_without_rev_is_ignored() {
    let text = "[dependencies]\nbar = { git = \"https://github.com/serde-rs/json.git\", branch = \"master\" }\n";
    let pins = extract_pins(&source("x/Cargo.toml", text), &[]).unwrap();
    assert!(pins.is_empty(), "{pins:#?}");
}

#[test]
fn compiler_and_common_fixtures_extract() {
    let pins = extract_pins(&source("zl-zpr-compiler/Cargo.toml", COMPILER), &[]).unwrap();
    assert_eq!(pins.len(), 1, "{pins:#?}");
    assert_eq!(pins[0].crate_name, "zpr");
    assert_eq!(pins[0].reference, "v0.26.0");
    assert_eq!(pins[0].line, 22);

    let pins = extract_pins(&source("zl-zpr-common/Cargo.toml", COMMON), &[]).unwrap();
    assert_eq!(pins.len(), 1, "{pins:#?}");
    assert_eq!(pins[0].crate_name, "rcu");
    assert_eq!(pins[0].reference, "zpr-utils-v0.1.0");
    assert_eq!(pins[0].line, 21);

    let pins = extract_pins(&source("zl-zpr-visaservice/Cargo.toml", VS_ROOT), &[]).unwrap();
    assert_eq!(pins.len(), 1, "{pins:#?}");
    assert_eq!(pins[0].reference, "v0.27.0");
    assert_eq!(pins[0].line, 29);
}

fn pin(
    crate_name: &str,
    url: &str,
    reference: &str,
    file: &str,
    line: usize,
    inherited: bool,
) -> PinOccurrence {
    PinOccurrence {
        crate_name: crate_name.to_string(),
        url: url.to_string(),
        reference: reference.to_string(),
        kind: RefKind::Tag,
        file: file.to_string(),
        line,
        inherited,
    }
}

const COMMON_URL: &str = "https://github.com/mkolehmainen/zl-zpr-common.git";
const UTILS_URL: &str = "https://github.com/mkolehmainen/zl-zpr-utils.git";

fn at_least(findings: &[Finding], severity: Severity) -> Vec<&Finding> {
    findings.iter().filter(|f| f.severity >= severity).collect()
}

#[test]
fn gate1_agreeing_set_passes() {
    let pins = vec![
        pin(
            "zpr",
            COMMON_URL,
            "v0.27.0",
            "zl-zpr-core/Cargo.toml",
            29,
            false,
        ),
        pin(
            "zpr",
            COMMON_URL,
            "v0.27.0",
            "zl-zpr-visaservice/Cargo.toml",
            29,
            false,
        ),
        pin(
            "cslab",
            UTILS_URL,
            "cslab-v0.1.2",
            "zl-zpr-core/adapter/ph/Cargo.toml",
            21,
            false,
        ),
    ];
    let findings = gate_pin_agreement(&pins, &[], false);
    assert!(
        at_least(&findings, Severity::Warn).is_empty(),
        "{findings:#?}"
    );
    assert!(
        findings
            .iter()
            .any(|f| f.severity == Severity::Pass && f.message.contains("2 crates")),
        "{findings:#?}"
    );
}

#[test]
fn gate1_disagreement_lists_every_tag_file_and_line() {
    let pins = vec![
        pin(
            "zpr",
            COMMON_URL,
            "v0.26.0",
            "zl-zpr-compiler/Cargo.toml",
            22,
            false,
        ),
        pin(
            "zpr",
            COMMON_URL,
            "v0.27.0",
            "zl-zpr-core/Cargo.toml",
            29,
            false,
        ),
        pin(
            "zpr",
            COMMON_URL,
            "v0.27.0",
            "zl-zpr-core/adapter/ph/Cargo.toml",
            55,
            true,
        ),
    ];
    let findings = gate_pin_agreement(&pins, &[], false);
    let errors = at_least(&findings, Severity::Error);
    assert_eq!(errors.len(), 1, "{findings:#?}");
    let message = &errors[0].message;
    for needle in [
        "pin disagreement",
        "`zpr`",
        COMMON_URL,
        "v0.26.0",
        "v0.27.0",
        "zl-zpr-compiler/Cargo.toml:22",
        "zl-zpr-core/Cargo.toml:29",
        "zl-zpr-core/adapter/ph/Cargo.toml:55",
        "inherited",
        "allow_pin_drift",
    ] {
        assert!(message.contains(needle), "missing {needle:?}: {message}");
    }
}

#[test]
fn gate1_same_tag_from_two_urls_is_a_disagreement() {
    let org_url = "https://github.com/org-zpr/zpr-utils.git";
    let pins = vec![
        pin(
            "cslab",
            UTILS_URL,
            "cslab-v0.1.2",
            "zl-zpr-core/adapter/ph/Cargo.toml",
            21,
            false,
        ),
        pin(
            "cslab",
            org_url,
            "cslab-v0.1.2",
            "zl-zpr-utils/rcu/Cargo.toml",
            10,
            false,
        ),
    ];
    let findings = gate_pin_agreement(&pins, &[], false);
    let errors = at_least(&findings, Severity::Error);
    assert_eq!(errors.len(), 1, "{findings:#?}");
    assert!(
        errors[0].message.contains(UTILS_URL),
        "{}",
        errors[0].message
    );
    assert!(errors[0].message.contains(org_url), "{}", errors[0].message);
}

#[test]
fn gate1_same_reference_text_with_different_kinds_is_a_disagreement() {
    let mut tagged = pin(
        "zpr",
        COMMON_URL,
        "release",
        "zl-zpr-core/Cargo.toml",
        29,
        false,
    );
    tagged.kind = RefKind::Tag;
    let mut branched = pin(
        "zpr",
        COMMON_URL,
        "release",
        "zl-zpr-visaservice/Cargo.toml",
        29,
        false,
    );
    branched.kind = RefKind::Branch;
    let findings = gate_pin_agreement(&[tagged, branched], &[], false);
    let errors = at_least(&findings, Severity::Error);
    assert_eq!(errors.len(), 1, "{findings:#?}");
    let message = &errors[0].message;
    assert!(message.contains("tag"), "{message}");
    assert!(message.contains("branch"), "{message}");
}

#[test]
fn gate1_disagreement_report_names_each_variants_kind() {
    let mut tagged = pin(
        "zpr",
        COMMON_URL,
        "v0.26.0",
        "zl-zpr-compiler/Cargo.toml",
        22,
        false,
    );
    tagged.kind = RefKind::Tag;
    let mut revved = pin(
        "zpr",
        COMMON_URL,
        "abc1234",
        "zl-zpr-core/Cargo.toml",
        29,
        false,
    );
    revved.kind = RefKind::Rev;
    let findings = gate_pin_agreement(&[tagged, revved], &[], false);
    let errors = at_least(&findings, Severity::Error);
    assert_eq!(errors.len(), 1, "{findings:#?}");
    let message = &errors[0].message;
    assert!(message.contains("tag v0.26.0"), "{message}");
    assert!(message.contains("rev abc1234"), "{message}");
}

#[test]
fn gate1_allow_pin_drift_suppresses_one_crate_and_echoes_reason() {
    let pins = vec![
        pin(
            "rcu",
            UTILS_URL,
            "zpr-utils-v0.1.0",
            "zl-zpr-common/Cargo.toml",
            21,
            false,
        ),
        pin(
            "rcu",
            UTILS_URL,
            "rcu-v0.1.2",
            "zl-zpr-core/adapter/ph/Cargo.toml",
            36,
            false,
        ),
        pin(
            "zpr",
            COMMON_URL,
            "v0.26.0",
            "zl-zpr-compiler/Cargo.toml",
            22,
            false,
        ),
        pin(
            "zpr",
            COMMON_URL,
            "v0.27.0",
            "zl-zpr-core/Cargo.toml",
            29,
            false,
        ),
    ];
    let drift = vec![PinDrift {
        crate_name: "rcu".to_string(),
        reason: "zl-zpr-common pins zpr-utils-v0.1.0, ph pins rcu-v0.1.2; zipline#18"
            .to_string(),
    }];
    let findings = gate_pin_agreement(&pins, &drift, false);
    let errors = at_least(&findings, Severity::Error);
    assert_eq!(errors.len(), 1, "{findings:#?}");
    assert!(errors[0].message.contains("`zpr`"), "{}", errors[0].message);
    assert!(
        findings.iter().any(|f| f.severity == Severity::Info
            && f.message.contains("`rcu`")
            && f.message.contains("zipline#18")),
        "{findings:#?}"
    );
}

#[test]
fn gate1_downgrade_turns_errors_into_warnings() {
    let pins = vec![
        pin(
            "zpr",
            COMMON_URL,
            "v0.26.0",
            "zl-zpr-compiler/Cargo.toml",
            22,
            false,
        ),
        pin(
            "zpr",
            COMMON_URL,
            "v0.27.0",
            "zl-zpr-core/Cargo.toml",
            29,
            false,
        ),
    ];
    let findings = gate_pin_agreement(&pins, &[], true);
    assert!(
        at_least(&findings, Severity::Error).is_empty(),
        "{findings:#?}"
    );
    let warnings: Vec<_> = findings
        .iter()
        .filter(|f| f.severity == Severity::Warn)
        .collect();
    assert_eq!(warnings.len(), 1, "{findings:#?}");
    assert!(
        warnings[0].message.contains("pin disagreement"),
        "{}",
        warnings[0].message
    );
}

fn tags_for<'a>(
    url_tags: &'a [(&'a str, &'a [&'a str])],
) -> impl Fn(&str) -> Option<Vec<String>> + 'a {
    move |url: &str| {
        url_tags
            .iter()
            .find(|(u, _)| *u == url)
            .map(|(_, tags)| tags.iter().map(|t| t.to_string()).collect())
    }
}

#[test]
fn gate2_pin_behind_newest_tag_warns() {
    let pins = vec![pin(
        "zpr",
        COMMON_URL,
        "v0.26.0",
        "zl-zpr-compiler/Cargo.toml",
        22,
        false,
    )];
    let listing = [(COMMON_URL, ["v0.25.1", "v0.26.0", "v0.27.0"].as_slice())];
    let findings = gate_freshness(&pins, tags_for(&listing));
    assert!(
        at_least(&findings, Severity::Error).is_empty(),
        "{findings:#?}"
    );
    let warnings: Vec<_> = findings
        .iter()
        .filter(|f| f.severity == Severity::Warn)
        .collect();
    assert_eq!(warnings.len(), 1, "{findings:#?}");
    for needle in ["`zpr`", "v0.26.0", "v0.27.0"] {
        assert!(
            warnings[0].message.contains(needle),
            "missing {needle:?}: {}",
            warnings[0].message
        );
    }
}

#[test]
fn gate2_pin_at_newest_tag_is_silent() {
    let pins = vec![pin(
        "zpr",
        COMMON_URL,
        "v0.27.0",
        "zl-zpr-core/Cargo.toml",
        29,
        false,
    )];
    let listing = [(COMMON_URL, ["v0.26.0", "v0.27.0"].as_slice())];
    let findings = gate_freshness(&pins, tags_for(&listing));
    assert!(findings.is_empty(), "{findings:#?}");
}

#[test]
fn gate2_missing_checkout_is_info_not_failure() {
    let pins = vec![pin(
        "zpr",
        COMMON_URL,
        "v0.26.0",
        "zl-zpr-compiler/Cargo.toml",
        22,
        false,
    )];
    let findings = gate_freshness(&pins, |_| None);
    assert!(
        at_least(&findings, Severity::Warn).is_empty(),
        "{findings:#?}"
    );
    let infos: Vec<_> = findings
        .iter()
        .filter(|f| f.severity == Severity::Info)
        .collect();
    assert_eq!(infos.len(), 1, "{findings:#?}");
    assert!(infos[0].message.contains("`zpr`"), "{}", infos[0].message);
}

#[test]
fn gate2_orders_tags_by_semantic_version_not_lexicographically() {
    let pins = vec![pin(
        "zpr",
        COMMON_URL,
        "v0.9.1",
        "zl-zpr-core/Cargo.toml",
        29,
        false,
    )];
    let listing = [(COMMON_URL, ["v0.9.1", "v0.15.0"].as_slice())];
    let findings = gate_freshness(&pins, tags_for(&listing));
    let warnings: Vec<_> = findings
        .iter()
        .filter(|f| f.severity == Severity::Warn)
        .collect();
    assert_eq!(warnings.len(), 1, "{findings:#?}");
    assert!(
        warnings[0].message.contains("v0.15.0"),
        "{}",
        warnings[0].message
    );
}

#[test]
fn gate2_compares_only_tags_with_the_same_prefix() {
    let pins = vec![pin(
        "cslab",
        UTILS_URL,
        "cslab-v0.1.0",
        "zl-zpr-core/adapter/ph/Cargo.toml",
        21,
        false,
    )];
    let listing = [(
        UTILS_URL,
        [
            "cslab-v0.1.0",
            "cslab-v0.1.2",
            "rcu-v0.1.2",
            "zpr-utils-v9.9.9",
        ]
        .as_slice(),
    )];
    let findings = gate_freshness(&pins, tags_for(&listing));
    let warnings: Vec<_> = findings
        .iter()
        .filter(|f| f.severity == Severity::Warn)
        .collect();
    assert_eq!(warnings.len(), 1, "{findings:#?}");
    assert!(
        warnings[0].message.contains("cslab-v0.1.2"),
        "{}",
        warnings[0].message
    );
    assert!(
        !warnings[0].message.contains("zpr-utils-v9.9.9"),
        "{}",
        warnings[0].message
    );
}

#[test]
fn gate2_skips_disagreeing_pins() {
    let pins = vec![
        pin(
            "rcu",
            UTILS_URL,
            "rcu-v0.1.2",
            "zl-zpr-core/adapter/ph/Cargo.toml",
            36,
            false,
        ),
        pin(
            "rcu",
            UTILS_URL,
            "zpr-utils-v0.1.0",
            "zl-zpr-common/Cargo.toml",
            21,
            false,
        ),
    ];
    let listing = [(
        UTILS_URL,
        ["rcu-v0.1.2", "zpr-utils-v0.1.0", "zpr-utils-v0.2.2"].as_slice(),
    )];
    let findings = gate_freshness(&pins, tags_for(&listing));
    assert!(findings.is_empty(), "{findings:#?}");
}

#[test]
fn gate2_skips_rev_pins() {
    let mut fork = pin(
        "capnp",
        "https://github.com/emilazy/capnproto-rust.git",
        "cfbcb9b",
        "zl-zpr-core/Cargo.toml",
        37,
        false,
    );
    fork.kind = RefKind::Rev;
    let findings = gate_freshness(&[fork], |_| Some(vec!["v1.0.0".to_string()]));
    assert!(findings.is_empty(), "{findings:#?}");
}

const VS_CONFIG: &str = "\
pub const POLICY_MIN_COMPILER_MAJOR: u32 = 0;
pub const POLICY_MIN_COMPILER_MINOR: u32 = 18;
pub const POLICY_MIN_COMPILER_PATCH: u32 = 0;
";

#[test]
fn gate3_parses_the_real_config_constants() {
    assert_eq!(
        policy_min_compiler(VS_CONFIG, "vs/src/config.rs").unwrap(),
        (0, 18, 0)
    );
}

#[test]
fn gate3_unparseable_config_errors_naming_the_file() {
    let error = policy_min_compiler("pub const OTHER: u32 = 1;\n", "vs/src/config.rs")
        .unwrap_err()
        .to_string();
    assert!(error.contains("vs/src/config.rs"), "{error}");
    assert!(error.contains("POLICY_MIN_COMPILER"), "{error}");
}

#[test]
fn gate3_parses_package_version_from_cargo_toml() {
    assert_eq!(
        package_version(COMPILER, "zl-zpr-compiler/Cargo.toml").unwrap(),
        (0, 18, 0)
    );
}

#[test]
fn gate3_missing_package_version_errors_naming_the_file() {
    let error = package_version("[workspace]\nmembers = []\n", "zl-zpr-compiler/Cargo.toml")
        .unwrap_err()
        .to_string();
    assert!(error.contains("zl-zpr-compiler/Cargo.toml"), "{error}");
    assert!(error.contains("version"), "{error}");
}

#[test]
fn gate3_applies_check_version_rule_exactly() {
    let ok = |zplc: Version3, min: Version3| {
        let findings = gate_compiler_version(zplc, "c.toml", min, "config.rs");
        at_least(&findings, Severity::Error).is_empty()
    };
    assert!(ok((0, 18, 0), (0, 18, 0)), "equal versions must pass");
    assert!(ok((0, 18, 4), (0, 18, 0)), "higher patch must pass");
    assert!(!ok((0, 18, 0), (0, 18, 4)), "lower patch must fail");
    assert!(!ok((0, 19, 0), (0, 18, 0)), "higher minor must fail");
    assert!(!ok((0, 17, 9), (0, 18, 0)), "lower minor must fail");
    assert!(!ok((1, 18, 0), (0, 18, 0)), "higher major must fail");
}

#[test]
fn gate3_failure_names_both_files_and_the_rule() {
    let findings = gate_compiler_version(
        (0, 19, 0),
        "zl-zpr-compiler/Cargo.toml",
        (0, 18, 0),
        "zl-zpr-visaservice/vs/src/config.rs",
    );
    let errors = at_least(&findings, Severity::Error);
    assert_eq!(errors.len(), 1, "{findings:#?}");
    let message = &errors[0].message;
    for needle in [
        "zplc 0.19.0",
        "cannot produce policy",
        "zl-zpr-compiler/Cargo.toml",
        "zl-zpr-visaservice/vs/src/config.rs",
        "0.18.0",
        "major ==, minor ==, patch >=",
    ] {
        assert!(message.contains(needle), "missing {needle:?}: {message}");
    }
}

#[test]
fn gate3_pass_is_reported_ok() {
    let findings = gate_compiler_version((0, 18, 4), "c.toml", (0, 18, 0), "config.rs");
    assert_eq!(findings.len(), 1, "{findings:#?}");
    assert_eq!(findings[0].severity, Severity::Pass);
    assert!(
        findings[0].message.contains("0.18.4"),
        "{}",
        findings[0].message
    );
    assert!(
        findings[0].message.contains("0.18.0"),
        "{}",
        findings[0].message
    );
}

fn lock(path: &str, text: &str) -> LockSource {
    LockSource {
        path: path.to_string(),
        text: text.to_string(),
    }
}

#[test]
fn lock_scan_dual_zpr_family_version_is_an_error() {
    const LOCK: &str = r#"
version = 4

[[package]]
name = "zpr"
version = "0.8.1"
source = "git+https://github.com/mkolehmainen/zl-zpr-common.git?tag=v0.8.1#71ead993"

[[package]]
name = "zpr"
version = "0.28.0"
source = "git+https://github.com/mkolehmainen/zl-zpr-common.git?tag=v0.28.0#3abdacfe"

[[package]]
name = "serde"
version = "1.0.219"
source = "registry+https://github.com/rust-lang/crates.io-index"
"#;
    let findings = gate_lock_dual_versions(&[lock("zl-zpr-core/Cargo.lock", LOCK)]);
    let errors = at_least(&findings, Severity::Error);
    assert_eq!(errors.len(), 1, "{findings:#?}");
    let message = &errors[0].message;
    for needle in [
        "zpr",
        "zl-zpr-core/Cargo.lock",
        "0.8.1",
        "0.28.0",
        "tag=v0.8.1",
        "tag=v0.28.0",
    ] {
        assert!(message.contains(needle), "missing {needle:?}: {message}");
    }
}

#[test]
fn lock_scan_clean_and_foreign_duplicates_pass() {
    const LOCK: &str = r#"
version = 4

[[package]]
name = "zpr"
version = "0.28.0"
source = "git+https://github.com/mkolehmainen/zl-zpr-common.git?tag=v0.28.0#3abdacfe"

[[package]]
name = "syn"
version = "1.0.109"
source = "registry+https://github.com/rust-lang/crates.io-index"

[[package]]
name = "syn"
version = "2.0.100"
source = "registry+https://github.com/rust-lang/crates.io-index"
"#;
    let findings = gate_lock_dual_versions(&[lock("zl-zpr-core/Cargo.lock", LOCK)]);
    assert!(
        at_least(&findings, Severity::Warn).is_empty(),
        "{findings:#?}"
    );
    assert!(
        findings
            .iter()
            .any(|f| f.severity == Severity::Pass && f.message.contains("1 lock")),
        "{findings:#?}"
    );
}

#[test]
fn lock_scan_unparseable_lock_is_an_error() {
    let findings = gate_lock_dual_versions(&[lock("zl-zpr-core/Cargo.lock", "not = [toml")]);
    let errors = at_least(&findings, Severity::Error);
    assert_eq!(errors.len(), 1, "{findings:#?}");
    assert!(
        errors[0].message.contains("zl-zpr-core/Cargo.lock"),
        "{}",
        errors[0].message
    );
}

#[test]
fn a_prefix_and_a_joined_version_split_back() {
    for (prefix, version) in [("v", vec![0u64, 26, 0]), ("rcu-v", vec![0, 1, 2]), ("", vec![7])] {
        let tag = format!("{prefix}{}", zpr_dev::build::gates::join_version(&version));
        let (p, v) = zpr_dev::build::gates::split_tag(&tag).unwrap();
        assert_eq!(p, prefix);
        assert_eq!(v, version);
    }
    assert!(zpr_dev::build::gates::split_tag("release").is_none());
}

#[test]
fn parsed_entries_are_read_by_the_same_rules() {
    let manifest = vec![(
        "package".to_string(),
        TomlValue::Table(vec![("version".to_string(), TomlValue::Str("0.18.3".to_string()))]),
    )];
    assert_eq!(zpr_dev::build::gates::package_version_of(&manifest, "c/Cargo.toml").unwrap(), (0, 18, 3));
    let missing: Vec<(String, TomlValue)> = vec![];
    assert_eq!(
        zpr_dev::build::gates::package_version_of(&missing, "c/Cargo.toml").unwrap_err().to_string(),
        "no [package].version in c/Cargo.toml"
    );
    let root = vec![(
        "workspace".to_string(),
        TomlValue::Table(vec![(
            "members".to_string(),
            TomlValue::Array(vec![TomlValue::Str("a".to_string()), TomlValue::Int(3), TomlValue::Str("b".to_string())]),
        )]),
    )];
    assert_eq!(zpr_dev::build::scan::members_listed(&root), vec!["a".to_string(), "b".to_string()]);
    let (findings, clean) = zpr_dev::build::gates::parsed_lock_scan("x/Cargo.lock", &missing);
    assert!(findings.is_empty());
    assert!(clean);
}
