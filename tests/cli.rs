use nfty::cli::project::conform::Ansible;
use nfty::cli::project::engage::{has_session, tmux_session_name};
use nfty::cli::project::license::{license_files, LicenseType, UnknownLicenseType};
use nfty::logging::{appender_name, settings, LoggingFormat, LoggingLevel, LoggingOutput};
use nfty::project::parse::ansible::{ComplexRole, GalaxyInfo, Role, RoleMetadata};

#[test]
fn session_names_are_cleaned() {
    assert_eq!(tmux_session_name("ansible-role-rust-dev"), "rust-dev");
    assert_eq!(tmux_session_name("docker-nginx"), "nginx");
    assert_eq!(tmux_session_name("phatnoise.rs"), "phatnoise-rs");
    assert_eq!(tmux_session_name("ansible-role-ansible-role-x"), "x");
    assert_eq!(tmux_session_name("titan"), "titan");
}

#[test]
fn license_names_are_read() {
    assert_eq!(LicenseType::from_name(" MIT "), Ok(LicenseType::Mit));
    assert_eq!(LicenseType::from_name("default"), Ok(LicenseType::Oss));
    assert_eq!(LicenseType::from_name("Apache"), Ok(LicenseType::Apache2));
    assert_eq!(LicenseType::from_name("private"), Ok(LicenseType::Private));
    assert_eq!(
        LicenseType::from_name(" gpl "),
        Err(UnknownLicenseType("gpl".to_string()))
    );
    assert_eq!(LicenseType::Apache2.as_str(), "apache2");
    assert_eq!(LicenseType::default(), LicenseType::Oss);
}

#[test]
fn license_files_per_type() {
    let oss = license_files(LicenseType::Oss);
    assert_eq!(oss.len(), 2);
    assert_eq!(oss[0].file_name, "LICENSE-MIT");
    assert_eq!(oss[1].file_name, "LICENSE-APACHE");
    let private = license_files(LicenseType::Private);
    assert_eq!(private.len(), 1);
    assert_eq!(private[0].file_name, "LICENSE");
}

#[test]
fn role_dependencies_are_listed() {
    let meta = RoleMetadata {
        galaxy_info: GalaxyInfo {
            name: "role_name".to_string(),
            author: "naftulikay".to_string(),
            src: "naftulikay.role_name".to_string(),
        },
        dependencies: vec![
            Role::Simple("simple".to_string()),
            Role::Complex(ComplexRole { role: "complex".to_string(), src: None, name: None }),
        ],
    };
    assert_eq!(meta.deps(), vec!["simple".to_string(), "complex".to_string()]);
}

fn ansible(all_disabled: bool) -> Ansible {
    Ansible {
        disable_bionic: all_disabled,
        disable_centos7: true,
        disable_juno: all_disabled,
        disable_loki: true,
        disable_trusty: true,
        disable_xenial: true,
        enable_dind: true,
        python_version: "3.6.8".to_string(),
    }
}

#[test]
fn docker_compose_machines_follow_flags() {
    let cfg = ansible(false).docker_compose().unwrap();
    assert!(cfg.dind);
    assert_eq!(cfg.machines.len(), 2);
    assert_eq!(cfg.machines[0].name, "bionic");
    assert_eq!(cfg.machines[1].image, "naftulikay/juno-vm:latest");
    assert!(cfg.machines[1].is_privileged);
    assert!(ansible(true).docker_compose().is_none());
    assert!(ansible(true).test_inventory().is_none());
    assert_eq!(ansible(false).test_inventory().unwrap().hosts.len(), 2);
}

#[test]
fn test_requirements_end_with_degoss() {
    let reqs = ansible(false).test_galaxy_requirements(vec!["a.b".to_string()]);
    assert_eq!(reqs.roles.len(), 2);
    assert_eq!(reqs.roles[0].src, "a.b");
    assert_eq!(reqs.roles[1].src, "naftulikay.degoss");
}

#[test]
fn logging_follows_flags() {
    let (output, format, level) = settings(true, true, false, false);
    assert_eq!(appender_name(&output), "stderr");
    assert!(format == LoggingFormat::Verbose);
    assert!(level == LoggingLevel::Verbose);
    let (output, format, level) = settings(false, true, true, true);
    assert!(matches!(output, LoggingOutput::Syslog));
    assert!(format == LoggingFormat::Json);
    assert!(level == LoggingLevel::Normal);
}

#[test]
fn tmux_listing_is_searched_by_session_name() {
    let listing = "rust-dev: 1 windows (created Mon)\r\ntitan: 2 windows\nlonely\n";
    assert!(has_session(listing, "rust-dev"));
    assert!(has_session(listing, "titan"));
    assert!(has_session(listing, "lonely"));
    assert!(!has_session(listing, "tit"));
    assert!(!has_session(listing, "windows"));
    assert!(!has_session("", "titan"));
    assert!(!has_session(listing, "titan: 2"));
}
