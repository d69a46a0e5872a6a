use nfty::project::templates::vagrant::VagrantPlaybook;

fn only(p: &VagrantPlaybook, docker: bool, go: bool, java: bool, node: bool, python: bool, ruby: bool, rust: bool) {
    assert_eq!(p.has_docker(), docker);
    assert_eq!(p.has_go(), go);
    assert_eq!(p.has_java(), java);
    assert_eq!(p.has_node(), node);
    assert_eq!(p.has_python(), python);
    assert_eq!(p.has_ruby(), ruby);
    assert_eq!(p.has_rust(), rust);
}

#[test]
fn test_docker_playbook() {
    let playbook = VagrantPlaybook::new().docker();
    only(&playbook, true, false, false, false, false, false, false);
}

#[test]
fn test_go_playbook() {
    let playbook = VagrantPlaybook::new().go("GO_PACKAGE", "GO_VERSION");
    only(&playbook, false, true, false, false, false, false, false);
    assert_eq!(playbook.go_package.as_deref(), Some("GO_PACKAGE"));
    assert_eq!(playbook.go_version.as_deref(), Some("GO_VERSION"));
}

#[test]
fn test_hybrid_playbook() {
    let playbook = VagrantPlaybook::new().docker().python("PYTHON_VERSION");
    only(&playbook, true, false, false, false, true, false, false);
    assert_eq!(playbook.python_version.as_deref(), Some("PYTHON_VERSION"));
}

#[test]
fn test_java_playbook() {
    let playbook = VagrantPlaybook::new().java();
    only(&playbook, false, false, true, false, false, false, false);
}

#[test]
fn test_node_playbook() {
    let playbook = VagrantPlaybook::new().node("NODE_VERSION");
    only(&playbook, false, false, false, true, false, false, false);
    assert_eq!(playbook.node_version.as_deref(), Some("NODE_VERSION"));
}

#[test]
fn test_python_playbook() {
    let playbook = VagrantPlaybook::new().python("PYTHON_VERSION");
    only(&playbook, false, false, false, false, true, false, false);
    assert_eq!(playbook.python_version.as_deref(), Some("PYTHON_VERSION"));
}

#[test]
fn test_ruby_playbook() {
    let playbook = VagrantPlaybook::new().ruby("RUBY_VERSION");
    only(&playbook, false, false, false, false, false, true, false);
    assert_eq!(playbook.ruby_version.as_deref(), Some("RUBY_VERSION"));
}

#[test]
fn test_rust_playbook() {
    let playbook = VagrantPlaybook::new().rust();
    only(&playbook, false, false, false, false, false, false, true);
}
