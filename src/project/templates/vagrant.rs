use vstd::prelude::*;
use vstd::string::StringExecFns;

verus! {

/// The model of a project's `Vagrantfile`.
pub struct Vagrantfile {}

impl Vagrantfile {
    pub fn new() -> (r: Self) {
        Vagrantfile {  }
    }
}

/// The model of the Ansible playbook that provisions a project's Vagrant machine: which
/// toolchains it installs, and at which versions.
pub struct VagrantPlaybook {
    pub include_docker: bool,
    pub go_version: Option<String>,
    pub go_package: Option<String>,
    pub java: bool,
    pub python_version: Option<String>,
    pub ruby_version: Option<String>,
    pub include_rust: bool,
    pub node_version: Option<String>,
}

/// `o` holds a string whose characters are `s`.
pub open spec fn holds(o: Option<String>, s: Seq<char>) -> bool {
    o is Some && o->0@ == s
}

impl VagrantPlaybook {
    /// A playbook that installs nothing.
    pub fn new() -> (r: Self)
        ensures
            !r.include_docker && r.go_version is None && r.go_package is None && !r.java
                && r.python_version is None && r.ruby_version is None && !r.include_rust
                && r.node_version is None,
    {
        VagrantPlaybook {
            include_docker: false,
            go_version: None,
            go_package: None,
            java: false,
            python_version: None,
            ruby_version: None,
            include_rust: false,
            node_version: None,
        }
    }

    /// Also installs Docker.
    pub fn docker(self) -> (r: Self)
        ensures
            r == (VagrantPlaybook { include_docker: true, ..self }),
    {
        VagrantPlaybook { include_docker: true, ..self }
    }

    /// Also installs Go at `version`, set up for the package `package_name`.
    pub fn go(self, package_name: &str, version: &str) -> (r: Self)
        ensures
            holds(r.go_package, package_name@),
            holds(r.go_version, version@),
            r == (VagrantPlaybook { go_package: r.go_package, go_version: r.go_version, ..self }),
    {
        VagrantPlaybook {
            go_package: Some(String::from_str(package_name)),
            go_version: Some(String::from_str(version)),
            ..self
        }
    }

    /// Also installs Java.
    pub fn java(self) -> (r: Self)
        ensures
            r == (VagrantPlaybook { java: true, ..self }),
    {
        VagrantPlaybook { java: true, ..self }
    }

    /// Also installs Node at `version`.
    pub fn node(self, version: &str) -> (r: Self)
        ensures
            holds(r.node_version, version@),
            r == (VagrantPlaybook { node_version: r.node_version, ..self }),
    {
        VagrantPlaybook { node_version: Some(String::from_str(version)), ..self }
    }

    /// Also installs Python at `version`.
    pub fn python(self, version: &str) -> (r: Self)
        ensures
            holds(r.python_version, version@),
            r == (VagrantPlaybook { python_version: r.python_version, ..self }),
    {
        VagrantPlaybook { python_version: Some(String::from_str(version)), ..self }
    }

    /// Also installs Ruby at `version`.
    pub fn ruby(self, version: &str) -> (r: Self)
        ensures
            holds(r.ruby_version, version@),
            r == (VagrantPlaybook { ruby_version: r.ruby_version, ..self }),
    {
        VagrantPlaybook { ruby_version: Some(String::from_str(version)), ..self }
    }

    /// Also installs Rust.
    pub fn rust(self) -> (r: Self)
        ensures
            r == (VagrantPlaybook { include_rust: true, ..self }),
    {
        VagrantPlaybook { include_rust: true, ..self }
    }

    pub fn has_docker(&self) -> (r: bool)
        ensures
            r == self.include_docker,
    {
        self.include_docker
    }

    pub fn has_go(&self) -> (r: bool)
        ensures
            r == self.go_version is Some,
    {
        self.go_version.is_some()
    }

    pub fn has_java(&self) -> (r: bool)
        ensures
            r == self.java,
    {
        self.java
    }

    pub fn has_node(&self) -> (r: bool)
        ensures
            r == self.node_version is Some,
    {
        self.node_version.is_some()
    }

    pub fn has_python(&self) -> (r: bool)
        ensures
            r == self.python_version is Some,
    {
        self.python_version.is_some()
    }

    pub fn has_ruby(&self) -> (r: bool)
        ensures
            r == self.ruby_version is Some,
    {
        self.ruby_version.is_some()
    }

    pub fn has_rust(&self) -> (r: bool)
        ensures
            r == self.include_rust,
    {
        self.include_rust
    }
}

} // verus!
