use vstd::prelude::*;
use std::collections::BTreeSet;
use vstd::laws_cmp::obeys_cmp;

verus! {

/// The model of an `ansible.cfg`: where roles are looked up.
pub struct AnsibleConfig {
    pub role_paths: Vec<String>,
}

impl AnsibleConfig {
    pub fn new() -> (r: Self)
        ensures
            r.role_paths@ == Seq::<String>::empty(),
    {
        AnsibleConfig { role_paths: Vec::new() }
    }

    /// Also looks roles up under `path`, after the paths given so far.
    pub fn role_path(self, path: String) -> (r: Self)
        ensures
            r.role_paths@ == self.role_paths@.push(path),
    {
        let mut s = self;
        s.role_paths.push(path);
        s
    }
}

/// The model of a `docker-compose.yml` that runs a role's test machines.
pub struct DockerComposeConfig {
    pub dind: bool,
    pub machines: Vec<DockerComposeMachine>,
}

impl DockerComposeConfig {
    pub fn new() -> (r: Self)
        ensures
            !r.dind,
            r.machines@ == Seq::<DockerComposeMachine>::empty(),
    {
        DockerComposeConfig { dind: false, machines: Vec::new() }
    }

    /// Runs Docker inside the machines.
    pub fn with_dind(&mut self)
        ensures
            final(self).dind,
            final(self).machines@ == old(self).machines@,
    {
        self.dind = true;
    }

    /// Adds a machine after the ones added so far.
    pub fn machine(&mut self, machine: DockerComposeMachine)
        ensures
            final(self).dind == old(self).dind,
            final(self).machines@ == old(self).machines@.push(machine),
    {
        self.machines.push(machine);
    }

    pub fn build(self) -> (r: Self)
        ensures
            r == self,
    {
        self
    }
}

/// One machine of a `docker-compose.yml`.
pub struct DockerComposeMachine {
    pub name: String,
    pub image: String,
    pub is_privileged: bool,
}

impl DockerComposeMachine {
    /// An unprivileged machine `name` running `image`.
    pub fn new(name: String, image: String) -> (r: Self)
        ensures
            r.name == name,
            r.image == image,
            !r.is_privileged,
    {
        DockerComposeMachine { name, image, is_privileged: false }
    }

    /// The same machine, privileged.
    pub fn privileged(self) -> (r: Self)
        ensures
            r == (DockerComposeMachine { is_privileged: true, ..self }),
    {
        DockerComposeMachine { is_privileged: true, ..self }
    }
}

/// The model of a `requirements.yml` listing Galaxy roles.
pub struct AnsibleRequirements {
    pub roles: Vec<GalaxyRole>,
}

impl AnsibleRequirements {
    pub fn new() -> (r: Self)
        ensures
            r.roles@ == Seq::<GalaxyRole>::empty(),
    {
        AnsibleRequirements { roles: Vec::new() }
    }

    /// Also requires `role`, after the roles given so far.
    pub fn role(self, role: GalaxyRole) -> (r: Self)
        ensures
            r.roles@ == self.roles@.push(role),
    {
        let mut s = self;
        s.roles.push(role);
        s
    }

    /// Requires exactly `roles`.
    pub fn with_roles(self, roles: Vec<GalaxyRole>) -> (r: Self)
        ensures
            r.roles@ == roles@,
    {
        AnsibleRequirements { roles }
    }
}

/// A Galaxy role: where it comes from, and optionally the name and version to install.
pub struct GalaxyRole {
    pub src: String,
    pub name: Option<String>,
    pub version: Option<String>,
}

impl GalaxyRole {
    pub fn new(src: String, name: Option<String>, version: Option<String>) -> (r: Self)
        ensures
            r == (GalaxyRole { src, name, version }),
    {
        GalaxyRole { src, name, version }
    }

    /// A role known by its source alone.
    pub fn from_src(src: String) -> (r: Self)
        ensures
            r == (GalaxyRole { src, name: None, version: None }),
    {
        GalaxyRole { src, name: None, version: None }
    }
}

/// The model of a role's `.travis.yml`.
pub struct TravisConfig {}

impl TravisConfig {
    pub fn new() -> Self {
        TravisConfig {  }
    }
}

/// The model of a role's `Makefile`.
pub struct Makefile {}

impl Makefile {
    pub fn new() -> Self {
        Makefile {  }
    }
}

/// The model of the `.gitignore` of a role's `tests/` directory.
pub struct TestsGitIgnore {}

impl TestsGitIgnore {
    pub fn new() -> Self {
        TestsGitIgnore {  }
    }
}

/// The model of the `Makefile` of a role's `tests/` directory.
pub struct TestsMakefile {}

impl TestsMakefile {
    pub fn new() -> Self {
        TestsMakefile {  }
    }
}

/// The model of a test inventory: the set of hosts, in order.
pub struct InventoryYaml {
    pub hosts: BTreeSet<String>,
}

impl InventoryYaml {
    pub fn new() -> (r: Self)
        ensures
            r.hosts@ == Set::<String>::empty(),
    {
        InventoryYaml { hosts: BTreeSet::new() }
    }

    /// Adds `host`; a host already there stays once. What is known of the set afterwards
    /// rests on `String`'s ordering being a total order, as std documents it.
    pub fn add_host(&mut self, host: String)
        ensures
            obeys_cmp::<String>() ==> final(self).hosts@ == old(self).hosts@.insert(host),
    {
        self.hosts.insert(host);
    }
}

} // verus!
