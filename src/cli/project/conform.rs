use vstd::prelude::*;
use vstd::laws_cmp::obeys_cmp;
use vstd::string::StringExecFns;

use crate::project::templates::ansible::{
    AnsibleConfig, AnsibleRequirements, DockerComposeConfig, DockerComposeMachine, GalaxyRole,
    InventoryYaml,
};
use crate::project::templates::git::GitIgnore;
use crate::project::templates::python::PythonRequirements;
use crate::project::templates::vagrant::VagrantPlaybook;

verus! {

/// How an Ansible role project is conformed: which test distributions it keeps, whether its
/// containers run Docker, and its Python version.
pub struct Ansible {
    pub disable_bionic: bool,
    pub disable_centos7: bool,
    pub disable_juno: bool,
    pub disable_loki: bool,
    pub disable_trusty: bool,
    pub disable_xenial: bool,
    pub enable_dind: bool,
    pub python_version: String,
}

/// The test distributions that `a` keeps, in their fixed order.
pub open spec fn enabled_distros(a: Ansible) -> Seq<Seq<char>> {
    let s1 = if !a.disable_bionic { seq!["bionic"@] } else { seq![] };
    let s2 = if !a.disable_centos7 { s1.push("centos7"@) } else { s1 };
    let s3 = if !a.disable_juno { s2.push("juno"@) } else { s2 };
    let s4 = if !a.disable_loki { s3.push("loki"@) } else { s3 };
    let s5 = if !a.disable_trusty { s4.push("trusty"@) } else { s4 };
    if !a.disable_xenial { s5.push("xenial"@) } else { s5 }
}

/// The container image of a test distribution.
pub open spec fn image_of(name: Seq<char>) -> Seq<char> {
    "naftulikay/"@ + name + "-vm:latest"@
}

/// The galaxy role of each name.
pub open spec fn roles_of(names: Seq<String>) -> Seq<GalaxyRole> {
    names.map_values(|n: String| GalaxyRole { src: n, name: None, version: None })
}

proof fn lemma_view_set_insert(s: Set<String>, a: String)
    ensures
        s.insert(a).map(|q: String| q@) == s.map(|q: String| q@).insert(a@),
{
    let l = s.insert(a).map(|q: String| q@);
    let r = s.map(|q: String| q@).insert(a@);
    assert forall|y: Seq<char>| l.contains(y) <==> r.contains(y) by {
        if r.contains(y) {
            if y == a@ {
                assert(s.insert(a).contains(a));
            } else {
                let x = choose|x: String| s.contains(x) && x@ == y;
                assert(s.insert(a).contains(x));
            }
        }
        if l.contains(y) {
            let x = choose|x: String| s.insert(a).contains(x) && x@ == y;
            if x != a {
                assert(s.contains(x));
            }
        }
    }
    assert(l =~= r);
}

/// The name of a role, as an owned string.
fn owned(s: &str) -> (r: String)
    ensures
        r@ == s@,
{
    String::from_str(s)
}

impl Ansible {
    /// The test distributions kept, in their fixed order.
    pub fn distros(&self) -> (r: Vec<&'static str>)
        ensures
            r@.map_values(|s: &str| s@) == enabled_distros(*self),
    {
        let mut r: Vec<&'static str> = Vec::new();
        if !self.disable_bionic {
            r.push("bionic");
        }
        if !self.disable_centos7 {
            r.push("centos7");
        }
        if !self.disable_juno {
            r.push("juno");
        }
        if !self.disable_loki {
            r.push("loki");
        }
        if !self.disable_trusty {
            r.push("trusty");
        }
        if !self.disable_xenial {
            r.push("xenial");
        }
        assert(r@.map_values(|s: &str| s@) =~= enabled_distros(*self));
        r
    }

    /// The Vagrant playbook: Docker, and Python at the chosen version.
    pub fn playbook(&self) -> (r: VagrantPlaybook)
        ensures
            r.include_docker,
            r.python_version is Some && r.python_version->0@ == self.python_version@,
            r.go_version is None && r.node_version is None && r.ruby_version is None,
            !r.java && !r.include_rust,
    {
        VagrantPlaybook::new().docker().python(self.python_version.as_str())
    }

    /// The role's `ansible.cfg`: roles come from `.ansible/galaxy-roles`.
    pub fn ansible_cfg(&self) -> (r: AnsibleConfig)
        ensures
            r.role_paths@.len() == 1,
            r.role_paths@[0]@ == ".ansible/galaxy-roles"@,
    {
        AnsibleConfig::new().role_path(owned(".ansible/galaxy-roles"))
    }

    /// The role's `requirements.yml`: the Vagrant roles for Docker and Python development.
    pub fn galaxy_requirements(&self) -> (r: AnsibleRequirements)
        ensures
            r.roles@.len() == 2,
            r.roles@[0].src@ == "naftulikay.vagrant-docker"@,
            r.roles@[0].name is Some && r.roles@[0].name->0@ == "vagrant-docker"@,
            r.roles@[0].version is None,
            r.roles@[1].src@ == "naftulikay.vagrant-python-dev"@,
            r.roles@[1].name is Some && r.roles@[1].name->0@ == "vagrant-python-dev"@,
            r.roles@[1].version is None,
    {
        AnsibleRequirements::new().role(
            GalaxyRole::new(owned("naftulikay.vagrant-docker"), Some(owned("vagrant-docker")), None),
        ).role(
            GalaxyRole::new(
                owned("naftulikay.vagrant-python-dev"),
                Some(owned("vagrant-python-dev")),
                None,
            ),
        )
    }

    /// The `docker-compose.yml` with a privileged machine for each test distribution kept, or
    /// nothing where none is kept.
    pub fn docker_compose(&self) -> (r: Option<DockerComposeConfig>)
        ensures
            match r {
                None => enabled_distros(*self).len() == 0,
                Some(cfg) => {
                    &&& enabled_distros(*self).len() > 0
                    &&& cfg.dind == self.enable_dind
                    &&& cfg.machines@.len() == enabled_distros(*self).len()
                    &&& forall|i: int|
                        0 <= i < cfg.machines@.len() ==> {
                            &&& (#[trigger] cfg.machines@[i]).name@ == enabled_distros(*self)[i]
                            &&& cfg.machines@[i].image@ == image_of(enabled_distros(*self)[i])
                            &&& cfg.machines@[i].is_privileged
                        }
                },
            },
    {
        let names = self.distros();
        if names.len() == 0 {
            return None;
        }
        let mut cfg = DockerComposeConfig::new();
        if self.enable_dind {
            cfg.with_dind();
        }
        let mut i: usize = 0;
        while i < names.len()
            invariant
                i <= names@.len(),
                names@.map_values(|s: &str| s@) == enabled_distros(*self),
                cfg.dind == self.enable_dind,
                cfg.machines@.len() == i,
                forall|j: int|
                    0 <= j < i ==> {
                        &&& (#[trigger] cfg.machines@[j]).name@ == enabled_distros(*self)[j]
                        &&& cfg.machines@[j].image@ == image_of(enabled_distros(*self)[j])
                        &&& cfg.machines@[j].is_privileged
                    },
            decreases names@.len() - i,
        {
            let name = names[i];
            assert(name@ == enabled_distros(*self)[i as int]);
            let image = String::from_str("naftulikay/").concat(name).concat("-vm:latest");
            cfg.machine(DockerComposeMachine::new(owned(name), image).privileged());
            i = i + 1;
        }
        Some(cfg)
    }

    /// The `.gitignore`: native and Python outputs.
    pub fn gitignore(&self) -> (r: GitIgnore)
        ensures
            r.native && r.python && !r.golang && !r.java && !r.node && !r.ruby && !r.rust,
    {
        GitIgnore::new().native().python()
    }

    /// The `requirements.txt`: the requirements already there, if any, and `ansible`.
    pub fn python_requirements(&self, existing: Option<PythonRequirements>) -> (r:
        PythonRequirements)
        ensures
            obeys_cmp::<String>() ==> r.requirements@.map(|q: String| q@) == match existing {
                Some(p) => p.requirements@.map(|q: String| q@),
                None => Set::<Seq<char>>::empty(),
            }.insert("ansible"@),
    {
        let base = match existing {
            Some(p) => p,
            None => PythonRequirements::new(),
        };
        let ghost before = base.requirements@;
        let a = owned("ansible");
        let r = base.requirement(a);
        proof {
            if obeys_cmp::<String>() {
                lemma_view_set_insert(before, a);
                assert(Set::<String>::empty().map(|q: String| q@) =~= Set::<Seq<char>>::empty());
            }
        }
        r
    }

    /// The `ansible.cfg` of `tests/`: roles come from `.ansible/roles`, then from
    /// `.ansible/galaxy-roles`.
    pub fn test_ansible_cfg(&self) -> (r: AnsibleConfig)
        ensures
            r.role_paths@.len() == 2,
            r.role_paths@[0]@ == ".ansible/roles"@,
            r.role_paths@[1]@ == ".ansible/galaxy-roles"@,
    {
        AnsibleConfig::new().role_path(owned(".ansible/roles")).role_path(
            owned(".ansible/galaxy-roles"),
        )
    }

    /// The inventory of `tests/`: a host for each test distribution kept, or nothing where
    /// none is kept.
    pub fn test_inventory(&self) -> (r: Option<InventoryYaml>)
        ensures
            r is None <==> enabled_distros(*self).len() == 0,
            obeys_cmp::<String>() ==> match r {
                None => true,
                Some(inv) => inv.hosts@.map(|h: String| h@) == enabled_distros(*self).to_set(),
            },
    {
        let names = self.distros();
        if names.len() == 0 {
            return None;
        }
        let mut inv = InventoryYaml::new();
        let mut i: usize = 0;
        while i < names.len()
            invariant
                i <= names@.len(),
                names@.map_values(|s: &str| s@) == enabled_distros(*self),
                obeys_cmp::<String>() ==> inv.hosts@.map(|h: String| h@)
                    == enabled_distros(*self).subrange(0, i as int).to_set(),
            decreases names@.len() - i,
        {
            let ghost before = inv.hosts@;
            let name = owned(names[i]);
            assert(name@ == enabled_distros(*self)[i as int]);
            inv.add_host(name);
            proof {
                if obeys_cmp::<String>() {
                    let e = enabled_distros(*self);
                    assert(inv.hosts@ == before.insert(name));
                    assert(e.subrange(0, i + 1) =~= e.subrange(0, i as int).push(e[i as int]));
                    e.subrange(0, i as int).lemma_push_to_set_commute(e[i as int]);
                    lemma_view_set_insert(before, name);
                }
            }
            i = i + 1;
        }
        assert(enabled_distros(*self).subrange(0, i as int) =~= enabled_distros(*self));
        Some(inv)
    }

    /// The `requirements.yml` of `tests/`: the role's own dependencies, then the role that runs
    /// the tests.
    pub fn test_galaxy_requirements(&self, dependencies: Vec<String>) -> (r: AnsibleRequirements)
        ensures
            r.roles@.len() == dependencies@.len() + 1,
            r.roles@.subrange(0, dependencies@.len() as int) == roles_of(dependencies@),
            r.roles@.last().src@ == "naftulikay.degoss"@,
            r.roles@.last().name is None && r.roles@.last().version is None,
    {
        let mut names = dependencies;
        let ghost deps = names@;
        names.push(owned("naftulikay.degoss"));
        let mut roles: Vec<GalaxyRole> = Vec::new();
        let mut i: usize = 0;
        while i < names.len()
            invariant
                i <= names@.len(),
                roles@ == roles_of(names@.subrange(0, i as int)),
            decreases names@.len() - i,
        {
            roles.push(GalaxyRole::from_src(names[i].clone()));
            i = i + 1;
            assert(roles@ =~= roles_of(names@.subrange(0, i as int)));
        }
        assert(names@.subrange(0, i as int) =~= names@);
        assert(names@.subrange(0, deps.len() as int) =~= deps);
        assert(roles@.subrange(0, deps.len() as int) =~= roles_of(deps));
        AnsibleRequirements::new().with_roles(roles)
    }
}

} // verus!
