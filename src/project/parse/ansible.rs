use vstd::prelude::*;

verus! {

/// An Ansible role's `meta/main.yml`: its Galaxy information and the roles it depends on.
pub struct RoleMetadata {
    pub galaxy_info: GalaxyInfo,
    pub dependencies: Vec<Role>,
}

pub struct GalaxyInfo {
    pub name: String,
    pub author: String,
    pub src: String,
}

/// A dependency: a bare role name, or a table naming the role.
pub enum Role {
    Simple(String),
    Complex(ComplexRole),
}

pub struct ComplexRole {
    pub role: String,
    pub src: Option<String>,
    pub name: Option<String>,
}

/// The name by which a dependency refers to its role.
pub open spec fn role_name(r: Role) -> Seq<char> {
    match r {
        Role::Simple(s) => s@,
        Role::Complex(c) => c.role@,
    }
}

impl RoleMetadata {
    /// The names of the roles this role depends on, in the order they are listed.
    pub fn deps(&self) -> (r: Vec<String>)
        ensures
            r@.map_values(|s: String| s@) == self.dependencies@.map_values(|d: Role| role_name(d)),
    {
        let mut result: Vec<String> = Vec::new();
        let mut i: usize = 0;
        while i < self.dependencies.len()
            invariant
                i <= self.dependencies@.len(),
                result@.map_values(|s: String| s@) == self.dependencies@.subrange(
                    0,
                    i as int,
                ).map_values(|d: Role| role_name(d)),
            decreases self.dependencies@.len() - i,
        {
            let name = match &self.dependencies[i] {
                Role::Simple(s) => s.clone(),
                Role::Complex(c) => c.role.clone(),
            };
            assert(name@ == role_name(self.dependencies@[i as int]));
            let ghost prev = result@;
            result.push(name);
            assert(result@.map_values(|s: String| s@) =~= prev.map_values(|s: String| s@).push(
                name@,
            ));
            assert(self.dependencies@.subrange(0, i + 1).map_values(|d: Role| role_name(d))
                =~= self.dependencies@.subrange(0, i as int).map_values(|d: Role| role_name(d)).push(
                role_name(self.dependencies@[i as int]),
            ));
            i = i + 1;
            assert(result@.map_values(|s: String| s@) =~= self.dependencies@.subrange(
                0,
                i as int,
            ).map_values(|d: Role| role_name(d)));
        }
        assert(self.dependencies@.subrange(0, i as int) =~= self.dependencies@);
        result
    }
}

} // verus!
