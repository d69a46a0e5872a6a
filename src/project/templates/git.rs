use vstd::prelude::*;

verus! {

/// The model of a `.gitignore`: which toolchains' outputs it ignores.
pub struct GitIgnore {
    pub golang: bool,
    pub java: bool,
    pub native: bool,
    pub node: bool,
    pub python: bool,
    pub ruby: bool,
    pub rust: bool,
}

impl GitIgnore {
    /// A `.gitignore` that ignores nothing in particular.
    pub fn new() -> (r: Self)
        ensures
            !r.golang && !r.java && !r.native && !r.node && !r.python && !r.ruby && !r.rust,
    {
        GitIgnore {
            golang: false,
            java: false,
            native: false,
            node: false,
            python: false,
            ruby: false,
            rust: false,
        }
    }

    /// Also ignores what golang builds leave behind.
    pub fn golang(self) -> (r: Self)
        ensures
            r == (GitIgnore { golang: true, ..self }),
    {
        GitIgnore { golang: true, ..self }
    }

    /// Also ignores what java builds leave behind.
    pub fn java(self) -> (r: Self)
        ensures
            r == (GitIgnore { java: true, ..self }),
    {
        GitIgnore { java: true, ..self }
    }

    /// Also ignores what native builds leave behind.
    pub fn native(self) -> (r: Self)
        ensures
            r == (GitIgnore { native: true, ..self }),
    {
        GitIgnore { native: true, ..self }
    }

    /// Also ignores what node builds leave behind.
    pub fn node(self) -> (r: Self)
        ensures
            r == (GitIgnore { node: true, ..self }),
    {
        GitIgnore { node: true, ..self }
    }

    /// Also ignores what python builds leave behind.
    pub fn python(self) -> (r: Self)
        ensures
            r == (GitIgnore { python: true, ..self }),
    {
        GitIgnore { python: true, ..self }
    }

    /// Also ignores what ruby builds leave behind.
    pub fn ruby(self) -> (r: Self)
        ensures
            r == (GitIgnore { ruby: true, ..self }),
    {
        GitIgnore { ruby: true, ..self }
    }

    /// Also ignores what rust builds leave behind.
    pub fn rust(self) -> (r: Self)
        ensures
            r == (GitIgnore { rust: true, ..self }),
    {
        GitIgnore { rust: true, ..self }
    }
}

} // verus!
