use vstd::prelude::*;
use vstd::string::*;

use crate::catalog::{catalog_of, remote_versions, texts};
use crate::text::same_text;

verus! {

/// `part` appended to the path `base`, with a separator between them where
/// `base` is not empty and does not already end in one.
pub open spec fn join_path(base: Seq<char>, part: Seq<char>) -> Seq<char> {
    if base.len() == 0 || base.last() == '/' {
        base + part
    } else {
        base + seq!['/'] + part
    }
}

/// The toolchain root under an install path.
pub open spec fn goroot_of(install: Seq<char>) -> Seq<char> {
    join_path(install, "go"@)
}

/// The package workspace root under an install path.
pub open spec fn gopath_of(install: Seq<char>) -> Seq<char> {
    join_path(install, "packages"@)
}

/// The compiler binary under an install path.
pub open spec fn go_bin_of(install: Seq<char>) -> Seq<char> {
    join_path(goroot_of(install), "bin/go"@)
}

/// Whether an environment, as name and value pairs, defines `key`.
pub open spec fn defines(env: Seq<(String, String)>, key: Seq<char>) -> bool {
    exists|i: int| 0 <= i < env.len() && (#[trigger] env[i]).0@ == key
}

/// The variables that a toolchain installed at `install` sets, given the
/// environment as it was at process start: the toolchain root as GOROOT and
/// the package workspace as GOPATH, each only where that environment does not
/// define it already.
pub open spec fn exec_env_of(install: Seq<char>, pristine: Seq<(String, String)>) -> Seq<
    (Seq<char>, Seq<char>),
> {
    (if defines(pristine, "GOROOT"@) {
        Seq::empty()
    } else {
        seq![("GOROOT"@, goroot_of(install))]
    }) + (if defines(pristine, "GOPATH"@) {
        Seq::empty()
    } else {
        seq![("GOPATH"@, gopath_of(install))]
    })
}

/// The texts of a sequence of name and value pairs.
pub open spec fn pair_texts(v: Seq<(String, String)>) -> Seq<(Seq<char>, Seq<char>)> {
    v.map_values(|p: (String, String)| (p.0@, p.1@))
}

/// `part` appended to the path `base`.
pub fn join(base: &str, part: &str) -> (r: String)
    ensures
        r@ == join_path(base@, part@),
{
    let mut s = base.to_owned();
    let n = base.unicode_len();
    if n > 0 && base.get_char(n - 1) != '/' {
        s.append("/");
        proof {
            reveal_strlit("/");
        }
    }
    s.append(part);
    s
}

/// The Go toolchain plugin: its name and the remote version catalog, fetched
/// at most once.
pub struct GoPlugin {
    name: String,
    remote_versions: Option<Vec<String>>,
}

impl GoPlugin {
    /// The plugin's name.
    pub closed spec fn plugin_name(&self) -> Seq<char> {
        self.name@
    }

    /// The versions remembered from the first listing, if one was made.
    pub closed spec fn cached(&self) -> Option<Seq<Seq<char>>> {
        match self.remote_versions {
            Some(v) => Some(texts(v@)),
            None => None,
        }
    }

    /// A plugin called `name`, whose catalog has not been fetched yet.
    pub fn new(name: String) -> (r: Self)
        ensures
            r.plugin_name() == name@,
            r.cached() is None,
    {
        GoPlugin { name, remote_versions: None }
    }

    /// The plugin's name.
    pub fn name(&self) -> (r: &String)
        ensures
            r@ == self.plugin_name(),
    {
        &self.name
    }

    /// Whether the remote catalog still has to be fetched.
    pub fn needs_remote_versions(&self) -> (r: bool)
        ensures
            r == (self.cached() is None),
    {
        self.remote_versions.is_none()
    }

    /// The remote versions, oldest first. The first call builds them from the
    /// tag listing `output` and remembers them; every later call returns what
    /// was remembered and leaves `output` unread.
    pub fn list_remote_versions(&mut self, output: &str) -> (r: Vec<String>)
        ensures
            final(self).plugin_name() == old(self).plugin_name(),
            old(self).cached() is None ==> texts(r@) == catalog_of(output@),
            old(self).cached() matches Some(c) ==> texts(r@) == c,
            final(self).cached() == Some(texts(r@)),
    {
        match &self.remote_versions {
            Some(v) => {
                let r = copy_strings(v);
                r
            },
            None => {
                let r = remote_versions(output);
                self.remote_versions = Some(copy_strings(&r));
                r
            },
        }
    }

    /// The file names that pin a Go version in a project.
    pub fn legacy_filenames(&self) -> (r: Vec<String>)
        ensures
            texts(r@) == seq![".go-version"@],
    {
        let r = vec![".go-version".to_owned()];
        assert(texts(r@) == seq![".go-version"@]);
        r
    }

    /// The toolchain root under the install path `install`.
    pub fn goroot(&self, install: &str) -> (r: String)
        ensures
            r@ == goroot_of(install@),
    {
        join(install, "go")
    }

    /// The compiler binary under the install path `install`.
    pub fn go_bin(&self, install: &str) -> (r: String)
        ensures
            r@ == go_bin_of(install@),
    {
        let root = self.goroot(install);
        join(root.as_str(), "bin/go")
    }

    /// The package workspace root under the install path `install`.
    pub fn gopath(&self, install: &str) -> (r: String)
        ensures
            r@ == gopath_of(install@),
    {
        join(install, "packages")
    }

    /// The directories that hold the binaries of a toolchain installed at
    /// `install`: the toolchain's own, then the package workspace's.
    pub fn list_bin_paths(&self, install: &str) -> (r: Vec<String>)
        ensures
            texts(r@) == seq![
                join_path(goroot_of(install@), "bin"@),
                join_path(gopath_of(install@), "bin"@),
            ],
    {
        let root = self.goroot(install);
        let path = self.gopath(install);
        let r = vec![join(root.as_str(), "bin"), join(path.as_str(), "bin")];
        assert(texts(r@) == seq![
            join_path(goroot_of(install@), "bin"@),
            join_path(gopath_of(install@), "bin"@),
        ]);
        r
    }

    /// The variables that a toolchain installed at `install` sets, given the
    /// environment `pristine` captured at process start.
    pub fn exec_env(&self, install: &str, pristine: &Vec<(String, String)>) -> (r: Vec<(String, String)>)
        ensures
            pair_texts(r@) == exec_env_of(install@, pristine@),
    {
        let mut r: Vec<(String, String)> = Vec::new();
        if !defines_var(pristine, "GOROOT") {
            r.push(("GOROOT".to_owned(), self.goroot(install)));
        }
        if !defines_var(pristine, "GOPATH") {
            r.push(("GOPATH".to_owned(), self.gopath(install)));
        }
        assert(pair_texts(r@) == exec_env_of(install@, pristine@));
        r
    }
}

/// The toolchain never overrides a variable that the environment at process
/// start defines: where that environment defines GOROOT (or GOPATH), the
/// variables it sets hold no such name; where it does not, they set it to the
/// toolchain root (or the package workspace), and to nothing else.
pub proof fn lemma_exec_env_keeps_user_values(install: Seq<char>, pristine: Seq<(String, String)>)
    ensures
        ({
            let e = exec_env_of(install, pristine);
            &&& defines(pristine, "GOROOT"@) ==> forall|i: int|
                0 <= i < e.len() ==> (#[trigger] e[i]).0 != "GOROOT"@
            &&& !defines(pristine, "GOROOT"@) ==> e.contains(("GOROOT"@, goroot_of(install)))
            &&& forall|i: int|
                0 <= i < e.len() && (#[trigger] e[i]).0 == "GOROOT"@ ==> e[i].1 == goroot_of(
                    install,
                )
            &&& defines(pristine, "GOPATH"@) ==> forall|i: int|
                0 <= i < e.len() ==> (#[trigger] e[i]).0 != "GOPATH"@
            &&& !defines(pristine, "GOPATH"@) ==> e.contains(("GOPATH"@, gopath_of(install)))
            &&& forall|i: int|
                0 <= i < e.len() && (#[trigger] e[i]).0 == "GOPATH"@ ==> e[i].1 == gopath_of(
                    install,
                )
        }),
{
    reveal_strlit("GOROOT");
    reveal_strlit("GOPATH");
    let e = exec_env_of(install, pristine);
    assert("GOROOT"@[2] != "GOPATH"@[2]);
    if !defines(pristine, "GOROOT"@) {
        assert(e[0] == ("GOROOT"@, goroot_of(install)));
    }
    if !defines(pristine, "GOPATH"@) {
        assert(e[e.len() - 1] == ("GOPATH"@, gopath_of(install)));
    }
}

/// Whether `env` defines the variable `key`.
pub fn defines_var(env: &Vec<(String, String)>, key: &str) -> (r: bool)
    ensures
        r == defines(env@, key@),
{
    let mut i: usize = 0;
    while i < env.len()
        invariant
            i <= env@.len(),
            forall|j: int| 0 <= j < i ==> (#[trigger] env@[j]).0@ != key@,
        decreases env@.len() - i,
    {
        if same_text(env[i].0.as_str(), key) {
            return true;
        }
        i = i + 1;
    }
    false
}

/// A copy of `v`.
pub fn copy_strings(v: &Vec<String>) -> (r: Vec<String>)
    ensures
        texts(r@) == texts(v@),
{
    let mut r: Vec<String> = Vec::new();
    let mut i: usize = 0;
    while i < v.len()
        invariant
            i <= v@.len(),
            texts(r@) == texts(v@.subrange(0, i as int)),
        decreases v@.len() - i,
    {
        r.push(v[i].clone());
        assert(texts(v@.subrange(0, i + 1)) == texts(v@.subrange(0, i as int)).push(v@[i as int]@));
        i = i + 1;
    }
    assert(v@.subrange(0, v@.len() as int) == v@);
    r
}

} // verus!
