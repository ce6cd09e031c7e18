//! Project dependencies declared in `packages.yml` and the git invocations
//! that install them.

use vstd::prelude::*;
use crate::text::{views, to_owned_string, opt_view};

verus! {

#[derive(Debug)]
pub struct Package {
    pub git: String,
    pub name: String,
    pub revision: Option<String>,
}

#[derive(Debug)]
pub struct PackagesConfig {
    pub packages: Vec<Package>,
}

pub open spec fn command_views(c: Seq<Vec<String>>) -> Seq<Seq<Seq<char>>> {
    c.map_values(|a: Vec<String>| views(a@))
}

/// The git argument lists that install a package at `pkg_path`: a pull
/// when it is already there, a clone otherwise, then a checkout of the
/// pinned revision if there is one.
pub open spec fn spec_package_commands(git: Seq<char>, path: Seq<char>, revision: Option<Seq<char>>, exists: bool)
    -> Seq<Seq<Seq<char>>>
{
    let fetch = if exists {
        seq!["-C"@, path, "pull"@]
    } else {
        seq!["clone"@, git, path]
    };
    match revision {
        Some(rev) => seq![fetch, seq!["-C"@, path, "checkout"@, rev]],
        None => seq![fetch],
    }
}

fn args3(a: &str, b: &str, c: &str) -> (r: Vec<String>)
    ensures
        views(r@) == seq![a@, b@, c@],
{
    let mut v: Vec<String> = Vec::new();
    v.push(to_owned_string(a));
    v.push(to_owned_string(b));
    v.push(to_owned_string(c));
    assert(views(v@) =~= seq![a@, b@, c@]);
    v
}

impl Package {
    pub fn install_commands(&self, pkg_path: &str, exists: bool) -> (r: Vec<Vec<String>>)
        ensures
            command_views(r@) == spec_package_commands(self.git@, pkg_path@, opt_view(self.revision), exists),
    {
        let fetch = if exists {
            args3("-C", pkg_path, "pull")
        } else {
            args3("clone", self.git.as_str(), pkg_path)
        };
        let mut cmds: Vec<Vec<String>> = Vec::new();
        cmds.push(fetch);
        match &self.revision {
            Some(rev) => {
                let mut co = args3("-C", pkg_path, "checkout");
                let ghost before = co@;
                co.push(rev.clone());
                assert(views(co@) =~= views(before).push(rev@));
                assert(views(co@) =~= seq!["-C"@, pkg_path@, "checkout"@, rev@]);
                cmds.push(co);
            },
            None => {},
        }
        assert(command_views(cmds@) =~= spec_package_commands(self.git@, pkg_path@, opt_view(self.revision), exists));
        cmds
    }
}

} // verus!
