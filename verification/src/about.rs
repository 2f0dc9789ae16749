//! The "about" text command: a fixed self-description assembled from the
//! program's name, version and homepage, which the unverified shell reads
//! from its build metadata.

use vstd::prelude::*;
use vstd::string::StringExecFns;

verus! {

/// The command that answers "about".
pub struct AboutCommand;

impl AboutCommand {
    /// The about text: name, a space, the version, a line break, the
    /// homepage.
    pub fn run(name: &str, version: &str, homepage: &str) -> (r: String)
        ensures
            r@ == name@ + seq![' '] + version@ + seq!['\n'] + homepage@,
    {
        let mut s = String::from_str(name);
        s.push(' ');
        s.append(version);
        s.push('\n');
        s.append(homepage);
        proof {
            assert(s@ =~= name@ + seq![' '] + version@ + seq!['\n'] + homepage@);
        }
        s
    }
}

} // verus!
