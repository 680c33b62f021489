//! A stand-in that answers what a preflight asks of an agent, and nothing else.

use vstd::prelude::*;
use vstd::string::*;

use crate::path;
use crate::path::beneath;
use crate::testing::cli;
use crate::testing::cli::{report_version, WrittenFile};

verus! {

/// A script that says `version` when it is asked for its version, and that it is
/// signed in when it is asked about that.
pub open spec fn agreeable(version: Seq<char>) -> Seq<char> {
    "#!/bin/sh\nif [ \"$1\" = '--version' ]; then echo '"@ + version
        + "'; exit 0; fi\nif [ \"$1\" = 'auth' ]; then echo '{\"loggedIn\": true}'; exit 0; fi\nexit 0\n"@
}

/// How the name of the stand-in ends.
pub const STANDIN_SUFFIX: &'static str = "-standin";

/// A program under `dir`, called after the agent's own, that gets a queue past
/// its preflight: it reports the agent's version, under the name of `product`,
/// and a sign-in.
pub fn standin_claude(dir: &str, program: &str, product: &str) -> (r: WrittenFile)
    ensures
        r.path@ == path::under(dir@, program@ + STANDIN_SUFFIX@),
        r.contents@ == agreeable(cli::reported(product@)),
        r.executable,
{
    let mut name = program.to_owned();
    name.append(STANDIN_SUFFIX);
    let mut contents = "#!/bin/sh\nif [ \"$1\" = '--version' ]; then echo '".to_owned();
    contents.append(report_version(product).as_str());
    contents.append(
        "'; exit 0; fi\nif [ \"$1\" = 'auth' ]; then echo '{\"loggedIn\": true}'; exit 0; fi\nexit 0\n",
    );
    WrittenFile { path: beneath(dir, name.as_str()), contents, executable: true }
}

} // verus!
