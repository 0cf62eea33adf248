//! Where the user-wide git configuration lives: the `git` directory under
//! the platform's configuration root, and the files inside it.

use vstd::prelude::*;

use crate::text::join_under;
use crate::text::spec_join_under;

verus! {

/// The user-wide git configuration directory, as text, if the platform
/// knows a home directory for the current user.
///
/// Relies on directories::BaseDirs::new and BaseDirs::config_dir; the
/// result depends on the environment, so nothing is promised of it.
#[verifier::external_body]
pub fn xdg_git_dir() -> (r: Option<String>) {
    directories::BaseDirs::new().map(
        |b| b.config_dir().join("git").to_string_lossy().into_owned(),
    )
}

/// The user-wide git configuration file: the `config` file under the git
/// configuration directory, when that directory is known.
pub fn xdg_git_config() -> (r: Option<String>)
    ensures
        r matches Some(s) ==> exists|d: Seq<char>|
            s@ == #[trigger] spec_join_under(d, "config"@),
{
    match xdg_git_dir() {
        Option::Some(d) => {
            let joined = join_under(d.as_str(), "config");
            proof {
                assert(joined@ == spec_join_under(d@, "config"@));
            }
            Option::Some(joined)
        },
        Option::None => Option::None,
    }
}

/// The user-wide git configuration fragment directory: the `config.d`
/// directory under the git configuration directory, when that directory
/// is known.
pub fn xdg_git_config_d() -> (r: Option<String>)
    ensures
        r matches Some(s) ==> exists|d: Seq<char>|
            s@ == #[trigger] spec_join_under(d, "config.d"@),
{
    match xdg_git_dir() {
        Option::Some(d) => {
            let joined = join_under(d.as_str(), "config.d");
            proof {
                assert(joined@ == spec_join_under(d@, "config.d"@));
            }
            Option::Some(joined)
        },
        Option::None => Option::None,
    }
}

} // verus!
