//! The configuration that jujutsu workspaces are loaded with: a built-in
//! set of defaults, which a per-user file may override.

use vstd::prelude::*;

verus! {

/// The defaults that loading a jujutsu workspace needs, as TOML.
pub const DEFAULT_JJ_CONFIG: &'static str = "
[fsmonitor]
backend = \"none\"
[git]
abandon-unreachable-commits = true
auto-local-bookmark = false
executable-path = \"git\"
write-change-id-header = true
colocate = true
[merge]
hunk-level = \"line\"
same-change = \"accept\"
[operation]
hostname = \"localhost\"
username = \"user\"
[signing]
backend = \"none\"
behavior = \"keep\"
[signing.backends.gpg]
allow-expired-keys = false
program = \"gpg\"
[signing.backends.gpgsm]
allow-expired-keys = false
program = \"gpgsm\"
[signing.backends.ssh]
program = \"ssh-keygen\"
[ui]
conflict-marker-style = \"diff\"
[user]
name = \"path-git-format\"
email = \"path-git-format@localhost\"
[working-copy]
eol-conversion = \"none\"
";

/// Where the user's jujutsu configuration lies, below the home directory.
pub const USER_CONFIG_SUFFIX: &'static str = ".config/jj/config.toml";

/// `dir` with the relative path `rel` appended, as a path join does it: a
/// separator goes between the two unless `dir` is empty or ends with one.
pub open spec fn joined_path(dir: Seq<char>, rel: Seq<char>) -> Seq<char> {
    if dir.len() == 0 || dir.last() == '/' {
        dir + rel
    } else {
        dir.push('/') + rel
    }
}

/// The path of the user's jujutsu configuration for the home directory `home`.
pub fn user_config_path(home: &str) -> (r: String)
    ensures
        r@ == joined_path(home@, USER_CONFIG_SUFFIX@),
{
    let mut r = home.to_owned();
    let n = home.unicode_len();
    if n > 0 && home.get_char(n - 1) != '/' {
        r.append("/");
        proof {
            reveal_strlit("/");
        }
        assert(r@ =~= home@.push('/'));
    }
    r.append(USER_CONFIG_SUFFIX);
    r
}

} // verus!
