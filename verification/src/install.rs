//! The user service that keeps Clix running.

use vstd::prelude::*;

use crate::error;
use crate::error::{ClixError, ErrorModel, Outcome, Result};
use crate::job;
use crate::job::join_words;
use crate::paths;
use crate::paths::join_path;
use crate::scan;
use crate::scan::{is_space, replace_char, trim};
use crate::text::{cat2, cat3, chars_of, owned, text_same};

verus! {

/// `CLIX_SYSTEMD_DIR`, else `systemd/user` in `XDG_CONFIG_HOME`, else
/// `.config/systemd/user` in the home directory.
pub open spec fn unit_dir(
    chosen: Option<Seq<char>>,
    config_home: Option<Seq<char>>,
    home: Option<Seq<char>>,
) -> Outcome<Seq<char>> {
    if paths::set_to(chosen) {
        Ok(chosen->0)
    } else if paths::set_to(config_home) {
        Ok(paths::joined_path(config_home->0, "systemd/user"@))
    } else if paths::set_to(home) {
        Ok(paths::joined_path(home->0, ".config/systemd/user"@))
    } else {
        Err(ErrorModel::Io("cannot determine systemd user directory"@))
    }
}

fn is_set(value: &Option<String>) -> (yes: bool)
    ensures
        yes == paths::set_to(value.deep_view()),
{
    match value {
        Some(value) => !value.as_str().is_empty(),
        None => false,
    }
}

pub fn systemd_dir(chosen: Option<String>, config_home: Option<String>, home: Option<String>) -> (dir:
    Result<String>)
    ensures
        error::outcome(dir) == unit_dir(chosen.deep_view(), config_home.deep_view(), home.deep_view()),
{
    if is_set(&chosen) {
        if let Some(dir) = chosen {
            return Ok(dir);
        }
    }
    if is_set(&config_home) {
        if let Some(dir) = config_home {
            return Ok(join_path(&dir, "systemd/user"));
        }
    }
    if is_set(&home) {
        if let Some(dir) = home {
            return Ok(join_path(&dir, ".config/systemd/user"));
        }
    }
    Err(ClixError::Io(owned("cannot determine systemd user directory")))
}

/// A chosen unit directory is left alone: nothing is enabled there.
pub fn dir_overridden(chosen: Option<String>) -> (yes: bool)
    ensures
        yes == paths::set_to(chosen.deep_view()),
{
    is_set(&chosen)
}

/// Characters that a path in a unit file must be quoted for.
pub open spec fn needs_quotes(c: char) -> bool {
    scan::space(c) || c == '"' || c == '\\' || c == '\''
}

pub open spec fn quoted(path: Seq<char>) -> Seq<char> {
    if exists|i: int| 0 <= i < path.len() && needs_quotes(#[trigger] path[i]) {
        "\""@ + scan::replaced(scan::replaced(path, '\\', "\\\\"@), '"', "\\\""@) + "\""@
    } else {
        path
    }
}

pub fn systemd_quote(path: &str) -> (text: String)
    ensures
        text@ == quoted(path@),
{
    let chars = chars_of(path);
    let mut i: usize = 0;
    while i < chars.len()
        invariant
            i <= chars.len(),
            chars@ == path@,
            forall|j: int| 0 <= j < i ==> !needs_quotes(#[trigger] path@[j]),
        decreases chars.len() - i,
    {
        let c = chars[i];
        if is_space(c) || c == '"' || c == '\\' || c == '\'' {
            assert(needs_quotes(path@[i as int]));
            let escaped = replace_char(path, '\\', "\\\\");
            let body = replace_char(&escaped, '"', "\\\"");
            return cat3("\"", &body, "\"");
        }
        i += 1;
    }
    owned(path)
}

/// What a unit file says up to the program.
pub const UNIT_HEAD: &'static str =
    "[Unit]\nDescription=Clix: run granted tools for paired machines\n\n[Service]\nExecStart=";

/// What a unit file says after the program.
pub const UNIT_TAIL: &'static str =
    " daemon\nRestart=on-failure\nRestartSec=2\n\n[Install]\nWantedBy=default.target\n";

/// The unit file of a service that runs this program.
pub fn unit_text(exe: &str) -> (unit: String)
    ensures
        unit@ == UNIT_HEAD@ + quoted(exe@) + UNIT_TAIL@,
{
    let program = systemd_quote(exe);
    cat3(UNIT_HEAD, &program, UNIT_TAIL)
}

/// What `loginctl` says of lingering; none where it says neither.
pub open spec fn lingering(answer: Seq<char>) -> Option<bool> {
    if scan::trimmed(answer) == "yes"@ {
        Some(true)
    } else if scan::trimmed(answer) == "no"@ {
        Some(false)
    } else {
        None
    }
}

pub fn linger_enabled(answer: &str) -> (enabled: Option<bool>)
    ensures
        enabled == lingering(answer@),
{
    let word = trim(answer);
    if text_same(&word, "yes") {
        Some(true)
    } else if text_same(&word, "no") {
        Some(false)
    } else {
        None
    }
}

/// The hint to give where lingering is not known to be on. A service of a user
/// who does not linger stops with the last session.
pub fn linger_advice(enabled: Option<bool>, user: &str) -> (advice: Option<String>)
    ensures
        advice.deep_view() == if enabled == Some(true) {
            None::<Seq<char>>
        } else {
            Some(
                "Note: enable lingering so Clix keeps running without an active login session (needed on a headless server):\n    loginctl enable-linger"@
                    + if user@.len() == 0 {
                    ""@
                } else {
                    " "@ + user@
                },
            )
        },
{
    if let Some(on) = enabled {
        if on {
            return None;
        }
    }
    let target = if user.is_empty() {
        owned("")
    } else {
        cat2(" ", user)
    };
    Some(
        cat2(
            "Note: enable lingering so Clix keeps running without an active login session (needed on a headless server):\n    loginctl enable-linger",
            &target,
        ),
    )
}

/// The commands that put the service into force.
pub open spec fn enabling(overridden: bool) -> Seq<Seq<Seq<char>>> {
    if overridden {
        Seq::empty()
    } else {
        seq![seq!["daemon-reload"@], seq!["enable"@, "--now"@, "clix.service"@]]
    }
}

pub fn enable_now(overridden: bool) -> (commands: Vec<Vec<String>>)
    ensures
        commands.deep_view() == enabling(overridden),
{
    let mut commands: Vec<Vec<String>> = Vec::new();
    if !overridden {
        let reload: Vec<String> = vec![owned("daemon-reload")];
        let enable: Vec<String> = vec![owned("enable"), owned("--now"), owned("clix.service")];
        assert(reload.deep_view() =~= seq!["daemon-reload"@]);
        assert(enable.deep_view() =~= seq!["enable"@, "--now"@, "clix.service"@]);
        commands.push(reload);
        commands.push(enable);
    }
    assert(commands.deep_view() =~= enabling(overridden));
    commands
}

/// A `systemctl` that could not be run, or that failed.
pub fn systemctl_result(args: &Vec<String>, started: std::result::Result<bool, String>) -> (result:
    Result<()>)
    ensures
        error::outcome(result) == match started {
            Ok(true) => Ok::<(), ErrorModel>(()),
            Ok(false) => Err::<(), ErrorModel>(
                ErrorModel::Io("systemctl --user "@ + job::spaced(args.deep_view()) + " failed"@),
            ),
            Err(e) => Err::<(), ErrorModel>(ErrorModel::Io("systemctl: "@ + e@)),
        },
{
    match started {
        Ok(success) => if success {
            Ok(())
        } else {
            let words = join_words(args);
            Err(ClixError::Io(cat3("systemctl --user ", &words, " failed")))
        },
        Err(e) => Err(ClixError::Io(cat2("systemctl: ", &e))),
    }
}

/// A service that does not answer in time.
pub fn not_ready() -> (error: ClixError)
    ensures
        error@ == ErrorModel::Io(
            "Clix did not become ready. Inspect journalctl --user -u clix.service"@,
        ),
{
    ClixError::Io(owned("Clix did not become ready. Inspect journalctl --user -u clix.service"))
}

} // verus!
