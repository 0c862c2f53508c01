//! Finding and starting the daemon of a profile.

use vstd::prelude::*;

use crate::paths::{below, join_path};
use crate::spacing::{
    all_white, lemma_trimmed_has_plain_ends, lemma_trimmed_is_the_core, lemma_white_is_trimmed,
};
use crate::text::{
    concat, decimal, is_blank, is_digit, is_white, lemma_number_is_read_back, opt_text, parse_u64,
    parsed, same, same_ignoring_case, texts, trim, trim_end_of, trim_start_of, trimmed, words,
    CharClass,
};
use crate::time::{elapsed_between, span};

verus! {

pub const DEFAULT_EMBEDDED_DAEMON_STARTUP_TIMEOUT_MS: u64 = 30_000;

pub const MIN_EMBEDDED_DAEMON_STARTUP_TIMEOUT_MS: u64 = 500;

pub const MAX_EMBEDDED_DAEMON_STARTUP_TIMEOUT_MS: u64 = 120_000;

/// How long to wait between two looks at a daemon that starts.
pub const READY_POLL_MS: u64 = 35;

/// Where the daemon's executable has to be: beside this one.
pub fn sibling_candidate(parent: &str) -> (path: String)
    ensures
        path@ == below(parent@, "cua"@),
{
    join_path(parent, "cua")
}

/// The daemon's executable. `parent` is the directory of the current one, and
/// `is_file` tells whether the candidate there is a file.
pub fn sibling_cua_binary_from(current_exe: &str, parent: &Option<String>, is_file: bool) -> (result:
    Result<String, String>)
    ensures
        match (result, *parent) {
            (Ok(path), Some(parent)) => is_file && path@ == below(parent@, "cua"@),
            (Err(message), None) => message@ == "current executable has no parent: "@
                + current_exe@,
            (Err(message), Some(_)) => !is_file && message@
                == "bundled cua binary not found next to "@ + current_exe@,
            (Ok(_), None) => false,
        },
{
    match parent {
        Some(parent) => if is_file {
            Ok(sibling_candidate(parent.as_str()))
        } else {
            Err(concat("bundled cua binary not found next to ", current_exe))
        },
        None => Err(concat("current executable has no parent: ", current_exe)),
    }
}

/// The arguments that start the daemon of a profile.
pub fn daemon_args(profile: &str) -> (args: Vec<String>)
    ensures
        texts(args@) == seq![
            "--profile"@,
            profile@,
            "serve"@,
            "--addr"@,
            "127.0.0.1:0"@,
            "--hud-mode"@,
            "headless"@,
        ],
{
    let args = vec![
        "--profile".to_owned(),
        profile.to_owned(),
        "serve".to_owned(),
        "--addr".to_owned(),
        "127.0.0.1:0".to_owned(),
        "--hud-mode".to_owned(),
        "headless".to_owned(),
    ];
    assert(texts(args@) =~= seq![
        "--profile"@,
        profile@,
        "serve"@,
        "--addr"@,
        "127.0.0.1:0"@,
        "--hud-mode"@,
        "headless"@,
    ]);
    args
}

/// Whether the setting lets the environment set the token.
pub fn http_token_override_allowed(setting: &Option<String>) -> (allowed: bool)
    ensures
        allowed == match *setting {
            Some(value) => value@ == "1"@ || crate::text::lower(value@) == crate::text::lower(
                "true"@,
            ),
            None => false,
        },
{
    match setting {
        Some(value) => same(value.as_str(), "1") || same_ignoring_case(value.as_str(), "true"),
        None => false,
    }
}

/// A token, unless it is blank.
pub open spec fn usable(token: Option<Seq<char>>) -> Option<Seq<char>> {
    match token {
        Some(token) => if trimmed(token).len() > 0 {
            Some(token)
        } else {
            None
        },
        None => None,
    }
}

/// The token of a profile: the one that is set, or the one in the file, without
/// the white space around it. Blank ones do not count. Where there is none, one
/// has to be made.
pub fn known_profile_token(set: &Option<String>, file: &Option<String>) -> (token: Option<String>)
    ensures
        opt_text(token) == (match (usable(opt_text(*set)), usable(opt_text(*file))) {
            (Some(set), _) => Some(set),
            (None, Some(file)) => Some(trimmed(file)),
            (None, None) => None,
        }),
{
    if let Some(set) = set {
        if !is_blank(set.as_str()) {
            return Some(set.clone());
        }
    }
    if let Some(file) = file {
        if !is_blank(file.as_str()) {
            return Some(trim(file.as_str()));
        }
    }
    None
}

/// A hexadecimal digit in lower case.
pub open spec fn is_hex_char(c: char) -> bool {
    '0' <= c <= '9' || 'a' <= c <= 'f'
}

/// An identity made by chance: thirty-two hexadecimal digits in five groups,
/// with the version and the variant of such an identity.
pub open spec fn is_random_id(id: Seq<char>) -> bool {
    &&& id.len() == 36
    &&& forall|i: int|
        #![trigger id[i]]
        0 <= i < 36 ==> if i == 8 || i == 13 || i == 18 || i == 23 {
            id[i] == '-'
        } else {
            is_hex_char(id[i])
        }
    &&& id[14] == '4'
    &&& id[19] == '8' || id[19] == '9' || id[19] == 'a' || id[19] == 'b'
}

/// `uuid::Uuid::new_v4`, as `to_string` writes it: in groups with hyphens
/// between them and in lower case. Which one it is depends on chance.
#[verifier::external_body]
pub(crate) fn random_id() -> (id: String)
    ensures
        is_random_id(id@),
{
    uuid::Uuid::new_v4().to_string()
}

pub open spec fn is_token(token: Seq<char>, id: Seq<char>) -> bool {
    is_random_id(id) && token == "cua-"@ + id
}

/// The token that an identity gives.
pub fn profile_token_of(id: &str) -> (token: String)
    ensures
        token@ == "cua-"@ + id@,
{
    concat("cua-", id)
}

/// A new token.
pub fn new_profile_token() -> (token: String)
    ensures
        exists|id: Seq<char>| is_token(token@, id),
{
    let id = random_id();
    let token = profile_token_of(id.as_str());
    assert(is_token(token@, id@));
    token
}

/// What is written to the file of a token: the token on a line of its own.
pub open spec fn token_line(token: Seq<char>) -> Seq<char> {
    token + "\n"@
}

/// What is written to the file of a token: the token on a line of its own.
pub fn token_file(token: &str) -> (text: String)
    ensures
        text@ == token_line(token@),
{
    concat(token, "\n")
}

/// A token that was made and written to its file is the one that is read from
/// there.
pub proof fn lemma_token_is_read_back(token: Seq<char>, id: Seq<char>)
    requires
        is_token(token, id),
    ensures
        usable(Some(token_line(token))) is Some,
        trimmed(token_line(token)) == token,
{
    reveal_strlit("cua-");
    reveal_strlit("\n");
    let line = token_line(token);
    assert(line[0] == 'c');
    assert(line.last() == '\n');
    assert(line.drop_last() =~= token);
    assert(token.last() == id[35]);
    assert(!is_white(token.last()));
    assert(trim_start_of(line, CharClass::White) == line);
    assert(trim_end_of(token, CharClass::White) == token);
    assert(trim_end_of(line, CharClass::White) == token);
}

/// The time that a daemon has to start: the setting within its bounds, where it
/// is a positive number.
pub open spec fn startup_timeout(setting: Option<Seq<char>>) -> u64 {
    match setting {
        Some(text) => match parsed(trimmed(text), u64::MAX as nat) {
            Some(n) => if n == 0 {
                DEFAULT_EMBEDDED_DAEMON_STARTUP_TIMEOUT_MS
            } else if n < MIN_EMBEDDED_DAEMON_STARTUP_TIMEOUT_MS {
                MIN_EMBEDDED_DAEMON_STARTUP_TIMEOUT_MS
            } else if n > MAX_EMBEDDED_DAEMON_STARTUP_TIMEOUT_MS {
                MAX_EMBEDDED_DAEMON_STARTUP_TIMEOUT_MS
            } else {
                n as u64
            },
            None => DEFAULT_EMBEDDED_DAEMON_STARTUP_TIMEOUT_MS,
        },
        None => DEFAULT_EMBEDDED_DAEMON_STARTUP_TIMEOUT_MS,
    }
}

/// The time that a daemon has to start, in milliseconds.
pub fn embedded_daemon_startup_timeout(setting: &Option<String>) -> (ms: u64)
    ensures
        ms == startup_timeout(opt_text(*setting)),
{
    if let Some(text) = setting {
        if let Some(n) = parse_u64(trim(text.as_str()).as_str()) {
            if n == 0 {
                return DEFAULT_EMBEDDED_DAEMON_STARTUP_TIMEOUT_MS;
            }
            if n < MIN_EMBEDDED_DAEMON_STARTUP_TIMEOUT_MS {
                return MIN_EMBEDDED_DAEMON_STARTUP_TIMEOUT_MS;
            }
            if n > MAX_EMBEDDED_DAEMON_STARTUP_TIMEOUT_MS {
                return MAX_EMBEDDED_DAEMON_STARTUP_TIMEOUT_MS;
            }
            return n;
        }
    }
    DEFAULT_EMBEDDED_DAEMON_STARTUP_TIMEOUT_MS
}

/// Whatever the setting is, the time stays within its bounds.
pub proof fn lemma_startup_timeout_is_bounded(setting: Option<Seq<char>>)
    ensures
        MIN_EMBEDDED_DAEMON_STARTUP_TIMEOUT_MS <= startup_timeout(setting)
            <= MAX_EMBEDDED_DAEMON_STARTUP_TIMEOUT_MS,
{
}

/// What follows a look at a daemon that starts.
#[derive(Clone, Debug, PartialEq, Eq)]
pub enum Readiness {
    /// It is there.
    Ready,
    /// Look again after a moment.
    Retry,
    /// It took too long.
    TimedOut(String),
}

/// What follows a look at a daemon that starts: `check` is what the look gave.
pub fn wait_until_ready(check: &Result<(), String>, now: u128, deadline: u128) -> (next: Readiness)
    ensures
        match (*check, next) {
            (Ok(_), next) => next is Ready,
            (Err(cause), Readiness::TimedOut(message)) => now >= deadline && message@
                == "timed out waiting for cua daemon socket: "@ + cause@,
            (Err(_), Readiness::Retry) => now < deadline,
            (Err(_), Readiness::Ready) => false,
        },
{
    match check {
        Ok(_) => Readiness::Ready,
        Err(cause) => if now >= deadline {
            Readiness::TimedOut(
                concat("timed out waiting for cua daemon socket: ", cause.as_str()),
            )
        } else {
            Readiness::Retry
        },
    }
}

/// Whether another start of the daemon is due after a look that failed: at
/// most one in a second.
pub fn restart_is_due(last_start: u128, now: u128) -> (due: bool)
    ensures
        due == (span(last_start, now) >= 1_000_000_000),
{
    elapsed_between(last_start, now) >= 1_000_000_000
}

/// The time to start is the number of milliseconds that is set, within its
/// bounds; zero, other text and no setting give the default.
pub proof fn lemma_start_takes_the_set_time(n: nat, before: Seq<char>, after: Seq<char>)
    requires
        all_white(before),
        all_white(after),
    ensures
        500 <= n <= 120_000 ==> startup_timeout(Some(before + decimal(n) + after)) == n,
        0 < n < 500 ==> startup_timeout(Some(before + decimal(n) + after)) == 500,
        120_000 < n <= u64::MAX ==> startup_timeout(Some(before + decimal(n) + after)) == 120_000,
        startup_timeout(Some(before + decimal(0) + after)) == 30_000,
        startup_timeout(None) == 30_000,
        startup_timeout(Some(before)) == 30_000,
{
    lemma_number_is_read_back(n, u64::MAX as nat);
    lemma_number_is_read_back(0, u64::MAX as nat);
    assert(is_digit(decimal(n)[0]) && is_digit(decimal(n)[decimal(n).len() - 1]));
    assert(is_digit(decimal(0)[0]) && is_digit(decimal(0)[decimal(0).len() - 1]));
    lemma_trimmed_is_the_core(before, decimal(n), after);
    lemma_trimmed_is_the_core(before, decimal(0), after);
    lemma_white_is_trimmed(before);
}

/// A token that is blank counts as none, and any other is taken as it is.
pub proof fn lemma_blank_token_is_none(token: Seq<char>)
    ensures
        all_white(token) ==> usable(Some(token)) is None,
        !all_white(token) ==> usable(Some(token)) == Some(token),
        usable(None) is None,
{
    lemma_trimmed_has_plain_ends(token);
}

} // verus!
