//! The daemon's commands: the arguments that each one is run with, and what
//! its output means. Running the program is left to the caller.
use vstd::prelude::*;
use crate::parse::{key_values, list_items, pairs, parse_key_value, parse_list, replace_char, replace_with};
use crate::text::{remove_char, same, strs, without};

verus! {

/// The country assumed when the daemon reports none.
pub const DEFAULT_COUNTRY: &'static str = "Netherlands";

/// What came of running the daemon's program once.
pub enum Outcome {
    /// The program could not be run, or its output could not be read.
    Failed,
    /// The program ran; `success` tells whether it exited successfully.
    Exited { success: bool, stdout: String },
}

/// The program ran and exited successfully.
pub open spec fn ok(o: Outcome) -> bool {
    o matches Outcome::Exited { success, .. } && success
}

/// Whether a command that changes the daemon's state took effect.
pub fn succeeded(outcome: &Outcome) -> (r: bool)
    ensures
        r == ok(*outcome),
{
    match outcome {
        Outcome::Failed => false,
        Outcome::Exited { success, .. } => *success,
    }
}

/// The token the daemon expects for a target name: spaces become underscores.
pub open spec fn slug(name: Seq<char>) -> Seq<char> {
    replace_char(name, ' ', '_')
}

/// The arguments that ask the daemon to connect to `target`.
pub fn connect(target: &str) -> (r: Vec<String>)
    ensures
        strs(r@) == seq!["connect"@, slug(target@)],
{
    proof {
        reveal_strlit("_");
    }
    let r = vec![String::from_str("connect"), replace_with(target, ' ', "_")];
    assert(strs(r@) =~= seq!["connect"@, slug(target@)]);
    r
}

/// The arguments that ask the daemon to disconnect.
pub fn disconnect() -> (r: Vec<String>)
    ensures
        strs(r@) == seq!["disconnect"@],
{
    let r = vec![String::from_str("disconnect")];
    assert(strs(r@) =~= seq!["disconnect"@]);
    r
}

/// The status reported when the daemon answers that it is not connected.
pub open spec fn disconnected_status() -> Seq<(Seq<char>, Seq<char>)> {
    seq![("Status"@, "Disconnected"@), ("Country"@, DEFAULT_COUNTRY@)]
}

/// What a run of `status` says of the session: nothing when the program could
/// not be run; its listing when it succeeded; otherwise the disconnected status.
pub open spec fn status_of(o: Outcome) -> Option<Seq<(Seq<char>, Seq<char>)>> {
    match o {
        Outcome::Failed => None,
        Outcome::Exited { success, stdout } => Some(
            if success {
                key_values(stdout@)
            } else {
                disconnected_status()
            },
        ),
    }
}

/// Reads the output of `status`.
pub fn status_details(outcome: &Outcome) -> (r: Option<Vec<(String, String)>>)
    ensures
        r is None <==> status_of(*outcome) is None,
        r is Some ==> status_of(*outcome) == Some(pairs(r->0@)),
{
    match outcome {
        Outcome::Failed => None,
        Outcome::Exited { success, stdout } => {
            if *success {
                Some(parse_key_value(stdout.as_str()))
            } else {
                let r = vec![
                    (String::from_str("Status"), String::from_str("Disconnected")),
                    (String::from_str("Country"), String::from_str(DEFAULT_COUNTRY)),
                ];
                assert(pairs(r@) =~= disconnected_status());
                Some(r)
            }
        },
    }
}

/// What a run of a listing command says: nothing when the program could not
/// be run, else the items of its output.
pub open spec fn list_of(o: Outcome) -> Option<Seq<Seq<char>>> {
    match o {
        Outcome::Failed => None,
        Outcome::Exited { stdout, .. } => Some(list_items(stdout@)),
    }
}

fn read_list(outcome: &Outcome) -> (r: Option<Vec<String>>)
    ensures
        r is None <==> list_of(*outcome) is None,
        r is Some ==> list_of(*outcome) == Some(strs(r->0@)),
{
    match outcome {
        Outcome::Failed => None,
        Outcome::Exited { stdout, .. } => Some(parse_list(stdout.as_str())),
    }
}

/// Reads the output of `countries`.
pub fn countries(outcome: &Outcome) -> (r: Option<Vec<String>>)
    ensures
        r is None <==> list_of(*outcome) is None,
        r is Some ==> list_of(*outcome) == Some(strs(r->0@)),
{
    read_list(outcome)
}

/// Reads the output of `groups`.
pub fn groups(outcome: &Outcome) -> (r: Option<Vec<String>>)
    ensures
        r is None <==> list_of(*outcome) is None,
        r is Some ==> list_of(*outcome) == Some(strs(r->0@)),
{
    read_list(outcome)
}

/// What a run of `settings` says: nothing when the program could not be run,
/// else the entries of its listing.
pub open spec fn settings_of(o: Outcome) -> Option<Seq<(Seq<char>, Seq<char>)>> {
    match o {
        Outcome::Failed => None,
        Outcome::Exited { stdout, .. } => Some(key_values(stdout@)),
    }
}

/// Reads the output of `settings`.
pub fn settings(outcome: &Outcome) -> (r: Option<Vec<(String, String)>>)
    ensures
        r is None <==> settings_of(*outcome) is None,
        r is Some ==> settings_of(*outcome) == Some(pairs(r->0@)),
{
    match outcome {
        Outcome::Failed => None,
        Outcome::Exited { stdout, .. } => Some(parse_key_value(stdout.as_str())),
    }
}

/// The on/off argument that flips a setting whose value is `value`.
pub open spec fn flip_arg(value: Seq<char>) -> Seq<char> {
    if value == "enabled"@ {
        "off"@
    } else {
        "on"@
    }
}

/// The arguments that flip the setting `key` (already lower-cased) from its
/// value `value`. DNS takes a fixed pair of server addresses; LAN discovery
/// takes a hyphenated name; any other key is sent without its spaces.
pub open spec fn setting_args(key: Seq<char>, value: Seq<char>) -> Seq<Seq<char>> {
    if key == "dns"@ {
        seq!["set"@, "dns"@, "103.86.96.100"@, "103.86.99.100"@]
    } else if key == "lan discovery"@ {
        seq!["set"@, "lan-discovery"@, flip_arg(value)]
    } else {
        seq!["set"@, without(key, ' '), flip_arg(value)]
    }
}

/// The arguments that flip a setting, given its key in lower case.
pub fn setting_command(lower_key: &str, value: &str) -> (r: Vec<String>)
    ensures
        strs(r@) == setting_args(lower_key@, value@),
{
    let option = if same(value, "enabled") {
        String::from_str("off")
    } else {
        String::from_str("on")
    };
    let r = if same(lower_key, "dns") {
        vec![
            String::from_str("set"),
            String::from_str("dns"),
            String::from_str("103.86.96.100"),
            String::from_str("103.86.99.100"),
        ]
    } else if same(lower_key, "lan discovery") {
        vec![String::from_str("set"), String::from_str("lan-discovery"), option]
    } else {
        vec![String::from_str("set"), remove_char(lower_key, ' '), option]
    };
    assert(strs(r@) =~= setting_args(lower_key@, value@));
    r
}

/// The lower-case form of a string, as `str::to_lowercase` gives it.
pub uninterp spec fn lower_of(s: Seq<char>) -> Seq<char>;

/// Relies on `str::to_lowercase`: its result depends on the characters alone.
#[verifier::external_body]
fn lowercase(s: &str) -> (r: String)
    ensures
        r@ == lower_of(s@),
{
    s.to_lowercase()
}

/// The arguments that flip the setting `key` from its value `value`.
pub fn set_settings(key: &str, value: &str) -> (r: Vec<String>)
    ensures
        strs(r@) == setting_args(lower_of(key@), value@),
{
    let lower = lowercase(key);
    setting_command(lower.as_str(), value)
}

} // verus!

verus! {

/// Flipping a setting whose value is "enabled" sends "off"; any other value
/// sends "on". DNS, which takes server addresses, is the one key without it.
pub proof fn lemma_flip_argument(key: Seq<char>, value: Seq<char>)
    requires
        key != "dns"@,
    ensures
        setting_args(key, value).len() == 3,
        setting_args(key, value)[2] == flip_arg(value),
        value == "enabled"@ ==> setting_args(key, value)[2] == "off"@,
        value != "enabled"@ ==> setting_args(key, value)[2] == "on"@,
{
}

} // verus!
