//! The decisions of a session with rclone's non-interactive config state
//! machine (`rclone config create --non-interactive`, then `rclone config
//! update --continue --state=... --result=...`), used for backends that
//! need more than a flat form: Google Drive's OAuth handshake and iCloud
//! Drive's 2FA prompt.
//!
//! Each step is one `rclone` run, which answers with one JSON object: it
//! needs another answer (`State` non-empty, `Option` describes what), it is
//! done (`State` empty), or it failed (`Error` non-empty). Running rclone,
//! decoding its JSON and the private scratch config file are the caller's
//! part; this module builds the command lines and environment names, reads
//! each answer, and extracts the finished remote section.
use crate::backend::set_all;
use crate::error::Error;
use crate::rclone_config::{
    control_message, parse_error_message, set_clean, parse_message_splits_char, render_lines, section_names, spec_parse,
    spec_section_entries, Document, LineV,
};
use crate::text::{
    ascii_lower_chars, chars_contain, chars_of, contains_seq, lower_seq, owned, push_char, push_str,
    str_eq, trim, trimmed,
};
use vstd::prelude::*;

verus! {

/// One field rclone still needs an answer for.
#[derive(Debug, Clone, PartialEq, Eq)]
pub struct DriverPrompt {
    /// rclone's internal option name, e.g. `config_is_local`, `config_2fa`.
    pub name: String,
    /// Human-readable prompt text, shown to the user verbatim.
    pub help: String,
    /// Whether the answer should be entered as a password (echo hidden).
    pub is_password: bool,
}

/// A prompt that looks like a request for a 2FA code: its name mentions
/// `2fa` or `code`, or its help mentions `2fa` or `two-factor`, ignoring
/// ASCII case.
pub open spec fn looks_like_2fa_spec(name: Seq<char>, help: Seq<char>) -> bool {
    ||| contains_seq(lower_seq(name), "2fa"@)
    ||| contains_seq(lower_seq(name), "code"@)
    ||| contains_seq(lower_seq(help), "2fa"@)
    ||| contains_seq(lower_seq(help), "two-factor"@)
}

impl DriverPrompt {
    /// Heuristic: does this prompt look like a 2FA code request? rclone
    /// exposes no machine-readable "this is a 2FA step" flag, so callers that
    /// need to tell (iCloud) match on the option name and help text.
    pub fn looks_like_2fa(&self) -> (r: bool)
        ensures
            r == looks_like_2fa_spec(self.name@, self.help@),
    {
        let name = ascii_lower_chars(self.name.as_str());
        let help = ascii_lower_chars(self.help.as_str());
        chars_contain(&name, "2fa") || chars_contain(&name, "code") || chars_contain(&help, "2fa")
            || chars_contain(&help, "two-factor")
    }

    /// Whether this prompt asks whether to use a local web browser for OAuth.
    pub fn looks_like_local_browser_choice(&self) -> (r: bool)
        ensures
            r == (self.name@ == "config_is_local"@),
    {
        str_eq(self.name.as_str(), "config_is_local")
    }
}

/// Where a config session stands after one step.
#[derive(Debug, Clone)]
pub enum DriverStep {
    /// Config finished. `remote_conf` is the complete rclone.conf-shaped
    /// `[<remote_name>]` section, read from the scratch config file.
    Done { remote_conf: String },
    /// rclone needs one more answer to proceed.
    NeedInput { state: String, prompt: DriverPrompt },
    Error(String),
}

/// rclone's answer to one step, as its JSON object carries it.
#[derive(Debug, Clone)]
pub struct RawStep {
    pub state: String,
    pub option: Option<DriverPrompt>,
    pub error: String,
}

/// How an answer reads before the scratch config is looked at.
#[derive(Debug, Clone)]
pub enum StepReading {
    /// The step to report.
    Step(DriverStep),
    /// rclone is done: the finished remote section is to be read from the
    /// scratch config (see [`finished_remote_section`]).
    Finished,
}

/// The message for a continuation that names no option.
pub open spec fn missing_option_message() -> Seq<char> {
    "rclone asked to continue but didn't say what it needs"@
}

/// Reads one answer: a non-empty `Error` wins; otherwise an empty `State`
/// means done; otherwise the answer must say what it needs.
pub fn read_raw_step(raw: RawStep) -> (r: StepReading)
    ensures
        raw.error@.len() > 0 ==> (r matches StepReading::Step(DriverStep::Error(e)) && e@ == raw.error@),
        raw.error@.len() == 0 && raw.state@.len() == 0 ==> r is Finished,
        raw.error@.len() == 0 && raw.state@.len() > 0 && raw.option is None ==> (r matches StepReading::Step(
            DriverStep::Error(e),
        ) && e@ == missing_option_message()),
        raw.error@.len() == 0 && raw.state@.len() > 0 && raw.option is Some ==> (r matches StepReading::Step(
            DriverStep::NeedInput { state, prompt },
        ) && state@ == raw.state@ && prompt == raw.option->0),
{
    if !raw.error.as_str().is_empty() {
        return StepReading::Step(DriverStep::Error(raw.error));
    }
    if raw.state.as_str().is_empty() {
        return StepReading::Finished;
    }
    match raw.option {
        None => StepReading::Step(
            DriverStep::Error(owned("rclone asked to continue but didn't say what it needs")),
        ),
        Some(prompt) => StepReading::Step(DriverStep::NeedInput { state: raw.state, prompt }),
    }
}

/// The step for an rclone run that failed without answering: its trimmed
/// error output. `None` when rclone answered (or succeeded), so the answer
/// is to be read.
pub fn unanswered_failure(succeeded: bool, stdout: &str, stderr: &str) -> (r: Option<DriverStep>)
    ensures
        !succeeded && stdout@.len() == 0 ==> (r matches Some(DriverStep::Error(e)) && e@ == trim(stderr@)),
        succeeded || stdout@.len() > 0 ==> r is None,
{
    if !succeeded && stdout.is_empty() {
        Some(DriverStep::Error(trimmed(stderr)))
    } else {
        None
    }
}

/// The message for a finished session whose scratch config lacks the remote.
pub open spec fn missing_section_message(name: Seq<char>) -> Seq<char> {
    "rclone finished but the scratch config has no ["@ + name + "] section"@
}

/// Every entry of `es` can be set in section `sec`.
pub open spec fn entries_clean(sec: Seq<char>, es: Seq<(Seq<char>, Seq<char>)>) -> bool {
    forall|i: int| 0 <= i < es.len() ==> set_clean(sec, #[trigger] es[i].0, es[i].1)
}

/// The `[<remote_name>]` section rclone wrote into the scratch config,
/// re-emitted through `Document::set` as a document of its own (other
/// sections never leak into it, and a control character is refused).
pub fn finished_remote_section(scratch: &str, remote_name: &str) -> (r: Result<String, Error>)
    requires
        !parse_message_splits_char(scratch@),
    ensures
        match spec_parse(scratch@) {
            Err(p) => r matches Err(Error::ConfigParse(m)) && m@ == parse_error_message(scratch@, p),
            Ok(ls) => if section_names(ls).contains(remote_name@) {
                if entries_clean(remote_name@, spec_section_entries(ls, remote_name@)) {
                    r matches Ok(t) && t@ == render_lines(
                        set_all(Seq::<LineV>::empty(), remote_name@, spec_section_entries(ls, remote_name@)),
                    )
                } else {
                    r matches Err(Error::ConfigParse(m)) && m@ == control_message()
                }
            } else {
                r matches Err(Error::Systemd(m)) && m@ == missing_section_message(remote_name@)
            },
        },
{
    let doc = match Document::parse(scratch) {
        Ok(d) => d,
        Err(e) => {
            return Err(e);
        },
    };
    let names = doc.sections();
    let ghost ns = names@.map_values(|x: &str| x@);
    let mut found = false;
    let mut i: usize = 0;
    while i < names.len()
        invariant
            ns == names@.map_values(|x: &str| x@),
            i <= ns.len(),
            found == (exists|j: int| 0 <= j < i && ns[j] == remote_name@),
        decreases ns.len() - i,
    {
        let hit = str_eq(names[i], remote_name);
        proof {
            assert(ns[i as int] == names@[i as int]@);
            if hit {
                assert(0 <= i < i + 1 && ns[i as int] == remote_name@);
            }
            if !hit && !found {
                assert forall|j: int| 0 <= j < i + 1 implies ns[j] != remote_name@ by {
                    if j < i {
                        assert(!(0 <= j < i && ns[j] == remote_name@));
                    }
                }
            }
        }
        if hit {
            found = true;
        }
        i = i + 1;
    }
    if !found {
        let mut m = String::new();
        push_str(&mut m, "rclone finished but the scratch config has no [");
        push_str(&mut m, remote_name);
        push_str(&mut m, "] section");
        return Err(Error::Systemd(m));
    }
    assert(section_names(doc@).contains(remote_name@)) by {
        let w = choose|j: int| 0 <= j < ns.len() && ns[j] == remote_name@;
        assert(section_names(doc@)[w] == remote_name@);
    }
    let entries = doc.section_entries(remote_name);
    let ghost es = entries@.map_values(|p: (&str, &str)| (p.0@, p.1@));
    let mut out = Document::default();
    let mut j: usize = 0;
    while j < entries.len()
        invariant
            es == entries@.map_values(|p: (&str, &str)| (p.0@, p.1@)),
            j <= es.len(),
            out@ == set_all(Seq::<LineV>::empty(), remote_name@, es.take(j as int)),
            forall|q: int| 0 <= q < j ==> set_clean(remote_name@, #[trigger] es[q].0, es[q].1),
            spec_parse(scratch@) == Ok::<Seq<LineV>, int>(doc@),
            section_names(doc@).contains(remote_name@),
            es == spec_section_entries(doc@, remote_name@),
        decreases es.len() - j,
    {
        let (k, v) = entries[j];
        assert(es[j as int] == (k@, v@));
        match out.set(remote_name, k, v) {
            Ok(()) => {},
            Err(e) => {
                assert(!set_clean(remote_name@, es[j as int].0, es[j as int].1));
                assert(!entries_clean(remote_name@, es));
                return Err(e);
            },
        }
        proof {
            assert(es.take(j + 1).drop_last() =~= es.take(j as int));
            assert(es[j as int] == (k@, v@));
        }
        j = j + 1;
    }
    assert(es.take(es.len() as int) =~= es);
    assert(entries_clean(remote_name@, es));
    Ok(out.render())
}

/// The arguments of `rclone` that start a config session.
pub open spec fn create_argv(remote_name: Seq<char>, kind_tag: Seq<char>, scratch_path: Seq<char>) -> Seq<
    Seq<char>,
> {
    seq!["config"@, "create"@, remote_name, kind_tag, "--non-interactive"@, "--config"@, scratch_path]
}

/// The arguments of `rclone` that answer a prompt and advance the session.
pub open spec fn continue_argv(
    remote_name: Seq<char>,
    state: Seq<char>,
    answer: Seq<char>,
    scratch_path: Seq<char>,
) -> Seq<Seq<char>> {
    seq![
        "config"@,
        "update"@,
        remote_name,
        "--continue"@,
        "--state"@,
        state,
        "--result"@,
        answer,
        "--non-interactive"@,
        "--config"@,
        scratch_path,
    ]
}

/// `rclone config create <remote_name> <kind_tag> --non-interactive --config
/// <scratch>`. Known values ride in the environment, not on the command line.
pub fn create_args(remote_name: &str, kind_tag: &str, scratch_path: &str) -> (r: Vec<String>)
    ensures
        r@.map_values(|a: String| a@) == create_argv(remote_name@, kind_tag@, scratch_path@),
{
    let mut v: Vec<String> = Vec::new();
    v.push(owned("config"));
    v.push(owned("create"));
    v.push(owned(remote_name));
    v.push(owned(kind_tag));
    v.push(owned("--non-interactive"));
    v.push(owned("--config"));
    v.push(owned(scratch_path));
    assert(v@.map_values(|a: String| a@) =~= create_argv(remote_name@, kind_tag@, scratch_path@));
    v
}

/// `rclone config update <remote_name> --continue --state <state> --result
/// <answer> --non-interactive --config <scratch>`.
pub fn continue_args(remote_name: &str, state: &str, answer: &str, scratch_path: &str) -> (r: Vec<String>)
    ensures
        r@.map_values(|a: String| a@) == continue_argv(remote_name@, state@, answer@, scratch_path@),
{
    let mut v: Vec<String> = Vec::new();
    v.push(owned("config"));
    v.push(owned("update"));
    v.push(owned(remote_name));
    v.push(owned("--continue"));
    v.push(owned("--state"));
    v.push(owned(state));
    v.push(owned("--result"));
    v.push(owned(answer));
    v.push(owned("--non-interactive"));
    v.push(owned("--config"));
    v.push(owned(scratch_path));
    assert(v@.map_values(|a: String| a@) =~= continue_argv(remote_name@, state@, answer@, scratch_path@));
    v
}

/// Whether `key` of `kind_tag` is a password rclone stores obscured. The
/// `--<backend>-<option>` form used to keep values off the command line does
/// not obscure it, so the caller must first. Currently just iCloud Drive's
/// account password.
pub fn needs_obscure(kind_tag: &str, key: &str) -> (r: bool)
    ensures
        r == (kind_tag@ == "iclouddrive"@ && key@ == "password"@),
{
    str_eq(kind_tag, "iclouddrive") && str_eq(key, "password")
}

/// The result of `str::to_uppercase` on a string: Unicode's full uppercase
/// mapping, character by character.
pub uninterp spec fn unicode_uppercase(s: Seq<char>) -> Seq<char>;

/// `str::to_uppercase`. Trusted: its result is the named
/// [`unicode_uppercase`] of its argument; nothing more is claimed of it.
#[verifier::external_body]
fn to_uppercase(s: &str) -> (r: String)
    ensures
        r@ == unicode_uppercase(s@),
{
    s.to_uppercase()
}

/// `s` with every `-` replaced by `_`.
pub open spec fn dashes_to_underscores(s: Seq<char>) -> Seq<char> {
    Seq::new(s.len(), |i: int| if s[i] == '-' { '_' } else { s[i] })
}

/// `RCLONE_<KIND>_<KEY>` from already-uppercased parts, `-` turned to `_`.
pub open spec fn env_var_spec(kind_upper: Seq<char>, key_upper: Seq<char>) -> Seq<char> {
    "RCLONE_"@ + dashes_to_underscores(kind_upper) + "_"@ + dashes_to_underscores(key_upper)
}

/// Appends `s` with `-` replaced by `_`.
fn push_underscored(out: &mut String, s: &str)
    ensures
        final(out)@ == old(out)@ + dashes_to_underscores(s@),
{
    let cs = chars_of(s);
    let ghost start = out@;
    let mut i: usize = 0;
    while i < cs.len()
        invariant
            cs@ == s@,
            i <= cs@.len(),
            out@ == start + dashes_to_underscores(cs@.take(i as int)),
        decreases cs@.len() - i,
    {
        let c = if cs[i] == '-' {
            '_'
        } else {
            cs[i]
        };
        push_char(out, c);
        assert(dashes_to_underscores(cs@.take(i + 1)) =~= dashes_to_underscores(cs@.take(i as int)).push(c));
        i = i + 1;
    }
    assert(cs@.take(cs@.len() as int) =~= cs@);
}

/// The environment variable name for an already-uppercased backend and
/// option: `RCLONE_<KIND>_<KEY>`, with `-` turned to `_`.
pub fn env_var_from_upper(kind_upper: &str, key_upper: &str) -> (r: String)
    ensures
        r@ == env_var_spec(kind_upper@, key_upper@),
{
    let mut out = String::new();
    push_str(&mut out, "RCLONE_");
    push_underscored(&mut out, kind_upper);
    push_str(&mut out, "_");
    push_underscored(&mut out, key_upper);
    out
}

/// The `RCLONE_<BACKEND>_<OPTION>` environment variable rclone binds to the
/// `--<backend>-<option>` flag, per rclone's "every flag is also an env var"
/// convention.
pub fn backend_option_env_var(kind_tag: &str, key: &str) -> (r: String)
    ensures
        r@ == env_var_spec(unicode_uppercase(kind_tag@), unicode_uppercase(key@)),
{
    let k = to_uppercase(kind_tag);
    let o = to_uppercase(key);
    env_var_from_upper(k.as_str(), o.as_str())
}

} // verus!
