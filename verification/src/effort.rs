//! The effort level: read from `/effort` commands in a session transcript,
//! from the `effortLevel` of the settings file, and from the environment.
use vstd::prelude::*;

use crate::json::{json_string_at, lookup_json_string, lookup_view};
use crate::text::{
    chars_of, contains, contains_exec, find, find_exec, occurs_at, lowercase, lowercase_string, string_eq,
    string_of, strip_prefix, strip_prefix_exec, subvec, to_string, trim, trim_chars,
};
use crate::timestamp::{timestamp_convertible, timestamp_millis, try_iso_ts_to_epoch};

verus! {

broadcast use vstd::string::group_string_axioms;

// ---------------------------------------------------------------------------
// Specifications
// ---------------------------------------------------------------------------

/// The recognized effort levels: low, medium, high, max, auto.
pub open spec fn is_valid_effort(e: Seq<char>) -> bool {
    ||| e == "low"@
    ||| e == "medium"@
    ||| e == "high"@
    ||| e == "max"@
    ||| e == "auto"@
}

/// The level that stands when nothing else is known.
pub open spec fn default_effort() -> Seq<char> {
    "auto"@
}

/// The tag that marks a `/effort` command in a transcript line.
pub open spec fn command_tag() -> Seq<char> {
    "<command-name>/effort</command-name>"@
}

pub open spec fn args_open_tag() -> Seq<char> {
    "<command-args>"@
}

pub open spec fn args_close_tag() -> Seq<char> {
    "</command-args>"@
}

pub open spec fn queue_operation_marker() -> Seq<char> {
    "\"queue-operation\""@
}

pub open spec fn effort_command_prefix() -> Seq<char> {
    "/effort "@
}

/// The normalized level that `raw` names: `raw` trimmed and lowercased.
pub open spec fn normalized(raw: Seq<char>) -> Seq<char> {
    lowercase(trim(raw))
}

/// The `timestamp` string of the JSON line, or the empty text when it has none.
pub open spec fn line_timestamp(line: Seq<char>) -> Seq<char> {
    match json_string_at(line, "/timestamp"@) {
        Some(Some(t)) => t,
        _ => Seq::empty(),
    }
}

/// The text between the first `<command-args>` of `content` and the first
/// `</command-args>` after it.
pub open spec fn command_args(content: Seq<char>) -> Option<Seq<char>> {
    match find(content, args_open_tag()) {
        None => None,
        Some(i) => {
            let rest = content.subrange(i + args_open_tag().len(), content.len() as int);
            match find(rest, args_close_tag()) {
                None => None,
                Some(j) => Some(rest.subrange(0, j)),
            }
        },
    }
}

/// An effort level named by `raw`, with the timestamp of `line`: present when
/// the normalized text is a valid level.
pub open spec fn named_effort(raw: Seq<char>, line: Seq<char>) -> Option<(Seq<char>, Seq<char>)> {
    let e = normalized(raw);
    if e.len() == 0 {
        None
    } else if is_valid_effort(e) {
        Some((e, line_timestamp(line)))
    } else {
        None
    }
}

/// The level that a user `/effort` command on `line` sets: `line` is a JSON
/// object of `type` "user" whose `message.content` is a string holding the
/// command tag and the command arguments.
pub open spec fn user_command_effort(line: Seq<char>) -> Option<(Seq<char>, Seq<char>)> {
    if json_string_at(line, "/type"@) != Some(Some("user"@)) {
        None
    } else {
        match json_string_at(line, "/message/content"@) {
            Some(Some(content)) => if !contains(content, command_tag()) {
                None
            } else {
                match command_args(content) {
                    None => None,
                    Some(args) => named_effort(args, line),
                }
            },
            _ => None,
        }
    }
}

/// The level that a queued `/effort <level>` operation on `line` sets: the
/// `content` string of the JSON object starts with `/effort `.
pub open spec fn queue_effort(line: Seq<char>) -> Option<(Seq<char>, Seq<char>)> {
    match json_string_at(line, "/content"@) {
        Some(Some(content)) => match strip_prefix(content, effort_command_prefix()) {
            None => None,
            Some(rest) => named_effort(rest, line),
        },
        _ => None,
    }
}

/// The last level known after reading the transcript line `raw`, given the
/// last one known before it.
pub open spec fn effort_after_line(
    known: Option<(Seq<char>, Seq<char>)>,
    raw: Seq<char>,
) -> Option<(Seq<char>, Seq<char>)> {
    let line = trim(raw);
    if line.len() == 0 {
        known
    } else {
        let after_command = if contains(line, command_tag()) {
            match user_command_effort(line) {
                Some(e) => Some(e),
                None => known,
            }
        } else {
            known
        };
        if contains(line, queue_operation_marker()) && contains(line, effort_command_prefix()) {
            match queue_effort(line) {
                Some(e) => Some(e),
                None => after_command,
            }
        } else {
            after_command
        }
    }
}

/// The level (and its timestamp) that the last `/effort` line of the
/// transcript sets.
pub open spec fn last_effort(lines: Seq<Seq<char>>) -> Option<(Seq<char>, Seq<char>)>
    decreases lines.len(),
{
    if lines.len() == 0 {
        None
    } else {
        effort_after_line(last_effort(lines.drop_last()), lines.last())
    }
}

/// The level that the settings file `content` sets: its `effortLevel`
/// normalized when that is a valid level, otherwise "auto"; nothing when the
/// content is not JSON.
pub open spec fn settings_effort(content: Seq<char>) -> Option<Seq<char>> {
    match json_string_at(content, "/effortLevel"@) {
        None => None,
        Some(None) => Some(default_effort()),
        Some(Some(e)) => if is_valid_effort(normalized(e)) {
            Some(normalized(e))
        } else {
            Some(default_effort())
        },
    }
}

/// The level that the environment value sets, "auto" when it names none.
pub open spec fn env_effort(value: Option<Seq<char>>) -> Seq<char> {
    match value {
        Some(v) => if is_valid_effort(normalized(v)) {
            normalized(v)
        } else {
            default_effort()
        },
        None => default_effort(),
    }
}

/// The level in force: when both the transcript and the settings name one,
/// the transcript wins if its timestamp is later than the settings file's
/// modification time (in milliseconds); otherwise whichever names one wins;
/// otherwise the environment decides.
pub open spec fn decided_effort(
    transcript: Option<(Seq<char>, Seq<char>)>,
    settings: Option<(Seq<char>, int)>,
    env: Option<Seq<char>>,
) -> Seq<char> {
    match (transcript, settings) {
        (Some((te, tts)), Some((se, smtime))) => if timestamp_millis(tts) > smtime {
            te
        } else {
            se
        },
        (Some((te, _)), None) => te,
        (None, Some((se, _))) => se,
        (None, None) => env_effort(env),
    }
}

/// The timestamp comparison of `decided_effort` can be made.
pub open spec fn decidable(
    transcript: Option<(Seq<char>, Seq<char>)>,
    settings: Option<(Seq<char>, int)>,
) -> bool {
    match (transcript, settings) {
        (Some((_, ts)), Some(_)) => timestamp_convertible(ts),
        _ => true,
    }
}

pub open spec fn pair_view(r: Option<(String, String)>) -> Option<(Seq<char>, Seq<char>)> {
    match r {
        Some((a, b)) => Some((a@, b@)),
        None => None,
    }
}

pub open spec fn lines_view(lines: Seq<String>) -> Seq<Seq<char>> {
    lines.map_values(|l: String| l@)
}

/// What the settings file says: its level and its modification time.
pub open spec fn settings_view(settings: Option<(String, u128)>) -> Option<(Seq<char>, int)> {
    match settings {
        Some((content, mtime)) => match settings_effort(content@) {
            Some(e) => Some((e, mtime as int)),
            None => None,
        },
        None => None,
    }
}

pub open spec fn opt_view(v: Option<String>) -> Option<Seq<char>> {
    match v {
        Some(s) => Some(s@),
        None => None,
    }
}

// ---------------------------------------------------------------------------
// Laws
// ---------------------------------------------------------------------------

/// Every level the transcript yields is a valid one.
pub proof fn lemma_last_effort_valid(lines: Seq<Seq<char>>)
    ensures
        last_effort(lines) matches Some((e, _)) ==> is_valid_effort(e),
    decreases lines.len(),
{
    if lines.len() > 0 {
        lemma_last_effort_valid(lines.drop_last());
    }
}

/// A later line that sets a level overrides every earlier one; a line that
/// sets none leaves the level known so far.
pub proof fn lemma_later_line_wins(lines: Seq<Seq<char>>, line: Seq<char>)
    ensures
        last_effort(lines.push(line)) == effort_after_line(last_effort(lines), line),
        effort_after_line(None, line) matches Some(e) ==> last_effort(lines.push(line)) == Some(
            e,
        ),
        effort_after_line(None, line) is None ==> last_effort(lines.push(line)) == last_effort(
            lines,
        ),
{
    assert(lines.push(line).drop_last() =~= lines);
}

/// The level in force is always one of the valid levels.
pub proof fn lemma_decided_effort_valid(
    lines: Seq<Seq<char>>,
    settings: Option<(Seq<char>, int)>,
    env: Option<Seq<char>>,
)
    requires
        settings matches Some((e, _)) ==> is_valid_effort(e),
    ensures
        is_valid_effort(decided_effort(last_effort(lines), settings, env)),
{
    lemma_last_effort_valid(lines);
    reveal_strlit("auto");
}

/// When both the transcript and the settings name a level, the one written
/// more recently wins: the transcript's level when its timestamp is later
/// than the settings file's modification time, otherwise the settings'
/// level, whatever that level is ("auto" included). The environment then
/// plays no part.
pub proof fn lemma_more_recent_source_wins(
    te: Seq<char>,
    tts: Seq<char>,
    se: Seq<char>,
    smtime: int,
    env: Option<Seq<char>>,
)
    ensures
        timestamp_millis(tts) > smtime ==> decided_effort(Some((te, tts)), Some((se, smtime)), env)
            == te,
        timestamp_millis(tts) <= smtime ==> decided_effort(Some((te, tts)), Some((se, smtime)), env)
            == se,
{
}

/// A level named by only one of the transcript and the settings wins over
/// the environment; with neither, a valid environment value wins, and "auto"
/// stands otherwise.
pub proof fn lemma_single_source_wins(
    te: Seq<char>,
    tts: Seq<char>,
    se: Seq<char>,
    smtime: int,
    env: Option<Seq<char>>,
)
    ensures
        decided_effort(Some((te, tts)), None, env) == te,
        decided_effort(None, Some((se, smtime)), env) == se,
        env matches Some(v) ==> (is_valid_effort(lowercase(trim(v))) ==> decided_effort(
            None,
            None,
            env,
        ) == lowercase(trim(v))),
        (env matches Some(v) ==> !is_valid_effort(lowercase(trim(v)))) ==> decided_effort(
            None,
            None,
            env,
        ) == "auto"@,
{
}

/// A settings file without an `effortLevel` counts as "auto" written at its
/// modification time: it beats a transcript `/effort` command made earlier
/// (or at the same millisecond), and loses to one made later.
pub proof fn lemma_settings_without_level_count_as_auto(
    lines: Seq<Seq<char>>,
    te: Seq<char>,
    tts: Seq<char>,
    content: Seq<char>,
    mtime: int,
    env: Option<Seq<char>>,
)
    requires
        json_string_at(content, "/effortLevel"@) == Some(None::<Seq<char>>),
        last_effort(lines) == Some((te, tts)),
    ensures
        settings_effort(content) == Some("auto"@),
        timestamp_millis(tts) <= mtime ==> decided_effort(
            last_effort(lines),
            Some(("auto"@, mtime)),
            env,
        ) == "auto"@,
        timestamp_millis(tts) > mtime ==> decided_effort(
            last_effort(lines),
            Some(("auto"@, mtime)),
            env,
        ) == te,
{
    reveal_strlit("auto");
}

/// A transcript line that mentions neither the `/effort` command tag nor both
/// a queued operation and `/effort ` leaves the level as it was; so does a
/// blank line. A line that sets a level sets a valid one.
pub proof fn lemma_other_lines_change_nothing(
    known: Option<(Seq<char>, Seq<char>)>,
    raw: Seq<char>,
)
    ensures
        !contains(trim(raw), command_tag()) && !(contains(trim(raw), queue_operation_marker())
            && contains(trim(raw), effort_command_prefix())) ==> effort_after_line(known, raw)
            == known,
        trim(raw).len() == 0 ==> effort_after_line(known, raw) == known,
        effort_after_line(known, raw) != known ==> (effort_after_line(known, raw) matches Some(
            (e, _),
        ) && is_valid_effort(e)),
{
}

/// An `effortLevel` string sets its trimmed, lowercased form when that is a
/// valid level, and "auto" otherwise; an `effortLevel` that is absent or not
/// a string means "auto".
pub proof fn lemma_settings_level_read(content: Seq<char>)
    ensures
        json_string_at(content, "/effortLevel"@) matches Some(Some(level)) ==> settings_effort(
            content,
        ) == Some(
            if is_valid_effort(lowercase(trim(level))) {
                lowercase(trim(level))
            } else {
                "auto"@
            },
        ),
        json_string_at(content, "/effortLevel"@) == Some(None::<Seq<char>>) ==> settings_effort(
            content,
        ) == Some("auto"@),
        json_string_at(content, "/effortLevel"@) is None ==> settings_effort(content) is None,
{
}

/// The settings file yields a valid level whenever it is JSON; a missing
/// `effortLevel` means "auto".
pub proof fn lemma_settings_effort_valid(content: Seq<char>)
    ensures
        settings_effort(content) matches Some(e) ==> is_valid_effort(e),
        json_string_at(content, "/effortLevel"@) is Some <==> settings_effort(content) is Some,
        json_string_at(content, "/effortLevel"@) == Some(None::<Seq<char>>) ==> settings_effort(
            content,
        ) == Some("auto"@),
{
    reveal_strlit("auto");
}

// ---------------------------------------------------------------------------
// Executable functions
// ---------------------------------------------------------------------------

/// Whether `e` is one of the valid levels.
pub fn is_valid_effort_exec(e: &String) -> (b: bool)
    ensures
        b == is_valid_effort(e@),
{
    string_eq(e, "low") || string_eq(e, "medium") || string_eq(e, "high") || string_eq(e, "max")
        || string_eq(e, "auto")
}

/// The normalized form of `raw`: trimmed and lowercased.
fn normalize(raw: &Vec<char>) -> (r: String)
    ensures
        r@ == normalized(raw@),
{
    let trimmed = string_of(&trim_chars(raw));
    lowercase_string(trimmed.as_str())
}

/// The `timestamp` string of the JSON line, or the empty text.
fn timestamp_of(line: &str) -> (r: String)
    ensures
        r@ == line_timestamp(line@),
{
    match lookup_json_string(line, "/timestamp") {
        Some(Some(t)) => t,
        _ => String::new(),
    }
}

/// The level named by `raw`, with the timestamp of `line`.
fn effort_named_by(raw: &Vec<char>, line: &str) -> (r: Option<(String, String)>)
    ensures
        pair_view(r) == named_effort(raw@, line@),
{
    let e = normalize(raw);
    if e.as_str().is_empty() {
        None
    } else if is_valid_effort_exec(&e) {
        Some((e, timestamp_of(line)))
    } else {
        None
    }
}

/// The text between `<command-args>` and `</command-args>` in `content`.
fn command_args_exec(content: &Vec<char>) -> (r: Option<Vec<char>>)
    ensures
        match r {
            Some(a) => command_args(content@) == Some(a@),
            None => command_args(content@) is None,
        },
{
    let open = chars_of("<command-args>");
    let close = chars_of("</command-args>");
    match find_exec(content, &open) {
        None => None,
        Some(i) => {
            assert(occurs_at(content@, open@, i as int));
            assert(i + open@.len() <= content.len());
            let start = i + open.len();
            let rest = subvec(content, start, content.len());
            match find_exec(&rest, &close) {
                None => None,
                Some(j) => Some(subvec(&rest, 0, j)),
            }
        },
    }
}

/// Extracts the level and timestamp of a user `/effort` command entry.
pub fn extract_effort_from_user_command(line: &str) -> (r: Option<(String, String)>)
    ensures
        pair_view(r) == user_command_effort(line@),
{
    let is_user = match lookup_json_string(line, "/type") {
        Some(Some(t)) => string_eq(&t, "user"),
        _ => false,
    };
    if !is_user {
        return None;
    }
    let content = match lookup_json_string(line, "/message/content") {
        Some(Some(c)) => c,
        _ => {
            return None;
        },
    };
    let content = chars_of(content.as_str());
    if !contains_exec(&content, &chars_of("<command-name>/effort</command-name>")) {
        return None;
    }
    match command_args_exec(&content) {
        None => None,
        Some(args) => effort_named_by(&args, line),
    }
}

/// Extracts the level and timestamp of a queued `/effort <level>` operation.
pub fn extract_queue_effort(line: &str) -> (r: Option<(String, String)>)
    ensures
        pair_view(r) == queue_effort(line@),
{
    match lookup_json_string(line, "/content") {
        Some(Some(content)) => {
            let content = chars_of(content.as_str());
            match strip_prefix_exec(&content, &chars_of("/effort ")) {
                None => None,
                Some(rest) => effort_named_by(&rest, line),
            }
        },
        _ => None,
    }
}

/// The last level known after reading the transcript line `raw`.
fn read_effort_line(known: Option<(String, String)>, raw: &String) -> (r: Option<(String, String)>)
    ensures
        pair_view(r) == effort_after_line(pair_view(known), raw@),
{
    let line_chars = trim_chars(&chars_of(raw.as_str()));
    if line_chars.len() == 0 {
        return known;
    }
    let line = string_of(&line_chars);
    let after_command = if contains_exec(
        &line_chars,
        &chars_of("<command-name>/effort</command-name>"),
    ) {
        match extract_effort_from_user_command(line.as_str()) {
            Some(e) => Some(e),
            None => known,
        }
    } else {
        known
    };
    if contains_exec(&line_chars, &chars_of("\"queue-operation\"")) && contains_exec(
        &line_chars,
        &chars_of("/effort "),
    ) {
        match extract_queue_effort(line.as_str()) {
            Some(e) => Some(e),
            None => after_command,
        }
    } else {
        after_command
    }
}

/// The level (and its timestamp) of the last `/effort` command among the
/// transcript's lines.
pub fn parse_effort_from_transcript(lines: &Vec<String>) -> (r: Option<(String, String)>)
    ensures
        pair_view(r) == last_effort(lines_view(lines@)),
        r matches Some((e, _)) ==> is_valid_effort(e@),
{
    let mut known: Option<(String, String)> = None;
    let mut k: usize = 0;
    while k < lines.len()
        invariant
            k <= lines.len(),
            pair_view(known) == last_effort(lines_view(lines@.subrange(0, k as int))),
        decreases lines.len() - k,
    {
        known = read_effort_line(known, &lines[k]);
        proof {
            let before = lines_view(lines@.subrange(0, k as int));
            let after = lines_view(lines@.subrange(0, k + 1));
            assert(after.drop_last() =~= before);
            assert(after.last() == lines@[k as int]@);
        }
        k = k + 1;
    }
    assert(lines@.subrange(0, lines.len() as int) =~= lines@);
    proof {
        lemma_last_effort_valid(lines_view(lines@));
    }
    known
}

/// The level that the settings file `content` sets; `None` when it is not
/// JSON. A missing or unrecognized `effortLevel` means "auto".
pub fn read_effort_from_settings(content: &str) -> (r: Option<String>)
    ensures
        opt_view(r) == settings_effort(content@),
        r matches Some(e) ==> is_valid_effort(e@),
{
    proof {
        reveal_strlit("auto");
    }
    match lookup_json_string(content, "/effortLevel") {
        None => None,
        Some(None) => Some(to_string("auto")),
        Some(Some(level)) => {
            let e = normalize(&chars_of(level.as_str()));
            if is_valid_effort_exec(&e) {
                Some(e)
            } else {
                Some(to_string("auto"))
            }
        },
    }
}

/// The level that the environment value names, "auto" when it names none.
pub fn effort_from_env(value: Option<String>) -> (r: String)
    ensures
        r@ == env_effort(opt_view(value)),
        is_valid_effort(r@),
{
    proof {
        reveal_strlit("auto");
    }
    match value {
        Some(v) => {
            let e = normalize(&chars_of(v.as_str()));
            if is_valid_effort_exec(&e) {
                e
            } else {
                to_string("auto")
            }
        },
        None => to_string("auto"),
    }
}

/// Chooses the level in force from what the transcript, the settings file
/// (level and modification time in milliseconds) and the environment say.
pub fn decide_effort(
    transcript: Option<(String, String)>,
    settings: Option<(String, u128)>,
    env: Option<String>,
) -> (r: String)
    requires
        decidable(pair_view(transcript), settings_pair_view(settings)),
    ensures
        r@ == decided_effort(pair_view(transcript), settings_pair_view(settings), opt_view(env)),
{
    match (transcript, settings) {
        (Some((te, tts)), Some((se, smtime))) => {
            let t_millis = match try_iso_ts_to_epoch(tts.as_str()) {
                Some(v) => v,
                None => 0,
            };
            if t_millis > smtime {
                te
            } else {
                se
            }
        },
        (Some((te, _)), None) => te,
        (None, Some((se, _))) => se,
        (None, None) => effort_from_env(env),
    }
}

pub open spec fn settings_pair_view(settings: Option<(String, u128)>) -> Option<(Seq<char>, int)> {
    match settings {
        Some((e, m)) => Some((e@, m as int)),
        None => None,
    }
}

/// The effort level in force, from the transcript's lines, the settings file
/// (its content and modification time in milliseconds, when it could be read)
/// and the value of the effort environment variable.
pub fn resolve_effort_level(
    transcript_lines: &Vec<String>,
    settings_file: Option<(String, u128)>,
    env: Option<String>,
) -> (r: String)
    requires
        decidable(last_effort(lines_view(transcript_lines@)), settings_view(settings_file)),
    ensures
        r@ == decided_effort(
            last_effort(lines_view(transcript_lines@)),
            settings_view(settings_file),
            opt_view(env),
        ),
        is_valid_effort(r@),
{
    let transcript = parse_effort_from_transcript(transcript_lines);
    let settings: Option<(String, u128)> = match settings_file {
        Some((content, mtime)) => match read_effort_from_settings(content.as_str()) {
            Some(e) => Some((e, mtime)),
            None => None,
        },
        None => None,
    };
    proof {
        lemma_decided_effort_valid(
            lines_view(transcript_lines@),
            settings_view(settings_file),
            opt_view(env),
        );
    }
    decide_effort(transcript, settings, env)
}

/// Like `resolve_effort_level`, but `None` where the transcript's timestamp
/// cannot be converted (its day is 0, its month past 13, or its milliseconds
/// do not fit in 64 bits) and it would have to be compared.
pub fn try_resolve_effort_level(
    transcript_lines: &Vec<String>,
    settings_file: Option<(String, u128)>,
    env: Option<String>,
) -> (r: Option<String>)
    ensures
        match r {
            Some(e) => decidable(
                last_effort(lines_view(transcript_lines@)),
                settings_view(settings_file),
            ) && e@ == decided_effort(
                last_effort(lines_view(transcript_lines@)),
                settings_view(settings_file),
                opt_view(env),
            ),
            None => !decidable(
                last_effort(lines_view(transcript_lines@)),
                settings_view(settings_file),
            ),
        },
{
    let transcript = parse_effort_from_transcript(transcript_lines);
    let settings_known = match &settings_file {
        Some((content, _)) => read_effort_from_settings(content.as_str()).is_some(),
        None => false,
    };
    match &transcript {
        Some((_, ts)) => {
            if settings_known && try_iso_ts_to_epoch(ts.as_str()).is_none() {
                return None;
            }
        },
        None => {},
    }
    Some(resolve_effort_level(transcript_lines, settings_file, env))
}

} // verus!
