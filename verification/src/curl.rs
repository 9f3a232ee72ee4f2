//! The shell scripts that the API panel offers for copying: they send a command or a script to
//! the selected sessions through the relay.

use vstd::prelude::*;

use crate::i18n::{Catalog, Language};
use crate::json::{
    json_inner, json_key_lead, json_key_mark, json_object_head, json_object_text, json_simple_key,
    json_string, json_string_text, law_member_found, lemma_object_cut,
};
use crate::search::{
    contains_text, find_text, holds_text, join, join_texts, lemma_holds_inside, lemma_holds_last_three, lemma_holds_more,
    lemma_starts_more, stands_at, starts_with_text, text_less,
};
use crate::shell::{
    is_special, law_quoted_value_is_assigned, law_shell_escape_concat, law_shell_quote_reads_back,
    law_two_quoted_arguments, lemma_shell_read_push,
    shell_arguments, shell_escape, shell_escaped, shell_quote, shell_quoted, shell_read,
};
use crate::text::{chars_of, clone_texts, slice_of, texts};

verus! {

/// What a generated script sends; the relay takes exactly one of these fields.
#[derive(Clone, Debug, PartialEq)]
pub enum CurlPayload {
    Command(String),
    Script(String),
    ScriptBase64(String),
}

/// A generated script in three parts, so that the payload can be shown highlighted.
#[derive(Clone, Debug, PartialEq)]
pub struct CurlPreviewParts {
    pub before_command: String,
    pub command: String,
    pub after_command: String,
}

/// The texts of a script in three parts.
#[verifier::ext_equal]
pub struct CurlPreviewText {
    pub before: Seq<char>,
    pub command: Seq<char>,
    pub after: Seq<char>,
}

impl View for CurlPreviewParts {
    type V = CurlPreviewText;

    open spec fn view(&self) -> CurlPreviewText {
        CurlPreviewText {
            before: self.before_command@,
            command: self.command@,
            after: self.after_command@,
        }
    }
}

impl CurlPreviewText {
    /// The whole script.
    pub open spec fn script(self) -> Seq<char> {
        self.before + self.command + self.after
    }
}

impl CurlPreviewParts {
    /// The whole script.
    pub fn into_script(self) -> (r: String)
        ensures
            r@ == self@.script(),
    {
        let mut out = self.before_command;
        out.append(self.command.as_str());
        out.append(self.after_command.as_str());
        out
    }
}

/// Exports the relay address.
pub const EXPORT_URL: &'static str = "export RUSTERM_API_URL=";

/// Exports the account.
pub const EXPORT_USER: &'static str = "\n\
export RUSTERM_API_USER=";

/// Opens the function and its usage message.
pub const COMMAND_USAGE: &'static str = "\n\n\
rusterm() {\n\
if [ \"$#\" -eq 0 ]; then\n\
printf '";

/// Handles `--refresh` and a missing relay address.
pub const COMMAND_REFRESH: &'static str = "\\n' >&2\n\
return 2\n\
fi\n\
if [ \"$1\" = \"--refresh\" ]; then\n\
unset RUSTERM_API_PASSWORD\n\
shift\n\
[ \"$#\" -eq 0 ] && return 0\n\
fi\n\
RUSTERM_API_URL=$(printf '%s' \"$RUSTERM_API_URL\" | tr -d '\\r')\n\
RUSTERM_API_USER=$(printf '%s' \"$RUSTERM_API_USER\" | tr -d '\\r')\n\
if [ -z \"$RUSTERM_API_URL\" ]; then\n\
printf '";

/// Handles a missing account.
pub const COMMAND_NO_USER: &'static str = "\\n' >&2\n\
return 1\n\
fi\n\
if [ -z \"$RUSTERM_API_USER\" ]; then\n\
printf '";

/// Asks for the password where none is exported.
pub const COMMAND_PASSWORD: &'static str = "\\n' >&2\n\
return 1\n\
fi\n\n\
if [ -z \"${RUSTERM_API_PASSWORD+x}\" ]; then\n\
if [ ! -t 0 ]; then\n\
printf '";

/// Refuses to ask without a terminal.
pub const COMMAND_NOT_TTY: &'static str = "\\n' >&2\n\
return 1\n\
fi\n\
printf '";

/// Reads the password without echo.
pub const COMMAND_READ_PASSWORD: &'static str = "' >&2\n\
RUSTERM_STTY=$(stty -g)\n\
trap 'stty \"$RUSTERM_STTY\"' 0 1 2 15\n\
stty -echo\n\
IFS= read -r RUSTERM_API_PASSWORD\n\
stty \"$RUSTERM_STTY\"\n\
trap - 0 1 2 15\n\
printf '\\n' >&2\n\
export RUSTERM_API_PASSWORD\n\
fi\n\n\
RUSTERM_HOSTS=";

/// Handles an empty list of targets.
pub const COMMAND_HOSTS: &'static str = "\n\
RUSTERM_HOSTS=$(printf '%s' \"$RUSTERM_HOSTS\" | tr -d '\\r')\n\
if [ -z \"$RUSTERM_HOSTS\" ]; then\n\
printf '";

/// Notes whether commands run elevated.
pub const COMMAND_ELEVATED: &'static str = "\\n' >&2\n\
return 1\n\
fi\n\n\
RUSTERM_FAILED=0\n\
RUSTERM_ELEVATED='";

/// Sends the command to each target.
pub const COMMAND_LOOP: &'static str = "'\n\
RUSTERM_COUNT=0\n\
for RUSTERM_TARGET in $RUSTERM_HOSTS; do\n\
[ -z \"$RUSTERM_TARGET\" ] && continue\n\
RUSTERM_COUNT=$((RUSTERM_COUNT + 1))\n\
done\n\
for RUSTERM_TARGET in $RUSTERM_HOSTS; do\n\
[ -z \"$RUSTERM_TARGET\" ] && continue\n\
[ \"$RUSTERM_COUNT\" -gt 1 ] && printf '\\n==> %s\\n' \"$RUSTERM_TARGET\"\n\
if [ -n \"$RUSTERM_ELEVATED\" ]; then\n\
RUSTERM_OUT=$(curl --silent --show-error --fail-with-body \\\n        --connect-timeout 10 --max-time 120 \\\n        --request POST \\\n        --user \"${RUSTERM_API_USER}:${RUSTERM_API_PASSWORD}\" \\\n        --header 'Accept: text/plain' \\\n        --header 'Content-Type: text/plain; charset=utf-8' \\\n        --data-binary \"$*\" \\\n        \"${RUSTERM_API_URL}/r/${RUSTERM_TARGET}${RUSTERM_ELEVATED}\" 2>&1)\n\
RUSTERM_STATUS=$?\n\
if [ \"$RUSTERM_STATUS\" -eq 0 ]; then\n\
printf '%s\\n' \"$RUSTERM_OUT\"\n\
continue\n\
fi\n\
case \"$RUSTERM_OUT\" in\n\
*elevation_required*) ;;\n\
*)\n\
printf '%s\\n' \"$RUSTERM_OUT\" >&2\n\
RUSTERM_FAILED=$RUSTERM_STATUS\n\
continue\n\
;;\n\
esac\n\
fi\n\
curl --silent --show-error --fail-with-body \\\n      --connect-timeout 10 --max-time 120 \\\n      --request POST \\\n      --user \"${RUSTERM_API_USER}:${RUSTERM_API_PASSWORD}\" \\\n      --header 'Accept: text/plain' \\\n      --header 'Content-Type: text/plain; charset=utf-8' \\\n      --data-binary \"$*\" \\\n      \"${RUSTERM_API_URL}/r/${RUSTERM_TARGET}\" || RUSTERM_FAILED=$?\n\
done\n\n\
if [ \"$RUSTERM_FAILED\" -ne 0 ]; then\n\
printf '\\n";

/// Closes the function.
pub const COMMAND_END: &'static str = "\\n' \"$RUSTERM_FAILED\" >&2\n\
fi\n\
return \"$RUSTERM_FAILED\"\n\
}\n\n\
# ";

/// Asks for the password where none is exported.
pub const SCRIPT_PASSWORD: &'static str = "\n\
if [ -z \"${RUSTERM_API_PASSWORD+x}\" ]; then\n\
if [ ! -t 0 ]; then\n\
printf '";

/// Refuses to ask without a terminal.
pub const SCRIPT_NOT_TTY: &'static str = "\\n' >&2\n\
exit 1\n\
fi\n\
printf '";

/// Reads the password without echo and defines the functions that send one request.
pub const SCRIPT_FUNCTIONS: &'static str = "' >&2\n\
RUSTERM_STTY=$(stty -g)\n\
trap 'stty \"$RUSTERM_STTY\"' 0 1 2 15\n\
stty -echo\n\
IFS= read -r RUSTERM_API_PASSWORD\n\
stty \"$RUSTERM_STTY\"\n\
trap - 0 1 2 15\n\
printf '\\n' >&2\n\
export RUSTERM_API_PASSWORD\n\
fi\n\n\
rusterm_pretty_json() {\n\
if command -v jq >/dev/null 2>&1; then\n\
jq .\n\
elif command -v python3 >/dev/null 2>&1; then\n\
python3 -m json.tool\n\
else\n\
cat\n\
fi\n\
}\n\n\
rusterm_exec() {\n\
RUSTERM_TARGET=$1\n\
RUSTERM_BODY=$2\n\
printf '\\n==> %s\\n' \"$RUSTERM_TARGET\"\n\
RUSTERM_RESPONSE=$(curl --silent --show-error --fail-with-body \\\n    --connect-timeout 10 --max-time 120 \\\n    --request POST \"${RUSTERM_API_URL}/api/v1/exec\" \\\n    --user \"${RUSTERM_API_USER}:${RUSTERM_API_PASSWORD}\" \\\n    --header 'Accept: application/json' \\\n    --header 'Content-Type: application/json' \\\n    --data \"$RUSTERM_BODY\")\n\
RUSTERM_STATUS=$?\n\
printf '%s\\n' \"$RUSTERM_RESPONSE\" | rusterm_pretty_json\n\
return \"$RUSTERM_STATUS\"\n\
}\n\n\
RUSTERM_FAILED=0\n\
# ";

/// Ends a marker comment and starts the next.
pub const MARKER_NEXT: &'static str = "\n# ";

/// Ends the last marker comment.
pub const MARKER_END: &'static str = "\n";

/// The query of an elevated request.
pub const ELEVATED_QUERY: &'static str = "?elevated=true";

/// What stands in place of a command where there is none.
pub const COMMAND_EXAMPLE: &'static str = "# rusterm <command...>";

/// Calls the function with a command of ordinary words.
pub const COMMAND_CALL: &'static str = "rusterm ";

/// Calls the function with a quoted command.
pub const COMMAND_CALL_QUOTED: &'static str = "rusterm '";

/// Ends the call with a quoted command.
pub const COMMAND_CALL_QUOTED_END: &'static str = "'\n";

/// Sends one request: what stands before the target.
pub const EXEC_CALL: &'static str = "rusterm_exec ";

/// What stands between the target and the request's body.
pub const EXEC_BODY: &'static str = " '";

/// What stands after the request's body.
pub const EXEC_END: &'static str = "' || RUSTERM_FAILED=$?\n";

/// Reports a failure: what stands before the message.
pub const FAILURE_CHECK: &'static str = "\nif [ \"$RUSTERM_FAILED\" -ne 0 ]; then\n\
printf '\\n";

/// What stands after the message of a failure.
pub const FAILURE_END: &'static str = "\\n' \"$RUSTERM_FAILED\" >&2\n\
fi\n";

/// The target named where no session is selected.
pub const PLACEHOLDER_HOST: &'static str = "HOST";

/// The field that tells whether a request runs elevated.
pub const ELEVATED_FIELD: &'static str = "elevated";

/// The field that names a request's target.
pub const HOST_FIELD: &'static str = "host_id";

/// The field of a script.
pub const SCRIPT_FIELD: &'static str = "script";

/// The field of an encoded script.
pub const SCRIPT_BASE64_FIELD: &'static str = "script_base64";

// ---------------------------------------------------------------------------------------------
// What the scripts say
// ---------------------------------------------------------------------------------------------

/// The targets of a script: the selected sessions, a placeholder where none is selected.
pub open spec fn targets(sessions: Seq<Seq<char>>) -> Seq<Seq<char>> {
    if sessions.len() == 0 {
        seq![PLACEHOLDER_HOST@]
    } else {
        sessions
    }
}

/// A text without the slashes at its end.
pub open spec fn without_slashes(s: Seq<char>) -> Seq<char>
    decreases s.len(),
{
    if s.len() > 0 && s.last() == '/' {
        without_slashes(s.drop_last())
    } else {
        s
    }
}

/// Whether a character can stand unquoted in a command.
pub open spec fn is_word_char(c: char) -> bool {
    crate::text::is_letter_or_digit(c) || c == ' ' || c == '-' || c == '_' || c == '.' || c == '/'
        || c == ':' || c == '=' || c == '@' || c == '%' || c == '+' || c == ','
}

/// Whether a command is a row of ordinary words with one space between each two.
pub open spec fn is_plain_command(command: Seq<char>) -> bool {
    &&& command.len() > 0
    &&& command[0] != ' '
    &&& command.last() != ' '
    &&& !holds_text(command, seq![' ', ' '])
    &&& forall|i: int| 0 <= i < command.len() ==> is_word_char(#[trigger] command[i])
}

/// A message of the catalog as it stands inside single quotes.
pub open spec fn quoted_message(catalog: &Catalog, language: Language, key: Seq<char>) -> Seq<char> {
    shell_escaped(catalog.text(language, key))
}

/// A command script up to the call: the function with the targets baked in.
pub open spec fn command_prologue(
    url: Seq<char>,
    user: Seq<char>,
    hosts: Seq<Seq<char>>,
    elevated: bool,
    language: Language,
    catalog: &Catalog,
) -> Seq<char> {
    EXPORT_URL@ + shell_quoted(without_slashes(url)) + EXPORT_USER@ + shell_quoted(user)
        + COMMAND_USAGE@ + quoted_message(catalog, language, "api.function_usage"@)
        + COMMAND_REFRESH@ + quoted_message(catalog, language, "api.missing_config"@)
        + COMMAND_NO_USER@ + quoted_message(catalog, language, "api.missing_user"@)
        + COMMAND_PASSWORD@ + quoted_message(catalog, language, "api.password_not_tty"@)
        + COMMAND_NOT_TTY@ + quoted_message(catalog, language, "api.password_prompt"@)
        + COMMAND_READ_PASSWORD@ + shell_quoted(join(hosts, "\n"@)) + COMMAND_HOSTS@
        + quoted_message(catalog, language, "api.no_hosts"@) + COMMAND_ELEVATED@ + (if elevated {
        ELEVATED_QUERY@
    } else {
        Seq::empty()
    }) + COMMAND_LOOP@ + quoted_message(catalog, language, "api.request_failed"@) + COMMAND_END@
        + catalog.text(language, "api.command_marker_title"@) + MARKER_NEXT@ + catalog.text(
        language,
        "api.command_marker_help"@,
    ) + MARKER_END@
}

/// The call of the function in a command script. Ordinary words stand as they are; anything
/// else is one quoted word; where there is no command, only an example stands.
pub open spec fn command_call(command: Seq<char>) -> CurlPreviewText {
    if command.len() == 0 {
        CurlPreviewText {
            before: COMMAND_EXAMPLE@,
            command: Seq::empty(),
            after: MARKER_END@,
        }
    } else if is_plain_command(command) {
        CurlPreviewText { before: COMMAND_CALL@, command, after: MARKER_END@ }
    } else {
        CurlPreviewText {
            before: COMMAND_CALL_QUOTED@,
            command: shell_escaped(command),
            after: COMMAND_CALL_QUOTED_END@,
        }
    }
}

/// A request's body up to the text of its payload, the opening quote included.
pub open spec fn body_lead(host: Seq<char>, field: Seq<char>, elevated: bool) -> Seq<char> {
    json_object_head(ELEVATED_FIELD@, elevated, HOST_FIELD@, host, field) + seq!['"']
}

/// A request's body: a JSON object of the payload, the target and the elevation.
pub open spec fn request_body(
    host: Seq<char>,
    field: Seq<char>,
    payload: Seq<char>,
    elevated: bool,
) -> Seq<char> {
    body_lead(host, field, elevated) + json_inner(payload) + seq!['"', '}']
}

/// The line that sends one request.
pub open spec fn exec_line(host: Seq<char>, body: Seq<char>) -> Seq<char> {
    EXEC_CALL@ + shell_quoted(host) + EXEC_BODY@ + shell_escaped(body) + EXEC_END@
}

/// The lines that send the payload to each target in turn.
pub open spec fn exec_lines(
    hosts: Seq<Seq<char>>,
    field: Seq<char>,
    payload: Seq<char>,
    elevated: bool,
) -> Seq<char>
    decreases hosts.len(),
{
    if hosts.len() == 0 {
        Seq::empty()
    } else {
        exec_lines(hosts.drop_last(), field, payload, elevated) + exec_line(
            hosts.last(),
            request_body(hosts.last(), field, payload, elevated),
        )
    }
}

/// A script's text up to the first request.
pub open spec fn script_prologue(
    url: Seq<char>,
    user: Seq<char>,
    language: Language,
    catalog: &Catalog,
) -> Seq<char> {
    EXPORT_URL@ + shell_quoted(without_slashes(url)) + EXPORT_USER@ + shell_quoted(user)
        + SCRIPT_PASSWORD@ + quoted_message(catalog, language, "api.password_not_tty"@)
        + SCRIPT_NOT_TTY@ + quoted_message(catalog, language, "api.password_prompt"@)
        + SCRIPT_FUNCTIONS@ + catalog.text(language, "api.command_marker_title"@) + MARKER_NEXT@
        + catalog.text(language, "api.command_marker_help"@) + MARKER_END@
}

/// A script's text after the last request: it reports a failure.
pub open spec fn script_epilogue(language: Language, catalog: &Catalog) -> Seq<char> {
    FAILURE_CHECK@ + quoted_message(catalog, language, "api.request_failed"@) + FAILURE_END@
}

/// A script that sends `payload` in `field` to each target, with the payload of the first
/// request apart.
pub open spec fn script_preview(
    url: Seq<char>,
    user: Seq<char>,
    hosts: Seq<Seq<char>>,
    field: Seq<char>,
    payload: Seq<char>,
    elevated: bool,
    language: Language,
    catalog: &Catalog,
) -> CurlPreviewText {
    CurlPreviewText {
        before: script_prologue(url, user, language, catalog) + EXEC_CALL@ + shell_quoted(hosts[0])
            + EXEC_BODY@ + shell_escaped(body_lead(hosts[0], field, elevated)),
        command: shell_escaped(json_inner(payload)),
        after: shell_escaped(seq!['"', '}']) + EXEC_END@ + exec_lines(
            hosts.skip(1),
            field,
            payload,
            elevated,
        ) + script_epilogue(language, catalog),
    }
}

/// The generated script in three parts.
pub open spec fn curl_preview(
    url: Seq<char>,
    user: Seq<char>,
    sessions: Seq<Seq<char>>,
    payload: CurlPayload,
    elevated: bool,
    language: Language,
    catalog: &Catalog,
) -> CurlPreviewText {
    let hosts = targets(sessions);
    match payload {
        CurlPayload::Command(command) => {
            let call = command_call(command@);
            CurlPreviewText {
                before: command_prologue(url, user, hosts, elevated, language, catalog)
                    + call.before,
                command: call.command,
                after: call.after,
            }
        },
        CurlPayload::Script(script) => script_preview(
            url,
            user,
            hosts,
            SCRIPT_FIELD@,
            script@,
            elevated,
            language,
            catalog,
        ),
        CurlPayload::ScriptBase64(script) => script_preview(
            url,
            user,
            hosts,
            SCRIPT_BASE64_FIELD@,
            script@,
            elevated,
            language,
            catalog,
        ),
    }
}

// ---------------------------------------------------------------------------------------------
// Generating them
// ---------------------------------------------------------------------------------------------

/// A text without the slashes at its end.
pub fn trim_slashes(s: &str) -> (r: String)
    ensures
        r@ == without_slashes(s@),
{
    let v = chars_of(s);
    let mut to: usize = v.len();
    assert(v@.take(to as int) == v@);
    while to > 0 && v[to - 1] == '/'
        invariant
            to <= v@.len(),
            without_slashes(v@.take(to as int)) == without_slashes(v@),
        decreases to,
    {
        assert(v@.take(to as int).drop_last() == v@.take(to - 1));
        to = to - 1;
    }
    assert(v@.subrange(0, to as int) == v@.take(to as int));
    slice_of(&v, 0, to)
}

fn word_char(c: char) -> (r: bool)
    ensures
        r == is_word_char(c),
{
    c.is_alphanumeric() || c == ' ' || c == '-' || c == '_' || c == '.' || c == '/' || c == ':' || c
        == '=' || c == '@' || c == '%' || c == '+' || c == ','
}

/// Whether a command is a row of ordinary words with one space between each two.
pub fn plain_command(command: &str) -> (r: bool)
    ensures
        r == is_plain_command(command@),
{
    let v = chars_of(command);
    if v.len() == 0 || v[0] == ' ' || v[v.len() - 1] == ' ' {
        return false;
    }
    proof {
        reveal_strlit("  ");
        assert("  "@ == seq![' ', ' ']);
    }
    if contains_text(command, "  ") {
        return false;
    }
    for i in 0..v.len()
        invariant
            v@ == command@,
            forall|j: int| 0 <= j < i ==> is_word_char(#[trigger] v@[j]),
    {
        if !word_char(v[i]) {
            assert(!is_word_char(v@[i as int]));
            return false;
        }
    }
    true
}

fn message(catalog: &Catalog, language: Language, key: &str) -> (r: String)
    ensures
        r@ == quoted_message(catalog, language, key@),
{
    shell_escape(catalog.t_for(language, key).as_str())
}

fn command_head(
    url: &str,
    user: &str,
    hosts: &Vec<String>,
    elevated: bool,
    language: Language,
    catalog: &Catalog,
) -> (r: String)
    ensures
        r@ == command_prologue(url@, user@, texts(hosts@), elevated, language, catalog),
{
    let mut out = String::from_str(EXPORT_URL);
    out.append(shell_quote(trim_slashes(url).as_str()).as_str());
    out.append(EXPORT_USER);
    out.append(shell_quote(user).as_str());
    out.append(COMMAND_USAGE);
    out.append(message(catalog, language, "api.function_usage").as_str());
    out.append(COMMAND_REFRESH);
    out.append(message(catalog, language, "api.missing_config").as_str());
    out.append(COMMAND_NO_USER);
    out.append(message(catalog, language, "api.missing_user").as_str());
    out.append(COMMAND_PASSWORD);
    out.append(message(catalog, language, "api.password_not_tty").as_str());
    out.append(COMMAND_NOT_TTY);
    out.append(message(catalog, language, "api.password_prompt").as_str());
    out.append(COMMAND_READ_PASSWORD);
    out.append(shell_quote(join_texts(hosts, "\n").as_str()).as_str());
    out.append(COMMAND_HOSTS);
    out.append(message(catalog, language, "api.no_hosts").as_str());
    out.append(COMMAND_ELEVATED);
    let query: String = if elevated {
        ELEVATED_QUERY.to_owned()
    } else {
        String::new()
    };
    out.append(query.as_str());
    out.append(COMMAND_LOOP);
    out.append(message(catalog, language, "api.request_failed").as_str());
    out.append(COMMAND_END);
    out.append(catalog.t_for(language, "api.command_marker_title").as_str());
    out.append(MARKER_NEXT);
    out.append(catalog.t_for(language, "api.command_marker_help").as_str());
    out.append(MARKER_END);
    out
}

fn command_preview(
    url: &str,
    user: &str,
    hosts: &Vec<String>,
    command: &String,
    elevated: bool,
    language: Language,
    catalog: &Catalog,
) -> (r: CurlPreviewParts)
    ensures
        r@.before == command_prologue(url@, user@, texts(hosts@), elevated, language, catalog)
            + command_call(command@).before,
        r@.command == command_call(command@).command,
        r@.after == command_call(command@).after,
{
    let mut before = command_head(url, user, hosts, elevated, language, catalog);
    if command.as_str().is_empty() {
        before.append(COMMAND_EXAMPLE);
        CurlPreviewParts {
            before_command: before,
            command: String::new(),
            after_command: MARKER_END.to_owned(),
        }
    } else if plain_command(command.as_str()) {
        before.append(COMMAND_CALL);
        CurlPreviewParts {
            before_command: before,
            command: command.clone(),
            after_command: MARKER_END.to_owned(),
        }
    } else {
        before.append(COMMAND_CALL_QUOTED);
        CurlPreviewParts {
            before_command: before,
            command: shell_escape(command.as_str()),
            after_command: COMMAND_CALL_QUOTED_END.to_owned(),
        }
    }
}

/// The fields of a request are plain, in order, and the payload's ends as no other does.
proof fn lemma_fields()
    ensures
        json_simple_key(ELEVATED_FIELD@),
        json_simple_key(HOST_FIELD@),
        json_simple_key(SCRIPT_FIELD@),
        json_simple_key(SCRIPT_BASE64_FIELD@),
        text_less(ELEVATED_FIELD@, HOST_FIELD@),
        text_less(HOST_FIELD@, SCRIPT_FIELD@),
        text_less(HOST_FIELD@, SCRIPT_BASE64_FIELD@),
        ELEVATED_FIELD@.last() == 'd',
        HOST_FIELD@.last() == 'd',
        SCRIPT_FIELD@.last() == 't',
        SCRIPT_BASE64_FIELD@.last() == '4',
{
    reveal_strlit("elevated");
    reveal_strlit("host_id");
    reveal_strlit("script");
    reveal_strlit("script_base64");
}

/// Whether `field` is one that a script payload uses.
pub open spec fn is_script_field(field: Seq<char>) -> bool {
    field == SCRIPT_FIELD@ || field == SCRIPT_BASE64_FIELD@
}

fn body_text(host: &str, field: &str, payload: &str, elevated: bool) -> (r: String)
    requires
        is_script_field(field@),
    ensures
        r@ == request_body(host@, field@, payload@, elevated),
        r@ == json_object_head(ELEVATED_FIELD@, elevated, HOST_FIELD@, host@, field@) + (
        json_string(payload@) + seq!['}']),
{
    proof {
        lemma_fields();
        lemma_object_cut(ELEVATED_FIELD@, elevated, HOST_FIELD@, host@, field@, payload@);
        let head = json_object_head(ELEVATED_FIELD@, elevated, HOST_FIELD@, host@, field@);
        assert(head + json_string(payload@) + seq!['}'] == request_body(
            host@,
            field@,
            payload@,
            elevated,
        ));
        assert(head + json_string(payload@) + seq!['}'] == head + (json_string(payload@) + seq![
            '}',
        ]));
    }
    json_object_text(ELEVATED_FIELD, elevated, HOST_FIELD, host, field, payload)
}

fn exec_line_text(host: &str, body: &str) -> (r: String)
    ensures
        r@ == exec_line(host@, body@),
{
    let mut out = String::from_str(EXEC_CALL);
    out.append(shell_quote(host).as_str());
    out.append(EXEC_BODY);
    out.append(shell_escape(body).as_str());
    out.append(EXEC_END);
    out
}

fn exec_lines_text(
    hosts: &Vec<String>,
    field: &str,
    payload: &str,
    elevated: bool,
) -> (r: String)
    requires
        hosts@.len() > 0,
        is_script_field(field@),
    ensures
        r@ == exec_lines(texts(hosts@).skip(1), field@, payload@, elevated),
{
    let mut out = String::new();
    let ghost rest = texts(hosts@).skip(1);
    let mut i: usize = 1;
    assert(rest.take(0) == Seq::<Seq<char>>::empty());
    while i < hosts.len()
        invariant
            1 <= i <= hosts@.len(),
            is_script_field(field@),
            rest == texts(hosts@).skip(1),
            out@ == exec_lines(rest.take(i - 1), field@, payload@, elevated),
        decreases hosts@.len() - i,
    {
        let host = hosts[i].as_str();
        let body = body_text(host, field, payload, elevated);
        out.append(exec_line_text(host, body.as_str()).as_str());
        assert(rest.take(i as int).drop_last() == rest.take(i - 1));
        assert(rest.take(i as int).last() == host@);
        i = i + 1;
    }
    assert(rest.take(rest.len() as int) == rest);
    out
}

fn script_head(url: &str, user: &str, language: Language, catalog: &Catalog) -> (r: String)
    ensures
        r@ == script_prologue(url@, user@, language, catalog),
{
    let mut out = String::from_str(EXPORT_URL);
    out.append(shell_quote(trim_slashes(url).as_str()).as_str());
    out.append(EXPORT_USER);
    out.append(shell_quote(user).as_str());
    out.append(SCRIPT_PASSWORD);
    out.append(message(catalog, language, "api.password_not_tty").as_str());
    out.append(SCRIPT_NOT_TTY);
    out.append(message(catalog, language, "api.password_prompt").as_str());
    out.append(SCRIPT_FUNCTIONS);
    out.append(catalog.t_for(language, "api.command_marker_title").as_str());
    out.append(MARKER_NEXT);
    out.append(catalog.t_for(language, "api.command_marker_help").as_str());
    out.append(MARKER_END);
    out
}

/// A key in quotes with the colon after it.
fn key_mark(field: &str) -> (r: String)
    ensures
        r@ == json_key_mark(field@),
{
    let mut out = String::new();
    out.push('"');
    out.append(field);
    out.push('"');
    out.push(':');
    assert(out@ == json_key_mark(field@));
    out
}

fn script_parts(
    url: &str,
    user: &str,
    hosts: &Vec<String>,
    field: &str,
    payload: &str,
    elevated: bool,
    language: Language,
    catalog: &Catalog,
) -> (r: CurlPreviewParts)
    requires
        hosts@.len() > 0,
        is_script_field(field@),
    ensures
        r@ == script_preview(
            url@,
            user@,
            texts(hosts@),
            field@,
            payload@,
            elevated,
            language,
            catalog,
        ),
{
    let first_host = hosts[0].as_str();
    let first_body = chars_of(body_text(first_host, field, payload, elevated).as_str());
    let field_json = chars_of(json_string_text(payload).as_str());
    let mark = chars_of(key_mark(field).as_str());
    let ghost lead = json_key_lead(ELEVATED_FIELD@, elevated, HOST_FIELD@, first_host@);
    let ghost head = json_object_head(
        ELEVATED_FIELD@,
        elevated,
        HOST_FIELD@,
        first_host@,
        field@,
    );
    proof {
        lemma_fields();
        law_member_found(
            ELEVATED_FIELD@,
            elevated,
            HOST_FIELD@,
            first_host@,
            field@,
            json_string(payload@) + seq!['}'],
        );
        assert(first_body@ == head + (json_string(payload@) + seq!['}']));
        assert(head.len() == lead.len() + mark@.len());
    }
    let found = find_text(&first_body, &mark);
    let key_start: usize = match found {
        Some(at) => at,
        None => 0,
    };
    assert(key_start == lead.len()) by {
        assert(found is Some);
        crate::search::lemma_first_at_unique(
            first_body@,
            mark@,
            key_start as int,
            lead.len() as int,
        );
    }
    assert(first_body.len() == head.len() + field_json.len() + 1);
    let value_start: usize = key_start + mark.len();
    let value_end: usize = value_start + field_json.len();
    let body_before = slice_of(&first_body, 0, value_start + 1);
    let body_command = slice_of(&field_json, 1, field_json.len() - 1);
    let body_after = slice_of(&first_body, value_end - 1, first_body.len());
    assert(body_before@ == body_lead(first_host@, field@, elevated));
    assert(body_command@ == json_inner(payload@));
    assert(body_after@ == seq!['"', '}']);
    let mut after = shell_escape(body_after.as_str());
    after.append(EXEC_END);
    after.append(exec_lines_text(hosts, field, payload, elevated).as_str());
    let mut failure = String::from_str(FAILURE_CHECK);
    failure.append(message(catalog, language, "api.request_failed").as_str());
    failure.append(FAILURE_END);
    after.append(failure.as_str());
    let mut before = script_head(url, user, language, catalog);
    before.append(EXEC_CALL);
    before.append(shell_quote(first_host).as_str());
    before.append(EXEC_BODY);
    before.append(shell_escape(body_before.as_str()).as_str());
    assert(texts(hosts@)[0] == first_host@);
    CurlPreviewParts {
        before_command: before,
        command: shell_escape(body_command.as_str()),
        after_command: after,
    }
}

/// Builds the script as three texts, so that the payload can be shown highlighted without
/// looking for it in the script again.
pub fn gen_curl_preview_for_language(
    url: &str,
    default_user: &str,
    sessions: &Vec<String>,
    payload: &CurlPayload,
    elevated: bool,
    language: Language,
    catalog: &Catalog,
) -> (r: CurlPreviewParts)
    ensures
        r@ == curl_preview(
            url@,
            default_user@,
            texts(sessions@),
            *payload,
            elevated,
            language,
            catalog,
        ),
{
    let hosts: Vec<String> = if sessions.len() == 0 {
        let mut hosts: Vec<String> = Vec::new();
        hosts.push(PLACEHOLDER_HOST.to_owned());
        hosts
    } else {
        clone_texts(sessions)
    };
    assert(texts(hosts@) == targets(texts(sessions@)));
    match payload {
        CurlPayload::Command(command) => command_preview(
            url,
            default_user,
            &hosts,
            command,
            elevated,
            language,
            catalog,
        ),
        CurlPayload::Script(script) => script_parts(
            url,
            default_user,
            &hosts,
            SCRIPT_FIELD,
            script.as_str(),
            elevated,
            language,
            catalog,
        ),
        CurlPayload::ScriptBase64(script) => script_parts(
            url,
            default_user,
            &hosts,
            SCRIPT_BASE64_FIELD,
            script.as_str(),
            elevated,
            language,
            catalog,
        ),
    }
}

/// Builds the whole script. The password is read by the script itself, never put into it.
pub fn gen_curl(
    url: &str,
    default_user: &str,
    sessions: &Vec<String>,
    payload: &CurlPayload,
    elevated: bool,
    language: Language,
    catalog: &Catalog,
) -> (r: String)
    ensures
        r@ == curl_preview(
            url@,
            default_user@,
            texts(sessions@),
            *payload,
            elevated,
            language,
            catalog,
        ).script(),
{
    gen_curl_preview_for_language(
        url,
        default_user,
        sessions,
        payload,
        elevated,
        language,
        catalog,
    ).into_script()
}

// ---------------------------------------------------------------------------------------------
// Laws
// ---------------------------------------------------------------------------------------------

proof fn lemma_exec_lines_first(
    hosts: Seq<Seq<char>>,
    field: Seq<char>,
    payload: Seq<char>,
    elevated: bool,
)
    requires
        hosts.len() > 0,
    ensures
        exec_lines(hosts, field, payload, elevated) == exec_line(
            hosts[0],
            request_body(hosts[0], field, payload, elevated),
        ) + exec_lines(hosts.skip(1), field, payload, elevated),
    decreases hosts.len(),
{
    let first = exec_line(hosts[0], request_body(hosts[0], field, payload, elevated));
    if hosts.len() == 1 {
        assert(hosts.drop_last() == Seq::<Seq<char>>::empty());
        assert(hosts.skip(1) == Seq::<Seq<char>>::empty());
        assert(Seq::<char>::empty() + first == first + Seq::<char>::empty());
    } else {
        lemma_exec_lines_first(hosts.drop_last(), field, payload, elevated);
        assert(hosts.drop_last().skip(1) == hosts.skip(1).drop_last());
        let last = exec_line(
            hosts.last(),
            request_body(hosts.last(), field, payload, elevated),
        );
        assert(hosts.skip(1).last() == hosts.last());
        let middle = exec_lines(hosts.skip(1).drop_last(), field, payload, elevated);
        assert((first + middle) + last == first + (middle + last));
    }
}

/// Two ways of grouping the pieces of a script.
proof fn lemma_regroup(
    p: Seq<char>,
    a: Seq<char>,
    q: Seq<char>,
    b: Seq<char>,
    l: Seq<char>,
    i: Seq<char>,
    t: Seq<char>,
    e: Seq<char>,
    r: Seq<char>,
    z: Seq<char>,
)
    ensures
        (p + a + q + b + l) + i + (t + e + r + z) == p + ((a + q + b + (l + i + t) + e) + r) + z,
{
}

/// Highlighting changes nothing: the three parts of a script make one request for each target,
/// each with the whole payload in its body.
pub proof fn law_script_sends_to_every_target(
    url: Seq<char>,
    user: Seq<char>,
    hosts: Seq<Seq<char>>,
    field: Seq<char>,
    payload: Seq<char>,
    elevated: bool,
    language: Language,
    catalog: &Catalog,
)
    requires
        hosts.len() > 0,
    ensures
        script_preview(url, user, hosts, field, payload, elevated, language, catalog).script()
            == script_prologue(url, user, language, catalog) + exec_lines(
            hosts,
            field,
            payload,
            elevated,
        ) + script_epilogue(language, catalog),
{
    let prologue = script_prologue(url, user, language, catalog);
    let epilogue = script_epilogue(language, catalog);
    let lead = body_lead(hosts[0], field, elevated);
    let inner = json_inner(payload);
    let tail = seq!['"', '}'];
    law_shell_escape_concat(lead, inner);
    law_shell_escape_concat(lead + inner, tail);
    lemma_exec_lines_first(hosts, field, payload, elevated);
    lemma_regroup(
        prologue,
        EXEC_CALL@,
        shell_quoted(hosts[0]),
        EXEC_BODY@,
        shell_escaped(lead),
        shell_escaped(inner),
        shell_escaped(tail),
        EXEC_END@,
        exec_lines(hosts.skip(1), field, payload, elevated),
        epilogue,
    );
}

/// The script calls its function with the command: a row of ordinary words as it is, any other
/// command as one quoted word.
pub proof fn law_command_stands_as_one_word(command: Seq<char>)
    requires
        command.len() > 0,
    ensures
        command_call(command).script() == COMMAND_CALL@ + command_argument(command) + MARKER_END@,
{
    reveal_strlit("rusterm ");
    reveal_strlit("rusterm '");
    reveal_strlit("'\n");
    reveal_strlit("\n");
    assert(COMMAND_CALL_QUOTED@ == COMMAND_CALL@ + seq!['\'']);
    assert(COMMAND_CALL_QUOTED_END@ == seq!['\''] + MARKER_END@);
}

/// What has been read of a plain command: no word is lost, and a space ends the word before it.
proof fn lemma_plain_read(command: Seq<char>, n: int)
    requires
        is_plain_command(command),
        0 <= n <= command.len(),
    ensures
        ({
            let reader = shell_read(command.take(n));
            &&& reader.mode is Bare
            &&& reader.begun == (n > 0 && command[n - 1] != ' ')
            &&& reader.begun ==> join(reader.words.push(reader.word), seq![' ']) == command.take(n)
            &&& !reader.begun ==> reader.word == Seq::<char>::empty()
            &&& !reader.begun && n > 0 ==> reader.words.len() > 0 && join(reader.words, seq![' '])
                + seq![' '] == command.take(n)
            &&& n == 0 ==> reader.words.len() == 0
        }),
    decreases n,
{
    if n > 0 {
        let c = command[n - 1];
        let before = command.take(n - 1);
        let reader = shell_read(before);
        let next = shell_read(command.take(n));
        lemma_plain_read(command, n - 1);
        assert(command.take(n) == before.push(c));
        lemma_shell_read_push(before, c);
        assert(is_word_char(c));
        assert(!is_special(c) && c != '\'' && c != '"');
        if c == ' ' {
            if n > 1 && command[n - 2] == ' ' {
                assert(command.subrange(n - 2, n) == seq![' ', ' ']);
                assert(stands_at(command, seq![' ', ' '], n - 2));
                assert(false);
            }
            assert(n > 1);
            assert(next.words == reader.words.push(reader.word));
        } else {
            let word = reader.word.push(c);
            let all = reader.words.push(word);
            assert(next.word == word && next.words == reader.words);
            assert(all.drop_last() == reader.words);
            assert(reader.words.push(reader.word).drop_last() == reader.words);
            if reader.begun {
                assert(join(all, seq![' ']) == join(reader.words.push(reader.word), seq![' ']).push(
                    c,
                ));
            } else if n > 1 {
                assert(word == seq![c]);
                assert(join(all, seq![' ']) == before.push(c));
            } else {
                assert(before == Seq::<char>::empty());
                assert(join(all, seq![' ']) == seq![c]);
            }
        }
    } else {
        assert(command.take(0) == Seq::<char>::empty());
    }
}

/// How a command is handed to the function: as it is where it is a row of ordinary words, else
/// quoted.
pub open spec fn command_argument(command: Seq<char>) -> Seq<char> {
    if is_plain_command(command) {
        command
    } else {
        shell_quoted(command)
    }
}

/// A shell hands the function arguments that make up the command, with a space between each two:
/// its words where it is plain, else the whole command as one argument.
pub proof fn law_command_reads_back(command: Seq<char>)
    requires
        command.len() > 0,
    ensures
        shell_arguments(command_argument(command)) matches Some(arguments) && arguments.len() > 0
            && join(arguments, seq![' ']) == command && (is_plain_command(command) || arguments
            == seq![command]),
{
    if is_plain_command(command) {
        lemma_plain_read(command, command.len() as int);
        assert(command.take(command.len() as int) == command);
    } else {
        law_shell_quote_reads_back(command);
        assert(join(seq![command], seq![' ']) == command);
    }
}

/// A command with a character that is special to a shell is quoted.
pub proof fn law_special_is_quoted(command: Seq<char>, i: int)
    requires
        0 <= i < command.len(),
        is_special(command[i]) || command[i] == '\'' || command[i] == '"',
    ensures
        command_argument(command) == shell_quoted(command),
{
    assert(!is_word_char(command[i]));
}

/// Taking the slashes at the end away leaves the rest as it is: what remains is the start of the
/// text, does not end with a slash, and nothing but slashes stood behind it.
pub proof fn law_without_slashes(s: Seq<char>)
    ensures
        without_slashes(s).len() <= s.len(),
        s.take(without_slashes(s).len() as int) == without_slashes(s),
        without_slashes(s).len() > 0 ==> without_slashes(s).last() != '/',
        forall|i: int| without_slashes(s).len() <= i < s.len() ==> #[trigger] s[i] == '/',
    decreases s.len(),
{
    if s.len() > 0 && s.last() == '/' {
        law_without_slashes(s.drop_last());
        let rest = without_slashes(s);
        assert(s.take(rest.len() as int) == s.drop_last().take(rest.len() as int));
        assert forall|i: int| rest.len() <= i < s.len() implies #[trigger] s[i] == '/' by {
            if i < s.len() - 1 {
                assert(s.drop_last()[i] == '/');
            }
        }
    } else {
        assert(s.take(s.len() as int) == s);
    }
}

/// The first two lines of every script.
spec fn opening(url: Seq<char>, user: Seq<char>) -> Seq<char> {
    "export RUSTERM_API_URL="@ + shell_quoted(without_slashes(url)) + "\nexport RUSTERM_API_USER="@
        + shell_quoted(user) + "\n"@
}

proof fn lemma_breaks()
    ensures
        "\n"@ == seq!['\n'],
        COMMAND_USAGE@.len() > 0 && COMMAND_USAGE@[0] == '\n',
        SCRIPT_PASSWORD@.len() > 0 && SCRIPT_PASSWORD@[0] == '\n',
        COMMAND_HOSTS@.len() > 0 && COMMAND_HOSTS@[0] == '\n',
{
    reveal_strlit("\n");
    reveal_strlit("\n\n\
rusterm() {\n\
if [ \"$#\" -eq 0 ]; then\n\
printf '");
    reveal_strlit("\n\
if [ -z \"${RUSTERM_API_PASSWORD+x}\" ]; then\n\
if [ ! -t 0 ]; then\n\
printf '");
    reveal_strlit("\n\
RUSTERM_HOSTS=$(printf '%s' \"$RUSTERM_HOSTS\" | tr -d '\\r')\n\
if [ -z \"$RUSTERM_HOSTS\" ]; then\n\
printf '");
}

proof fn lemma_opening(four: Seq<char>, next: Seq<char>)
    requires
        next.len() > 0,
        next[0] == '\n',
    ensures
        starts_with_text(four + next, four + "\n"@),
{
    lemma_breaks();
    assert((four + next).subrange(0, four.len() + 1int) == four + "\n"@);
}

proof fn lemma_command_opening(
    url: Seq<char>,
    user: Seq<char>,
    hosts: Seq<Seq<char>>,
    elevated: bool,
    language: Language,
    catalog: &Catalog,
)
    ensures
        starts_with_text(
            command_prologue(url, user, hosts, elevated, language, catalog),
            opening(url, user),
        ),
{
    let start = opening(url, user);
    let query: Seq<char> = if elevated {
        ELEVATED_QUERY@
    } else {
        Seq::empty()
    };
    lemma_breaks();
    lemma_opening(
        EXPORT_URL@ + shell_quoted(without_slashes(url)) + EXPORT_USER@ + shell_quoted(user),
        COMMAND_USAGE@,
    );
    let s0 = EXPORT_URL@ + shell_quoted(without_slashes(url)) + EXPORT_USER@ + shell_quoted(user) + COMMAND_USAGE@;
    let s1 = s0 + quoted_message(catalog, language, "api.function_usage"@);
    lemma_starts_more(s0, quoted_message(catalog, language, "api.function_usage"@), start);
    let s2 = s1 + COMMAND_REFRESH@;
    lemma_starts_more(s1, COMMAND_REFRESH@, start);
    let s3 = s2 + quoted_message(catalog, language, "api.missing_config"@);
    lemma_starts_more(s2, quoted_message(catalog, language, "api.missing_config"@), start);
    let s4 = s3 + COMMAND_NO_USER@;
    lemma_starts_more(s3, COMMAND_NO_USER@, start);
    let s5 = s4 + quoted_message(catalog, language, "api.missing_user"@);
    lemma_starts_more(s4, quoted_message(catalog, language, "api.missing_user"@), start);
    let s6 = s5 + COMMAND_PASSWORD@;
    lemma_starts_more(s5, COMMAND_PASSWORD@, start);
    let s7 = s6 + quoted_message(catalog, language, "api.password_not_tty"@);
    lemma_starts_more(s6, quoted_message(catalog, language, "api.password_not_tty"@), start);
    let s8 = s7 + COMMAND_NOT_TTY@;
    lemma_starts_more(s7, COMMAND_NOT_TTY@, start);
    let s9 = s8 + quoted_message(catalog, language, "api.password_prompt"@);
    lemma_starts_more(s8, quoted_message(catalog, language, "api.password_prompt"@), start);
    let s10 = s9 + COMMAND_READ_PASSWORD@;
    lemma_starts_more(s9, COMMAND_READ_PASSWORD@, start);
    let s11 = s10 + shell_quoted(join(hosts, "\n"@));
    lemma_starts_more(s10, shell_quoted(join(hosts, "\n"@)), start);
    let s12 = s11 + COMMAND_HOSTS@;
    lemma_starts_more(s11, COMMAND_HOSTS@, start);
    let s13 = s12 + quoted_message(catalog, language, "api.no_hosts"@);
    lemma_starts_more(s12, quoted_message(catalog, language, "api.no_hosts"@), start);
    let s14 = s13 + COMMAND_ELEVATED@;
    lemma_starts_more(s13, COMMAND_ELEVATED@, start);
    let s15 = s14 + query;
    lemma_starts_more(s14, query, start);
    let s16 = s15 + COMMAND_LOOP@;
    lemma_starts_more(s15, COMMAND_LOOP@, start);
    let s17 = s16 + quoted_message(catalog, language, "api.request_failed"@);
    lemma_starts_more(s16, quoted_message(catalog, language, "api.request_failed"@), start);
    let s18 = s17 + COMMAND_END@;
    lemma_starts_more(s17, COMMAND_END@, start);
    let s19 = s18 + catalog.text(language, "api.command_marker_title"@);
    lemma_starts_more(s18, catalog.text(language, "api.command_marker_title"@), start);
    let s20 = s19 + MARKER_NEXT@;
    lemma_starts_more(s19, MARKER_NEXT@, start);
    let s21 = s20 + catalog.text(language, "api.command_marker_help"@);
    lemma_starts_more(s20, catalog.text(language, "api.command_marker_help"@), start);
    let s22 = s21 + MARKER_END@;
    lemma_starts_more(s21, MARKER_END@, start);
    assert(s22 == command_prologue(url, user, hosts, elevated, language, catalog));
}

proof fn lemma_script_opening(
    url: Seq<char>,
    user: Seq<char>,
    language: Language,
    catalog: &Catalog,
)
    ensures
        starts_with_text(script_prologue(url, user, language, catalog), opening(url, user)),
{
    let start = opening(url, user);
    lemma_breaks();
    lemma_opening(
        EXPORT_URL@ + shell_quoted(without_slashes(url)) + EXPORT_USER@ + shell_quoted(user),
        SCRIPT_PASSWORD@,
    );
    let s0 = EXPORT_URL@ + shell_quoted(without_slashes(url)) + EXPORT_USER@ + shell_quoted(user) + SCRIPT_PASSWORD@;
    let s1 = s0 + quoted_message(catalog, language, "api.password_not_tty"@);
    lemma_starts_more(s0, quoted_message(catalog, language, "api.password_not_tty"@), start);
    let s2 = s1 + SCRIPT_NOT_TTY@;
    lemma_starts_more(s1, SCRIPT_NOT_TTY@, start);
    let s3 = s2 + quoted_message(catalog, language, "api.password_prompt"@);
    lemma_starts_more(s2, quoted_message(catalog, language, "api.password_prompt"@), start);
    let s4 = s3 + SCRIPT_FUNCTIONS@;
    lemma_starts_more(s3, SCRIPT_FUNCTIONS@, start);
    let s5 = s4 + catalog.text(language, "api.command_marker_title"@);
    lemma_starts_more(s4, catalog.text(language, "api.command_marker_title"@), start);
    let s6 = s5 + MARKER_NEXT@;
    lemma_starts_more(s5, MARKER_NEXT@, start);
    let s7 = s6 + catalog.text(language, "api.command_marker_help"@);
    lemma_starts_more(s6, catalog.text(language, "api.command_marker_help"@), start);
    let s8 = s7 + MARKER_END@;
    lemma_starts_more(s7, MARKER_END@, start);
    assert(s8 == script_prologue(url, user, language, catalog));
}

/// Every script, whatever it sends, starts with two lines: a shell that reads the first exports the
/// relay's address, without the slashes at its end, as `RUSTERM_API_URL`, and one that reads the
/// second exports the account as `RUSTERM_API_USER`.
pub proof fn law_script_names_the_relay_and_the_account(
    url: Seq<char>,
    user: Seq<char>,
    sessions: Seq<Seq<char>>,
    payload: CurlPayload,
    elevated: bool,
    language: Language,
    catalog: &Catalog,
)
    ensures
        starts_with_text(
            curl_preview(url, user, sessions, payload, elevated, language, catalog).script(),
            "export RUSTERM_API_URL="@ + shell_quoted(without_slashes(url))
                + "\nexport RUSTERM_API_USER="@ + shell_quoted(user) + "\n"@,
        ),
        shell_arguments("RUSTERM_API_URL="@ + shell_quoted(without_slashes(url))) == Some(
            seq!["RUSTERM_API_URL="@ + without_slashes(url)],
        ),
        shell_arguments("RUSTERM_API_USER="@ + shell_quoted(user)) == Some(
            seq!["RUSTERM_API_USER="@ + user],
        ),
{
    reveal_strlit("RUSTERM_API_URL");
    reveal_strlit("RUSTERM_API_URL=");
    reveal_strlit("RUSTERM_API_USER");
    reveal_strlit("RUSTERM_API_USER=");
    reveal_strlit("=");
    assert("RUSTERM_API_URL"@ + "="@ == "RUSTERM_API_URL="@);
    assert("RUSTERM_API_USER"@ + "="@ == "RUSTERM_API_USER="@);
    law_quoted_value_is_assigned("RUSTERM_API_URL"@, without_slashes(url));
    law_quoted_value_is_assigned("RUSTERM_API_USER"@, user);
    let start = opening(url, user);
    let preview = curl_preview(url, user, sessions, payload, elevated, language, catalog);
    let hosts = targets(sessions);
    match payload {
        CurlPayload::Command(command) => {
            let head = command_prologue(url, user, hosts, elevated, language, catalog);
            let call = command_call(command@);
            lemma_command_opening(url, user, hosts, elevated, language, catalog);
            lemma_starts_more(head, call.before, start);
            lemma_starts_more(preview.before, preview.command, start);
            lemma_starts_more(preview.before + preview.command, preview.after, start);
        },
        CurlPayload::Script(_) | CurlPayload::ScriptBase64(_) => {
            let head = script_prologue(url, user, language, catalog);
            let field = if payload is Script {
                SCRIPT_FIELD@
            } else {
                SCRIPT_BASE64_FIELD@
            };
            let lead = shell_escaped(body_lead(hosts[0], field, elevated));
            lemma_script_opening(url, user, language, catalog);
            lemma_starts_more(head, EXEC_CALL@, start);
            lemma_starts_more(head + EXEC_CALL@, shell_quoted(hosts[0]), start);
            lemma_starts_more(head + EXEC_CALL@ + shell_quoted(hosts[0]), EXEC_BODY@, start);
            lemma_starts_more(
                head + EXEC_CALL@ + shell_quoted(hosts[0]) + EXEC_BODY@,
                lead,
                start,
            );
            lemma_starts_more(preview.before, preview.command, start);
            lemma_starts_more(preview.before + preview.command, preview.after, start);
        },
    }
}

/// The requests for two lists of targets are those for the first and then those for the second, and
/// one target has one request.
pub proof fn law_requests_in_order(
    a: Seq<Seq<char>>,
    b: Seq<Seq<char>>,
    host: Seq<char>,
    field: Seq<char>,
    payload: Seq<char>,
    elevated: bool,
)
    ensures
        exec_lines(a + b, field, payload, elevated) == exec_lines(a, field, payload, elevated)
            + exec_lines(b, field, payload, elevated),
        exec_lines(seq![host], field, payload, elevated) == exec_line(
            host,
            request_body(host, field, payload, elevated),
        ),
    decreases b.len(),
{
    let lines = |list: Seq<Seq<char>>| exec_lines(list, field, payload, elevated);
    assert(seq![host].drop_last() == Seq::<Seq<char>>::empty());
    let line = exec_line(host, request_body(host, field, payload, elevated));
    assert(lines(Seq::<Seq<char>>::empty()) == Seq::<char>::empty());
    assert(lines(seq![host]) == lines(Seq::<Seq<char>>::empty()) + line);
    assert(Seq::<char>::empty() + line == line);
    if b.len() == 0 {
        assert(a + b == a);
        assert(lines(a) + lines(b) == lines(a));
    } else {
        law_requests_in_order(a, b.drop_last(), host, field, payload, elevated);
        assert((a + b).drop_last() == a + b.drop_last());
        assert((a + b).last() == b.last());
        let last = exec_line(b.last(), request_body(b.last(), field, payload, elevated));
        assert(lines(a) + (lines(b.drop_last()) + last) == (lines(a) + lines(b.drop_last()))
            + last);
    }
}

/// A request's body: the elevation, the target and the payload, each under its own key. The
/// target and the payload are written so that they read back.
proof fn lemma_request_body(
    host: Seq<char>,
    field: Seq<char>,
    payload: Seq<char>,
    elevated: bool,
)
    ensures
        request_body(host, field, payload, elevated) == "{\"elevated\":"@ + (if elevated {
            "true"@
        } else {
            "false"@
        }) + ",\"host_id\":\""@ + json_inner(host) + "\",\""@ + field + "\":\""@ + json_inner(
            payload,
        ) + "\"}"@,
{
    reveal_strlit("{\"elevated\":");
    reveal_strlit("true");
    reveal_strlit("false");
    reveal_strlit(",\"host_id\":\"");
    reveal_strlit("\",\"");
    reveal_strlit("\":\"");
    reveal_strlit("\"}");
    reveal_strlit("elevated");
    reveal_strlit("host_id");
}

proof fn lemma_exec_line(host: Seq<char>, body: Seq<char>)
    ensures
        exec_line(host, body) == "rusterm_exec "@ + (shell_quoted(host) + " "@ + shell_quoted(body))
            + " || RUSTERM_FAILED=$?\n"@,
{
    reveal_strlit(" ");
    reveal_strlit(" '");
    reveal_strlit("' || RUSTERM_FAILED=$?\n");
    reveal_strlit(" || RUSTERM_FAILED=$?\n");
}

proof fn lemma_line_in_lines(
    hosts: Seq<Seq<char>>,
    field: Seq<char>,
    payload: Seq<char>,
    elevated: bool,
    i: int,
)
    requires
        0 <= i < hosts.len(),
    ensures
        holds_text(
            exec_lines(hosts, field, payload, elevated),
            exec_line(hosts[i], request_body(hosts[i], field, payload, elevated)),
        ),
{
    let line = exec_line(hosts[i], request_body(hosts[i], field, payload, elevated));
    let a = hosts.take(i);
    let b = hosts.skip(i + 1);
    let one = seq![hosts[i]];
    assert(hosts == (a + one) + b);
    law_requests_in_order(a + one, b, hosts[i], field, payload, elevated);
    law_requests_in_order(a, one, hosts[i], field, payload, elevated);
    assert(line.subrange(0, line.len() as int) == line);
    assert(stands_at(line, line, 0));
    lemma_holds_inside(
        exec_lines(a, field, payload, elevated),
        line,
        exec_lines(b, field, payload, elevated),
        line,
    );
}

/// A script that sends a script holds a line for each selected session. A shell reads it as a
/// call of `rusterm_exec` with two arguments: the session, and a JSON object that tells the
/// elevation, the session under `host_id` and the payload under `script` or `script_base64`.
/// Session and payload read back from the JSON exactly.
pub proof fn law_each_session_gets_its_request(
    url: Seq<char>,
    user: Seq<char>,
    sessions: Seq<Seq<char>>,
    payload: CurlPayload,
    elevated: bool,
    language: Language,
    catalog: &Catalog,
    i: int,
)
    requires
        0 <= i < sessions.len(),
        !(payload is Command),
    ensures
        ({
            let script = curl_preview(
                url,
                user,
                sessions,
                payload,
                elevated,
                language,
                catalog,
            ).script();
            let (field, content) = match payload {
                CurlPayload::Script(text) => ("script"@, text@),
                CurlPayload::ScriptBase64(text) => ("script_base64"@, text@),
                CurlPayload::Command(text) => (""@, text@),
            };
            let body = "{\"elevated\":"@ + (if elevated {
                "true"@
            } else {
                "false"@
            }) + ",\"host_id\":\""@ + json_inner(sessions[i]) + "\",\""@ + field + "\":\""@
                + json_inner(content) + "\"}"@;
            let arguments = shell_quoted(sessions[i]) + " "@ + shell_quoted(body);
            &&& holds_text(
                script,
                "rusterm_exec "@ + arguments + " || RUSTERM_FAILED=$?\n"@,
            )
            &&& shell_arguments(arguments) == Some(seq![sessions[i], body])
            &&& crate::json::json_read(json_inner(sessions[i])).text == sessions[i]
            &&& crate::json::json_read(json_inner(content)).text == content
        }),
{
    let (field, content) = match payload {
        CurlPayload::Script(text) => ("script"@, text@),
        CurlPayload::ScriptBase64(text) => ("script_base64"@, text@),
        CurlPayload::Command(text) => (""@, text@),
    };
    let body = request_body(sessions[i], field, content, elevated);
    lemma_request_body(sessions[i], field, content, elevated);
    law_two_quoted_arguments(sessions[i], body);
    crate::json::law_json_reads_back(sessions[i]);
    crate::json::law_json_reads_back(content);
    lemma_line_in_lines(sessions, field, content, elevated, i);
    law_script_sends_to_every_target(
        url,
        user,
        sessions,
        field,
        content,
        elevated,
        language,
        catalog,
    );
    let line = exec_line(sessions[i], body);
    lemma_holds_inside(
        script_prologue(url, user, language, catalog),
        exec_lines(sessions, field, content, elevated),
        script_epilogue(language, catalog),
        line,
    );
    lemma_exec_line(sessions[i], body);
}

/// How the parts of a command script end and start where its targets and its elevation stand.
proof fn lemma_command_seams()
    ensures
        COMMAND_READ_PASSWORD@.len() >= "RUSTERM_HOSTS="@.len(),
        COMMAND_READ_PASSWORD@.skip(COMMAND_READ_PASSWORD@.len() - "RUSTERM_HOSTS="@.len())
            == "RUSTERM_HOSTS="@,
        COMMAND_ELEVATED@.len() >= "RUSTERM_ELEVATED='"@.len(),
        COMMAND_ELEVATED@.skip(COMMAND_ELEVATED@.len() - "RUSTERM_ELEVATED='"@.len())
            == "RUSTERM_ELEVATED='"@,
        starts_with_text(COMMAND_LOOP@, "'\n"@),
{
    reveal_strlit("RUSTERM_HOSTS=");
    reveal_strlit("RUSTERM_ELEVATED='");
    reveal_strlit("'\n");
    reveal_strlit("' >&2\n\
RUSTERM_STTY=$(stty -g)\n\
trap 'stty \"$RUSTERM_STTY\"' 0 1 2 15\n\
stty -echo\n\
IFS= read -r RUSTERM_API_PASSWORD\n\
stty \"$RUSTERM_STTY\"\n\
trap - 0 1 2 15\n\
printf '\\n' >&2\n\
export RUSTERM_API_PASSWORD\n\
fi\n\n\
RUSTERM_HOSTS=");
    reveal_strlit("\\n' >&2\n\
return 1\n\
fi\n\n\
RUSTERM_FAILED=0\n\
RUSTERM_ELEVATED='");
    reveal_strlit("'\n\
RUSTERM_COUNT=0\n\
for RUSTERM_TARGET in $RUSTERM_HOSTS; do\n\
[ -z \"$RUSTERM_TARGET\" ] && continue\n\
RUSTERM_COUNT=$((RUSTERM_COUNT + 1))\n\
done\n\
for RUSTERM_TARGET in $RUSTERM_HOSTS; do\n\
[ -z \"$RUSTERM_TARGET\" ] && continue\n\
[ \"$RUSTERM_COUNT\" -gt 1 ] && printf '\\n==> %s\\n' \"$RUSTERM_TARGET\"\n\
if [ -n \"$RUSTERM_ELEVATED\" ]; then\n\
RUSTERM_OUT=$(curl --silent --show-error --fail-with-body \\\n        --connect-timeout 10 --max-time 120 \\\n        --request POST \\\n        --user \"${RUSTERM_API_USER}:${RUSTERM_API_PASSWORD}\" \\\n        --header 'Accept: text/plain' \\\n        --header 'Content-Type: text/plain; charset=utf-8' \\\n        --data-binary \"$*\" \\\n        \"${RUSTERM_API_URL}/r/${RUSTERM_TARGET}${RUSTERM_ELEVATED}\" 2>&1)\n\
RUSTERM_STATUS=$?\n\
if [ \"$RUSTERM_STATUS\" -eq 0 ]; then\n\
printf '%s\\n' \"$RUSTERM_OUT\"\n\
continue\n\
fi\n\
case \"$RUSTERM_OUT\" in\n\
*elevation_required*) ;;\n\
*)\n\
printf '%s\\n' \"$RUSTERM_OUT\" >&2\n\
RUSTERM_FAILED=$RUSTERM_STATUS\n\
continue\n\
;;\n\
esac\n\
fi\n\
curl --silent --show-error --fail-with-body \\\n      --connect-timeout 10 --max-time 120 \\\n      --request POST \\\n      --user \"${RUSTERM_API_USER}:${RUSTERM_API_PASSWORD}\" \\\n      --header 'Accept: text/plain' \\\n      --header 'Content-Type: text/plain; charset=utf-8' \\\n      --data-binary \"$*\" \\\n      \"${RUSTERM_API_URL}/r/${RUSTERM_TARGET}\" || RUSTERM_FAILED=$?\n\
done\n\n\
if [ \"$RUSTERM_FAILED\" -ne 0 ]; then\n\
printf '\\n");
    assert(COMMAND_LOOP@.subrange(0, 2) == "'\n"@);
}

/// What stands at a seam: the end of one part, a text, and the start of the next part.
proof fn lemma_seam(
    before: Seq<char>,
    end: Seq<char>,
    part: Seq<char>,
    text: Seq<char>,
    next: Seq<char>,
    start: Seq<char>,
)
    requires
        part.len() >= end.len(),
        part.skip(part.len() - end.len()) == end,
        starts_with_text(next, start),
    ensures
        holds_text(before + part + text + next, end + text + start),
{
    let all = before + part + text + next;
    let pattern = end + text + start;
    let at = before.len() + part.len() - end.len();
    assert forall|i: int| 0 <= i < pattern.len() implies all[at + i] == pattern[i] by {
        if i < end.len() {
            assert(part.skip(part.len() - end.len())[i] == end[i]);
        } else if i >= end.len() + text.len() {
            assert(next.subrange(0, start.len() as int)[i - end.len() - text.len()] == start[
                i - end.len() - text.len()]);
        }
    }
    assert(all.subrange(at, at + pattern.len()) == pattern);
    assert(stands_at(all, pattern, at));
}

proof fn lemma_command_targets(
    url: Seq<char>,
    user: Seq<char>,
    hosts: Seq<Seq<char>>,
    elevated: bool,
    language: Language,
    catalog: &Catalog,
)
    ensures
        holds_text(
            command_prologue(url, user, hosts, elevated, language, catalog),
            "RUSTERM_HOSTS="@ + shell_quoted(join(hosts, "\n"@)) + "\n"@,
        ),
{
    let wanted = "RUSTERM_HOSTS="@ + shell_quoted(join(hosts, "\n"@)) + "\n"@;
    let query: Seq<char> = if elevated {
        ELEVATED_QUERY@
    } else {
        Seq::empty()
    };
    lemma_breaks();
    lemma_command_seams();
    let before = EXPORT_URL@ + shell_quoted(without_slashes(url)) + EXPORT_USER@ + shell_quoted(user)
        + COMMAND_USAGE@ + quoted_message(catalog, language, "api.function_usage"@)
        + COMMAND_REFRESH@ + quoted_message(catalog, language, "api.missing_config"@)
        + COMMAND_NO_USER@ + quoted_message(catalog, language, "api.missing_user"@)
        + COMMAND_PASSWORD@ + quoted_message(catalog, language, "api.password_not_tty"@)
        + COMMAND_NOT_TTY@ + quoted_message(catalog, language, "api.password_prompt"@);
    assert(COMMAND_HOSTS@.subrange(0, 1) == "\n"@);
    lemma_seam(
        before,
        "RUSTERM_HOSTS="@,
        COMMAND_READ_PASSWORD@,
        shell_quoted(join(hosts, "\n"@)),
        COMMAND_HOSTS@,
        "\n"@,
    );
    let s0 = EXPORT_URL@ + shell_quoted(without_slashes(url)) + EXPORT_USER@ + shell_quoted(user) + COMMAND_USAGE@ + quoted_message(catalog, language, "api.function_usage"@) + COMMAND_REFRESH@ + quoted_message(catalog, language, "api.missing_config"@) + COMMAND_NO_USER@ + quoted_message(catalog, language, "api.missing_user"@) + COMMAND_PASSWORD@ + quoted_message(catalog, language, "api.password_not_tty"@) + COMMAND_NOT_TTY@ + quoted_message(catalog, language, "api.password_prompt"@) + COMMAND_READ_PASSWORD@ + shell_quoted(join(hosts, "\n"@)) + COMMAND_HOSTS@;
    let s1 = s0 + quoted_message(catalog, language, "api.no_hosts"@);
    lemma_holds_more(s0, quoted_message(catalog, language, "api.no_hosts"@), wanted);
    let s2 = s1 + COMMAND_ELEVATED@;
    lemma_holds_more(s1, COMMAND_ELEVATED@, wanted);
    let s3 = s2 + query;
    lemma_holds_more(s2, query, wanted);
    let s4 = s3 + COMMAND_LOOP@;
    lemma_holds_more(s3, COMMAND_LOOP@, wanted);
    let s5 = s4 + quoted_message(catalog, language, "api.request_failed"@);
    lemma_holds_more(s4, quoted_message(catalog, language, "api.request_failed"@), wanted);
    let s6 = s5 + COMMAND_END@;
    lemma_holds_more(s5, COMMAND_END@, wanted);
    let s7 = s6 + catalog.text(language, "api.command_marker_title"@);
    lemma_holds_more(s6, catalog.text(language, "api.command_marker_title"@), wanted);
    let s8 = s7 + MARKER_NEXT@;
    lemma_holds_more(s7, MARKER_NEXT@, wanted);
    let s9 = s8 + catalog.text(language, "api.command_marker_help"@);
    lemma_holds_more(s8, catalog.text(language, "api.command_marker_help"@), wanted);
    let s10 = s9 + MARKER_END@;
    lemma_holds_more(s9, MARKER_END@, wanted);
    assert(s10 == command_prologue(url, user, hosts, elevated, language, catalog));
}

proof fn lemma_command_elevation(
    url: Seq<char>,
    user: Seq<char>,
    hosts: Seq<Seq<char>>,
    elevated: bool,
    language: Language,
    catalog: &Catalog,
)
    ensures
        holds_text(
            command_prologue(url, user, hosts, elevated, language, catalog),
            "RUSTERM_ELEVATED='"@ + (if elevated {
                "?elevated=true"@
            } else {
                Seq::empty()
            }) + "'\n"@,
        ),
{
    let query: Seq<char> = if elevated {
        ELEVATED_QUERY@
    } else {
        Seq::empty()
    };
    let wanted = "RUSTERM_ELEVATED='"@ + query + "'\n"@;
    lemma_command_seams();
    let before = EXPORT_URL@ + shell_quoted(without_slashes(url)) + EXPORT_USER@ + shell_quoted(user)
        + COMMAND_USAGE@ + quoted_message(catalog, language, "api.function_usage"@)
        + COMMAND_REFRESH@ + quoted_message(catalog, language, "api.missing_config"@)
        + COMMAND_NO_USER@ + quoted_message(catalog, language, "api.missing_user"@)
        + COMMAND_PASSWORD@ + quoted_message(catalog, language, "api.password_not_tty"@)
        + COMMAND_NOT_TTY@ + quoted_message(catalog, language, "api.password_prompt"@)
        + COMMAND_READ_PASSWORD@ + shell_quoted(join(hosts, "\n"@)) + COMMAND_HOSTS@
        + quoted_message(catalog, language, "api.no_hosts"@);
    lemma_seam(before, "RUSTERM_ELEVATED='"@, COMMAND_ELEVATED@, query, COMMAND_LOOP@, "'\n"@);
    let s0 = EXPORT_URL@ + shell_quoted(without_slashes(url)) + EXPORT_USER@ + shell_quoted(user) + COMMAND_USAGE@ + quoted_message(catalog, language, "api.function_usage"@) + COMMAND_REFRESH@ + quoted_message(catalog, language, "api.missing_config"@) + COMMAND_NO_USER@ + quoted_message(catalog, language, "api.missing_user"@) + COMMAND_PASSWORD@ + quoted_message(catalog, language, "api.password_not_tty"@) + COMMAND_NOT_TTY@ + quoted_message(catalog, language, "api.password_prompt"@) + COMMAND_READ_PASSWORD@ + shell_quoted(join(hosts, "\n"@)) + COMMAND_HOSTS@ + quoted_message(catalog, language, "api.no_hosts"@) + COMMAND_ELEVATED@ + query + COMMAND_LOOP@;
    let s1 = s0 + quoted_message(catalog, language, "api.request_failed"@);
    lemma_holds_more(s0, quoted_message(catalog, language, "api.request_failed"@), wanted);
    let s2 = s1 + COMMAND_END@;
    lemma_holds_more(s1, COMMAND_END@, wanted);
    let s3 = s2 + catalog.text(language, "api.command_marker_title"@);
    lemma_holds_more(s2, catalog.text(language, "api.command_marker_title"@), wanted);
    let s4 = s3 + MARKER_NEXT@;
    lemma_holds_more(s3, MARKER_NEXT@, wanted);
    let s5 = s4 + catalog.text(language, "api.command_marker_help"@);
    lemma_holds_more(s4, catalog.text(language, "api.command_marker_help"@), wanted);
    let s6 = s5 + MARKER_END@;
    lemma_holds_more(s5, MARKER_END@, wanted);
    assert(s6 == command_prologue(url, user, hosts, elevated, language, catalog));
}

/// A script that sends a command names its targets, one on each line of `RUSTERM_HOSTS`, says by
/// `RUSTERM_ELEVATED` whether it runs elevated, and ends with the call of its function, or with an
/// example where there is no command.
pub proof fn law_command_script_holds_its_targets_and_its_call(
    url: Seq<char>,
    user: Seq<char>,
    sessions: Seq<Seq<char>>,
    command: String,
    elevated: bool,
    language: Language,
    catalog: &Catalog,
)
    requires
        sessions.len() > 0,
    ensures
        ({
            let script = curl_preview(
                url,
                user,
                sessions,
                CurlPayload::Command(command),
                elevated,
                language,
                catalog,
            ).script();
            let call = if command@.len() == 0 {
                "# rusterm <command...>\n"@
            } else {
                "rusterm "@ + command_argument(command@) + "\n"@
            };
            &&& holds_text(script, "RUSTERM_HOSTS="@ + shell_quoted(join(sessions, "\n"@)) + "\n"@)
            &&& shell_arguments("RUSTERM_HOSTS="@ + shell_quoted(join(sessions, "\n"@))) == Some(
                seq!["RUSTERM_HOSTS="@ + join(sessions, "\n"@)],
            )
            &&& holds_text(
                script,
                "RUSTERM_ELEVATED='"@ + (if elevated {
                    "?elevated=true"@
                } else {
                    Seq::empty()
                }) + "'\n"@,
            )
            &&& script.len() >= call.len()
            &&& script.skip(script.len() - call.len()) == call
        }),
{
    let head = command_prologue(url, user, sessions, elevated, language, catalog);
    let call = command_call(command@);
    let preview = curl_preview(
        url,
        user,
        sessions,
        CurlPayload::Command(command),
        elevated,
        language,
        catalog,
    );
    let script = preview.script();
    let hosts_line = "RUSTERM_HOSTS="@ + shell_quoted(join(sessions, "\n"@)) + "\n"@;
    let elevation = "RUSTERM_ELEVATED='"@ + (if elevated {
        "?elevated=true"@
    } else {
        Seq::empty()
    }) + "'\n"@;
    lemma_command_targets(url, user, sessions, elevated, language, catalog);
    lemma_command_elevation(url, user, sessions, elevated, language, catalog);
    let tail = call.script();
    assert(script == head + tail);
    lemma_holds_more(head, tail, hosts_line);
    lemma_holds_more(head, tail, elevation);
    reveal_strlit("RUSTERM_HOSTS");
    reveal_strlit("RUSTERM_HOSTS=");
    reveal_strlit("=");
    assert("RUSTERM_HOSTS"@ + "="@ == "RUSTERM_HOSTS="@);
    law_quoted_value_is_assigned("RUSTERM_HOSTS"@, join(sessions, "\n"@));
    if command@.len() == 0 {
        reveal_strlit("# rusterm <command...>\n");
        reveal_strlit("# rusterm <command...>");
        reveal_strlit("\n");
        assert(tail == "# rusterm <command...>\n"@);
    } else {
        law_command_stands_as_one_word(command@);
    }
    assert(script.skip(script.len() - tail.len()) == tail);
}

/// Without a selected session a script is the one for a session called `HOST`.
pub proof fn law_no_session_is_host(
    url: Seq<char>,
    user: Seq<char>,
    payload: CurlPayload,
    elevated: bool,
    language: Language,
    catalog: &Catalog,
)
    ensures
        curl_preview(url, user, Seq::empty(), payload, elevated, language, catalog)
            == curl_preview(url, user, seq!["HOST"@], payload, elevated, language, catalog),
{
}

/// What is highlighted is the payload: of a script, a shell reads it between quotes as the script
/// inside its JSON string; of a command of ordinary words it is the command itself; of any other
/// command a shell reads it between quotes as the command.
pub proof fn law_highlighted_is_the_payload(
    url: Seq<char>,
    user: Seq<char>,
    sessions: Seq<Seq<char>>,
    payload: CurlPayload,
    elevated: bool,
    language: Language,
    catalog: &Catalog,
)
    ensures
        ({
            let shown = curl_preview(
                url,
                user,
                sessions,
                payload,
                elevated,
                language,
                catalog,
            ).command;
            let read = shell_arguments(seq!['\''] + shown + seq!['\'']);
            match payload {
                CurlPayload::Script(text) => read == Some(seq![json_inner(text@)]),
                CurlPayload::ScriptBase64(text) => read == Some(seq![json_inner(text@)]),
                CurlPayload::Command(text) => shown == text@ || read == Some(seq![text@]),
            }
        }),
{
    match payload {
        CurlPayload::Script(text) | CurlPayload::ScriptBase64(text) => {
            law_shell_quote_reads_back(json_inner(text@));
        },
        CurlPayload::Command(text) => {
            law_shell_quote_reads_back(text@);
        },
    }
}

/// A command of ordinary words, with one space between each two, is handed on as it is.
pub proof fn law_ordinary_words_stay(command: Seq<char>)
    requires
        command.len() > 0,
        command[0] != ' ',
        command.last() != ' ',
        forall|i: int|
            0 <= i < command.len() - 1 ==> !(#[trigger] command[i] == ' ' && command[i + 1] == ' '),
        forall|i: int|
            0 <= i < command.len() ==> {
                let c = #[trigger] command[i];
                'a' <= c <= 'z' || 'A' <= c <= 'Z' || '0' <= c <= '9' || c == ' ' || c == '-' || c
                    == '_' || c == '.' || c == '/' || c == ':' || c == '=' || c == '@' || c == '%'
                    || c == '+' || c == ','
            },
    ensures
        command_argument(command) == command,
{
    if holds_text(command, seq![' ', ' ']) {
        let at = choose|at: int| stands_at(command, seq![' ', ' '], at);
        let seen = command.subrange(at, at + 2);
        assert(seen == seq![' ', ' ']);
        assert(seen[0] == command[at] && seen[1] == command[at + 1]);
        assert(false);
    }
    assert forall|i: int| 0 <= i < command.len() implies is_word_char(#[trigger] command[i]) by {}
}

/// The function of a command script tells each message at its own place: how it is used where it
/// is called without a command, what is missing where the address, the account, a terminal or the
/// targets are, and a failure at its end; the targets and the mark of elevation stand between the
/// steps that use them.
pub proof fn law_command_script_tells_its_messages(
    url: Seq<char>,
    user: Seq<char>,
    hosts: Seq<Seq<char>>,
    elevated: bool,
    language: Language,
    catalog: &Catalog,
)
    ensures
        holds_text(
            command_prologue(url, user, hosts, elevated, language, catalog),
            COMMAND_USAGE@ + quoted_message(catalog, language, "api.function_usage"@) + COMMAND_REFRESH@,
        ),
        holds_text(
            command_prologue(url, user, hosts, elevated, language, catalog),
            COMMAND_REFRESH@ + quoted_message(catalog, language, "api.missing_config"@) + COMMAND_NO_USER@,
        ),
        holds_text(
            command_prologue(url, user, hosts, elevated, language, catalog),
            COMMAND_NO_USER@ + quoted_message(catalog, language, "api.missing_user"@) + COMMAND_PASSWORD@,
        ),
        holds_text(
            command_prologue(url, user, hosts, elevated, language, catalog),
            COMMAND_PASSWORD@ + quoted_message(catalog, language, "api.password_not_tty"@) + COMMAND_NOT_TTY@,
        ),
        holds_text(
            command_prologue(url, user, hosts, elevated, language, catalog),
            COMMAND_NOT_TTY@ + quoted_message(catalog, language, "api.password_prompt"@) + COMMAND_READ_PASSWORD@,
        ),
        holds_text(
            command_prologue(url, user, hosts, elevated, language, catalog),
            COMMAND_READ_PASSWORD@ + shell_quoted(join(hosts, "\n"@)) + COMMAND_HOSTS@,
        ),
        holds_text(
            command_prologue(url, user, hosts, elevated, language, catalog),
            COMMAND_HOSTS@ + quoted_message(catalog, language, "api.no_hosts"@) + COMMAND_ELEVATED@,
        ),
        holds_text(
            command_prologue(url, user, hosts, elevated, language, catalog),
            COMMAND_ELEVATED@ + (if elevated {
                "?elevated=true"@
            } else {
                Seq::empty()
            }) + COMMAND_LOOP@,
        ),
        holds_text(
            command_prologue(url, user, hosts, elevated, language, catalog),
            COMMAND_LOOP@ + quoted_message(catalog, language, "api.request_failed"@) + COMMAND_END@,
        ),
        holds_text(
            command_prologue(url, user, hosts, elevated, language, catalog),
            COMMAND_END@ + catalog.text(language, "api.command_marker_title"@) + MARKER_NEXT@,
        ),
        holds_text(
            command_prologue(url, user, hosts, elevated, language, catalog),
            MARKER_NEXT@ + catalog.text(language, "api.command_marker_help"@) + MARKER_END@,
        ),
{
    let p0 = EXPORT_URL@;
    let p1 = shell_quoted(without_slashes(url));
    let p2 = EXPORT_USER@;
    let p3 = shell_quoted(user);
    let p4 = COMMAND_USAGE@;
    let p5 = quoted_message(catalog, language, "api.function_usage"@);
    let p6 = COMMAND_REFRESH@;
    let p7 = quoted_message(catalog, language, "api.missing_config"@);
    let p8 = COMMAND_NO_USER@;
    let p9 = quoted_message(catalog, language, "api.missing_user"@);
    let p10 = COMMAND_PASSWORD@;
    let p11 = quoted_message(catalog, language, "api.password_not_tty"@);
    let p12 = COMMAND_NOT_TTY@;
    let p13 = quoted_message(catalog, language, "api.password_prompt"@);
    let p14 = COMMAND_READ_PASSWORD@;
    let p15 = shell_quoted(join(hosts, "\n"@));
    let p16 = COMMAND_HOSTS@;
    let p17 = quoted_message(catalog, language, "api.no_hosts"@);
    let p18 = COMMAND_ELEVATED@;
    let p19 = (if elevated {
                "?elevated=true"@
            } else {
                Seq::empty()
            });
    let p20 = COMMAND_LOOP@;
    let p21 = quoted_message(catalog, language, "api.request_failed"@);
    let p22 = COMMAND_END@;
    let p23 = catalog.text(language, "api.command_marker_title"@);
    let p24 = MARKER_NEXT@;
    let p25 = catalog.text(language, "api.command_marker_help"@);
    let p26 = MARKER_END@;
    let none = Seq::<char>::empty();
    let s0 = p0;
    assert(none + p0 == p0);
    let s1 = s0 + p1;
    let s2 = s1 + p2;
    let s3 = s2 + p3;
    let s4 = s3 + p4;
    let s5 = s4 + p5;
    let s6 = s5 + p6;
    let s7 = s6 + p7;
    let s8 = s7 + p8;
    let s9 = s8 + p9;
    let s10 = s9 + p10;
    let s11 = s10 + p11;
    let s12 = s11 + p12;
    let s13 = s12 + p13;
    let s14 = s13 + p14;
    let s15 = s14 + p15;
    let s16 = s15 + p16;
    let s17 = s16 + p17;
    let s18 = s17 + p18;
    let s19 = s18 + p19;
    let s20 = s19 + p20;
    let s21 = s20 + p21;
    let s22 = s21 + p22;
    let s23 = s22 + p23;
    let s24 = s23 + p24;
    let s25 = s24 + p25;
    let s26 = s25 + p26;
    lemma_holds_last_three(s3, p4, p5, p6);
    let h5 = p4 + p5 + p6;
    lemma_holds_more(s6, p7, h5);
    lemma_holds_more(s7, p8, h5);
    lemma_holds_more(s8, p9, h5);
    lemma_holds_more(s9, p10, h5);
    lemma_holds_more(s10, p11, h5);
    lemma_holds_more(s11, p12, h5);
    lemma_holds_more(s12, p13, h5);
    lemma_holds_more(s13, p14, h5);
    lemma_holds_more(s14, p15, h5);
    lemma_holds_more(s15, p16, h5);
    lemma_holds_more(s16, p17, h5);
    lemma_holds_more(s17, p18, h5);
    lemma_holds_more(s18, p19, h5);
    lemma_holds_more(s19, p20, h5);
    lemma_holds_more(s20, p21, h5);
    lemma_holds_more(s21, p22, h5);
    lemma_holds_more(s22, p23, h5);
    lemma_holds_more(s23, p24, h5);
    lemma_holds_more(s24, p25, h5);
    lemma_holds_more(s25, p26, h5);
    lemma_holds_last_three(s5, p6, p7, p8);
    let h7 = p6 + p7 + p8;
    lemma_holds_more(s8, p9, h7);
    lemma_holds_more(s9, p10, h7);
    lemma_holds_more(s10, p11, h7);
    lemma_holds_more(s11, p12, h7);
    lemma_holds_more(s12, p13, h7);
    lemma_holds_more(s13, p14, h7);
    lemma_holds_more(s14, p15, h7);
    lemma_holds_more(s15, p16, h7);
    lemma_holds_more(s16, p17, h7);
    lemma_holds_more(s17, p18, h7);
    lemma_holds_more(s18, p19, h7);
    lemma_holds_more(s19, p20, h7);
    lemma_holds_more(s20, p21, h7);
    lemma_holds_more(s21, p22, h7);
    lemma_holds_more(s22, p23, h7);
    lemma_holds_more(s23, p24, h7);
    lemma_holds_more(s24, p25, h7);
    lemma_holds_more(s25, p26, h7);
    lemma_holds_last_three(s7, p8, p9, p10);
    let h9 = p8 + p9 + p10;
    lemma_holds_more(s10, p11, h9);
    lemma_holds_more(s11, p12, h9);
    lemma_holds_more(s12, p13, h9);
    lemma_holds_more(s13, p14, h9);
    lemma_holds_more(s14, p15, h9);
    lemma_holds_more(s15, p16, h9);
    lemma_holds_more(s16, p17, h9);
    lemma_holds_more(s17, p18, h9);
    lemma_holds_more(s18, p19, h9);
    lemma_holds_more(s19, p20, h9);
    lemma_holds_more(s20, p21, h9);
    lemma_holds_more(s21, p22, h9);
    lemma_holds_more(s22, p23, h9);
    lemma_holds_more(s23, p24, h9);
    lemma_holds_more(s24, p25, h9);
    lemma_holds_more(s25, p26, h9);
    lemma_holds_last_three(s9, p10, p11, p12);
    let h11 = p10 + p11 + p12;
    lemma_holds_more(s12, p13, h11);
    lemma_holds_more(s13, p14, h11);
    lemma_holds_more(s14, p15, h11);
    lemma_holds_more(s15, p16, h11);
    lemma_holds_more(s16, p17, h11);
    lemma_holds_more(s17, p18, h11);
    lemma_holds_more(s18, p19, h11);
    lemma_holds_more(s19, p20, h11);
    lemma_holds_more(s20, p21, h11);
    lemma_holds_more(s21, p22, h11);
    lemma_holds_more(s22, p23, h11);
    lemma_holds_more(s23, p24, h11);
    lemma_holds_more(s24, p25, h11);
    lemma_holds_more(s25, p26, h11);
    lemma_holds_last_three(s11, p12, p13, p14);
    let h13 = p12 + p13 + p14;
    lemma_holds_more(s14, p15, h13);
    lemma_holds_more(s15, p16, h13);
    lemma_holds_more(s16, p17, h13);
    lemma_holds_more(s17, p18, h13);
    lemma_holds_more(s18, p19, h13);
    lemma_holds_more(s19, p20, h13);
    lemma_holds_more(s20, p21, h13);
    lemma_holds_more(s21, p22, h13);
    lemma_holds_more(s22, p23, h13);
    lemma_holds_more(s23, p24, h13);
    lemma_holds_more(s24, p25, h13);
    lemma_holds_more(s25, p26, h13);
    lemma_holds_last_three(s13, p14, p15, p16);
    let h15 = p14 + p15 + p16;
    lemma_holds_more(s16, p17, h15);
    lemma_holds_more(s17, p18, h15);
    lemma_holds_more(s18, p19, h15);
    lemma_holds_more(s19, p20, h15);
    lemma_holds_more(s20, p21, h15);
    lemma_holds_more(s21, p22, h15);
    lemma_holds_more(s22, p23, h15);
    lemma_holds_more(s23, p24, h15);
    lemma_holds_more(s24, p25, h15);
    lemma_holds_more(s25, p26, h15);
    lemma_holds_last_three(s15, p16, p17, p18);
    let h17 = p16 + p17 + p18;
    lemma_holds_more(s18, p19, h17);
    lemma_holds_more(s19, p20, h17);
    lemma_holds_more(s20, p21, h17);
    lemma_holds_more(s21, p22, h17);
    lemma_holds_more(s22, p23, h17);
    lemma_holds_more(s23, p24, h17);
    lemma_holds_more(s24, p25, h17);
    lemma_holds_more(s25, p26, h17);
    lemma_holds_last_three(s17, p18, p19, p20);
    let h19 = p18 + p19 + p20;
    lemma_holds_more(s20, p21, h19);
    lemma_holds_more(s21, p22, h19);
    lemma_holds_more(s22, p23, h19);
    lemma_holds_more(s23, p24, h19);
    lemma_holds_more(s24, p25, h19);
    lemma_holds_more(s25, p26, h19);
    lemma_holds_last_three(s19, p20, p21, p22);
    let h21 = p20 + p21 + p22;
    lemma_holds_more(s22, p23, h21);
    lemma_holds_more(s23, p24, h21);
    lemma_holds_more(s24, p25, h21);
    lemma_holds_more(s25, p26, h21);
    lemma_holds_last_three(s21, p22, p23, p24);
    let h23 = p22 + p23 + p24;
    lemma_holds_more(s24, p25, h23);
    lemma_holds_more(s25, p26, h23);
    lemma_holds_last_three(s23, p24, p25, p26);
    let h25 = p24 + p25 + p26;
    assert(command_prologue(url, user, hosts, elevated, language, catalog) == s26);
}

/// A script tells that it cannot ask for the password where there is no terminal, asks for it
/// where there is one, and names itself and its use in two comments.
pub proof fn law_script_tells_its_messages(
    url: Seq<char>,
    user: Seq<char>,
    language: Language,
    catalog: &Catalog,
)
    ensures
        holds_text(
            script_prologue(url, user, language, catalog),
            SCRIPT_PASSWORD@ + quoted_message(catalog, language, "api.password_not_tty"@) + SCRIPT_NOT_TTY@,
        ),
        holds_text(
            script_prologue(url, user, language, catalog),
            SCRIPT_NOT_TTY@ + quoted_message(catalog, language, "api.password_prompt"@) + SCRIPT_FUNCTIONS@,
        ),
        holds_text(
            script_prologue(url, user, language, catalog),
            SCRIPT_FUNCTIONS@ + catalog.text(language, "api.command_marker_title"@) + MARKER_NEXT@,
        ),
        holds_text(
            script_prologue(url, user, language, catalog),
            MARKER_NEXT@ + catalog.text(language, "api.command_marker_help"@) + MARKER_END@,
        ),
{
    let p0 = EXPORT_URL@;
    let p1 = shell_quoted(without_slashes(url));
    let p2 = EXPORT_USER@;
    let p3 = shell_quoted(user);
    let p4 = SCRIPT_PASSWORD@;
    let p5 = quoted_message(catalog, language, "api.password_not_tty"@);
    let p6 = SCRIPT_NOT_TTY@;
    let p7 = quoted_message(catalog, language, "api.password_prompt"@);
    let p8 = SCRIPT_FUNCTIONS@;
    let p9 = catalog.text(language, "api.command_marker_title"@);
    let p10 = MARKER_NEXT@;
    let p11 = catalog.text(language, "api.command_marker_help"@);
    let p12 = MARKER_END@;
    let none = Seq::<char>::empty();
    let s0 = p0;
    assert(none + p0 == p0);
    let s1 = s0 + p1;
    let s2 = s1 + p2;
    let s3 = s2 + p3;
    let s4 = s3 + p4;
    let s5 = s4 + p5;
    let s6 = s5 + p6;
    let s7 = s6 + p7;
    let s8 = s7 + p8;
    let s9 = s8 + p9;
    let s10 = s9 + p10;
    let s11 = s10 + p11;
    let s12 = s11 + p12;
    lemma_holds_last_three(s3, p4, p5, p6);
    let h5 = p4 + p5 + p6;
    lemma_holds_more(s6, p7, h5);
    lemma_holds_more(s7, p8, h5);
    lemma_holds_more(s8, p9, h5);
    lemma_holds_more(s9, p10, h5);
    lemma_holds_more(s10, p11, h5);
    lemma_holds_more(s11, p12, h5);
    lemma_holds_last_three(s5, p6, p7, p8);
    let h7 = p6 + p7 + p8;
    lemma_holds_more(s8, p9, h7);
    lemma_holds_more(s9, p10, h7);
    lemma_holds_more(s10, p11, h7);
    lemma_holds_more(s11, p12, h7);
    lemma_holds_last_three(s7, p8, p9, p10);
    let h9 = p8 + p9 + p10;
    lemma_holds_more(s10, p11, h9);
    lemma_holds_more(s11, p12, h9);
    lemma_holds_last_three(s9, p10, p11, p12);
    let h11 = p10 + p11 + p12;
    assert(script_prologue(url, user, language, catalog) == s12);
}

/// A script ends with the report of a failure.
pub proof fn law_script_ends_with_its_failure(language: Language, catalog: &Catalog)
    ensures
        script_epilogue(language, catalog) == FAILURE_CHECK@ + shell_escaped(
            catalog.text(language, "api.request_failed"@),
        ) + FAILURE_END@,
        quoted_message(catalog, language, "api.request_failed"@) == shell_escaped(
            catalog.text(language, "api.request_failed"@),
        ),
{
}

} // verus!
