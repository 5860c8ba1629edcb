//! Scoped auto-approval policy for trusted operators.
//!
//! This keeps approval friction low for high-frequency, low-risk operations while
//! preserving approval gates for sensitive actions.

use vstd::prelude::*;
use vstd::string::*;
use crate::json::{
    entry_trees, item_trees, lemma_entry_keys, lemma_item_trees, text_field, tree_field, tree_text,
    Json, JsonTree,
};
use crate::plain;
use crate::text::{
    begins_with, chars_of, contains_text, ends_in, ends_with_text, joined, lower_text, lowered,
    normalized, normalized_list, occurs, pieces, same_text, starts_with_text, trim_start_text,
    trim_text, trimmed, trimmed_start, upper_text, uppered, views, white_space,
};

verus! {

/// The trusted operators, by their Discord user IDs.
pub open spec fn trusted_operator(user_id: Seq<char>) -> bool {
    ||| user_id == "989554992786579536"@
    ||| user_id == "975815588930781308"@
    ||| user_id == "1001181816490827817"@
}

/// The string under a key, or `default` where there is none.
pub open spec fn text_or(params: JsonTree, key: Seq<char>, default: Seq<char>) -> Seq<char> {
    match text_field(params, key) {
        Some(text) => text,
        None => default,
    }
}

/// A header that may carry credentials.
pub open spec fn sensitive_header(name: Seq<char>, value: Seq<char>) -> bool {
    let n = lowered(name);
    ||| n == "authorization"@
    ||| n == "proxy-authorization"@
    ||| n == "cookie"@
    ||| n == "x-api-key"@
    ||| begins_with(n, "x-auth-"@)
    ||| begins_with(lowered(trimmed(value)), "bearer "@)
}

/// A request body is there: `null` and a blank string are none.
pub open spec fn has_body(params: JsonTree) -> bool {
    match tree_field(params, "body"@) {
        None => false,
        Some(JsonTree::Null) => false,
        Some(JsonTree::Text(s)) => trimmed(s).len() > 0,
        Some(_) => true,
    }
}

/// The value is an object that names a sensitive header by its `name` and `value`.
pub open spec fn names_sensitive_header(item: JsonTree) -> bool {
    match (text_field(item, "name"@), text_field(item, "value"@)) {
        (Some(name), Some(value)) => sensitive_header(name, value),
        _ => false,
    }
}

/// One of the values names a sensitive header.
pub open spec fn lists_sensitive_header(items: Seq<JsonTree>) -> bool {
    exists|i: int| 0 <= i < items.len() && names_sensitive_header(#[trigger] items[i])
}

/// The key of the map is a sensitive header.
pub open spec fn holds_sensitive_header(
    headers: Map<Seq<char>, JsonTree>,
    name: Seq<char>,
) -> bool {
    &&& headers.contains_key(name)
    &&& tree_text(headers[name]) is Some
    &&& sensitive_header(name, tree_text(headers[name])->0)
}

/// The headers are readable and none of them is sensitive.
pub open spec fn headers_allowed(params: JsonTree) -> bool {
    match tree_field(params, "headers"@) {
        None => true,
        Some(JsonTree::Object(map)) => forall|name: Seq<char>| !holds_sensitive_header(map, name),
        Some(JsonTree::Array(items)) => !lists_sensitive_header(items),
        Some(_) => false,
    }
}

/// The method of a request in capitals, `GET` where none is given.
pub open spec fn http_method(params: JsonTree) -> Seq<char> {
    uppered(trimmed(text_or(params, "method"@, "GET"@)))
}

/// A request that only reads and that carries no credentials.
pub open spec fn readonly_http(params: JsonTree) -> bool {
    &&& http_method(params) == "GET"@ || http_method(params) == "HEAD"@
    &&& !has_body(params)
    &&& headers_allowed(params)
}

/// A command that only asks codex for help or for its version: the word `help` is the one
/// after `codex` or the last one, or an option for help stands last.
pub open spec fn help_command(cmd: Seq<char>) -> bool {
    ||| cmd == "codex --help"@
    ||| cmd == "codex help"@
    ||| cmd == "codex -h"@
    ||| cmd == "codex --version"@
    ||| cmd == "codex version"@
    ||| begins_with(cmd, "codex "@) && (ends_in(cmd, " --help"@) || ends_in(cmd, " -h"@) || ends_in(
        cmd,
        " help"@,
    ) || begins_with(cmd, "codex help "@))
}

/// The command of a shell call.
pub open spec fn shell_command(params: JsonTree) -> Seq<char> {
    text_or(params, "command"@, Seq::empty())
}

/// The command is the prefix, or goes on behind it after white space.
pub open spec fn prefix_matches(cmd: Seq<char>, prefix: Seq<char>) -> bool {
    ||| cmd == prefix
    ||| begins_with(cmd, prefix) && cmd.len() > prefix.len() && white_space(
        cmd[prefix.len() as int],
    )
}

/// The elements of a comma-separated setting: none where it is not set.
pub open spec fn configured(setting: Option<Seq<char>>) -> Seq<Seq<char>> {
    match setting {
        Some(raw) => normalized(pieces(raw, ',')),
        None => Seq::empty(),
    }
}

/// The text of a setting.
pub open spec fn setting_text(setting: Option<&str>) -> Option<Seq<char>> {
    match setting {
        Some(raw) => Some(raw@),
        None => None,
    }
}

/// The command matches one of the prefixes.
pub open spec fn prefix_approved(params: JsonTree, prefixes: Seq<Seq<char>>) -> bool {
    let cmd = lowered(trimmed_start(shell_command(params)));
    cmd.len() > 0 && exists|i: int|
        0 <= i < prefixes.len() && prefix_matches(cmd, #[trigger] prefixes[i])
}

/// The tool call needs no approval.
pub open spec fn auto_approved(
    user_id: Seq<char>,
    tool_name: Seq<char>,
    params: JsonTree,
    shell_prefixes: Option<Seq<char>>,
) -> bool {
    trusted_operator(user_id) && {
        ||| tool_name == "skill_install"@
        ||| tool_name == "http"@ && readonly_http(params)
        ||| tool_name == "shell"@ && (prefix_approved(params, configured(shell_prefixes))
            || help_command(trimmed(shell_command(params))))
    }
}

/// The first of the patterns that occurs in the text.
pub open spec fn first_occurring(patterns: Seq<Seq<char>>, text: Seq<char>) -> Option<Seq<char>>
    decreases patterns.len(),
{
    if patterns.len() == 0 {
        None
    } else if occurs(text, patterns.first()) {
        Some(patterns.first())
    } else {
        first_occurring(patterns.drop_first(), text)
    }
}

/// What the patterns are looked for in: kind, name and URL in small letters.
pub open spec fn install_text(params: JsonTree) -> Seq<char> {
    lowered(text_or(params, "kind"@, Seq::empty())) + " "@ + lowered(
        text_or(params, "name"@, Seq::empty()),
    ) + " "@ + lowered(text_or(params, "url"@, Seq::empty()))
}

/// Why the tool call is refused, if it is.
pub open spec fn rejection(
    tool_name: Seq<char>,
    params: JsonTree,
    deny_patterns: Option<Seq<char>>,
) -> Option<Seq<char>> {
    if tool_name == "tool_install"@ {
        match first_occurring(configured(deny_patterns), install_text(params)) {
            Some(pattern) => Some(
                "Installation request denied by policy pattern '"@ + pattern + "'."@,
            ),
            None => None,
        }
    } else {
        None
    }
}

/// Whether a tool call should be auto-approved for this user. `shell_prefixes` is the
/// setting `TRUSTED_SHELL_AUTO_APPROVE_PREFIXES`.
pub fn is_tool_auto_approved_for_user(
    user_id: &str,
    tool_name: &str,
    params: &Json,
    shell_prefixes: Option<&str>,
) -> (r: bool)
    ensures
        r == auto_approved(user_id@, tool_name@, params@, setting_text(shell_prefixes)),
{
    if !is_trusted_operator(user_id) {
        return false;
    }
    if same_text(tool_name, "skill_install") {
        // Installing skills is an intended workflow for trusted operators.
        return true;
    }
    if same_text(tool_name, "http") && is_readonly_http_request(params) {
        return true;
    }
    same_text(tool_name, "shell") && (is_auto_approved_shell_prefix(params, shell_prefixes)
        || is_readonly_help_shell_command(params))
}

/// Whether the user is a trusted operator.
pub fn is_trusted_operator(user_id: &str) -> (r: bool)
    ensures
        r == trusted_operator(user_id@),
{
    same_text(user_id, "989554992786579536")  // tarrence
     || same_text(user_id, "975815588930781308")  // clicksave
     || same_text(user_id, "1001181816490827817")  // gabe

}

/// A rejection reason for disallowed tool calls, to block known-bad execution paths
/// before approval prompts are emitted. `deny_patterns` is the setting
/// `TOOL_INSTALL_DENY_PATTERNS`.
pub fn reject_tool_call_for_user(
    _user_id: &str,
    tool_name: &str,
    params: &Json,
    deny_patterns: Option<&str>,
) -> (r: Option<String>)
    ensures
        rejection(tool_name@, params@, setting_text(deny_patterns)) == match r {
            Some(reason) => Some(reason@),
            None => None,
        },
{
    if !same_text(tool_name, "tool_install") {
        return None;
    }
    let mut haystack = lower_text(text_param(params, "kind", ""));
    haystack.append(" ");
    haystack.append(lower_text(text_param(params, "name", "")).as_str());
    haystack.append(" ");
    haystack.append(lower_text(text_param(params, "url", "")).as_str());
    proof {
        lemma_empty_text();
        assert(haystack@ == install_text(params@));
    }
    let patterns = deny_tool_install_patterns(deny_patterns);
    let ghost all = views(patterns@);
    let mut i: usize = 0;
    assert(all.skip(0) == all);
    while i < patterns.len()
        invariant
            i <= patterns@.len(),
            all == views(patterns@),
            first_occurring(all, haystack@) == first_occurring(all.skip(i as int), haystack@),
            rejection(tool_name@, params@, setting_text(deny_patterns)) == match first_occurring(
                all,
                haystack@,
            ) {
                Some(pattern) => Some(
                    "Installation request denied by policy pattern '"@ + pattern + "'."@,
                ),
                None => None,
            },
        decreases patterns@.len() - i,
    {
        assert(all.skip(i as int).first() == patterns@[i as int]@);
        assert(all.skip(i as int).drop_first() == all.skip(i + 1));
        if contains_text(haystack.as_str(), patterns[i].as_str()) {
            let mut reason = joined(
                "Installation request denied by policy pattern '",
                patterns[i].as_str(),
            );
            reason.append("'.");
            return Some(reason);
        }
        i = i + 1;
    }
    None
}

/// The string parameter `key`, or `default`.
fn text_param<'a>(params: &'a Json, key: &str, default: &'a str) -> (r: &'a str)
    ensures
        r@ == text_or(params@, key@, default@),
{
    match params.get_text(key) {
        Some(text) => text,
        None => default,
    }
}

/// Whether a header may carry credentials.
fn is_sensitive_header(name: &str, value: &str) -> (r: bool)
    ensures
        r == sensitive_header(name@, value@),
{
    let n = lower_text(name);
    let v = lower_text(trim_text(value).as_str());
    same_text(n.as_str(), "authorization") || same_text(n.as_str(), "proxy-authorization")
        || same_text(n.as_str(), "cookie") || same_text(n.as_str(), "x-api-key")
        || starts_with_text(n.as_str(), "x-auth-") || starts_with_text(v.as_str(), "bearer ")
}

/// Whether the parameters hold a request body.
fn has_request_body(params: &Json) -> (r: bool)
    ensures
        r == has_body(params@),
{
    match params.get("body") {
        None => false,
        Some(Json::Null) => false,
        Some(Json::Text(s)) => !trim_text(s.as_str()).as_str().is_empty(),
        Some(_) => true,
    }
}

/// Whether the headers are readable and none of them is sensitive.
fn are_headers_allowed(params: &Json) -> (r: bool)
    ensures
        r == headers_allowed(params@),
{
    let headers = match params.get("headers") {
        None => {
            return true;
        },
        Some(headers) => headers,
    };
    match headers {
        Json::Object(entries) => {
            let ghost map = entry_trees(entries@);
            let mut i: usize = 0;
            while i < entries.len()
                invariant
                    i <= entries@.len(),
                    headers.tree() == JsonTree::Object(map),
                    map == entry_trees(entries@),
                    tree_field(params@, "headers"@) == Some(headers.tree()),
                    forall|k: int|
                        0 <= k < i ==> !holds_sensitive_header(map, (#[trigger] entries@[k]).0@),
                decreases entries@.len() - i,
            {
                let name = entries[i].0.as_str();
                proof {
                    lemma_entry_keys(entries@, name@);
                }
                match headers.get_text(name) {
                    Some(value) => if is_sensitive_header(name, value) {
                        assert(holds_sensitive_header(map, name@));
                        return false;
                    },
                    None => {},
                }
                i = i + 1;
            }
            proof {
                assert forall|name: Seq<char>| !holds_sensitive_header(map, name) by {
                    lemma_entry_keys(entries@, name);
                }
            }
            true
        },
        Json::Array(items) => {
            proof {
                lemma_item_trees(items@);
            }
            let mut i: usize = 0;
            while i < items.len()
                invariant
                    i <= items@.len(),
                    headers.tree() == JsonTree::Array(item_trees(items@)),
                    tree_field(params@, "headers"@) == Some(headers.tree()),
                    item_trees(items@).len() == items@.len(),
                    forall|k: int|
                        0 <= k < items@.len() ==> item_trees(items@)[k] == (
                        #[trigger] items@[k]).tree(),
                    forall|k: int|
                        0 <= k < i ==> !names_sensitive_header((#[trigger] items@[k]).tree()),
                decreases items@.len() - i,
            {
                let item = &items[i];
                match (item.get_text("name"), item.get_text("value")) {
                    (Some(name), Some(value)) => if is_sensitive_header(name, value) {
                        assert(names_sensitive_header(item_trees(items@)[i as int]));
                        assert(lists_sensitive_header(item_trees(items@)));
                        return false;
                    },
                    _ => {},
                }
                i = i + 1;
            }
            proof {
                assert forall|k: int| 0 <= k < items@.len() implies !names_sensitive_header(
                    #[trigger] item_trees(items@)[k],
                ) by {
                    assert(!names_sensitive_header(items@[k].tree()));
                }
            }
            true
        },
        _ => false,
    }
}

/// Whether an HTTP call only reads, and carries no body and no credentials.
pub fn is_readonly_http_request(params: &Json) -> (r: bool)
    ensures
        r == readonly_http(params@),
{
    let method = upper_text(trim_text(text_param(params, "method", "GET")).as_str());
    if !same_text(method.as_str(), "GET") && !same_text(method.as_str(), "HEAD") {
        return false;
    }
    !has_request_body(params) && are_headers_allowed(params)
}

/// Whether a shell call only asks for help.
pub fn is_readonly_help_shell_command(params: &Json) -> (r: bool)
    ensures
        r == help_command(trimmed(shell_command(params@))),
{
    proof {
        lemma_empty_text();
        lemma_help_is_not_empty();
    }
    let trimmed_cmd = trim_text(text_param(params, "command", ""));
    let cmd = trimmed_cmd.as_str();
    if cmd.is_empty() {
        assert(cmd@ == Seq::<char>::empty());
        return false;
    }
    same_text(cmd, "codex --help") || same_text(cmd, "codex help") || same_text(cmd, "codex -h")
        || same_text(cmd, "codex --version") || same_text(cmd, "codex version") || (
    starts_with_text(cmd, "codex ") && (ends_with_text(cmd, " --help") || ends_with_text(cmd, " -h")
        || ends_with_text(cmd, " help") || starts_with_text(cmd, "codex help ")))
}

proof fn lemma_empty_text()
    ensures
        ""@ == Seq::<char>::empty(),
{
    reveal_strlit("");
}

proof fn lemma_tool_names_differ()
    ensures
        "skill_install"@ != "http"@,
        "skill_install"@ != "shell"@,
        "http"@ != "shell"@,
{
    reveal_strlit("http");
    reveal_strlit("shell");
    reveal_strlit("skill_install");
    assert("http"@.len() == 4);
    assert("shell"@.len() == 5);
    assert("skill_install"@.len() == 13);
}

proof fn lemma_help_is_not_empty()
    ensures
        !help_command(Seq::empty()),
{
    reveal_strlit("codex --help");
    reveal_strlit("codex help");
    reveal_strlit("codex -h");
    reveal_strlit("codex --version");
    reveal_strlit("codex version");
    reveal_strlit("codex ");
    assert("codex --help"@.len() == 12);
    assert("codex help"@.len() == 10);
    assert("codex -h"@.len() == 8);
    assert("codex --version"@.len() == 15);
    assert("codex version"@.len() == 13);
    assert("codex "@.len() == 6);
}

/// Whether a shell call begins with one of the configured prefixes.
pub fn is_auto_approved_shell_prefix(params: &Json, shell_prefixes: Option<&str>) -> (r: bool)
    ensures
        r == prefix_approved(params@, configured(setting_text(shell_prefixes))),
{
    proof {
        lemma_empty_text();
    }
    let cmd = lower_text(trim_start_text(text_param(params, "command", "")).as_str());
    if cmd.as_str().is_empty() {
        return false;
    }
    let prefixes = auto_approved_shell_prefixes(shell_prefixes);
    let ghost all = views(prefixes@);
    let mut i: usize = 0;
    while i < prefixes.len()
        invariant
            i <= prefixes@.len(),
            all == views(prefixes@),
            all == configured(setting_text(shell_prefixes)),
            cmd@ == lowered(trimmed_start(shell_command(params@))),
            cmd@.len() > 0,
            forall|k: int| 0 <= k < i ==> !prefix_matches(cmd@, #[trigger] all[k]),
        decreases prefixes@.len() - i,
    {
        assert(all[i as int] == prefixes@[i as int]@);
        if command_starts_with_prefix(cmd.as_str(), prefixes[i].as_str()) {
            return true;
        }
        i = i + 1;
    }
    false
}

/// The prefixes of shell commands that need no approval.
pub fn auto_approved_shell_prefixes(setting: Option<&str>) -> (r: Vec<String>)
    ensures
        views(r@) == configured(setting_text(setting)),
{
    configured_list(setting)
}

/// The patterns of tools that may not be installed.
pub fn deny_tool_install_patterns(setting: Option<&str>) -> (r: Vec<String>)
    ensures
        views(r@) == configured(setting_text(setting)),
{
    configured_list(setting)
}

/// The elements of a comma-separated setting.
fn configured_list(setting: Option<&str>) -> (r: Vec<String>)
    ensures
        views(r@) == configured(setting_text(setting)),
{
    match setting {
        Some(raw) => normalized_list(raw),
        None => {
            let none: Vec<String> = Vec::new();
            assert(views(none@) == Seq::<Seq<char>>::empty());
            none
        },
    }
}

/// Whether the command is the prefix, or goes on behind it after white space.
pub fn command_starts_with_prefix(cmd: &str, prefix: &str) -> (r: bool)
    ensures
        r == prefix_matches(cmd@, prefix@),
{
    if same_text(cmd, prefix) {
        return true;
    }
    if !starts_with_text(cmd, prefix) {
        return false;
    }
    let chars = chars_of(cmd);
    let skipped: usize = chars_of(prefix).len();
    skipped < chars.len() && chars[skipped].is_whitespace()
}

/// A user who is no trusted operator gets no tool call approved, whatever it is and
/// whatever is configured.
pub proof fn untrusted_users_are_never_approved(
    user_id: Seq<char>,
    tool_name: Seq<char>,
    params: JsonTree,
    shell_prefixes: Option<Seq<char>>,
)
    requires
        !trusted_operator(user_id),
    ensures
        !auto_approved(user_id, tool_name, params, shell_prefixes),
{
}

/// No tool but `skill_install`, `http` and `shell` is approved.
pub proof fn other_tools_are_never_approved(
    user_id: Seq<char>,
    tool_name: Seq<char>,
    params: JsonTree,
    shell_prefixes: Option<Seq<char>>,
)
    requires
        tool_name != "skill_install"@,
        tool_name != "http"@,
        tool_name != "shell"@,
    ensures
        !auto_approved(user_id, tool_name, params, shell_prefixes),
{
}

/// An HTTP call that is approved reads only: it is a GET or a HEAD, has no body, and no
/// header of it may carry credentials.
pub proof fn approved_http_calls_only_read(
    user_id: Seq<char>,
    params: JsonTree,
    shell_prefixes: Option<Seq<char>>,
)
    requires
        auto_approved(user_id, "http"@, params, shell_prefixes),
    ensures
        http_method(params) == "GET"@ || http_method(params) == "HEAD"@,
        !has_body(params),
        match tree_field(params, "headers"@) {
            Some(JsonTree::Object(map)) => forall|name: Seq<char>|
                #[trigger] map.contains_key(name) && map[name] is Text ==> !sensitive_header(
                    name,
                    map[name]->Text_0,
                ),
            Some(JsonTree::Array(items)) => forall|i: int|
                0 <= i < items.len() ==> !names_sensitive_header(#[trigger] items[i]),
            Some(_) => false,
            None => true,
        },
{
    lemma_tool_names_differ();
    match tree_field(params, "headers"@) {
        Some(JsonTree::Object(map)) => {
            assert forall|name: Seq<char>| #[trigger] map.contains_key(name)
                && map[name] is Text implies !sensitive_header(name, map[name]->Text_0) by {
                assert(!holds_sensitive_header(map, name));
            }
        },
        _ => {},
    }
}

/// The case of its letters does not hide a sensitive header.
pub proof fn header_case_does_not_matter(name: Seq<char>, value: Seq<char>, other: Seq<char>)
    requires
        lowered(name) == lowered(other),
    ensures
        sensitive_header(name, value) == sensitive_header(other, value),
{
}

/// The case of its letters does not matter to the method of a request.
pub proof fn method_case_does_not_matter(a: JsonTree, b: JsonTree)
    requires
        uppered(text_or(a, "method"@, "GET"@)) == uppered(text_or(b, "method"@, "GET"@)),
    ensures
        http_method(a) == http_method(b),
{
    crate::text::lemma_trimmed_uppered(text_or(a, "method"@, "GET"@));
    crate::text::lemma_trimmed_uppered(text_or(b, "method"@, "GET"@));
}

/// The case of its letters does not matter to whether a command begins with a configured
/// prefix.
pub proof fn command_case_does_not_matter(a: JsonTree, b: JsonTree, prefixes: Seq<Seq<char>>)
    requires
        lowered(shell_command(a)) == lowered(shell_command(b)),
    ensures
        prefix_approved(a, prefixes) == prefix_approved(b, prefixes),
{
    crate::text::lemma_trimmed_start_lowered(shell_command(a));
    crate::text::lemma_trimmed_start_lowered(shell_command(b));
}

/// Where no prefix is configured, no shell command is approved but one of codex.
pub proof fn without_prefixes_only_codex_is_approved(
    user_id: Seq<char>,
    params: JsonTree,
    shell_prefixes: Option<Seq<char>>,
)
    requires
        configured(shell_prefixes).len() == 0,
        auto_approved(user_id, "shell"@, params, shell_prefixes),
    ensures
        help_command(trimmed(shell_command(params))),
        begins_with(trimmed(shell_command(params)), "codex "@),
{
    lemma_tool_names_differ();
    reveal_strlit("codex --help");
    reveal_strlit("codex help");
    reveal_strlit("codex -h");
    reveal_strlit("codex --version");
    reveal_strlit("codex version");
    reveal_strlit("codex ");
    assert("codex --help"@.subrange(0, 6) == "codex "@);
    assert("codex help"@.subrange(0, 6) == "codex "@);
    assert("codex -h"@.subrange(0, 6) == "codex "@);
    assert("codex --version"@.subrange(0, 6) == "codex "@);
    assert("codex version"@.subrange(0, 6) == "codex "@);
}

/// A prefix matches itself and itself followed by white space, and no command in which
/// it goes on as a longer word.
pub proof fn prefixes_end_at_a_word(prefix: Seq<char>, rest: Seq<char>)
    ensures
        prefix_matches(prefix, prefix),
        rest.len() > 0 ==> prefix_matches(prefix + rest, prefix) == white_space(rest.first()),
{
    if rest.len() > 0 {
        let cmd = prefix + rest;
        assert(cmd.subrange(0, prefix.len() as int) == prefix);
        assert(cmd.len() > prefix.len());
    }
}

/// Only installations are ever refused, and none where no pattern is configured.
pub proof fn only_installations_are_refused(
    tool_name: Seq<char>,
    params: JsonTree,
    deny_patterns: Option<Seq<char>>,
)
    ensures
        tool_name != "tool_install"@ ==> rejection(tool_name, params, deny_patterns) is None,
        configured(deny_patterns).len() == 0 ==> rejection(tool_name, params, deny_patterns)
            is None,
{
}

/// An installation is refused exactly where a configured pattern occurs in its kind,
/// name and URL.
pub proof fn refused_exactly_where_a_pattern_occurs(
    params: JsonTree,
    deny_patterns: Option<Seq<char>>,
)
    ensures
        rejection("tool_install"@, params, deny_patterns) is Some <==> exists|i: int|
            0 <= i < configured(deny_patterns).len() && occurs(
                install_text(params),
                #[trigger] configured(deny_patterns)[i],
            ),
{
    lemma_first_occurring(configured(deny_patterns), install_text(params));
}

proof fn lemma_first_occurring(patterns: Seq<Seq<char>>, text: Seq<char>)
    ensures
        first_occurring(patterns, text) is Some <==> exists|i: int|
            0 <= i < patterns.len() && occurs(text, #[trigger] patterns[i]),
    decreases patterns.len(),
{
    if patterns.len() > 0 {
        let rest = patterns.drop_first();
        lemma_first_occurring(rest, text);
        assert(patterns[0] == patterns.first());
        if exists|i: int| 0 <= i < rest.len() && occurs(text, #[trigger] rest[i]) {
            let i = choose|i: int| 0 <= i < rest.len() && occurs(text, #[trigger] rest[i]);
            assert(patterns[i + 1] == rest[i]);
        }
        if exists|i: int| 0 <= i < patterns.len() && occurs(text, #[trigger] patterns[i]) {
            let i = choose|i: int| 0 <= i < patterns.len() && occurs(text, #[trigger] patterns[i]);
            if i > 0 {
                assert(rest[i - 1] == patterns[i]);
            }
        }
    }
}

/// The case of the letters of an installation does not hide it from the patterns.
pub proof fn install_case_does_not_matter(
    a: JsonTree,
    b: JsonTree,
    deny_patterns: Option<Seq<char>>,
)
    requires
        lowered(text_or(a, "kind"@, Seq::empty())) == lowered(text_or(b, "kind"@, Seq::empty())),
        lowered(text_or(a, "name"@, Seq::empty())) == lowered(text_or(b, "name"@, Seq::empty())),
        lowered(text_or(a, "url"@, Seq::empty())) == lowered(text_or(b, "url"@, Seq::empty())),
    ensures
        rejection("tool_install"@, a, deny_patterns) == rejection(
            "tool_install"@,
            b,
            deny_patterns,
        ),
{
}

/// Every configured element is non-empty, has no white space at its ends and no ASCII
/// capital.
pub proof fn configured_elements_are_normal(setting: Option<Seq<char>>)
    ensures
        forall|i: int|
            0 <= i < configured(setting).len() ==> {
                let element = #[trigger] configured(setting)[i];
                &&& element.len() > 0
                &&& !white_space(element.first())
                &&& !white_space(element.last())
                &&& lowered(element) == element
            },
{
    match setting {
        Some(raw) => lemma_normalized_elements(pieces(raw, ',')),
        None => {},
    }
}

proof fn lemma_normalized_elements(list: Seq<Seq<char>>)
    ensures
        forall|i: int|
            0 <= i < normalized(list).len() ==> {
                let element = #[trigger] normalized(list)[i];
                &&& element.len() > 0
                &&& !white_space(element.first())
                &&& !white_space(element.last())
                &&& lowered(element) == element
            },
    decreases list.len(),
{
    if list.len() > 0 {
        let front = list.drop_last();
        lemma_normalized_elements(front);
        let item = lowered(trimmed(list.last()));
        crate::text::lemma_trimmed_ends(list.last());
        assert(lowered(item) =~= item);
        assert forall|i: int| 0 <= i < normalized(list).len() implies {
            let element = #[trigger] normalized(list)[i];
            &&& element.len() > 0
            &&& !white_space(element.first())
            &&& !white_space(element.last())
            &&& lowered(element) == element
        } by {
            if i < normalized(front).len() {
                assert(normalized(list)[i] == normalized(front)[i]);
            }
        }
    }
}

/// A setting of nothing but white space and commas is no setting: it approves no shell
/// command and refuses no installation.
pub proof fn blank_settings_do_nothing(setting: Seq<char>, params: JsonTree)
    requires
        forall|i: int|
            0 <= i < setting.len() ==> white_space(#[trigger] setting[i]) || setting[i] == ',',
    ensures
        configured(Some(setting)) == configured(None),
        !prefix_approved(params, configured(Some(setting))),
        rejection("tool_install"@, params, Some(setting)) is None,
{
    lemma_blank_pieces(setting);
    lemma_blank_list(pieces(setting, ','));
}

spec fn blank(s: Seq<char>) -> bool {
    forall|i: int| 0 <= i < s.len() ==> white_space(#[trigger] s[i])
}

proof fn lemma_blank_pieces(s: Seq<char>)
    requires
        forall|i: int| 0 <= i < s.len() ==> white_space(#[trigger] s[i]) || s[i] == ',',
    ensures
        pieces(s, ',').len() > 0,
        forall|i: int| 0 <= i < pieces(s, ',').len() ==> blank(#[trigger] pieces(s, ',')[i]),
    decreases s.len(),
{
    if s.len() > 0 {
        let front = s.drop_last();
        assert forall|i: int| 0 <= i < front.len() implies white_space(#[trigger] front[i])
            || front[i] == ',' by {
            assert(front[i] == s[i]);
        }
        lemma_blank_pieces(front);
        let before = pieces(front, ',');
        let all = pieces(s, ',');
        assert(s[s.len() - 1] == s.last());
        assert(blank(before[before.len() - 1]));
        assert forall|i: int| 0 <= i < all.len() implies blank(#[trigger] all[i]) by {
            if i < before.len() - 1 {
                assert(all[i] == before[i]);
            }
        }
    }
}

proof fn lemma_blank_list(list: Seq<Seq<char>>)
    requires
        forall|i: int| 0 <= i < list.len() ==> blank(#[trigger] list[i]),
    ensures
        normalized(list) == Seq::<Seq<char>>::empty(),
    decreases list.len(),
{
    if list.len() > 0 {
        let front = list.drop_last();
        assert forall|i: int| 0 <= i < front.len() implies blank(#[trigger] front[i]) by {
            assert(front[i] == list[i]);
        }
        lemma_blank_list(front);
        assert(blank(list[list.len() - 1]));
        lemma_blank_text(list.last());
    }
}

proof fn lemma_blank_text(s: Seq<char>)
    requires
        blank(s),
    ensures
        trimmed(s).len() == 0,
    decreases s.len(),
{
    if s.len() > 0 {
        assert(white_space(s[0]));
        let rest = s.drop_first();
        assert forall|i: int| 0 <= i < rest.len() implies white_space(#[trigger] rest[i]) by {
            assert(rest[i] == s[i + 1]);
        }
        lemma_blank_text(rest);
    }
}

/// The trusted operators are these three, and nobody else.
pub proof fn three_operators_are_trusted(user_id: Seq<char>)
    ensures
        trusted_operator(user_id) <==> user_id == "989554992786579536"@ || user_id
            == "975815588930781308"@ || user_id == "1001181816490827817"@,
{
}

/// A header is taken for one that carries credentials by these names and by this beginning
/// of its value, in whatever case, and by nothing else.
pub proof fn credentials_are_told_by_these_names(
    name: Seq<char>,
    value: Seq<char>,
    core: Seq<char>,
)
    requires
        plain::is_core(value, core),
    ensures
        sensitive_header(name, value) <==> {
            ||| plain::small(name) == "authorization"@
            ||| plain::small(name) == "proxy-authorization"@
            ||| plain::small(name) == "cookie"@
            ||| plain::small(name) == "x-api-key"@
            ||| plain::starts(plain::small(name), "x-auth-"@)
            ||| plain::starts(plain::small(core), "bearer "@)
        },
        sensitive_header(name, value) <==> !plain::tells_no_secret(name, core),
{
    crate::text::only_capitals_become_small(name);
    crate::text::only_capitals_become_small(core);
    crate::text::trimming_leaves_the_core(value);
    crate::text::texts_occur_character_by_character(plain::small(name), "x-auth-"@);
    crate::text::texts_occur_character_by_character(plain::small(core), "bearer "@);
}

/// The request is a GET or a HEAD, in whatever case and with blanks around it; a GET where no
/// method is given.
pub open spec fn asks_to_read(params: JsonTree) -> bool {
    match plain::text_under(params, "method"@) {
        None => true,
        Some(method) => exists|core: Seq<char>| #[trigger]
            plain::is_core(method, core) && (plain::small(core) == seq!['g', 'e', 't']
                || plain::small(core) == seq!['h', 'e', 'a', 'd']),
    }
}

/// An HTTP call of a trusted operator that only reads, has no body, and whose headers are
/// given by an object, is approved exactly where no header with a string value is called
/// authorization, proxy-authorization, cookie or x-api-key or something that begins with
/// x-auth-, in whatever case, and none has a value that, but for blanks in front and case,
/// begins with the word bearer and a blank.
pub proof fn reading_is_approved_exactly_without_credentials(
    user_id: Seq<char>,
    params: JsonTree,
    shell_prefixes: Option<Seq<char>>,
    headers: Map<Seq<char>, JsonTree>,
)
    requires
        user_id == "989554992786579536"@ || user_id == "975815588930781308"@ || user_id
            == "1001181816490827817"@,
        asks_to_read(params),
        plain::nothing_under(params, "body"@),
        plain::field(params, "headers"@) == Some(JsonTree::Object(headers)),
    ensures
        auto_approved(user_id, "http"@, params, shell_prefixes) <==> forall|
            name: Seq<char>,
            core: Seq<char>,
        |
            headers.contains_key(name) && headers[name] is Text && #[trigger] plain::is_core(
                headers[name]->Text_0,
                core,
            ) ==> {
                &&& plain::small(name) != "authorization"@
                &&& plain::small(name) != "proxy-authorization"@
                &&& plain::small(name) != "cookie"@
                &&& plain::small(name) != "x-api-key"@
                &&& !plain::starts(plain::small(name), "x-auth-"@)
                &&& !plain::starts(plain::small(core), "bearer "@)
            },
{
    lemma_tool_names_differ();
    lemma_asks_to_read(params);
    lemma_nothing_under_body(params);
    let approved = auto_approved(user_id, "http"@, params, shell_prefixes);
    assert(tree_field(params, "headers"@) == Some(JsonTree::Object(headers)));
    if approved {
        assert(headers_allowed(params));
        lemma_headers_allowed(params, headers);
        assert forall|name: Seq<char>, core: Seq<char>|
            headers.contains_key(name) && headers[name] is Text && #[trigger] plain::is_core(
                headers[name]->Text_0,
                core,
            ) implies plain::tells_no_secret(name, core) by {
            assert(!holds_sensitive_header(headers, name));
            credentials_are_told_by_these_names(name, headers[name]->Text_0, core);
        }
    } else {
        lemma_headers_refused(params, headers);
        let name = choose|name: Seq<char>| holds_sensitive_header(headers, name);
        let value = headers[name]->Text_0;
        crate::text::trimming_leaves_the_core(value);
        credentials_are_told_by_these_names(name, value, trimmed(value));
        assert(plain::is_core(headers[name]->Text_0, trimmed(value)));
    }
}

proof fn lemma_headers_allowed(params: JsonTree, headers: Map<Seq<char>, JsonTree>)
    requires
        headers_allowed(params),
        tree_field(params, "headers"@) == Some(JsonTree::Object(headers)),
    ensures
        forall|name: Seq<char>| !holds_sensitive_header(headers, name),
{
    match tree_field(params, "headers"@) {
        Some(JsonTree::Object(map)) => {
            assert forall|name: Seq<char>| !holds_sensitive_header(headers, name) by {
                assert(!holds_sensitive_header(map, name));
            }
        },
        _ => {},
    }
}

proof fn lemma_headers_refused(params: JsonTree, headers: Map<Seq<char>, JsonTree>)
    requires
        !headers_allowed(params),
        tree_field(params, "headers"@) == Some(JsonTree::Object(headers)),
    ensures
        exists|name: Seq<char>| holds_sensitive_header(headers, name),
{
}

/// The same where the headers are given by an array of objects with a name and a value, or
/// not at all. Headers of another shape are not approved.
pub proof fn reading_is_approved_exactly_without_listed_credentials(
    user_id: Seq<char>,
    params: JsonTree,
    shell_prefixes: Option<Seq<char>>,
)
    requires
        trusted_operator(user_id),
        asks_to_read(params),
        plain::nothing_under(params, "body"@),
    ensures
        plain::field(params, "headers"@) is None ==> auto_approved(
            user_id,
            "http"@,
            params,
            shell_prefixes,
        ),
        plain::field(params, "headers"@) matches Some(JsonTree::Array(items)) ==> (auto_approved(
            user_id,
            "http"@,
            params,
            shell_prefixes,
        ) <==> forall|i: int, core: Seq<char>|
            0 <= i < items.len() && plain::text_under(items[i], "name"@) is Some
                && plain::text_under(items[i], "value"@) is Some && #[trigger] plain::is_core(
                plain::text_under(items[i], "value"@)->0,
                core,
            ) ==> plain::tells_no_secret(plain::text_under(items[i], "name"@)->0, core)),
        plain::field(params, "headers"@) matches Some(other) ==> (!(other is Object) && !(
        other is Array) ==> !auto_approved(user_id, "http"@, params, shell_prefixes)),
{
    lemma_tool_names_differ();
    lemma_asks_to_read(params);
    lemma_nothing_under_body(params);
    let approved = auto_approved(user_id, "http"@, params, shell_prefixes);
    match plain::field(params, "headers"@) {
        Some(JsonTree::Array(items)) => {
            if approved {
                assert forall|i: int, core: Seq<char>|
                    0 <= i < items.len() && plain::text_under(items[i], "name"@) is Some
                        && plain::text_under(items[i], "value"@) is Some
                        && #[trigger] plain::is_core(
                        plain::text_under(items[i], "value"@)->0,
                        core,
                    ) implies plain::tells_no_secret(
                    plain::text_under(items[i], "name"@)->0,
                    core,
                ) by {
                    assert(!names_sensitive_header(items[i]));
                    credentials_are_told_by_these_names(
                        plain::text_under(items[i], "name"@)->0,
                        plain::text_under(items[i], "value"@)->0,
                        core,
                    );
                }
            } else {
                let i = choose|i: int|
                    0 <= i < items.len() && names_sensitive_header(#[trigger] items[i]);
                let name = plain::text_under(items[i], "name"@)->0;
                let value = plain::text_under(items[i], "value"@)->0;
                crate::text::trimming_leaves_the_core(value);
                credentials_are_told_by_these_names(name, value, trimmed(value));
                assert(plain::is_core(
                    plain::text_under(items[i], "value"@)->0,
                    trimmed(value),
                ));
            }
        },
        _ => {},
    }
}

/// An HTTP call that is no GET and no HEAD, or that has a body, is not approved.
pub proof fn writing_is_never_approved(
    user_id: Seq<char>,
    params: JsonTree,
    shell_prefixes: Option<Seq<char>>,
)
    requires
        !asks_to_read(params) || !plain::nothing_under(params, "body"@),
    ensures
        !auto_approved(user_id, "http"@, params, shell_prefixes),
{
    lemma_tool_names_differ();
    lemma_asks_to_read(params);
    lemma_nothing_under_body(params);
}

proof fn lemma_nothing_under_body(params: JsonTree)
    ensures
        has_body(params) == !plain::nothing_under(params, "body"@),
{
    match plain::field(params, "body"@) {
        Some(JsonTree::Text(text)) => {
            crate::text::trimming_leaves_the_core(text);
            let core = trimmed(text);
            let (a, b) = choose|a: int, b: int| plain::core_between(text, core, a, b);
            if core.len() > 0 {
                assert(!plain::is_blank(text[a]));
            } else {
                assert forall|i: int| 0 <= i < text.len() implies plain::is_blank(
                    #[trigger] text[i],
                ) by {
                    if i < a {
                        assert(plain::is_blank(text[i]));
                    }
                }
            }
        },
        _ => {},
    }
}

proof fn lemma_asks_to_read(params: JsonTree)
    ensures
        asks_to_read(params) == (http_method(params) == "GET"@ || http_method(params) == "HEAD"@),
{
    match plain::text_under(params, "method"@) {
        Some(given) => {
            lemma_reads(given);
            assert(plain::is_core(given, trimmed(given)));
        },
        None => {
            lemma_get();
        },
    }
}

proof fn lemma_reads(method: Seq<char>)
    ensures
        plain::is_core(method, trimmed(method)),
        forall|core: Seq<char>| plain::is_core(method, core) ==> core == trimmed(method),
        (uppered(trimmed(method)) == "GET"@ || uppered(trimmed(method)) == "HEAD"@) == (
        plain::small(trimmed(method)) == seq!['g', 'e', 't'] || plain::small(trimmed(method))
            == seq!['h', 'e', 'a', 'd']),
{
    reveal_strlit("GET");
    reveal_strlit("HEAD");
    assert("GET"@ =~= seq!['G', 'E', 'T']);
    assert("HEAD"@ =~= seq!['H', 'E', 'A', 'D']);
    crate::text::trimming_leaves_the_core(method);
    lemma_capitals(trimmed(method), seq!['G', 'E', 'T'], seq!['g', 'e', 't']);
    lemma_capitals(trimmed(method), seq!['H', 'E', 'A', 'D'], seq!['h', 'e', 'a', 'd']);
}

proof fn lemma_get()
    ensures
        uppered(trimmed("GET"@)) == "GET"@,
{
    reveal_strlit("GET");
    let get = "GET"@;
    assert(get.len() == 3);
    assert(!white_space(get.first()) && !white_space(get.last()));
    assert(trimmed(get) == get);
    assert(uppered(get) =~= get);
}

/// A text is this word in capitals exactly where it is this word in small letters.
proof fn lemma_capitals(text: Seq<char>, capitals: Seq<char>, letters: Seq<char>)
    requires
        capitals.len() == letters.len(),
        forall|i: int|
            0 <= i < capitals.len() ==> 'A' <= #[trigger] capitals[i] <= 'Z' && letters[i]
                == plain::small_letter(capitals[i]),
    ensures
        uppered(text) == capitals <==> plain::small(text) == letters,
{
    let up = uppered(text);
    let low = plain::small(text);
    if up == capitals {
        assert forall|i: int| 0 <= i < text.len() implies low[i] == letters[i] by {
            assert(up[i] == capitals[i]);
            assert(up[i] == crate::text::upper_char(text[i]));
        }
        assert(low =~= letters);
    }
    if low == letters {
        assert forall|i: int| 0 <= i < text.len() implies up[i] == capitals[i] by {
            assert(low[i] == letters[i]);
            assert('A' <= capitals[i] <= 'Z');
            assert(up[i] == crate::text::upper_char(text[i]));
            assert(low[i] == plain::small_letter(text[i]));
        }
        assert(up =~= capitals);
    }
}

/// A shell command of a trusted operator is approved exactly where, but for blanks in front
/// and case, it is a configured prefix or goes on behind one after a blank; or where it asks
/// codex for help or for its version in one of these forms.
pub proof fn shell_commands_are_approved_exactly(
    user_id: Seq<char>,
    params: JsonTree,
    shell_prefixes: Option<Seq<char>>,
    core: Seq<char>,
)
    requires
        trusted_operator(user_id),
        plain::is_core(plain::text_under_or(params, "command"@, Seq::empty()), core),
    ensures
        ({
            let cmd = plain::small(
                trimmed_start(plain::text_under_or(params, "command"@, Seq::empty())),
            );
            auto_approved(user_id, "shell"@, params, shell_prefixes) <==> {
                ||| exists|i: int|
                    0 <= i < configured(shell_prefixes).len() && {
                        let prefix = #[trigger] configured(shell_prefixes)[i];
                        cmd.len() > 0 && (cmd == prefix || plain::starts(cmd, prefix) && cmd.len()
                            > prefix.len() && plain::is_blank(cmd[prefix.len() as int]))
                    }
                ||| core == "codex --help"@
                ||| core == "codex help"@
                ||| core == "codex -h"@
                ||| core == "codex --version"@
                ||| core == "codex version"@
                ||| plain::starts(core, "codex "@) && (plain::ends(core, " --help"@)
                    || plain::ends(core, " -h"@) || plain::ends(core, " help"@))
                ||| plain::starts(core, "codex help "@)
            }
        }),
{
    lemma_tool_names_differ();
    let command = plain::text_under_or(params, "command"@, Seq::empty());
    assert(command == shell_command(params));
    crate::text::trimming_leaves_the_core(command);
    crate::text::only_capitals_become_small(trimmed_start(command));
    let cmd = plain::small(trimmed_start(command));
    let prefixes = configured(shell_prefixes);
    assert forall|i: int| 0 <= i < prefixes.len() implies plain::starts(
        cmd,
        #[trigger] prefixes[i],
    ) == begins_with(cmd, prefixes[i]) by {
        crate::text::texts_occur_character_by_character(cmd, prefixes[i]);
    }
    crate::text::texts_occur_character_by_character(core, "codex "@);
    crate::text::texts_occur_character_by_character(core, "codex help "@);
    crate::text::texts_occur_character_by_character(core, " --help"@);
    crate::text::texts_occur_character_by_character(core, " -h"@);
    crate::text::texts_occur_character_by_character(core, " help"@);
    reveal_strlit("codex ");
    reveal_strlit("codex help ");
    if plain::starts(core, "codex help "@) {
        assert("codex "@.len() == 6 && "codex help "@.len() == 11);
        assert forall|j: int| 0 <= j < 6 implies #[trigger] "codex "@[j] == core[0 + j] by {
            assert("codex help "@[j] == core[0 + j]);
        }
        assert(plain::starts(core, "codex "@));
    }
    if prefix_approved(params, prefixes) {
        let i = choose|i: int|
            0 <= i < prefixes.len() && prefix_matches(cmd, #[trigger] prefixes[i]);
        assert(prefix_matches(cmd, prefixes[i]));
    }
}

/// Installing skills is approved for every trusted operator, and for nobody else.
pub proof fn operators_install_skills(
    user_id: Seq<char>,
    params: JsonTree,
    shell_prefixes: Option<Seq<char>>,
)
    ensures
        auto_approved(user_id, "skill_install"@, params, shell_prefixes) <==> user_id
            == "989554992786579536"@ || user_id == "975815588930781308"@ || user_id
            == "1001181816490827817"@,
{
}

/// A setting lists its elements between commas: each without the blanks at its ends and in
/// small letters, where anything is left of it, in their order. One that is not set lists
/// none.
pub proof fn settings_are_lists(left: Seq<char>, right: Seq<char>, core: Seq<char>)
    ensures
        configured(None).len() == 0,
        configured(Some(left + seq![','] + right)) == configured(Some(left)) + configured(
            Some(right),
        ),
        (forall|i: int| 0 <= i < left.len() ==> #[trigger] left[i] != ',') && plain::is_core(
            left,
            core,
        ) ==> configured(Some(left)) == if core.len() > 0 {
            seq![plain::small(core)]
        } else {
            Seq::empty()
        },
{
    crate::text::lists_divide_at_commas(left, right);
    if (forall|i: int| 0 <= i < left.len() ==> #[trigger] left[i] != ',') && plain::is_core(
        left,
        core,
    ) {
        crate::text::single_elements_are_normalized(left, core);
    }
}

/// An installation is refused exactly where a configured pattern stands in its kind, name
/// and URL, in small letters and with a blank between them. The reason names the first such
/// pattern.
pub proof fn refusals_name_the_first_pattern(
    tool_name: Seq<char>,
    params: JsonTree,
    deny_patterns: Option<Seq<char>>,
)
    ensures
        ({
            let text = plain::small(plain::text_under_or(params, "kind"@, Seq::empty())) + seq![' ']
                + plain::small(plain::text_under_or(params, "name"@, Seq::empty())) + seq![' ']
                + plain::small(plain::text_under_or(params, "url"@, Seq::empty()));
            let patterns = configured(deny_patterns);
            match rejection(tool_name, params, deny_patterns) {
                Some(reason) => tool_name == "tool_install"@ && exists|i: int|
                    0 <= i < patterns.len() && plain::stands_in(text, #[trigger] patterns[i])
                        && (forall|k: int|
                        0 <= k < i ==> !plain::stands_in(text, #[trigger] patterns[k])) && reason
                        == "Installation request denied by policy pattern '"@ + patterns[i]
                        + "'."@,
                None => tool_name != "tool_install"@ || forall|i: int|
                    0 <= i < patterns.len() ==> !plain::stands_in(text, #[trigger] patterns[i]),
            }
        }),
{
    reveal_strlit(" ");
    assert(" "@ =~= seq![' ']);
    crate::text::only_capitals_become_small(text_or(params, "kind"@, Seq::empty()));
    crate::text::only_capitals_become_small(text_or(params, "name"@, Seq::empty()));
    crate::text::only_capitals_become_small(text_or(params, "url"@, Seq::empty()));
    let text = install_text(params);
    let patterns = configured(deny_patterns);
    assert forall|i: int| 0 <= i < patterns.len() implies plain::stands_in(
        text,
        #[trigger] patterns[i],
    ) == occurs(text, patterns[i]) by {
        crate::text::texts_occur_character_by_character(text, patterns[i]);
    }
    lemma_first_occurring_index(patterns, text);
}

proof fn lemma_first_occurring_index(patterns: Seq<Seq<char>>, text: Seq<char>)
    ensures
        match first_occurring(patterns, text) {
            Some(pattern) => exists|i: int|
                0 <= i < patterns.len() && (#[trigger] patterns[i]) == pattern && occurs(
                    text,
                    pattern,
                ) && forall|k: int| 0 <= k < i ==> !occurs(text, #[trigger] patterns[k]),
            None => forall|i: int| 0 <= i < patterns.len() ==> !occurs(text, #[trigger] patterns[i]),
        },
    decreases patterns.len(),
{
    if patterns.len() > 0 {
        let rest = patterns.drop_first();
        assert(patterns[0] == patterns.first());
        if !occurs(text, patterns.first()) {
            lemma_first_occurring_index(rest, text);
            match first_occurring(rest, text) {
                Some(pattern) => {
                    let i = choose|i: int|
                        0 <= i < rest.len() && (#[trigger] rest[i]) == pattern && occurs(
                            text,
                            pattern,
                        ) && forall|k: int| 0 <= k < i ==> !occurs(text, #[trigger] rest[k]);
                    assert(patterns[i + 1] == pattern);
                    assert forall|k: int| 0 <= k < i + 1 implies !occurs(
                        text,
                        #[trigger] patterns[k],
                    ) by {
                        if k > 0 {
                            assert(rest[k - 1] == patterns[k]);
                        }
                    }
                },
                None => {
                    assert forall|k: int| 0 <= k < patterns.len() implies !occurs(
                        text,
                        #[trigger] patterns[k],
                    ) by {
                        if k > 0 {
                            assert(rest[k - 1] == patterns[k]);
                        }
                    }
                },
            }
        }
    }
}

} // verus!
