use vstd::prelude::*;
use vstd::string::*;

use crate::text::{begins_with, chars_of, result_model, text_eq, text_of, text_starts_with, trimmed};

verus! {

/// How many entries of the feed a chat answer shows.
pub const SUPERVISOR_CHAT_FEED_LIMIT: usize = 20;

/// How many threads of a workspace a status answer shows.
pub const STATUS_THREADS_PER_WORKSPACE_LIMIT: usize = 10;

/// What a `/dispatch` command asks for.
#[derive(Debug, PartialEq, Eq)]
pub struct SupervisorChatDispatchRequest {
    pub workspace_ids: Vec<String>,
    pub prompt: String,
    pub thread_id: Option<String>,
    pub dedupe_key: Option<String>,
    pub model: Option<String>,
    pub effort: Option<String>,
    pub access_mode: Option<String>,
    pub route_kind: Option<String>,
    pub route_reason: Option<String>,
    pub route_fallback: Option<String>,
}

/// Mathematical model of [`SupervisorChatDispatchRequest`].
pub struct DispatchRequestModel {
    pub workspace_ids: Seq<Seq<char>>,
    pub prompt: Seq<char>,
    pub thread_id: Option<Seq<char>>,
    pub dedupe_key: Option<Seq<char>>,
    pub model: Option<Seq<char>>,
    pub effort: Option<Seq<char>>,
    pub access_mode: Option<Seq<char>>,
    pub route_kind: Option<Seq<char>>,
    pub route_reason: Option<Seq<char>>,
    pub route_fallback: Option<Seq<char>>,
}

impl View for SupervisorChatDispatchRequest {
    type V = DispatchRequestModel;

    open spec fn view(&self) -> DispatchRequestModel {
        DispatchRequestModel {
            workspace_ids: self.workspace_ids.deep_view(),
            prompt: self.prompt@,
            thread_id: self.thread_id.deep_view(),
            dedupe_key: self.dedupe_key.deep_view(),
            model: self.model.deep_view(),
            effort: self.effort.deep_view(),
            access_mode: self.access_mode.deep_view(),
            route_kind: self.route_kind.deep_view(),
            route_reason: self.route_reason.deep_view(),
            route_fallback: self.route_fallback.deep_view(),
        }
    }
}

impl DeepView for SupervisorChatDispatchRequest {
    type V = DispatchRequestModel;

    open spec fn deep_view(&self) -> DispatchRequestModel {
        self@
    }
}

impl Clone for SupervisorChatDispatchRequest {
    fn clone(&self) -> (copy: Self)
        ensures
            copy@ == self@,
    {
        let copy = SupervisorChatDispatchRequest {
            workspace_ids: self.workspace_ids.clone(),
            prompt: self.prompt.clone(),
            thread_id: self.thread_id.clone(),
            dedupe_key: self.dedupe_key.clone(),
            model: self.model.clone(),
            effort: self.effort.clone(),
            access_mode: self.access_mode.clone(),
            route_kind: self.route_kind.clone(),
            route_reason: self.route_reason.clone(),
            route_fallback: self.route_fallback.clone(),
        };
        proof {
            assert(copy.workspace_ids.deep_view() =~= self.workspace_ids.deep_view());
            assert(copy.thread_id.deep_view() =~= self.thread_id.deep_view());
            assert(copy.dedupe_key.deep_view() =~= self.dedupe_key.deep_view());
            assert(copy.model.deep_view() =~= self.model.deep_view());
            assert(copy.effort.deep_view() =~= self.effort.deep_view());
            assert(copy.access_mode.deep_view() =~= self.access_mode.deep_view());
            assert(copy.route_kind.deep_view() =~= self.route_kind.deep_view());
            assert(copy.route_reason.deep_view() =~= self.route_reason.deep_view());
            assert(copy.route_fallback.deep_view() =~= self.route_fallback.deep_view());
        }
        copy
    }
}

/// A command of the supervisor chat.
#[derive(Debug, PartialEq, Eq)]
pub enum SupervisorChatCommand {
    Dispatch(SupervisorChatDispatchRequest),
    Ack { signal_id: String },
    Status { workspace_id: Option<String>, thread_id: Option<String> },
    Feed { needs_input_only: bool },
    Help,
}

/// Mathematical model of [`SupervisorChatCommand`].
pub enum ChatCommandModel {
    Dispatch(DispatchRequestModel),
    Ack { signal_id: Seq<char> },
    Status { workspace_id: Option<Seq<char>>, thread_id: Option<Seq<char>> },
    Feed { needs_input_only: bool },
    Help,
}

impl View for SupervisorChatCommand {
    type V = ChatCommandModel;

    open spec fn view(&self) -> ChatCommandModel {
        match self {
            SupervisorChatCommand::Dispatch(request) => ChatCommandModel::Dispatch(request@),
            SupervisorChatCommand::Ack { signal_id } => ChatCommandModel::Ack { signal_id: signal_id@ },
            SupervisorChatCommand::Status { workspace_id, thread_id } => ChatCommandModel::Status {
                workspace_id: workspace_id.deep_view(),
                thread_id: thread_id.deep_view(),
            },
            SupervisorChatCommand::Feed { needs_input_only } => ChatCommandModel::Feed {
                needs_input_only: *needs_input_only,
            },
            SupervisorChatCommand::Help => ChatCommandModel::Help,
        }
    }
}

impl DeepView for SupervisorChatCommand {
    type V = ChatCommandModel;

    open spec fn deep_view(&self) -> ChatCommandModel {
        self@
    }
}

/// `shell_words::ParseError`: the error of a command line with an open quote.
#[verifier::external_type_specification]
#[verifier::external_body]
pub struct ExShellParseError(shell_words::ParseError);

/// The words that `shell_words::split` makes of a command line, or nothing
/// where a quote is left open.
pub uninterp spec fn shell_words_of(raw: Seq<char>) -> Option<Seq<Seq<char>>>;

/// `shell_words::split`: the words of a command line by the rules of the
/// POSIX shell, or an error where a quote is left open.
#[verifier::external_body]
pub(crate) fn shell_split(raw: &str) -> (words: Result<Vec<String>, shell_words::ParseError>)
    ensures
        match words {
            Ok(tokens) => shell_words_of(raw@) == Some(tokens.deep_view()),
            Err(_) => shell_words_of(raw@) is None,
        },
{
    shell_words::split(raw)
}

/// `<shell_words::ParseError as Display>::to_string`: the one message that
/// the error has.
#[verifier::external_body]
pub(crate) fn shell_error_text(error: &shell_words::ParseError) -> (text: String)
    ensures
        text@ == "missing closing quote"@,
{
    error.to_string()
}

/// The pieces between the commas of a text, trimmed, the blank ones left
/// out: the pieces read so far, and the piece being read.
pub open spec fn comma_scan(s: Seq<char>) -> (Seq<Seq<char>>, Seq<char>)
    decreases s.len(),
{
    if s.len() == 0 {
        (Seq::empty(), Seq::empty())
    } else {
        let (done, current) = comma_scan(s.drop_last());
        if s.last() == ',' {
            if trimmed(current).len() > 0 {
                (done.push(trimmed(current)), Seq::empty())
            } else {
                (done, Seq::empty())
            }
        } else {
            (done, current.push(s.last()))
        }
    }
}

/// The pieces between the commas of a text, trimmed, the blank ones left out.
pub open spec fn comma_items(s: Seq<char>) -> Seq<Seq<char>> {
    let (done, current) = comma_scan(s);
    if trimmed(current).len() > 0 {
        done.push(trimmed(current))
    } else {
        done
    }
}

/// The pieces between the commas of a text, trimmed, the blank ones left out.
pub fn split_comma_items(s: &str) -> (items: Vec<String>)
    ensures
        items.deep_view() == comma_items(s@),
{
    let chars = chars_of(s);
    let mut items: Vec<String> = Vec::new();
    let mut current: Vec<char> = Vec::new();
    let mut i: usize = 0;
    assert(chars@.take(0) =~= Seq::<char>::empty());
    assert(items.deep_view() =~= Seq::<Seq<char>>::empty());
    while i < chars.len()
        invariant
            i <= chars.len(),
            chars@ == s@,
            (items.deep_view(), current@) == comma_scan(chars@.take(i as int)),
        decreases chars.len() - i,
    {
        let ghost before = items.deep_view();
        proof {
            assert(chars@.take(i + 1).drop_last() =~= chars@.take(i as int));
            assert(chars@.take(i + 1).last() == chars@[i as int]);
        }
        let c = chars[i];
        if c == ',' {
            let piece = text_of(current.as_slice());
            let cut = piece.as_str().trim();
            if cut.unicode_len() > 0 {
                items.push(cut.to_owned());
                assert(items.deep_view() =~= before.push(trimmed(current@)));
            }
            current = Vec::new();
        } else {
            current.push(c);
        }
        i += 1;
    }
    assert(chars@.take(i as int) =~= chars@);
    let ghost before = items.deep_view();
    let piece = text_of(current.as_slice());
    let cut = piece.as_str().trim();
    if cut.unicode_len() > 0 {
        items.push(cut.to_owned());
        assert(items.deep_view() =~= before.push(trimmed(current@)));
    }
    items
}

/// The access mode that a flag names, or the refusal.
pub open spec fn access_mode_of(value: Seq<char>) -> Result<Seq<char>, Seq<char>> {
    if value == "read-only"@ || value == "current"@ || value == "full-access"@ {
        Ok(value)
    } else {
        Err("`--access-mode` must be one of `read-only`, `current`, or `full-access`"@)
    }
}

/// The access mode that a flag names.
pub fn parse_access_mode(value: &str) -> (mode: Result<String, String>)
    ensures
        result_model(mode) == access_mode_of(value@),
{
    if text_eq(value, "read-only") || text_eq(value, "current") || text_eq(value, "full-access") {
        Ok(value.to_owned())
    } else {
        Err("`--access-mode` must be one of `read-only`, `current`, or `full-access`".to_owned())
    }
}

/// What the flags of a `/dispatch` command have set so far.
pub struct DispatchFlags {
    pub workspace_ids: Option<Seq<Seq<char>>>,
    pub prompt: Option<Seq<char>>,
    pub thread_id: Option<Seq<char>>,
    pub dedupe_key: Option<Seq<char>>,
    pub model: Option<Seq<char>>,
    pub effort: Option<Seq<char>>,
    pub access_mode: Option<Seq<char>>,
}

/// No flag set.
pub open spec fn no_flags() -> DispatchFlags {
    DispatchFlags {
        workspace_ids: None,
        prompt: None,
        thread_id: None,
        dedupe_key: None,
        model: None,
        effort: None,
        access_mode: None,
    }
}

/// The flags after one more flag with its value, or the refusal.
pub open spec fn with_flag(flags: DispatchFlags, flag: Seq<char>, value: Seq<char>) -> Result<DispatchFlags, Seq<char>> {
    if flag == "--ws"@ {
        if comma_items(value).len() == 0 {
            Err("`--ws` requires at least one workspace id"@)
        } else {
            Ok(DispatchFlags { workspace_ids: Some(comma_items(value)), ..flags })
        }
    } else if flag == "--prompt"@ {
        if trimmed(value).len() == 0 {
            Err("`--prompt` cannot be empty"@)
        } else {
            Ok(DispatchFlags { prompt: Some(trimmed(value)), ..flags })
        }
    } else if flag == "--thread"@ {
        if trimmed(value).len() == 0 {
            Err("`--thread` cannot be empty"@)
        } else {
            Ok(DispatchFlags { thread_id: Some(trimmed(value)), ..flags })
        }
    } else if flag == "--dedupe"@ {
        if trimmed(value).len() == 0 {
            Err("`--dedupe` cannot be empty"@)
        } else {
            Ok(DispatchFlags { dedupe_key: Some(trimmed(value)), ..flags })
        }
    } else if flag == "--model"@ {
        if trimmed(value).len() == 0 {
            Err("`--model` cannot be empty"@)
        } else {
            Ok(DispatchFlags { model: Some(trimmed(value)), ..flags })
        }
    } else if flag == "--effort"@ {
        if trimmed(value).len() == 0 {
            Err("`--effort` cannot be empty"@)
        } else {
            Ok(DispatchFlags { effort: Some(trimmed(value)), ..flags })
        }
    } else if flag == "--access-mode"@ || flag == "--access"@ {
        if trimmed(value).len() == 0 {
            Err("`--access-mode` cannot be empty"@)
        } else {
            match access_mode_of(trimmed(value)) {
                Ok(mode) => Ok(DispatchFlags { access_mode: Some(mode), ..flags }),
                Err(reason) => Err(reason),
            }
        }
    } else {
        Err(
            "unknown `/dispatch` flag `"@ + flag
                + "` (supported: --ws --prompt --thread --dedupe --model --effort --access-mode)"@,
        )
    }
}

/// The request that the flags make, or what is missing.
pub open spec fn request_of_flags(flags: DispatchFlags) -> Result<DispatchRequestModel, Seq<char>> {
    if flags.workspace_ids is None {
        Err("`--ws` is required"@)
    } else if flags.prompt is None {
        Err("`--prompt` is required"@)
    } else {
        Ok(
            DispatchRequestModel {
                workspace_ids: flags.workspace_ids->0,
                prompt: flags.prompt->0,
                thread_id: flags.thread_id,
                dedupe_key: flags.dedupe_key,
                model: flags.model,
                effort: flags.effort,
                access_mode: flags.access_mode,
                route_kind: None,
                route_reason: None,
                route_fallback: None,
            },
        )
    }
}

/// The request that the words of a `/dispatch` command make from the word
/// `index` on, given the flags set so far: the words go in pairs of a flag
/// and its value.
pub open spec fn dispatch_request_from(tokens: Seq<Seq<char>>, index: int, flags: DispatchFlags) -> Result<
    DispatchRequestModel,
    Seq<char>,
>
    decreases tokens.len() - index,
{
    if index < 0 || index >= tokens.len() {
        request_of_flags(flags)
    } else if index + 1 >= tokens.len() {
        Err("missing value for `"@ + tokens[index] + "`"@)
    } else {
        match with_flag(flags, tokens[index], tokens[index + 1]) {
            Err(reason) => Err(reason),
            Ok(next) => dispatch_request_from(tokens, index + 2, next),
        }
    }
}

/// The request that the words after `/dispatch` make.
pub open spec fn dispatch_request_of(tokens: Seq<Seq<char>>) -> Result<DispatchRequestModel, Seq<char>> {
    dispatch_request_from(tokens, 0, no_flags())
}

fn nonblank(value: &str, reason: &str) -> (cut: Result<String, String>)
    ensures
        match cut {
            Ok(text) => trimmed(value@).len() > 0 && text@ == trimmed(value@),
            Err(why) => trimmed(value@).len() == 0 && why@ == reason@,
        },
{
    let text = value.trim();
    if text.unicode_len() == 0 {
        Err(reason.to_owned())
    } else {
        Ok(text.to_owned())
    }
}

/// The request that the words after `/dispatch` make.
#[verifier::loop_isolation(false)]
pub fn parse_dispatch_command(tokens: &Vec<String>) -> (request: Result<SupervisorChatDispatchRequest, String>)
    ensures
        result_model(request) == dispatch_request_of(tokens.deep_view()),
{
    let ghost words = tokens.deep_view();
    let mut workspace_ids: Option<Vec<String>> = None;
    let mut prompt: Option<String> = None;
    let mut thread_id: Option<String> = None;
    let mut dedupe_key: Option<String> = None;
    let mut model: Option<String> = None;
    let mut effort: Option<String> = None;
    let mut access_mode: Option<String> = None;
    let mut index: usize = 0;
    while index < tokens.len()
        invariant
            index <= tokens.len() + 1,
            words == tokens.deep_view(),
            dispatch_request_of(words) == dispatch_request_from(
                words,
                index as int,
                DispatchFlags {
                    workspace_ids: workspace_ids.deep_view(),
                    prompt: prompt.deep_view(),
                    thread_id: thread_id.deep_view(),
                    dedupe_key: dedupe_key.deep_view(),
                    model: model.deep_view(),
                    effort: effort.deep_view(),
                    access_mode: access_mode.deep_view(),
                },
            ),
        decreases tokens.len() + 1 - index,
    {
        let flag = tokens[index].as_str();
        assert(flag@ == words[index as int]);
        if index + 1 >= tokens.len() {
            let mut reason = "missing value for `".to_owned();
            reason.append(flag);
            reason.append("`");
            return Err(reason);
        }
        let value = tokens[index + 1].as_str();
        assert(value@ == words[index + 1]);
        if text_eq(flag, "--ws") {
            let parsed = split_comma_items(value);
            if parsed.len() == 0 {
                return Err("`--ws` requires at least one workspace id".to_owned());
            }
            workspace_ids = Some(parsed);
        } else if text_eq(flag, "--prompt") {
            match nonblank(value, "`--prompt` cannot be empty") {
                Ok(text) => {
                    prompt = Some(text);
                },
                Err(reason) => {
                    return Err(reason);
                },
            }
        } else if text_eq(flag, "--thread") {
            match nonblank(value, "`--thread` cannot be empty") {
                Ok(text) => {
                    thread_id = Some(text);
                },
                Err(reason) => {
                    return Err(reason);
                },
            }
        } else if text_eq(flag, "--dedupe") {
            match nonblank(value, "`--dedupe` cannot be empty") {
                Ok(text) => {
                    dedupe_key = Some(text);
                },
                Err(reason) => {
                    return Err(reason);
                },
            }
        } else if text_eq(flag, "--model") {
            match nonblank(value, "`--model` cannot be empty") {
                Ok(text) => {
                    model = Some(text);
                },
                Err(reason) => {
                    return Err(reason);
                },
            }
        } else if text_eq(flag, "--effort") {
            match nonblank(value, "`--effort` cannot be empty") {
                Ok(text) => {
                    effort = Some(text);
                },
                Err(reason) => {
                    return Err(reason);
                },
            }
        } else if text_eq(flag, "--access-mode") || text_eq(flag, "--access") {
            match nonblank(value, "`--access-mode` cannot be empty") {
                Ok(text) => match parse_access_mode(text.as_str()) {
                    Ok(mode) => {
                        access_mode = Some(mode);
                    },
                    Err(reason) => {
                        return Err(reason);
                    },
                },
                Err(reason) => {
                    return Err(reason);
                },
            }
        } else {
            let mut reason = "unknown `/dispatch` flag `".to_owned();
            reason.append(flag);
            reason.append("` (supported: --ws --prompt --thread --dedupe --model --effort --access-mode)");
            return Err(reason);
        }
        index += 2;
    }
    let workspace_ids = match workspace_ids {
        Some(ids) => ids,
        None => {
            return Err("`--ws` is required".to_owned());
        },
    };
    let prompt = match prompt {
        Some(text) => text,
        None => {
            return Err("`--prompt` is required".to_owned());
        },
    };
    Ok(
        SupervisorChatDispatchRequest {
            workspace_ids,
            prompt,
            thread_id,
            dedupe_key,
            model,
            effort,
            access_mode,
            route_kind: None,
            route_reason: None,
            route_fallback: None,
        },
    )
}

/// The signal id that the words after `/ack` name: exactly one word that is not blank.
pub open spec fn ack_target_of(tokens: Seq<Seq<char>>) -> Result<Seq<char>, Seq<char>> {
    if tokens.len() != 1 || trimmed(tokens[0]).len() == 0 {
        Err("usage: /ack <signal_id>"@)
    } else {
        Ok(trimmed(tokens[0]))
    }
}

/// The signal id that the words after `/ack` name.
pub fn parse_ack_command(tokens: &Vec<String>) -> (signal_id: Result<String, String>)
    ensures
        result_model(signal_id) == ack_target_of(tokens.deep_view()),
{
    if tokens.len() != 1 {
        return Err("usage: /ack <signal_id>".to_owned());
    }
    let signal_id = tokens[0].as_str().trim();
    if signal_id.unicode_len() == 0 {
        return Err("usage: /ack <signal_id>".to_owned());
    }
    Ok(signal_id.to_owned())
}

/// How `/status` is used.
pub open spec fn status_usage() -> Seq<char> {
    "usage: /status [workspace_id] [thread_id] | /status [workspace_id] --thread <thread_id>"@
}

/// The workspace and the thread that the words after `/status` name.
pub open spec fn status_target_of(tokens: Seq<Seq<char>>) -> Result<(Option<Seq<char>>, Option<Seq<char>>), Seq<char>> {
    if tokens.len() == 0 {
        Ok((None, None))
    } else if tokens.len() == 1 {
        let workspace_id = trimmed(tokens[0]);
        if workspace_id.len() == 0 {
            Ok((None, None))
        } else if workspace_id == "--thread"@ {
            Err(status_usage())
        } else {
            Ok((Some(workspace_id), None))
        }
    } else if tokens.len() == 2 {
        let first = trimmed(tokens[0]);
        let second = trimmed(tokens[1]);
        if first == "--thread"@ {
            if second.len() == 0 {
                Err(status_usage())
            } else {
                Ok((None, Some(second)))
            }
        } else if first.len() == 0 || second.len() == 0 || second == "--thread"@ {
            Err(status_usage())
        } else {
            Ok((Some(first), Some(second)))
        }
    } else if tokens.len() == 3 {
        let workspace_id = trimmed(tokens[0]);
        let flag = trimmed(tokens[1]);
        let thread_id = trimmed(tokens[2]);
        if workspace_id.len() == 0 || thread_id.len() == 0 || flag != "--thread"@ {
            Err(status_usage())
        } else {
            Ok((Some(workspace_id), Some(thread_id)))
        }
    } else {
        Err(status_usage())
    }
}

/// The model of the outcome of parsing `/status`.
pub open spec fn status_model(outcome: Result<(Option<String>, Option<String>), String>) -> Result<
    (Option<Seq<char>>, Option<Seq<char>>),
    Seq<char>,
> {
    match outcome {
        Ok(pair) => Ok((pair.0.deep_view(), pair.1.deep_view())),
        Err(reason) => Err(reason@),
    }
}

/// The workspace and the thread that the words after `/status` name.
pub fn parse_status_command(tokens: &Vec<String>) -> (target: Result<(Option<String>, Option<String>), String>)
    ensures
        status_model(target) == status_target_of(tokens.deep_view()),
{
    let usage = "usage: /status [workspace_id] [thread_id] | /status [workspace_id] --thread <thread_id>";
    if tokens.len() == 0 {
        return Ok((None, None));
    }
    if tokens.len() == 1 {
        let workspace_id = tokens[0].as_str().trim();
        if workspace_id.unicode_len() == 0 {
            return Ok((None, None));
        }
        if text_eq(workspace_id, "--thread") {
            return Err(usage.to_owned());
        }
        return Ok((Some(workspace_id.to_owned()), None));
    }
    if tokens.len() == 2 {
        let first = tokens[0].as_str().trim();
        let second = tokens[1].as_str().trim();
        if text_eq(first, "--thread") {
            if second.unicode_len() == 0 {
                return Err(usage.to_owned());
            }
            return Ok((None, Some(second.to_owned())));
        }
        if first.unicode_len() == 0 || second.unicode_len() == 0 || text_eq(second, "--thread") {
            return Err(usage.to_owned());
        }
        return Ok((Some(first.to_owned()), Some(second.to_owned())));
    }
    if tokens.len() == 3 {
        let workspace_id = tokens[0].as_str().trim();
        let flag = tokens[1].as_str().trim();
        let thread_id = tokens[2].as_str().trim();
        if workspace_id.unicode_len() == 0 || thread_id.unicode_len() == 0 || !text_eq(flag, "--thread") {
            return Err(usage.to_owned());
        }
        return Ok((Some(workspace_id.to_owned()), Some(thread_id.to_owned())));
    }
    Err(usage.to_owned())
}

/// Whether the words after `/feed` ask for the entries that need input only.
pub open spec fn feed_filter_of(tokens: Seq<Seq<char>>) -> Result<bool, Seq<char>> {
    if tokens.len() == 0 {
        Ok(false)
    } else if tokens.len() > 1 {
        Err("usage: /feed [needs_input]"@)
    } else if trimmed(tokens[0]) == "needs_input"@ {
        Ok(true)
    } else if trimmed(tokens[0]).len() == 0 {
        Ok(false)
    } else {
        Err("usage: /feed [needs_input]"@)
    }
}

/// Whether the words after `/feed` ask for the entries that need input only.
pub fn parse_feed_command(tokens: &Vec<String>) -> (needs_input_only: Result<bool, String>)
    ensures
        match needs_input_only {
            Ok(flag) => feed_filter_of(tokens.deep_view()) == Ok::<bool, Seq<char>>(flag),
            Err(reason) => feed_filter_of(tokens.deep_view()) == Err::<bool, Seq<char>>(reason@),
        },
{
    if tokens.len() == 0 {
        return Ok(false);
    }
    if tokens.len() > 1 {
        return Err("usage: /feed [needs_input]".to_owned());
    }
    let word = tokens[0].as_str().trim();
    if text_eq(word, "needs_input") {
        proof {
            reveal_strlit("needs_input");
        }
        Ok(true)
    } else if word.unicode_len() == 0 {
        Ok(false)
    } else {
        Err("usage: /feed [needs_input]".to_owned())
    }
}

/// Refuses words after a command that takes none.
pub fn ensure_no_extra_args(command: &str, tokens: &Vec<String>) -> (outcome: Result<(), String>)
    ensures
        match outcome {
            Ok(_) => tokens@.len() == 0,
            Err(reason) => tokens@.len() > 0 && reason@ == "usage: "@ + command@,
        },
{
    if tokens.len() == 0 {
        return Ok(());
    }
    let mut reason = "usage: ".to_owned();
    reason.append(command);
    Err(reason)
}

/// The command that the words of a command line make.
pub open spec fn command_of_tokens(tokens: Seq<Seq<char>>) -> Result<ChatCommandModel, Seq<char>> {
    if tokens.len() == 0 {
        Err("command is required"@)
    } else {
        let name = tokens[0];
        let rest = tokens.skip(1);
        if name == "/dispatch"@ {
            match dispatch_request_of(rest) {
                Ok(request) => Ok(ChatCommandModel::Dispatch(request)),
                Err(reason) => Err(reason),
            }
        } else if name == "/ack"@ {
            match ack_target_of(rest) {
                Ok(signal_id) => Ok(ChatCommandModel::Ack { signal_id }),
                Err(reason) => Err(reason),
            }
        } else if name == "/status"@ || name == "/статус"@ {
            match status_target_of(rest) {
                Ok(target) => Ok(ChatCommandModel::Status { workspace_id: target.0, thread_id: target.1 }),
                Err(reason) => Err(reason),
            }
        } else if name == "/feed"@ {
            match feed_filter_of(rest) {
                Ok(needs_input_only) => Ok(ChatCommandModel::Feed { needs_input_only }),
                Err(reason) => Err(reason),
            }
        } else if name == "/help"@ {
            if rest.len() == 0 {
                Ok(ChatCommandModel::Help)
            } else {
                Err("usage: "@ + "/help"@)
            }
        } else {
            Err("unknown command `"@ + name + "` (run `/help` for usage)"@)
        }
    }
}

fn rest_of(tokens: &Vec<String>) -> (rest: Vec<String>)
    requires
        tokens@.len() > 0,
    ensures
        rest.deep_view() == tokens.deep_view().skip(1),
{
    let mut rest: Vec<String> = Vec::new();
    let mut i: usize = 1;
    while i < tokens.len()
        invariant
            1 <= i <= tokens.len(),
            rest@.len() == i - 1,
            forall|j: int| 0 <= j < i - 1 ==> (#[trigger] rest@[j])@ == tokens@[j + 1]@,
        decreases tokens.len() - i,
    {
        rest.push(tokens[i].clone());
        i += 1;
    }
    assert(rest.deep_view() =~= tokens.deep_view().skip(1));
    rest
}

/// The command that the words of a command line make.
pub fn parse_command_tokens(tokens: &Vec<String>) -> (command: Result<SupervisorChatCommand, String>)
    ensures
        result_model(command) == command_of_tokens(tokens.deep_view()),
{
    if tokens.len() == 0 {
        return Err("command is required".to_owned());
    }
    let name = tokens[0].as_str();
    assert(name@ == tokens.deep_view()[0]);
    let rest = rest_of(tokens);
    assert(rest.deep_view().len() == rest@.len());
    if text_eq(name, "/dispatch") {
        match parse_dispatch_command(&rest) {
            Ok(request) => Ok(SupervisorChatCommand::Dispatch(request)),
            Err(reason) => Err(reason),
        }
    } else if text_eq(name, "/ack") {
        match parse_ack_command(&rest) {
            Ok(signal_id) => Ok(SupervisorChatCommand::Ack { signal_id }),
            Err(reason) => Err(reason),
        }
    } else if text_eq(name, "/status") || text_eq(name, "/статус") {
        match parse_status_command(&rest) {
            Ok(target) => Ok(SupervisorChatCommand::Status { workspace_id: target.0, thread_id: target.1 }),
            Err(reason) => Err(reason),
        }
    } else if text_eq(name, "/feed") {
        match parse_feed_command(&rest) {
            Ok(needs_input_only) => Ok(SupervisorChatCommand::Feed { needs_input_only }),
            Err(reason) => Err(reason),
        }
    } else if text_eq(name, "/help") {
        match ensure_no_extra_args("/help", &rest) {
            Ok(_) => Ok(SupervisorChatCommand::Help),
            Err(reason) => Err(reason),
        }
    } else {
        let mut reason = "unknown command `".to_owned();
        reason.append(name);
        reason.append("` (run `/help` for usage)");
        Err(reason)
    }
}

/// The command that a line of the chat states, or why it states none: the
/// line is blank, does not begin with a slash, leaves a quote open, or its
/// words make no command.
pub open spec fn chat_command_of(input: Seq<char>) -> Result<ChatCommandModel, Seq<char>> {
    let raw = trimmed(input);
    if raw.len() == 0 {
        Err("command is required"@)
    } else if !begins_with(raw, "/"@) {
        Err("commands must start with `/` (run `/help` for usage)"@)
    } else {
        match shell_words_of(raw) {
            None => Err("invalid command syntax: "@ + "missing closing quote"@),
            Some(tokens) => command_of_tokens(tokens),
        }
    }
}

/// The command that a line of the chat states.
pub fn parse_supervisor_chat_command(input: &str) -> (command: Result<SupervisorChatCommand, String>)
    ensures
        result_model(command) == chat_command_of(input@),
{
    let raw = input.trim();
    if raw.unicode_len() == 0 {
        return Err("command is required".to_owned());
    }
    if !text_starts_with(raw, "/") {
        return Err("commands must start with `/` (run `/help` for usage)".to_owned());
    }
    match shell_split(raw) {
        Err(error) => {
            let mut reason = "invalid command syntax: ".to_owned();
            reason.append(shell_error_text(&error).as_str());
            Err(reason)
        },
        Ok(tokens) => parse_command_tokens(&tokens),
    }
}

} // verus!
