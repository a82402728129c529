use vstd::prelude::*;
use vstd::string::*;

use crate::events::either;
use crate::json::{JsonModel, JsonValue};
use crate::json_ops::{json_compact_text, json_member, json_text, new_members, push_member};
use crate::table::{table_get, table_put, Record, Table};
use crate::text::{chars_of, push_char, result_model, text_eq, trimmed};

verus! {

/// How the dispatch of an action ended.
#[derive(Debug, Clone, Copy, PartialEq, Eq, Structural)]
pub enum SupervisorDispatchStatus {
    Dispatched,
    Failed,
}

impl SupervisorDispatchStatus {
    /// The value that `default` returns.
    pub open spec fn blank() -> SupervisorDispatchStatus {
        SupervisorDispatchStatus::Dispatched
    }
}

impl Default for SupervisorDispatchStatus {
    fn default() -> (blank: Self)
        ensures
            blank == Self::blank(),
    {
        SupervisorDispatchStatus::Dispatched
    }
}

/// One turn to start on a workspace.
#[derive(Debug, PartialEq, Eq)]
pub struct SupervisorDispatchAction {
    pub action_id: String,
    pub workspace_id: String,
    pub thread_id: Option<String>,
    pub prompt: String,
    pub dedupe_key: Option<String>,
    pub model: Option<String>,
    pub effort: Option<String>,
    pub access_mode: Option<String>,
    pub route_kind: Option<String>,
    pub route_reason: Option<String>,
    pub route_fallback: Option<String>,
}

/// Mathematical model of [`SupervisorDispatchAction`].
pub struct ActionModel {
    pub action_id: Seq<char>,
    pub workspace_id: Seq<char>,
    pub thread_id: Option<Seq<char>>,
    pub prompt: Seq<char>,
    pub dedupe_key: Option<Seq<char>>,
    pub model: Option<Seq<char>>,
    pub effort: Option<Seq<char>>,
    pub access_mode: Option<Seq<char>>,
    pub route_kind: Option<Seq<char>>,
    pub route_reason: Option<Seq<char>>,
    pub route_fallback: Option<Seq<char>>,
}

impl View for SupervisorDispatchAction {
    type V = ActionModel;

    open spec fn view(&self) -> ActionModel {
        ActionModel {
            action_id: self.action_id@,
            workspace_id: self.workspace_id@,
            thread_id: self.thread_id.deep_view(),
            prompt: self.prompt@,
            dedupe_key: self.dedupe_key.deep_view(),
            model: self.model.deep_view(),
            effort: self.effort.deep_view(),
            access_mode: self.access_mode.deep_view(),
            route_kind: self.route_kind.deep_view(),
            route_reason: self.route_reason.deep_view(),
            route_fallback: self.route_fallback.deep_view(),
        }
    }
}

impl DeepView for SupervisorDispatchAction {
    type V = ActionModel;

    open spec fn deep_view(&self) -> ActionModel {
        self@
    }
}

impl Clone for SupervisorDispatchAction {
    fn clone(&self) -> (copy: Self)
        ensures
            copy@ == self@,
    {
        let copy = SupervisorDispatchAction {
            action_id: self.action_id.clone(),
            workspace_id: self.workspace_id.clone(),
            thread_id: self.thread_id.clone(),
            prompt: self.prompt.clone(),
            dedupe_key: self.dedupe_key.clone(),
            model: self.model.clone(),
            effort: self.effort.clone(),
            access_mode: self.access_mode.clone(),
            route_kind: self.route_kind.clone(),
            route_reason: self.route_reason.clone(),
            route_fallback: self.route_fallback.clone(),
        };
        proof {
            assert(copy.thread_id.deep_view() =~= self.thread_id.deep_view());
            assert(copy.dedupe_key.deep_view() =~= self.dedupe_key.deep_view());
            assert(copy.model.deep_view() =~= self.model.deep_view());
            assert(copy.effort.deep_view() =~= self.effort.deep_view());
            assert(copy.access_mode.deep_view() =~= self.access_mode.deep_view());
            assert(copy.route_kind.deep_view() =~= self.route_kind.deep_view());
            assert(copy.route_reason.deep_view() =~= self.route_reason.deep_view());
            assert(copy.route_fallback.deep_view() =~= self.route_fallback.deep_view());
        }
        copy
    }
}

/// What became of one action.
#[derive(Debug, PartialEq, Eq)]
pub struct SupervisorDispatchActionResult {
    pub action_id: String,
    pub workspace_id: String,
    pub dedupe_key: String,
    pub status: SupervisorDispatchStatus,
    pub thread_id: Option<String>,
    pub turn_id: Option<String>,
    pub error: Option<String>,
    pub idempotent_replay: bool,
}

/// Mathematical model of [`SupervisorDispatchActionResult`].
pub struct ResultModel {
    pub action_id: Seq<char>,
    pub workspace_id: Seq<char>,
    pub dedupe_key: Seq<char>,
    pub status: SupervisorDispatchStatus,
    pub thread_id: Option<Seq<char>>,
    pub turn_id: Option<Seq<char>>,
    pub error: Option<Seq<char>>,
    pub idempotent_replay: bool,
}

impl View for SupervisorDispatchActionResult {
    type V = ResultModel;

    open spec fn view(&self) -> ResultModel {
        ResultModel {
            action_id: self.action_id@,
            workspace_id: self.workspace_id@,
            dedupe_key: self.dedupe_key@,
            status: self.status,
            thread_id: self.thread_id.deep_view(),
            turn_id: self.turn_id.deep_view(),
            error: self.error.deep_view(),
            idempotent_replay: self.idempotent_replay,
        }
    }
}

impl DeepView for SupervisorDispatchActionResult {
    type V = ResultModel;

    open spec fn deep_view(&self) -> ResultModel {
        self@
    }
}

impl Clone for SupervisorDispatchActionResult {
    fn clone(&self) -> (copy: Self)
        ensures
            copy@ == self@,
    {
        let copy = SupervisorDispatchActionResult {
            action_id: self.action_id.clone(),
            workspace_id: self.workspace_id.clone(),
            dedupe_key: self.dedupe_key.clone(),
            status: self.status,
            thread_id: self.thread_id.clone(),
            turn_id: self.turn_id.clone(),
            error: self.error.clone(),
            idempotent_replay: self.idempotent_replay,
        };
        proof {
            assert(copy.thread_id.deep_view() =~= self.thread_id.deep_view());
            assert(copy.turn_id.deep_view() =~= self.turn_id.deep_view());
            assert(copy.error.deep_view() =~= self.error.deep_view());
        }
        copy
    }
}

impl Record for SupervisorDispatchActionResult {
    fn copy_record(&self) -> (copy: Self) {
        self.clone()
    }
}

/// What became of the actions of a batch, in their order.
#[derive(Debug, PartialEq, Eq)]
pub struct SupervisorDispatchBatchResult {
    pub results: Vec<SupervisorDispatchActionResult>,
}

/// Mathematical model of [`SupervisorDispatchBatchResult`].
pub struct BatchResultModel {
    pub results: Seq<ResultModel>,
}

impl View for SupervisorDispatchBatchResult {
    type V = BatchResultModel;

    open spec fn view(&self) -> BatchResultModel {
        BatchResultModel {
            results: self.results.deep_view(),
        }
    }
}

impl DeepView for SupervisorDispatchBatchResult {
    type V = BatchResultModel;

    open spec fn deep_view(&self) -> BatchResultModel {
        self@
    }
}

impl Clone for SupervisorDispatchBatchResult {
    fn clone(&self) -> (copy: Self)
        ensures
            copy@ == self@,
    {
        let copy = SupervisorDispatchBatchResult {
            results: self.results.clone(),
        };
        proof {
            assert(copy.results.deep_view() =~= self.results.deep_view());
        }
        copy
    }
}

impl SupervisorDispatchBatchResult {
    /// The model of the value that `default` returns.
    pub open spec fn blank() -> BatchResultModel {
        BatchResultModel {
            results: Seq::<ResultModel>::empty(),
        }
    }
}

impl Default for SupervisorDispatchBatchResult {
    fn default() -> (blank: Self)
        ensures
            blank@ == Self::blank(),
    {
        let blank = SupervisorDispatchBatchResult {
            results: Vec::new(),
        };
        proof {
            assert(blank.results.deep_view() =~= Self::blank().results);
        }
        blank
    }
}

/// An action with its texts trimmed and its dedupe token settled.
#[derive(Debug, PartialEq, Eq)]
pub struct NormalizedDispatchAction {
    pub action_id: String,
    pub workspace_id: String,
    pub thread_id: Option<String>,
    pub prompt: String,
    pub dedupe_token: String,
    pub model: Option<String>,
    pub effort: Option<String>,
    pub access_mode: Option<String>,
}

/// Mathematical model of [`NormalizedDispatchAction`].
pub struct NormalizedModel {
    pub action_id: Seq<char>,
    pub workspace_id: Seq<char>,
    pub thread_id: Option<Seq<char>>,
    pub prompt: Seq<char>,
    pub dedupe_token: Seq<char>,
    pub model: Option<Seq<char>>,
    pub effort: Option<Seq<char>>,
    pub access_mode: Option<Seq<char>>,
}

impl View for NormalizedDispatchAction {
    type V = NormalizedModel;

    open spec fn view(&self) -> NormalizedModel {
        NormalizedModel {
            action_id: self.action_id@,
            workspace_id: self.workspace_id@,
            thread_id: self.thread_id.deep_view(),
            prompt: self.prompt@,
            dedupe_token: self.dedupe_token@,
            model: self.model.deep_view(),
            effort: self.effort.deep_view(),
            access_mode: self.access_mode.deep_view(),
        }
    }
}

impl DeepView for NormalizedDispatchAction {
    type V = NormalizedModel;

    open spec fn deep_view(&self) -> NormalizedModel {
        self@
    }
}

impl Clone for NormalizedDispatchAction {
    fn clone(&self) -> (copy: Self)
        ensures
            copy@ == self@,
    {
        let copy = NormalizedDispatchAction {
            action_id: self.action_id.clone(),
            workspace_id: self.workspace_id.clone(),
            thread_id: self.thread_id.clone(),
            prompt: self.prompt.clone(),
            dedupe_token: self.dedupe_token.clone(),
            model: self.model.clone(),
            effort: self.effort.clone(),
            access_mode: self.access_mode.clone(),
        };
        proof {
            assert(copy.thread_id.deep_view() =~= self.thread_id.deep_view());
            assert(copy.model.deep_view() =~= self.model.deep_view());
            assert(copy.effort.deep_view() =~= self.effort.deep_view());
            assert(copy.access_mode.deep_view() =~= self.access_mode.deep_view());
        }
        copy
    }
}

/// The session backend that the executor drives: each call answers with a
/// JSON response, or with the transport's error.
pub trait SupervisorDispatchBackend {
    fn start_thread(&self, workspace_id: &str) -> Result<JsonValue, String>;

    fn resume_thread(&self, workspace_id: &str, thread_id: &str) -> Result<JsonValue, String>;

    fn start_turn(
        &self,
        workspace_id: &str,
        thread_id: &str,
        prompt: &str,
        model: Option<&str>,
        effort: Option<&str>,
        access_mode: Option<&str>,
    ) -> Result<JsonValue, String>;
}

/// The trimmed text where it is not blank.
pub open spec fn present(text: Option<Seq<char>>) -> Option<Seq<char>> {
    match text {
        Some(t) => if trimmed(t).len() > 0 {
            Some(trimmed(t))
        } else {
            None
        },
        None => None,
    }
}

/// Whether a text names an access mode.
pub open spec fn is_access_mode(text: Seq<char>) -> bool {
    text == "read-only"@ || text == "current"@ || text == "full-access"@
}

/// The normal form of an action, or why it has none.
pub open spec fn normalized_action(action: ActionModel) -> Result<NormalizedModel, Seq<char>> {
    if trimmed(action.action_id).len() == 0 {
        Err("action_id is required"@)
    } else if trimmed(action.workspace_id).len() == 0 {
        Err("workspace_id is required"@)
    } else if trimmed(action.prompt).len() == 0 {
        Err("prompt is required"@)
    } else if present(action.access_mode) is Some && !is_access_mode(present(action.access_mode)->0) {
        Err("access_mode must be one of `read-only`, `current`, or `full-access`"@)
    } else {
        Ok(
            NormalizedModel {
                action_id: trimmed(action.action_id),
                workspace_id: trimmed(action.workspace_id),
                thread_id: present(action.thread_id),
                prompt: trimmed(action.prompt),
                dedupe_token: match present(action.dedupe_key) {
                    Some(token) => token,
                    None => trimmed(action.action_id),
                },
                model: present(action.model),
                effort: present(action.effort),
                access_mode: present(action.access_mode),
            },
        )
    }
}

/// Whether a character of a workspace id is written after a backslash in
/// a key: the colon, which ends the workspace id there, and the backslash.
pub open spec fn is_key_mark(c: char) -> bool {
    c == ':' || c == '\\'
}

/// A character of a workspace id as a key holds it.
pub open spec fn escaped_char(c: char) -> Seq<char> {
    if is_key_mark(c) {
        seq!['\\', c]
    } else {
        seq![c]
    }
}

/// A workspace id as a key holds it: every colon and every backslash
/// after a backslash, so that the first bare colon of a key ends it.
pub open spec fn escaped(text: Seq<char>) -> Seq<char>
    decreases text.len(),
{
    if text.len() == 0 {
        Seq::empty()
    } else {
        escaped_char(text[0]) + escaped(text.drop_first())
    }
}

/// The key of a dedupe token in a workspace: the workspace id, a colon,
/// the token. Two keys are the same only where both workspace and token are.
#[verifier::opaque]
pub open spec fn pair_key(workspace_id: Seq<char>, token: Seq<char>) -> Seq<char> {
    escaped(workspace_id) + ":"@ + token
}

/// The key under which the outcome of an action is kept: that of its
/// dedupe token in its workspace.
pub open spec fn idempotency_key_of(action: NormalizedModel) -> Seq<char> {
    pair_key(action.workspace_id, action.dedupe_token)
}

/// A character at the end of a workspace id is written at the end of what
/// the key holds of it.
pub proof fn lemma_escaped_push(text: Seq<char>, c: char)
    ensures
        escaped(text.push(c)) == escaped(text) + escaped_char(c),
    decreases text.len(),
{
    let longer = text.push(c);
    if text.len() == 0 {
        assert(longer[0] == c);
        assert(longer.drop_first().len() == 0);
        assert(escaped(longer.drop_first()) =~= Seq::<char>::empty());
        assert(escaped(text) =~= Seq::<char>::empty());
        assert(escaped(longer) =~= escaped(text) + escaped_char(c));
    } else {
        lemma_escaped_push(text.drop_first(), c);
        assert(longer[0] == text[0]);
        assert(longer.drop_first() =~= text.drop_first().push(c));
        assert(escaped(longer) =~= escaped(text) + escaped_char(c));
    }
}

/// The trimmed text where it is not blank.
pub fn normalize_optional(value: Option<String>) -> (normal: Option<String>)
    ensures
        normal.deep_view() == present(value.deep_view()),
{
    match value {
        Some(text) => {
            let cut = text.as_str().trim();
            if cut.unicode_len() > 0 {
                Some(cut.to_owned())
            } else {
                None
            }
        },
        None => None,
    }
}

/// The access mode where one is given, refused where it is none of the three.
pub fn normalize_access_mode(value: Option<String>) -> (normal: Result<Option<String>, String>)
    ensures
        match normal {
            Ok(mode) => mode.deep_view() == present(value.deep_view()) && (mode is Some ==> is_access_mode(mode->0@)),
            Err(reason) => present(value.deep_view()) is Some && !is_access_mode(present(value.deep_view())->0)
                && reason@ == "access_mode must be one of `read-only`, `current`, or `full-access`"@,
        },
{
    match normalize_optional(value) {
        None => Ok(None),
        Some(mode) => {
            if text_eq(mode.as_str(), "read-only") || text_eq(mode.as_str(), "current") || text_eq(
                mode.as_str(),
                "full-access",
            ) {
                Ok(Some(mode))
            } else {
                Err("access_mode must be one of `read-only`, `current`, or `full-access`".to_owned())
            }
        },
    }
}

impl NormalizedDispatchAction {
    /// The normal form of an action, or why it has none.
    pub fn try_from(value: SupervisorDispatchAction) -> (normal: Result<NormalizedDispatchAction, String>)
        ensures
            result_model(normal) == normalized_action(value@),
    {
        let action_id = value.action_id.as_str().trim().to_owned();
        if action_id.as_str().unicode_len() == 0 {
            return Err("action_id is required".to_owned());
        }
        let workspace_id = value.workspace_id.as_str().trim().to_owned();
        if workspace_id.as_str().unicode_len() == 0 {
            return Err("workspace_id is required".to_owned());
        }
        let prompt = value.prompt.as_str().trim().to_owned();
        if prompt.as_str().unicode_len() == 0 {
            return Err("prompt is required".to_owned());
        }
        let thread_id = normalize_optional(value.thread_id);
        let dedupe_token = match normalize_optional(value.dedupe_key) {
            Some(token) => token,
            None => action_id.clone(),
        };
        let model = normalize_optional(value.model);
        let effort = normalize_optional(value.effort);
        let access_mode = match normalize_access_mode(value.access_mode) {
            Ok(mode) => mode,
            Err(reason) => {
                return Err(reason);
            },
        };
        Ok(
            NormalizedDispatchAction {
                action_id,
                workspace_id,
                thread_id,
                prompt,
                dedupe_token,
                model,
                effort,
                access_mode,
            },
        )
    }

    /// The key under which the outcome of the action is kept.
    pub fn idempotency_key(&self) -> (key: String)
        ensures
            key@ == idempotency_key_of(self@),
    {
        let chars = chars_of(self.workspace_id.as_str());
        let mut key = String::new();
        let mut i: usize = 0;
        assert(chars@.take(0) =~= Seq::<char>::empty());
        while i < chars.len()
            invariant
                i <= chars.len(),
                key@ == escaped(chars@.take(i as int)),
            decreases chars.len() - i,
        {
            let c = chars[i];
            proof {
                lemma_escaped_push(chars@.take(i as int), c);
                assert(chars@.take(i + 1) =~= chars@.take(i as int).push(c));
            }
            if c == ':' || c == '\\' {
                push_char(&mut key, '\\');
            }
            push_char(&mut key, c);
            assert(key@ =~= escaped(chars@.take(i as int)) + escaped_char(c));
            i += 1;
        }
        assert(chars@.take(i as int) =~= chars@);
        key.append(":");
        key.append(self.dedupe_token.as_str());
        proof {
            reveal(pair_key);
        }
        key
    }
}

/// The outcomes of the actions that were dispatched, by idempotency key.
#[derive(Debug)]
pub struct SupervisorDispatchIdempotencyStore {
    pub entries: Table<SupervisorDispatchActionResult>,
}

impl View for SupervisorDispatchIdempotencyStore {
    type V = Seq<(Seq<char>, ResultModel)>;

    open spec fn view(&self) -> Seq<(Seq<char>, ResultModel)> {
        self.entries@
    }
}

impl SupervisorDispatchIdempotencyStore {
    /// The outcome kept under `key`.
    pub fn get(&self, key: &str) -> (found: Option<&SupervisorDispatchActionResult>)
        ensures
            match found {
                Some(result) => table_get(self@, key@) == Some(result@),
                None => table_get(self@, key@) is None,
            },
    {
        self.entries.get(key)
    }

    /// Keeps `value` under `key`.
    pub fn insert(&mut self, key: String, value: SupervisorDispatchActionResult)
        ensures
            final(self)@ == table_put(old(self)@, key@, value@),
    {
        self.entries.put(key, value);
    }

    /// A copy of the entries.
    pub fn snapshot(&self) -> (copy: Table<SupervisorDispatchActionResult>)
        ensures
            copy@ == self@,
    {
        self.entries.clone()
    }
}

impl Default for SupervisorDispatchIdempotencyStore {
    fn default() -> (store: Self)
        ensures
            store@ == Seq::<(Seq<char>, ResultModel)>::empty(),
    {
        SupervisorDispatchIdempotencyStore { entries: Table::new() }
    }
}

impl Clone for SupervisorDispatchIdempotencyStore {
    fn clone(&self) -> (copy: Self)
        ensures
            copy@ == self@,
    {
        SupervisorDispatchIdempotencyStore { entries: self.entries.clone() }
    }
}

/// The access mode that a turn runs under: `read-only` and `full-access`
/// as given, `current` for anything else.
pub open spec fn resolved_access_mode(access_mode: Option<Seq<char>>) -> Seq<char> {
    match present(access_mode) {
        Some(mode) => if mode == "read-only"@ {
            "read-only"@
        } else if mode == "full-access"@ {
            "full-access"@
        } else {
            "current"@
        },
        None => "current"@,
    }
}

/// The access mode that a turn runs under.
pub fn resolve_access_mode(access_mode: Option<&str>) -> (mode: &'static str)
    ensures
        mode@ == resolved_access_mode(access_mode.deep_view()),
{
    match access_mode {
        Some(raw) => {
            let cut = raw.trim();
            if cut.unicode_len() == 0 {
                "current"
            } else if text_eq(cut, "read-only") {
                "read-only"
            } else if text_eq(cut, "full-access") {
                "full-access"
            } else {
                "current"
            }
        },
        None => "current",
    }
}

/// The approval policy of an access mode: `never` under full access,
/// `on-request` otherwise.
pub open spec fn approval_policy_of(access_mode: Seq<char>) -> Seq<char> {
    if access_mode == "full-access"@ {
        "never"@
    } else {
        "on-request"@
    }
}

/// The approval policy of an access mode.
pub fn approval_policy_for_access_mode(access_mode: &str) -> (policy: &'static str)
    ensures
        policy@ == approval_policy_of(access_mode@),
{
    if text_eq(access_mode, "full-access") {
        "never"
    } else {
        "on-request"
    }
}

/// The sandbox policy of an access mode.
pub open spec fn sandbox_policy_of(access_mode: Seq<char>, workspace_path: Seq<char>) -> JsonModel {
    if access_mode == "full-access"@ {
        JsonModel::Object(Seq::empty().push(("type"@, JsonModel::Text("dangerFullAccess"@))))
    } else if access_mode == "read-only"@ {
        JsonModel::Object(Seq::empty().push(("type"@, JsonModel::Text("readOnly"@))))
    } else {
        JsonModel::Object(
            Seq::empty().push(("type"@, JsonModel::Text("workspaceWrite"@))).push(
                ("writableRoots"@, JsonModel::Array(Seq::empty().push(JsonModel::Text(workspace_path)))),
            ).push(("networkAccess"@, JsonModel::Bool(true))),
        )
    }
}

/// The sandbox policy of an access mode.
pub fn sandbox_policy_for_access_mode(access_mode: &str, workspace_path: &str) -> (policy: JsonValue)
    ensures
        policy@ == sandbox_policy_of(access_mode@, workspace_path@),
{
    let mut members = new_members();
    if text_eq(access_mode, "full-access") {
        push_member(&mut members, "type", JsonValue::text("dangerFullAccess"));
    } else if text_eq(access_mode, "read-only") {
        push_member(&mut members, "type", JsonValue::text("readOnly"));
    } else {
        push_member(&mut members, "type", JsonValue::text("workspaceWrite"));
        let mut roots: Vec<JsonValue> = Vec::new();
        roots.push(JsonValue::text(workspace_path));
        let roots_value = JsonValue::Array(roots);
        assert(roots_value@->Array_0 =~= Seq::empty().push(JsonModel::Text(workspace_path@)));
        push_member(&mut members, "writableRoots", roots_value);
        push_member(&mut members, "networkAccess", JsonValue::Bool(true));
    }
    JsonValue::object(members)
}

/// The parameters of a request that starts a thread.
pub open spec fn thread_start_params_of(workspace_path: Seq<char>) -> JsonModel {
    JsonModel::Object(
        Seq::empty().push(("cwd"@, JsonModel::Text(workspace_path))).push(
            ("approvalPolicy"@, JsonModel::Text("on-request"@)),
        ),
    )
}

/// The parameters of a request that starts a thread.
pub fn thread_start_params(workspace_path: &str) -> (params: JsonValue)
    ensures
        params@ == thread_start_params_of(workspace_path@),
{
    let mut members = new_members();
    push_member(&mut members, "cwd", JsonValue::text(workspace_path));
    push_member(&mut members, "approvalPolicy", JsonValue::text("on-request"));
    JsonValue::object(members)
}

/// The parameters of a request that resumes a thread.
pub fn thread_resume_params(thread_id: &str) -> (params: JsonValue)
    ensures
        params@ == JsonModel::Object(Seq::empty().push(("threadId"@, JsonModel::Text(thread_id@)))),
{
    let mut members = new_members();
    push_member(&mut members, "threadId", JsonValue::text(thread_id));
    JsonValue::object(members)
}

/// The text that a request carries where it is not blank, as given.
pub open spec fn unless_blank(text: Option<Seq<char>>) -> Option<Seq<char>> {
    match text {
        Some(t) => if trimmed(t).len() > 0 {
            Some(t)
        } else {
            None
        },
        None => None,
    }
}

/// The members of a request that starts a turn, without model and effort.
pub open spec fn turn_start_base(
    thread_id: Seq<char>,
    prompt: Seq<char>,
    workspace_path: Seq<char>,
    access_mode: Option<Seq<char>>,
) -> Seq<(Seq<char>, JsonModel)> {
    let mode = resolved_access_mode(access_mode);
    Seq::empty().push(("threadId"@, JsonModel::Text(thread_id))).push(
        (
            "input"@,
            JsonModel::Array(
                Seq::empty().push(
                    JsonModel::Object(
                        Seq::empty().push(("type"@, JsonModel::Text("text"@))).push(("text"@, JsonModel::Text(prompt))),
                    ),
                ),
            ),
        ),
    ).push(("cwd"@, JsonModel::Text(workspace_path))).push(
        ("approvalPolicy"@, JsonModel::Text(approval_policy_of(mode))),
    ).push(("sandboxPolicy"@, sandbox_policy_of(mode, workspace_path)))
}

/// The parameters of a request that starts a turn: model and effort follow
/// the fixed members where they are not blank.
pub open spec fn turn_start_params_of(
    thread_id: Seq<char>,
    prompt: Seq<char>,
    workspace_path: Seq<char>,
    model: Option<Seq<char>>,
    effort: Option<Seq<char>>,
    access_mode: Option<Seq<char>>,
) -> JsonModel {
    let base = turn_start_base(thread_id, prompt, workspace_path, access_mode);
    let with_model = match unless_blank(model) {
        Some(m) => base.push(("model"@, JsonModel::Text(m))),
        None => base,
    };
    let with_effort = match unless_blank(effort) {
        Some(e) => with_model.push(("effort"@, JsonModel::Text(e))),
        None => with_model,
    };
    JsonModel::Object(with_effort)
}

/// The parameters of a request that starts a turn.
pub fn turn_start_params(
    thread_id: &str,
    prompt: &str,
    workspace_path: &str,
    model: Option<&str>,
    effort: Option<&str>,
    access_mode: Option<&str>,
) -> (params: JsonValue)
    ensures
        params@ == turn_start_params_of(
            thread_id@,
            prompt@,
            workspace_path@,
            model.deep_view(),
            effort.deep_view(),
            access_mode.deep_view(),
        ),
{
    let mode = resolve_access_mode(access_mode);
    let mut input_members = new_members();
    push_member(&mut input_members, "type", JsonValue::text("text"));
    push_member(&mut input_members, "text", JsonValue::text(prompt));
    let mut input: Vec<JsonValue> = Vec::new();
    let input_item = JsonValue::object(input_members);
    let ghost input_model = input_item@;
    input.push(input_item);
    let input_value = JsonValue::Array(input);
    assert(input_value@->Array_0 =~= Seq::empty().push(input_model));
    let mut members = new_members();
    push_member(&mut members, "threadId", JsonValue::text(thread_id));
    push_member(&mut members, "input", input_value);
    push_member(&mut members, "cwd", JsonValue::text(workspace_path));
    push_member(&mut members, "approvalPolicy", JsonValue::text(approval_policy_for_access_mode(mode)));
    push_member(&mut members, "sandboxPolicy", sandbox_policy_for_access_mode(mode, workspace_path));
    match model {
        Some(m) => {
            if m.trim().unicode_len() > 0 {
                push_member(&mut members, "model", JsonValue::text(m));
            }
        },
        None => {},
    }
    match effort {
        Some(e) => {
            if e.trim().unicode_len() > 0 {
                push_member(&mut members, "effort", JsonValue::text(e));
            }
        },
        None => {},
    }
    JsonValue::object(members)
}

/// The error that a response carries: the trimmed `error.message` where it
/// is a string that is not blank, else the trimmed `error` where it is such
/// a string, else the compact JSON text of `error`.
pub open spec fn response_error_of(response: JsonModel) -> Option<Seq<char>> {
    match json_member(response, "error"@) {
        None => None,
        Some(error) => {
            let message = match json_member(error, "message"@) {
                Some(m) => present(json_text(m)),
                None => None,
            };
            if message is Some {
                message
            } else if present(json_text(error)) is Some {
                present(json_text(error))
            } else {
                Some(json_compact_text(error))
            }
        },
    }
}

/// The error that a response carries, if any.
pub fn response_error_message(response: &JsonValue) -> (message: Option<String>)
    ensures
        message.deep_view() == response_error_of(response@),
{
    match response.get("error") {
        None => None,
        Some(error) => {
            let nested = match error.get("message") {
                Some(m) => match m.as_str() {
                    Some(text) => {
                        let cut = text.trim();
                        if cut.unicode_len() > 0 {
                            Some(cut.to_owned())
                        } else {
                            None
                        }
                    },
                    None => None,
                },
                None => None,
            };
            match nested {
                Some(text) => Some(text),
                None => {
                    let plain = match error.as_str() {
                        Some(text) => {
                            let cut = text.trim();
                            if cut.unicode_len() > 0 {
                                Some(cut.to_owned())
                            } else {
                                None
                            }
                        },
                        None => None,
                    };
                    match plain {
                        Some(text) => Some(text),
                        None => Some(error.compact_text()),
                    }
                },
            }
        },
    }
}

/// The id that a record names under `flat`, or else as the `id` of its
/// member `nested`, where that is a string.
pub open spec fn id_in(map: JsonModel, flat: Seq<char>, nested: Seq<char>) -> Option<Seq<char>> {
    let chosen = match json_member(map, flat) {
        Some(v) => Some(v),
        None => match json_member(map, nested) {
            Some(n) => json_member(n, "id"@),
            None => None,
        },
    };
    match chosen {
        Some(v) => json_text(v),
        None => None,
    }
}

/// The id that a response names, in its `result` or else at its top level.
pub open spec fn response_id(response: JsonModel, flat: Seq<char>, nested: Seq<char>) -> Option<Seq<char>> {
    either(
        match json_member(response, "result"@) {
            Some(result) => id_in(result, flat, nested),
            None => None,
        },
        id_in(response, flat, nested),
    )
}

fn extract_id_in(map: &JsonValue, flat: &str, nested: &str) -> (id: Option<String>)
    ensures
        id.deep_view() == id_in(map@, flat@, nested@),
{
    let chosen = match map.get(flat) {
        Some(v) => Some(v),
        None => match map.get(nested) {
            Some(n) => n.get("id"),
            None => None,
        },
    };
    match chosen {
        Some(v) => match v.as_str() {
            Some(text) => Some(text.to_owned()),
            None => None,
        },
        None => None,
    }
}

fn extract_response_id(response: &JsonValue, flat: &str, nested: &str) -> (id: Option<String>)
    ensures
        id.deep_view() == response_id(response@, flat@, nested@),
{
    let inner = match response.get("result") {
        Some(result) => extract_id_in(result, flat, nested),
        None => None,
    };
    match inner {
        Some(id) => Some(id),
        None => extract_id_in(response, flat, nested),
    }
}

/// The thread id that a response names.
pub fn extract_thread_id(response: &JsonValue) -> (id: Option<String>)
    ensures
        id.deep_view() == response_id(response@, "threadId"@, "thread"@),
{
    extract_response_id(response, "threadId", "thread")
}

/// The turn id that a response names.
pub fn extract_turn_id(response: &JsonValue) -> (id: Option<String>)
    ensures
        id.deep_view() == response_id(response@, "turnId"@, "turn"@),
{
    extract_response_id(response, "turnId", "turn")
}

/// The outcome of an action that failed.
pub open spec fn failed_result(
    action: NormalizedModel,
    error: Seq<char>,
    thread_id: Option<Seq<char>>,
    turn_id: Option<Seq<char>>,
    idempotent_replay: bool,
) -> ResultModel {
    ResultModel {
        action_id: action.action_id,
        workspace_id: action.workspace_id,
        dedupe_key: action.dedupe_token,
        status: SupervisorDispatchStatus::Failed,
        thread_id,
        turn_id,
        error: Some(error),
        idempotent_replay,
    }
}

/// The outcome of an action that failed.
pub fn failed_dispatch_result(
    action: &NormalizedDispatchAction,
    error: String,
    thread_id: Option<String>,
    turn_id: Option<String>,
    idempotent_replay: bool,
) -> (result: SupervisorDispatchActionResult)
    ensures
        result@ == failed_result(action@, error@, thread_id.deep_view(), turn_id.deep_view(), idempotent_replay),
{
    SupervisorDispatchActionResult {
        action_id: action.action_id.clone(),
        workspace_id: action.workspace_id.clone(),
        dedupe_key: action.dedupe_token.clone(),
        status: SupervisorDispatchStatus::Failed,
        thread_id,
        turn_id,
        error: Some(error),
        idempotent_replay,
    }
}

/// The outcome of an action that has no normal form.
pub open spec fn invalid_result(action: ActionModel, error: Seq<char>) -> ResultModel {
    ResultModel {
        action_id: action.action_id,
        workspace_id: action.workspace_id,
        dedupe_key: match action.dedupe_key {
            Some(key) => key,
            None => Seq::empty(),
        },
        status: SupervisorDispatchStatus::Failed,
        thread_id: None,
        turn_id: None,
        error: Some(error),
        idempotent_replay: false,
    }
}

/// The thread that an action runs on, as the backend's answer settles it:
/// the thread that the answer names; the thread that was asked for where a
/// resumed thread's answer names none; an error where the transport failed,
/// the answer carries an error, or a new thread's answer names no thread.
pub open spec fn thread_outcome(action: NormalizedModel, response: Result<JsonModel, Seq<char>>) -> Result<
    Seq<char>,
    Seq<char>,
> {
    match response {
        Err(error) => Err(error),
        Ok(answer) => match response_error_of(answer) {
            Some(error) => Err(error),
            None => match response_id(answer, "threadId"@, "thread"@) {
                Some(id) => Ok(id),
                None => match action.thread_id {
                    Some(asked) => Ok(asked),
                    None => Err(
                        "thread/start response did not include threadId for workspace `"@ + action.workspace_id
                            + "`"@,
                    ),
                },
            },
        },
    }
}

/// The outcome of an action on a thread, as the backend's answer to the
/// start of the turn settles it.
pub open spec fn turn_outcome(
    action: NormalizedModel,
    thread_id: Seq<char>,
    response: Result<JsonModel, Seq<char>>,
) -> ResultModel {
    match response {
        Err(error) => failed_result(action, error, Some(thread_id), None, false),
        Ok(answer) => match response_error_of(answer) {
            Some(error) => failed_result(action, error, Some(thread_id), None, false),
            None => ResultModel {
                action_id: action.action_id,
                workspace_id: action.workspace_id,
                dedupe_key: action.dedupe_token,
                status: SupervisorDispatchStatus::Dispatched,
                thread_id: Some(thread_id),
                turn_id: response_id(answer, "turnId"@, "turn"@),
                error: None,
                idempotent_replay: false,
            },
        },
    }
}

/// The outcome of an action, as the backend's two answers settle it.
pub open spec fn dispatch_outcome(
    action: NormalizedModel,
    thread_response: Result<JsonModel, Seq<char>>,
    turn_response: Result<JsonModel, Seq<char>>,
) -> ResultModel {
    match thread_outcome(action, thread_response) {
        Err(error) => failed_result(action, error, None, None, false),
        Ok(thread_id) => turn_outcome(action, thread_id, turn_response),
    }
}

/// Whether `result` is an outcome that some answers of the backend give.
pub open spec fn possible_outcome(action: NormalizedModel, result: ResultModel) -> bool {
    exists|thread_response: Result<JsonModel, Seq<char>>, turn_response: Result<JsonModel, Seq<char>>|
        result == #[trigger] dispatch_outcome(action, thread_response, turn_response)
}

/// The view of a backend's answer.
pub open spec fn answer_model(response: Result<JsonValue, String>) -> Result<JsonModel, Seq<char>> {
    match response {
        Ok(answer) => Ok(answer@),
        Err(error) => Err(error@),
    }
}

/// The thread that an action runs on, as the backend's answer settles it.
pub fn resolve_thread(action: &NormalizedDispatchAction, response: Result<JsonValue, String>) -> (thread: Result<
    String,
    String,
>)
    ensures
        result_model(thread) == thread_outcome(action@, answer_model(response)),
{
    match response {
        Err(error) => Err(error),
        Ok(answer) => match response_error_message(&answer) {
            Some(error) => Err(error),
            None => match extract_thread_id(&answer) {
                Some(id) => Ok(id),
                None => match &action.thread_id {
                    Some(asked) => Ok(asked.clone()),
                    None => {
                        let mut reason = "thread/start response did not include threadId for workspace `".to_owned();
                        reason.append(action.workspace_id.as_str());
                        reason.append("`");
                        Err(reason)
                    },
                },
            },
        },
    }
}

/// The outcome of an action on a thread, as the backend's answer to the
/// start of the turn settles it.
pub fn resolve_turn(action: &NormalizedDispatchAction, thread_id: String, response: Result<JsonValue, String>) -> (result:
    SupervisorDispatchActionResult)
    ensures
        result@ == turn_outcome(action@, thread_id@, answer_model(response)),
{
    match response {
        Err(error) => failed_dispatch_result(action, error, Some(thread_id), None, false),
        Ok(answer) => match response_error_message(&answer) {
            Some(error) => failed_dispatch_result(action, error, Some(thread_id), None, false),
            None => SupervisorDispatchActionResult {
                action_id: action.action_id.clone(),
                workspace_id: action.workspace_id.clone(),
                dedupe_key: action.dedupe_token.clone(),
                status: SupervisorDispatchStatus::Dispatched,
                thread_id: Some(thread_id),
                turn_id: extract_turn_id(&answer),
                error: None,
                idempotent_replay: false,
            },
        },
    }
}

/// A kept outcome as it is handed out again: under the id of the action
/// that asks, and marked as a replay.
pub open spec fn replayed(cached: ResultModel, action_id: Seq<char>) -> ResultModel {
    ResultModel { action_id, idempotent_replay: true, ..cached }
}

/// What one dispatch does: an action without normal form fails and leaves
/// the store; an action whose key the store holds gets the kept outcome
/// again, and the store stays; any other action gets an outcome that the
/// backend's answers give, and the store keeps it under the action's key.
pub open spec fn dispatched(
    store: Seq<(Seq<char>, ResultModel)>,
    action: ActionModel,
    result: ResultModel,
    next_store: Seq<(Seq<char>, ResultModel)>,
) -> bool {
    match normalized_action(action) {
        Err(reason) => result == invalid_result(action, reason) && next_store == store,
        Ok(normal) => match table_get(store, idempotency_key_of(normal)) {
            Some(cached) => result == replayed(cached, normal.action_id) && next_store == store,
            None => possible_outcome(normal, result) && next_store == table_put(
                store,
                idempotency_key_of(normal),
                result,
            ),
        },
    }
}

/// What a batch does: one dispatch after the other, each on the store that
/// the one before left.
pub open spec fn batch_dispatched(
    store: Seq<(Seq<char>, ResultModel)>,
    actions: Seq<ActionModel>,
    results: Seq<ResultModel>,
    next_store: Seq<(Seq<char>, ResultModel)>,
) -> bool {
    exists|stores: Seq<Seq<(Seq<char>, ResultModel)>>| #[trigger]
        chain(stores, store, actions, results, next_store)
}

/// `stores` are the stores before, between and after the dispatches of a batch.
pub open spec fn chain(
    stores: Seq<Seq<(Seq<char>, ResultModel)>>,
    store: Seq<(Seq<char>, ResultModel)>,
    actions: Seq<ActionModel>,
    results: Seq<ResultModel>,
    next_store: Seq<(Seq<char>, ResultModel)>,
) -> bool {
    &&& results.len() == actions.len()
    &&& stores.len() == actions.len() + 1
    &&& stores[0] == store
    &&& stores[actions.len() as int] == next_store
    &&& forall|i: int| 0 <= i < actions.len() ==> dispatched(#[trigger] stores[i], actions[i], results[i], stores[i + 1])
}

/// Dispatches actions to workspaces, each (workspace, dedupe token) once.
#[derive(Debug)]
pub struct SupervisorDispatchExecutor {
    pub idempotency: SupervisorDispatchIdempotencyStore,
}

impl View for SupervisorDispatchExecutor {
    type V = Seq<(Seq<char>, ResultModel)>;

    open spec fn view(&self) -> Seq<(Seq<char>, ResultModel)> {
        self.idempotency@
    }
}

impl Default for SupervisorDispatchExecutor {
    fn default() -> (executor: Self)
        ensures
            executor@ == Seq::<(Seq<char>, ResultModel)>::empty(),
    {
        SupervisorDispatchExecutor { idempotency: SupervisorDispatchIdempotencyStore::default() }
    }
}

impl Clone for SupervisorDispatchExecutor {
    fn clone(&self) -> (copy: Self)
        ensures
            copy@ == self@,
    {
        SupervisorDispatchExecutor { idempotency: self.idempotency.clone() }
    }
}

fn as_text(text: &Option<String>) -> (out: Option<&str>)
    ensures
        out.deep_view() == text.deep_view(),
{
    match text {
        Some(t) => Some(t.as_str()),
        None => None,
    }
}

impl SupervisorDispatchExecutor {
    /// An executor that has dispatched nothing yet.
    pub fn new() -> (executor: Self)
        ensures
            executor@ == Seq::<(Seq<char>, ResultModel)>::empty(),
    {
        SupervisorDispatchExecutor::default()
    }

    /// An executor that starts with the given outcomes.
    pub fn with_idempotency_store(idempotency: SupervisorDispatchIdempotencyStore) -> (executor: Self)
        ensures
            executor@ == idempotency@,
    {
        SupervisorDispatchExecutor { idempotency }
    }

    /// A copy of the kept outcomes.
    pub fn idempotency_snapshot(&self) -> (copy: Table<SupervisorDispatchActionResult>)
        ensures
            copy@ == self@,
    {
        self.idempotency.snapshot()
    }

    /// Asks the backend for the thread that the action runs on.
    pub fn ensure_thread<B: SupervisorDispatchBackend>(&self, backend: &B, action: &NormalizedDispatchAction) -> (thread:
        Result<String, String>)
        ensures
            exists|response: Result<JsonModel, Seq<char>>| result_model(thread) == #[trigger] thread_outcome(action@, response),
    {
        let response = match &action.thread_id {
            Some(thread_id) => backend.resume_thread(action.workspace_id.as_str(), thread_id.as_str()),
            None => backend.start_thread(action.workspace_id.as_str()),
        };
        let ghost answer = answer_model(response);
        let thread = resolve_thread(action, response);
        assert(result_model(thread) == thread_outcome(action@, answer));
        thread
    }

    /// Runs an action against the backend: the thread first, then the turn.
    pub fn dispatch_normalized<B: SupervisorDispatchBackend>(&self, backend: &B, action: &NormalizedDispatchAction) -> (result:
        SupervisorDispatchActionResult)
        ensures
            possible_outcome(action@, result@),
    {
        let thread = self.ensure_thread(backend, action);
        let ghost thread_answer = choose|response: Result<JsonModel, Seq<char>>|
            result_model(thread) == #[trigger] thread_outcome(action@, response);
        match thread {
            Err(error) => {
                let result = failed_dispatch_result(action, error, None, None, false);
                assert(result@ == dispatch_outcome(action@, thread_answer, Err(Seq::empty())));
                result
            },
            Ok(thread_id) => {
                let turn_response = backend.start_turn(
                    action.workspace_id.as_str(),
                    thread_id.as_str(),
                    action.prompt.as_str(),
                    as_text(&action.model),
                    as_text(&action.effort),
                    as_text(&action.access_mode),
                );
                let ghost turn_answer = answer_model(turn_response);
                let result = resolve_turn(action, thread_id, turn_response);
                assert(result@ == dispatch_outcome(action@, thread_answer, turn_answer));
                result
            },
        }
    }

    /// Dispatches one action, unless its outcome is kept already.
    pub fn dispatch_action<B: SupervisorDispatchBackend>(&mut self, backend: &B, action: SupervisorDispatchAction) -> (result:
        SupervisorDispatchActionResult)
        ensures
            dispatched(old(self)@, action@, result@, final(self)@),
    {
        let given = action.clone();
        let normalized = match NormalizedDispatchAction::try_from(action) {
            Ok(value) => value,
            Err(error) => {
                return SupervisorDispatchActionResult {
                    action_id: given.action_id,
                    workspace_id: given.workspace_id,
                    dedupe_key: match given.dedupe_key {
                        Some(key) => key,
                        None => String::new(),
                    },
                    status: SupervisorDispatchStatus::Failed,
                    thread_id: None,
                    turn_id: None,
                    error: Some(error),
                    idempotent_replay: false,
                };
            },
        };
        let idempotency_key = normalized.idempotency_key();
        match self.idempotency.get(idempotency_key.as_str()) {
            Some(cached) => {
                let mut replay = cached.clone();
                replay.action_id = normalized.action_id;
                replay.idempotent_replay = true;
                return replay;
            },
            None => {},
        }
        let result = self.dispatch_normalized(backend, &normalized);
        self.idempotency.insert(idempotency_key, result.clone());
        result
    }

    /// Dispatches the actions in their order.
    pub fn dispatch_batch<B: SupervisorDispatchBackend>(&mut self, backend: &B, actions: Vec<SupervisorDispatchAction>) -> (batch:
        SupervisorDispatchBatchResult)
        ensures
            batch_dispatched(old(self)@, actions.deep_view(), batch@.results, final(self)@),
    {
        let ghost all = actions.deep_view();
        let ghost mut stores: Seq<Seq<(Seq<char>, ResultModel)>> = seq![self@];
        let mut results: Vec<SupervisorDispatchActionResult> = Vec::new();
        let mut rest = actions;
        let ghost mut done: int = 0;
        assert(all.skip(0) =~= all);
        assert(results.deep_view() =~= Seq::<ResultModel>::empty());
        while rest.len() > 0
            invariant
                0 <= done <= all.len(),
                rest.deep_view() == all.skip(done),
                results.deep_view().len() == done,
                stores.len() == done + 1,
                stores[0] == old(self)@,
                stores[done] == self@,
                forall|i: int|
                    0 <= i < done ==> dispatched(#[trigger] stores[i], all[i], results.deep_view()[i], stores[i + 1]),
            decreases rest.len(),
        {
            let ghost before = rest.deep_view();
            let ghost before_results = results.deep_view();
            let ghost before_stores = stores;
            let action = rest.remove(0);
            assert(rest.deep_view() =~= before.drop_first());
            assert(action@ == before[0]);
            assert(all.skip(done)[0] == all[done]);
            let result = self.dispatch_action(backend, action);
            results.push(result);
            proof {
                assert(results.deep_view() =~= before_results.push(result@));
                stores = stores.push(self@);
                assert(all.skip(done).drop_first() =~= all.skip(done + 1));
                assert forall|i: int| 0 <= i < done + 1 implies dispatched(
                    #[trigger] stores[i],
                    all[i],
                    results.deep_view()[i],
                    stores[i + 1],
                ) by {
                    if i < done {
                        assert(stores[i] == before_stores[i]);
                        assert(stores[i + 1] == before_stores[i + 1]);
                        assert(results.deep_view()[i] == before_results[i]);
                    }
                }
                done = done + 1;
            }
        }
        let batch = SupervisorDispatchBatchResult { results };
        assert(chain(stores, old(self)@, all, batch@.results, self@));
        batch
    }
}

} // verus!
