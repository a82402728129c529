use vstd::prelude::*;
use vstd::string::*;

use crate::model::SupervisorHealth;
use crate::order::{rank_order, ranking, RankKey, RankKeyModel};
use crate::text::{
    basename_of, begins_with, decimal, integer_text, lowercase, occurs_in, path_basename, split_words, stripped,
    strip_edges, text_contains, text_eq, text_starts_with, trimmed, words_of,
};

verus! {

/// Where a free-form message goes.
#[derive(Debug, Clone, Copy, PartialEq, Eq, Structural)]
pub enum SupervisorRouteKind {
    WorkspaceDelegate,
    LocalTool,
    Clarification,
}

/// What the supervisor answers by itself.
#[derive(Debug, Clone, Copy, PartialEq, Eq, Structural)]
pub enum SupervisorLocalTool {
    Status,
    Feed,
    Help,
}

/// What the router knows of a workspace.
#[derive(Debug, PartialEq, Eq)]
pub struct SupervisorRouteWorkspaceMetadata {
    pub workspace_id: String,
    pub name: String,
    pub path: String,
    pub branch: Option<String>,
    pub connected: bool,
    pub available: bool,
    pub health: SupervisorHealth,
    pub capabilities: Vec<String>,
}

/// Mathematical model of [`SupervisorRouteWorkspaceMetadata`].
pub struct RouteWorkspaceModel {
    pub workspace_id: Seq<char>,
    pub name: Seq<char>,
    pub path: Seq<char>,
    pub branch: Option<Seq<char>>,
    pub connected: bool,
    pub available: bool,
    pub health: SupervisorHealth,
    pub capabilities: Seq<Seq<char>>,
}

impl View for SupervisorRouteWorkspaceMetadata {
    type V = RouteWorkspaceModel;

    open spec fn view(&self) -> RouteWorkspaceModel {
        RouteWorkspaceModel {
            workspace_id: self.workspace_id@,
            name: self.name@,
            path: self.path@,
            branch: self.branch.deep_view(),
            connected: self.connected,
            available: self.available,
            health: self.health,
            capabilities: self.capabilities.deep_view(),
        }
    }
}

impl DeepView for SupervisorRouteWorkspaceMetadata {
    type V = RouteWorkspaceModel;

    open spec fn deep_view(&self) -> RouteWorkspaceModel {
        self@
    }
}

impl Clone for SupervisorRouteWorkspaceMetadata {
    fn clone(&self) -> (copy: Self)
        ensures
            copy@ == self@,
    {
        let copy = SupervisorRouteWorkspaceMetadata {
            workspace_id: self.workspace_id.clone(),
            name: self.name.clone(),
            path: self.path.clone(),
            branch: self.branch.clone(),
            connected: self.connected,
            available: self.available,
            health: self.health,
            capabilities: self.capabilities.clone(),
        };
        proof {
            assert(copy.branch.deep_view() =~= self.branch.deep_view());
            assert(copy.capabilities.deep_view() =~= self.capabilities.deep_view());
        }
        copy
    }
}

/// Where a free-form message goes, and why.
#[derive(Debug, PartialEq, Eq)]
pub struct SupervisorRouteDecision {
    pub kind: SupervisorRouteKind,
    pub reason: String,
    pub workspace_id: Option<String>,
    pub local_tool: Option<SupervisorLocalTool>,
    pub model: Option<String>,
    pub used_dedicated_workspace: bool,
    pub fallback_message: Option<String>,
    pub clarification: Option<String>,
    pub options: Vec<String>,
    pub candidates: Vec<SupervisorRouteWorkspaceMetadata>,
}

/// Mathematical model of [`SupervisorRouteDecision`].
pub struct RouteDecisionModel {
    pub kind: SupervisorRouteKind,
    pub reason: Seq<char>,
    pub workspace_id: Option<Seq<char>>,
    pub local_tool: Option<SupervisorLocalTool>,
    pub model: Option<Seq<char>>,
    pub used_dedicated_workspace: bool,
    pub fallback_message: Option<Seq<char>>,
    pub clarification: Option<Seq<char>>,
    pub options: Seq<Seq<char>>,
    pub candidates: Seq<RouteWorkspaceModel>,
}

impl View for SupervisorRouteDecision {
    type V = RouteDecisionModel;

    open spec fn view(&self) -> RouteDecisionModel {
        RouteDecisionModel {
            kind: self.kind,
            reason: self.reason@,
            workspace_id: self.workspace_id.deep_view(),
            local_tool: self.local_tool,
            model: self.model.deep_view(),
            used_dedicated_workspace: self.used_dedicated_workspace,
            fallback_message: self.fallback_message.deep_view(),
            clarification: self.clarification.deep_view(),
            options: self.options.deep_view(),
            candidates: self.candidates.deep_view(),
        }
    }
}

impl DeepView for SupervisorRouteDecision {
    type V = RouteDecisionModel;

    open spec fn deep_view(&self) -> RouteDecisionModel {
        self@
    }
}

impl Clone for SupervisorRouteDecision {
    fn clone(&self) -> (copy: Self)
        ensures
            copy@ == self@,
    {
        let copy = SupervisorRouteDecision {
            kind: self.kind,
            reason: self.reason.clone(),
            workspace_id: self.workspace_id.clone(),
            local_tool: self.local_tool,
            model: self.model.clone(),
            used_dedicated_workspace: self.used_dedicated_workspace,
            fallback_message: self.fallback_message.clone(),
            clarification: self.clarification.clone(),
            options: self.options.clone(),
            candidates: self.candidates.clone(),
        };
        proof {
            assert(copy.workspace_id.deep_view() =~= self.workspace_id.deep_view());
            assert(copy.model.deep_view() =~= self.model.deep_view());
            assert(copy.fallback_message.deep_view() =~= self.fallback_message.deep_view());
            assert(copy.clarification.deep_view() =~= self.clarification.deep_view());
            assert(copy.options.deep_view() =~= self.options.deep_view());
            assert(copy.candidates.deep_view() =~= self.candidates.deep_view());
        }
        copy
    }
}

/// The settings that the router reads.
#[derive(Debug, PartialEq, Eq)]
pub struct AppSettings {
    pub supervisor_dedicated_workspace_enabled: bool,
    pub supervisor_dedicated_workspace_id: Option<String>,
    pub supervisor_fast_model: String,
}

/// Mathematical model of [`AppSettings`].
pub struct SettingsModel {
    pub supervisor_dedicated_workspace_enabled: bool,
    pub supervisor_dedicated_workspace_id: Option<Seq<char>>,
    pub supervisor_fast_model: Seq<char>,
}

impl View for AppSettings {
    type V = SettingsModel;

    open spec fn view(&self) -> SettingsModel {
        SettingsModel {
            supervisor_dedicated_workspace_enabled: self.supervisor_dedicated_workspace_enabled,
            supervisor_dedicated_workspace_id: self.supervisor_dedicated_workspace_id.deep_view(),
            supervisor_fast_model: self.supervisor_fast_model@,
        }
    }
}

impl DeepView for AppSettings {
    type V = SettingsModel;

    open spec fn deep_view(&self) -> SettingsModel {
        self@
    }
}

impl Clone for AppSettings {
    fn clone(&self) -> (copy: Self)
        ensures
            copy@ == self@,
    {
        let copy = AppSettings {
            supervisor_dedicated_workspace_enabled: self.supervisor_dedicated_workspace_enabled,
            supervisor_dedicated_workspace_id: self.supervisor_dedicated_workspace_id.clone(),
            supervisor_fast_model: self.supervisor_fast_model.clone(),
        };
        proof {
            assert(copy.supervisor_dedicated_workspace_id.deep_view() =~= self.supervisor_dedicated_workspace_id.deep_view());
        }
        copy
    }
}

impl AppSettings {
    /// The model of the value that `default` returns.
    pub open spec fn blank() -> SettingsModel {
        SettingsModel {
            supervisor_dedicated_workspace_enabled: false,
            supervisor_dedicated_workspace_id: None,
            supervisor_fast_model: Seq::<char>::empty(),
        }
    }
}

impl Default for AppSettings {
    fn default() -> (blank: Self)
        ensures
            blank@ == Self::blank(),
    {
        let blank = AppSettings {
            supervisor_dedicated_workspace_enabled: false,
            supervisor_dedicated_workspace_id: None,
            supervisor_fast_model: String::new(),
        };
        blank
    }
}

/// A decision for a workspace.
pub open spec fn workspace_route(
    workspace_id: Seq<char>,
    reason: Seq<char>,
    model: Option<Seq<char>>,
    used_dedicated_workspace: bool,
    fallback_message: Option<Seq<char>>,
    candidates: Seq<RouteWorkspaceModel>,
) -> RouteDecisionModel {
    RouteDecisionModel {
        kind: SupervisorRouteKind::WorkspaceDelegate,
        reason,
        workspace_id: Some(workspace_id),
        local_tool: None,
        model,
        used_dedicated_workspace,
        fallback_message,
        clarification: None,
        options: Seq::empty(),
        candidates,
    }
}

/// A decision to ask the operator.
pub open spec fn clarification_route(
    reason: Seq<char>,
    clarification: Seq<char>,
    options: Seq<Seq<char>>,
    candidates: Seq<RouteWorkspaceModel>,
    fallback_message: Option<Seq<char>>,
) -> RouteDecisionModel {
    RouteDecisionModel {
        kind: SupervisorRouteKind::Clarification,
        reason,
        workspace_id: None,
        local_tool: None,
        model: None,
        used_dedicated_workspace: false,
        fallback_message,
        clarification: Some(clarification),
        options,
        candidates,
    }
}

/// A decision for a workspace.
pub fn workspace_decision(
    workspace_id: String,
    reason: String,
    model: Option<String>,
    used_dedicated_workspace: bool,
    fallback_message: Option<String>,
    candidates: Vec<SupervisorRouteWorkspaceMetadata>,
) -> (decision: SupervisorRouteDecision)
    ensures
        decision@ == workspace_route(
            workspace_id@,
            reason@,
            model.deep_view(),
            used_dedicated_workspace,
            fallback_message.deep_view(),
            candidates.deep_view(),
        ),
{
    let options: Vec<String> = Vec::new();
    assert(options.deep_view() =~= Seq::<Seq<char>>::empty());
    SupervisorRouteDecision {
        kind: SupervisorRouteKind::WorkspaceDelegate,
        reason,
        workspace_id: Some(workspace_id),
        local_tool: None,
        model,
        used_dedicated_workspace,
        fallback_message,
        clarification: None,
        options,
        candidates,
    }
}

/// A decision to ask the operator.
pub fn clarification_decision(
    reason: String,
    clarification: String,
    options: Vec<String>,
    candidates: Vec<SupervisorRouteWorkspaceMetadata>,
    fallback_message: Option<String>,
) -> (decision: SupervisorRouteDecision)
    ensures
        decision@ == clarification_route(
            reason@,
            clarification@,
            options.deep_view(),
            candidates.deep_view(),
            fallback_message.deep_view(),
        ),
{
    SupervisorRouteDecision {
        kind: SupervisorRouteKind::Clarification,
        reason,
        workspace_id: None,
        local_tool: None,
        model: None,
        used_dedicated_workspace: false,
        fallback_message,
        clarification: Some(clarification),
        options,
        candidates,
    }
}

/// The trimmed name of a model, where it is not blank.
pub open spec fn model_name(model: Seq<char>) -> Option<Seq<char>> {
    if trimmed(model).len() > 0 {
        Some(trimmed(model))
    } else {
        None
    }
}

/// The trimmed name of a model, where it is not blank.
pub fn normalize_model(model: &str) -> (name: Option<String>)
    ensures
        name.deep_view() == model_name(model@),
{
    let cut = model.trim();
    if cut.unicode_len() > 0 {
        Some(cut.to_owned())
    } else {
        None
    }
}

/// Whether `c` is an ASCII letter, an ASCII digit or an underscore.
pub open spec fn is_word_char(c: char) -> bool {
    ('a' <= c <= 'z') || ('A' <= c <= 'Z') || ('0' <= c <= '9') || c == '_'
}

/// Whether `text` begins with `phrase` and the phrase ends where a word ends.
pub open spec fn opens_with(text: Seq<char>, phrase: Seq<char>) -> bool {
    begins_with(text, phrase) && (text.len() == phrase.len() || !is_word_char(text[phrase.len() as int]))
}

/// The local tool that a lower-case prompt asks for, if any: the prompt,
/// without white space and punctuation at its ends, opens with one of the
/// tool's phrases.
pub open spec fn local_tool_of(prompt_lower: Seq<char>) -> Option<SupervisorLocalTool> {
    let text = stripped(prompt_lower);
    if opens_with(text, "help"@) || opens_with(text, "what can you do"@) || opens_with(
        text,
        "what are the available commands"@,
    ) {
        Some(SupervisorLocalTool::Help)
    } else if opens_with(text, "status"@) || opens_with(text, "show status"@) || opens_with(
        text,
        "supervisor status"@,
    ) || opens_with(text, "global status"@) {
        Some(SupervisorLocalTool::Status)
    } else if opens_with(text, "feed"@) || opens_with(text, "activity feed"@) || opens_with(text, "show feed"@)
        || opens_with(text, "activity"@) {
        Some(SupervisorLocalTool::Feed)
    } else {
        None
    }
}

fn word_char(c: char) -> (yes: bool)
    ensures
        yes == is_word_char(c),
{
    ('a' <= c && c <= 'z') || ('A' <= c && c <= 'Z') || ('0' <= c && c <= '9') || c == '_'
}

fn text_opens_with(text: &str, phrase: &str) -> (yes: bool)
    ensures
        yes == opens_with(text@, phrase@),
{
    if !text_starts_with(text, phrase) {
        return false;
    }
    let n = phrase.unicode_len();
    if text.unicode_len() == n {
        true
    } else {
        !word_char(text.get_char(n))
    }
}

/// The local tool that a lower-case prompt asks for, if any.
pub fn detect_local_tool(prompt_lower: &str) -> (tool: Option<SupervisorLocalTool>)
    ensures
        tool == local_tool_of(prompt_lower@),
{
    let text = strip_edges(prompt_lower);
    if text_opens_with(text, "help") || text_opens_with(text, "what can you do") || text_opens_with(
        text,
        "what are the available commands",
    ) {
        Some(SupervisorLocalTool::Help)
    } else if text_opens_with(text, "status") || text_opens_with(text, "show status") || text_opens_with(
        text,
        "supervisor status",
    ) || text_opens_with(text, "global status") {
        Some(SupervisorLocalTool::Status)
    } else if text_opens_with(text, "feed") || text_opens_with(text, "activity feed") || text_opens_with(
        text,
        "show feed",
    ) || text_opens_with(text, "activity") {
        Some(SupervisorLocalTool::Feed)
    } else {
        None
    }
}

/// Whether one of the words, of three characters or more, occurs in the prompt.
pub open spec fn some_word_occurs(words: Seq<Seq<char>>, prompt_lower: Seq<char>) -> bool {
    exists|i: int| 0 <= i < words.len() && (#[trigger] words[i]).len() >= 3 && occurs_in(words[i], prompt_lower)
}

/// Whether a lower-case prompt mentions a workspace: its id, a word of its
/// name, the last component of its path, or its branch occurs in the prompt.
pub open spec fn mentions_workspace(prompt_lower: Seq<char>, workspace: RouteWorkspaceModel) -> bool {
    ||| occurs_in(lowercase(workspace.workspace_id), prompt_lower)
    ||| some_word_occurs(words_of(lowercase(trimmed(workspace.name))), prompt_lower)
    ||| match basename_of(workspace.path) {
        Some(name) => lowercase(name).len() > 0 && occurs_in(lowercase(name), prompt_lower),
        None => false,
    }
    ||| match workspace.branch {
        Some(branch) => trimmed(branch).len() > 0 && occurs_in(lowercase(trimmed(branch)), prompt_lower),
        None => false,
    }
}

/// Whether a lower-case prompt mentions a workspace.
#[verifier::loop_isolation(false)]
pub fn prompt_mentions_workspace(prompt_lower: &str, workspace: &SupervisorRouteWorkspaceMetadata) -> (mentioned: bool)
    ensures
        mentioned == mentions_workspace(prompt_lower@, workspace@),
{
    let id = workspace.workspace_id.as_str().to_lowercase();
    if text_contains(prompt_lower, id.as_str()) {
        return true;
    }
    let name = workspace.name.as_str().trim().to_lowercase();
    let words = split_words(name.as_str());
    let mut i: usize = 0;
    while i < words.len()
        invariant
            i <= words.len(),
            forall|j: int|
                0 <= j < i ==> !((#[trigger] words.deep_view()[j]).len() >= 3 && occurs_in(
                    words.deep_view()[j],
                    prompt_lower@,
                )),
        decreases words.len() - i,
    {
        if words[i].as_str().unicode_len() >= 3 && text_contains(prompt_lower, words[i].as_str()) {
            assert(words.deep_view()[i as int].len() >= 3 && occurs_in(words.deep_view()[i as int], prompt_lower@));
            return true;
        }
        i += 1;
    }
    assert(!some_word_occurs(words.deep_view(), prompt_lower@));
    match path_basename(workspace.path.as_str()) {
        Some(base) => {
            let lower = base.as_str().to_lowercase();
            if lower.as_str().unicode_len() > 0 && text_contains(prompt_lower, lower.as_str()) {
                return true;
            }
        },
        None => {},
    }
    match &workspace.branch {
        Some(branch) => {
            let cut = branch.as_str().trim();
            if cut.unicode_len() > 0 {
                let lower = cut.to_lowercase();
                text_contains(prompt_lower, lower.as_str())
            } else {
                false
            }
        },
        None => false,
    }
}

/// What the candidates are ordered by: their ids.
pub open spec fn id_ranks(workspaces: Seq<RouteWorkspaceModel>) -> Seq<RankKeyModel> {
    Seq::new(workspaces.len(), |i: int| RankKeyModel { major: 0, minor: 0, label: workspaces[i].workspace_id })
}

/// The workspaces by id; equal ids keep their order.
pub open spec fn sorted_candidates(workspaces: Seq<RouteWorkspaceModel>) -> Seq<RouteWorkspaceModel> {
    let order = ranking(id_ranks(workspaces));
    Seq::new(order.len(), |i: int| workspaces[order[i] as int])
}

/// The workspaces by id.
pub fn sort_candidates(workspaces: &Vec<SupervisorRouteWorkspaceMetadata>) -> (candidates: Vec<
    SupervisorRouteWorkspaceMetadata,
>)
    ensures
        candidates.deep_view() == sorted_candidates(workspaces.deep_view()),
{
    let mut keys: Vec<RankKey> = Vec::new();
    let mut i: usize = 0;
    while i < workspaces.len()
        invariant
            i <= workspaces.len(),
            keys@.len() == i,
            forall|j: int|
                0 <= j < i ==> (#[trigger] keys@[j])@ == (RankKeyModel {
                    major: 0,
                    minor: 0,
                    label: workspaces@[j].workspace_id@,
                }),
        decreases workspaces.len() - i,
    {
        keys.push(RankKey { major: 0, minor: 0, label: workspaces[i].workspace_id.clone() });
        i += 1;
    }
    assert(keys.deep_view() =~= id_ranks(workspaces.deep_view()));
    let order = rank_order(&keys);
    let mut candidates: Vec<SupervisorRouteWorkspaceMetadata> = Vec::new();
    let mut k: usize = 0;
    while k < order.len()
        invariant
            k <= order.len(),
            order@.len() == workspaces@.len(),
            forall|n: int| 0 <= n < order@.len() ==> (#[trigger] order@[n]) < workspaces@.len(),
            candidates@.len() == k,
            forall|n: int| 0 <= n < k ==> (#[trigger] candidates@[n])@ == workspaces@[order@[n] as int]@,
        decreases order.len() - k,
    {
        candidates.push(workspaces[order[k]].clone());
        k += 1;
    }
    assert(candidates.deep_view() =~= sorted_candidates(workspaces.deep_view()));
    candidates
}

/// Whether a workspace can take a delegated message.
pub open spec fn can_take(workspace: RouteWorkspaceModel) -> bool {
    workspace.connected && workspace.available && workspace.health != SupervisorHealth::Disconnected
}

/// The test that picks the workspaces that can take a delegated message.
pub open spec fn taker() -> spec_fn(RouteWorkspaceModel) -> bool {
    |w: RouteWorkspaceModel| can_take(w)
}

/// The smaller of two numbers.
pub open spec fn smaller(a: int, b: int) -> int {
    if a < b {
        a
    } else {
        b
    }
}

/// The score of a workspace for a prompt.
pub open spec fn score_of(prompt_lower: Seq<char>, workspace: RouteWorkspaceModel) -> int {
    (match workspace.health {
        SupervisorHealth::Healthy => 30int,
        SupervisorHealth::Stale => 18int,
        SupervisorHealth::Disconnected => -100int,
    }) + (if workspace.available {
        15int
    } else {
        -100int
    }) + (if workspace.connected {
        10int
    } else {
        -100int
    }) + smaller(workspace.capabilities.len() as int, 6) + (if mentions_workspace(prompt_lower, workspace) {
        70int
    } else {
        0int
    })
}

/// What the scored workspaces are ordered by: the higher score, then the smaller id.
pub open spec fn score_ranks(prompt_lower: Seq<char>, workspaces: Seq<RouteWorkspaceModel>) -> Seq<RankKeyModel> {
    Seq::new(
        workspaces.len(),
        |i: int|
            RankKeyModel {
                major: score_of(prompt_lower, workspaces[i]) as i64,
                minor: 0,
                label: workspaces[i].workspace_id,
            },
    )
}

/// The ids of the first four workspaces in the given order.
pub open spec fn first_options(workspaces: Seq<RouteWorkspaceModel>, order: Seq<usize>) -> Seq<Seq<char>> {
    Seq::new(smaller(order.len() as int, 4) as nat, |i: int| workspaces[order[i] as int].workspace_id)
}

/// The decision among the workspaces that can take the message: none where
/// there is no workspace; a question where the two best have the same score
/// and neither is mentioned, or the best scores under 25; the best otherwise.
pub open spec fn standard_route(
    prompt_lower: Seq<char>,
    available: Seq<RouteWorkspaceModel>,
    candidates: Seq<RouteWorkspaceModel>,
    fallback_message: Option<Seq<char>>,
) -> RouteDecisionModel {
    let order = ranking(score_ranks(prompt_lower, available));
    if available.len() == 0 {
        clarification_route(
            "No workspace candidates are available for routing."@,
            "Connect a workspace or use `/dispatch --ws ...`."@,
            Seq::empty(),
            candidates,
            fallback_message,
        )
    } else {
        let best = available[order[0] as int];
        let ambiguous = available.len() > 1 && score_of(prompt_lower, available[order[1] as int]) == score_of(
            prompt_lower,
            best,
        ) && !mentions_workspace(prompt_lower, best) && !mentions_workspace(prompt_lower, available[order[1] as int]);
        if ambiguous || score_of(prompt_lower, best) < 25 {
            clarification_route(
                "Workspace route is ambiguous."@,
                "Specify target workspace in chat (for example: `workspace ws-1 ...`) or use `/dispatch --ws ...`."@,
                first_options(available, order),
                candidates,
                fallback_message,
            )
        } else {
            workspace_route(
                best.workspace_id,
                if mentions_workspace(prompt_lower, best) {
                    "Prompt explicitly matched workspace metadata; selected `"@ + best.workspace_id + "`."@
                } else {
                    "Selected `"@ + best.workspace_id + "` as the highest-ranked available workspace (score "@
                        + integer_text(score_of(prompt_lower, best)) + ")."@
                },
                None,
                false,
                fallback_message,
                candidates,
            )
        }
    }
}

/// The score of a workspace for a prompt, and whether the prompt mentions it.
pub fn score_workspace(prompt_lower: &str, workspace: &SupervisorRouteWorkspaceMetadata) -> (scored: (i32, bool))
    ensures
        scored.0 == score_of(prompt_lower@, workspace@),
        scored.1 == mentions_workspace(prompt_lower@, workspace@),
{
    let explicit = prompt_mentions_workspace(prompt_lower, workspace);
    let mut score: i32 = match workspace.health {
        SupervisorHealth::Healthy => 30,
        SupervisorHealth::Stale => 18,
        SupervisorHealth::Disconnected => -100,
    };
    score = score + if workspace.available {
        15
    } else {
        -100
    };
    score = score + if workspace.connected {
        10
    } else {
        -100
    };
    let capabilities = workspace.capabilities.len();
    score = score + if capabilities < 6 {
        capabilities as i32
    } else {
        6
    };
    if explicit {
        score = score + 70;
    }
    (score, explicit)
}

/// The decision among the workspaces that can take the message.
pub fn select_standard_workspace_route(
    prompt_lower: &str,
    available: &Vec<SupervisorRouteWorkspaceMetadata>,
    candidates: Vec<SupervisorRouteWorkspaceMetadata>,
    fallback_message: Option<String>,
) -> (decision: SupervisorRouteDecision)
    ensures
        decision@ == standard_route(
            prompt_lower@,
            available.deep_view(),
            candidates.deep_view(),
            fallback_message.deep_view(),
        ),
{
    let ghost models = available.deep_view();
    let mut keys: Vec<RankKey> = Vec::new();
    let mut scores: Vec<i32> = Vec::new();
    let mut explicit: Vec<bool> = Vec::new();
    let mut i: usize = 0;
    while i < available.len()
        invariant
            i <= available.len(),
            models == available.deep_view(),
            keys@.len() == i,
            scores@.len() == i,
            explicit@.len() == i,
            forall|j: int|
                0 <= j < i ==> (#[trigger] keys@[j])@ == (RankKeyModel {
                    major: score_of(prompt_lower@, models[j]) as i64,
                    minor: 0,
                    label: models[j].workspace_id,
                }),
            forall|j: int| 0 <= j < i ==> (#[trigger] scores@[j]) == score_of(prompt_lower@, models[j]),
            forall|j: int| 0 <= j < i ==> (#[trigger] explicit@[j]) == mentions_workspace(prompt_lower@, models[j]),
        decreases available.len() - i,
    {
        let (score, mentioned) = score_workspace(prompt_lower, &available[i]);
        keys.push(RankKey { major: score as i64, minor: 0, label: available[i].workspace_id.clone() });
        scores.push(score);
        explicit.push(mentioned);
        i += 1;
    }
    assert(keys.deep_view() =~= score_ranks(prompt_lower@, models));
    if available.len() == 0 {
        let none: Vec<String> = Vec::new();
        assert(none.deep_view() =~= Seq::<Seq<char>>::empty());
        return clarification_decision(
            "No workspace candidates are available for routing.".to_owned(),
            "Connect a workspace or use `/dispatch --ws ...`.".to_owned(),
            none,
            candidates,
            fallback_message,
        );
    }
    let order = rank_order(&keys);
    let best = order[0];
    let ambiguous = available.len() > 1 && scores[order[1]] == scores[best] && !explicit[best] && !explicit[order[1]];
    if ambiguous || scores[best] < 25 {
        let mut options: Vec<String> = Vec::new();
        let mut k: usize = 0;
        while k < order.len() && k < 4
            invariant
                k <= order.len(),
                k <= 4,
                models == available.deep_view(),
                order@.len() == available@.len(),
                forall|n: int| 0 <= n < order@.len() ==> (#[trigger] order@[n]) < available@.len(),
                options@.len() == k,
                forall|n: int| 0 <= n < k ==> (#[trigger] options@[n])@ == models[order@[n] as int].workspace_id,
            decreases order.len() - k,
        {
            options.push(available[order[k]].workspace_id.clone());
            k += 1;
        }
        assert(options.deep_view() =~= first_options(models, order@));
        return clarification_decision(
            "Workspace route is ambiguous.".to_owned(),
            "Specify target workspace in chat (for example: `workspace ws-1 ...`) or use `/dispatch --ws ...`.".to_owned(),
            options,
            candidates,
            fallback_message,
        );
    }
    let chosen = &available[best];
    let reason = if explicit[best] {
        let mut text = "Prompt explicitly matched workspace metadata; selected `".to_owned();
        text.append(chosen.workspace_id.as_str());
        text.append("`.");
        text
    } else {
        let mut text = "Selected `".to_owned();
        text.append(chosen.workspace_id.as_str());
        text.append("` as the highest-ranked available workspace (score ");
        text.append(decimal(scores[best] as i128).as_str());
        text.append(").");
        text
    };
    workspace_decision(chosen.workspace_id.clone(), reason, None, false, fallback_message, candidates)
}

/// The place of the first workspace with the given id.
pub open spec fn place_of(workspaces: Seq<RouteWorkspaceModel>, workspace_id: Seq<char>) -> Option<int>
    decreases workspaces.len(),
{
    if workspaces.len() == 0 {
        None
    } else {
        match place_of(workspaces.drop_last(), workspace_id) {
            Some(i) => Some(i),
            None => if workspaces.last().workspace_id == workspace_id {
                Some(workspaces.len() - 1)
            } else {
                None
            },
        }
    }
}

/// The route of a free-form prompt: a local tool where the prompt asks for
/// one; a question where no workspace can take it; the dedicated workspace
/// where that mode is on; the standard decision otherwise.
pub open spec fn route_of(prompt: Seq<char>, workspaces: Seq<RouteWorkspaceModel>, settings: SettingsModel) -> RouteDecisionModel {
    let prompt_lower = lowercase(trimmed(prompt));
    let candidates = sorted_candidates(workspaces);
    let available = candidates.filter(taker());
    if local_tool_of(prompt_lower) is Some {
        RouteDecisionModel {
            kind: SupervisorRouteKind::LocalTool,
            reason: "Prompt matched Supervisor local-tool intent."@,
            workspace_id: None,
            local_tool: local_tool_of(prompt_lower),
            model: None,
            used_dedicated_workspace: false,
            fallback_message: None,
            clarification: None,
            options: Seq::empty(),
            candidates,
        }
    } else if available.len() == 0 {
        clarification_route(
            "No connected workspace is currently available for delegation."@,
            "Connect a workspace or explicitly route with `/dispatch --ws ...`."@,
            Seq::empty(),
            candidates,
            None,
        )
    } else if settings.supervisor_dedicated_workspace_enabled {
        match crate::dispatch::present(settings.supervisor_dedicated_workspace_id) {
            Some(dedicated) => match place_of(available, dedicated) {
                Some(i) => workspace_route(
                    available[i].workspace_id,
                    "Dedicated Supervisor workspace mode is enabled; routed to `"@ + available[i].workspace_id
                        + "`."@,
                    model_name(settings.supervisor_fast_model),
                    true,
                    None,
                    candidates,
                ),
                None => standard_route(
                    prompt_lower,
                    available,
                    candidates,
                    Some(
                        "Dedicated workspace `"@ + dedicated + "` is unavailable; using standard routing fallback."@,
                    ),
                ),
            },
            None => workspace_route(
                available[0].workspace_id,
                "Dedicated Supervisor workspace mode is enabled; auto-selected `"@ + available[0].workspace_id
                    + "` as the current dedicated target."@,
                model_name(settings.supervisor_fast_model),
                true,
                None,
                candidates,
            ),
        }
    } else {
        standard_route(prompt_lower, available, candidates, None)
    }
}

fn find_workspace(workspaces: &Vec<SupervisorRouteWorkspaceMetadata>, workspace_id: &str) -> (place: Option<usize>)
    ensures
        match place {
            Some(i) => place_of(workspaces.deep_view(), workspace_id@) == Some(i as int) && i < workspaces@.len(),
            None => place_of(workspaces.deep_view(), workspace_id@) is None,
        },
{
    let ghost models = workspaces.deep_view();
    let mut i: usize = 0;
    assert(models.take(0) =~= Seq::<RouteWorkspaceModel>::empty());
    while i < workspaces.len()
        invariant
            i <= workspaces.len(),
            models == workspaces.deep_view(),
            place_of(models.take(i as int), workspace_id@) is None,
        decreases workspaces.len() - i,
    {
        proof {
            assert(models.take(i + 1).drop_last() =~= models.take(i as int));
            assert(models.take(i + 1).last() == models[i as int]);
        }
        if text_eq(workspaces[i].workspace_id.as_str(), workspace_id) {
            proof {
                lemma_place_stays(models, workspace_id@, i + 1);
            }
            return Some(i);
        }
        i += 1;
    }
    assert(models.take(i as int) =~= models);
    None
}

/// A place found among the first `n` workspaces is the place among all.
pub proof fn lemma_place_stays(workspaces: Seq<RouteWorkspaceModel>, workspace_id: Seq<char>, n: int)
    requires
        0 <= n <= workspaces.len(),
        place_of(workspaces.take(n), workspace_id) is Some,
    ensures
        place_of(workspaces, workspace_id) == place_of(workspaces.take(n), workspace_id),
    decreases workspaces.len() - n,
{
    if n < workspaces.len() {
        assert(workspaces.take(n + 1).drop_last() =~= workspaces.take(n));
        lemma_place_stays(workspaces, workspace_id, n + 1);
    } else {
        assert(workspaces.take(n) =~= workspaces);
    }
}

/// The route of a free-form prompt.
pub fn select_supervisor_route(
    prompt: &str,
    workspaces: &Vec<SupervisorRouteWorkspaceMetadata>,
    settings: &AppSettings,
) -> (decision: SupervisorRouteDecision)
    ensures
        decision@ == route_of(prompt@, workspaces.deep_view(), settings@),
{
    let prompt_lower = prompt.trim().to_lowercase();
    let sorted = sort_candidates(workspaces);
    match detect_local_tool(prompt_lower.as_str()) {
        Some(tool) => {
            let options: Vec<String> = Vec::new();
            assert(options.deep_view() =~= Seq::<Seq<char>>::empty());
            return SupervisorRouteDecision {
                kind: SupervisorRouteKind::LocalTool,
                reason: "Prompt matched Supervisor local-tool intent.".to_owned(),
                workspace_id: None,
                local_tool: Some(tool),
                model: None,
                used_dedicated_workspace: false,
                fallback_message: None,
                clarification: None,
                options,
                candidates: sorted,
            };
        },
        None => {},
    }
    let ghost models = sorted.deep_view();
    let ghost test = taker();
    let mut available: Vec<SupervisorRouteWorkspaceMetadata> = Vec::new();
    let mut i: usize = 0;
    assert(models.take(0) =~= Seq::<RouteWorkspaceModel>::empty());
    assert(models.take(0).filter(test) =~= Seq::<RouteWorkspaceModel>::empty()) by {
        reveal(Seq::filter);
    }
    assert(available.deep_view() =~= models.take(0).filter(test));
    while i < sorted.len()
        invariant
            i <= sorted.len(),
            models == sorted.deep_view(),
            test == taker(),
            available.deep_view() == models.take(i as int).filter(test),
        decreases sorted.len() - i,
    {
        let ghost before = available.deep_view();
        proof {
            assert(models.take(i + 1) =~= models.take(i as int).push(models[i as int]));
            models.take(i as int).lemma_filter_push(models[i as int], test);
            assert(test(models[i as int]) == can_take(models[i as int]));
        }
        let w = &sorted[i];
        let takes = w.connected && w.available && match w.health {
            SupervisorHealth::Disconnected => false,
            _ => true,
        };
        if takes {
            available.push(w.clone());
            assert(available.deep_view() =~= before.push(models[i as int]));
        }
        i += 1;
    }
    assert(models.take(i as int) =~= models);
    if available.len() == 0 {
        let none: Vec<String> = Vec::new();
        assert(none.deep_view() =~= Seq::<Seq<char>>::empty());
        return clarification_decision(
            "No connected workspace is currently available for delegation.".to_owned(),
            "Connect a workspace or explicitly route with `/dispatch --ws ...`.".to_owned(),
            none,
            sorted,
            None,
        );
    }
    if settings.supervisor_dedicated_workspace_enabled {
        let dedicated_model = normalize_model(settings.supervisor_fast_model.as_str());
        let wanted = match &settings.supervisor_dedicated_workspace_id {
            Some(id) => {
                let cut = id.as_str().trim();
                if cut.unicode_len() > 0 {
                    Some(cut)
                } else {
                    None
                }
            },
            None => None,
        };
        match wanted {
            Some(dedicated) => {
                match find_workspace(&available, dedicated) {
                    Some(place) => {
                        let id = available[place].workspace_id.clone();
                        let mut reason = "Dedicated Supervisor workspace mode is enabled; routed to `".to_owned();
                        reason.append(id.as_str());
                        reason.append("`.");
                        return workspace_decision(id, reason, dedicated_model, true, None, sorted);
                    },
                    None => {
                        let mut note = "Dedicated workspace `".to_owned();
                        note.append(dedicated);
                        note.append("` is unavailable; using standard routing fallback.");
                        return select_standard_workspace_route(
                            prompt_lower.as_str(),
                            &available,
                            sorted,
                            Some(note),
                        );
                    },
                }
            },
            None => {
                let id = available[0].workspace_id.clone();
                let mut reason = "Dedicated Supervisor workspace mode is enabled; auto-selected `".to_owned();
                reason.append(id.as_str());
                reason.append("` as the current dedicated target.");
                return workspace_decision(id, reason, dedicated_model, true, None, sorted);
            },
        }
    }
    select_standard_workspace_route(prompt_lower.as_str(), &available, sorted, None)
}

/// The name of a route kind in messages.
pub fn route_kind_label(kind: &SupervisorRouteKind) -> (label: &'static str)
    ensures
        label@ == route_kind_name(*kind),
{
    match kind {
        SupervisorRouteKind::WorkspaceDelegate => "workspace_delegate",
        SupervisorRouteKind::LocalTool => "local_tool",
        SupervisorRouteKind::Clarification => "clarification",
    }
}

/// The name of a route kind in messages.
pub open spec fn route_kind_name(kind: SupervisorRouteKind) -> Seq<char> {
    match kind {
        SupervisorRouteKind::WorkspaceDelegate => "workspace_delegate"@,
        SupervisorRouteKind::LocalTool => "local_tool"@,
        SupervisorRouteKind::Clarification => "clarification"@,
    }
}

} // verus!
