use vstd::prelude::*;
use vstd::string::*;

use crate::dispatch::{is_access_mode, normalize_access_mode, normalize_optional, present, ActionModel, SupervisorDispatchAction};
use crate::json::{JsonModel, JsonValue};
use crate::json_ops::{items_view, json_member, json_parsed, members_view, outside_error_text, outside_parse};
use crate::text::{result_model, text_eq, trimmed};

verus! {

/// The version of the contracts that the supervisor takes.
pub const SUPERVISOR_ACTION_CONTRACT_VERSION: &'static str = "supervisor.dispatch.v1";

/// A turn to dispatch, as a contract states it.
#[derive(Debug, PartialEq, Eq)]
pub struct SupervisorDispatchTurnAction {
    pub action_id: String,
    pub workspace_id: String,
    pub prompt: String,
    pub thread_id: Option<String>,
    pub dedupe_key: Option<String>,
    pub model: Option<String>,
    pub effort: Option<String>,
    pub access_mode: Option<String>,
    pub route_kind: Option<String>,
    pub route_reason: Option<String>,
    pub route_fallback: Option<String>,
}

/// Mathematical model of [`SupervisorDispatchTurnAction`].
pub struct TurnActionModel {
    pub action_id: Seq<char>,
    pub workspace_id: Seq<char>,
    pub prompt: Seq<char>,
    pub thread_id: Option<Seq<char>>,
    pub dedupe_key: Option<Seq<char>>,
    pub model: Option<Seq<char>>,
    pub effort: Option<Seq<char>>,
    pub access_mode: Option<Seq<char>>,
    pub route_kind: Option<Seq<char>>,
    pub route_reason: Option<Seq<char>>,
    pub route_fallback: Option<Seq<char>>,
}

impl View for SupervisorDispatchTurnAction {
    type V = TurnActionModel;

    open spec fn view(&self) -> TurnActionModel {
        TurnActionModel {
            action_id: self.action_id@,
            workspace_id: self.workspace_id@,
            prompt: self.prompt@,
            thread_id: self.thread_id.deep_view(),
            dedupe_key: self.dedupe_key.deep_view(),
            model: self.model.deep_view(),
            effort: self.effort.deep_view(),
            access_mode: self.access_mode.deep_view(),
            route_kind: self.route_kind.deep_view(),
            route_reason: self.route_reason.deep_view(),
            route_fallback: self.route_fallback.deep_view(),
        }
    }
}

impl DeepView for SupervisorDispatchTurnAction {
    type V = TurnActionModel;

    open spec fn deep_view(&self) -> TurnActionModel {
        self@
    }
}

impl Clone for SupervisorDispatchTurnAction {
    fn clone(&self) -> (copy: Self)
        ensures
            copy@ == self@,
    {
        let copy = SupervisorDispatchTurnAction {
            action_id: self.action_id.clone(),
            workspace_id: self.workspace_id.clone(),
            prompt: self.prompt.clone(),
            thread_id: self.thread_id.clone(),
            dedupe_key: self.dedupe_key.clone(),
            model: self.model.clone(),
            effort: self.effort.clone(),
            access_mode: self.access_mode.clone(),
            route_kind: self.route_kind.clone(),
            route_reason: self.route_reason.clone(),
            route_fallback: self.route_fallback.clone(),
        };
        proof {
            assert(copy.thread_id.deep_view() =~= self.thread_id.deep_view());
            assert(copy.dedupe_key.deep_view() =~= self.dedupe_key.deep_view());
            assert(copy.model.deep_view() =~= self.model.deep_view());
            assert(copy.effort.deep_view() =~= self.effort.deep_view());
            assert(copy.access_mode.deep_view() =~= self.access_mode.deep_view());
            assert(copy.route_kind.deep_view() =~= self.route_kind.deep_view());
            assert(copy.route_reason.deep_view() =~= self.route_reason.deep_view());
            assert(copy.route_fallback.deep_view() =~= self.route_fallback.deep_view());
        }
        copy
    }
}

/// An action of a contract.
#[derive(Debug, PartialEq, Eq)]
pub enum SupervisorPlannerAction {
    DispatchTurn(SupervisorDispatchTurnAction),
}

/// Mathematical model of [`SupervisorPlannerAction`].
pub enum PlannerActionModel {
    DispatchTurn(TurnActionModel),
}

impl View for SupervisorPlannerAction {
    type V = PlannerActionModel;

    open spec fn view(&self) -> PlannerActionModel {
        match self {
            SupervisorPlannerAction::DispatchTurn(action) => PlannerActionModel::DispatchTurn(action@),
        }
    }
}

impl DeepView for SupervisorPlannerAction {
    type V = PlannerActionModel;

    open spec fn deep_view(&self) -> PlannerActionModel {
        self@
    }
}

impl Clone for SupervisorPlannerAction {
    fn clone(&self) -> (copy: Self)
        ensures
            copy@ == self@,
    {
        match self {
            SupervisorPlannerAction::DispatchTurn(action) => SupervisorPlannerAction::DispatchTurn(action.clone()),
        }
    }
}

/// A list of actions under a version.
#[derive(Debug, PartialEq, Eq)]
pub struct SupervisorActionContract {
    pub version: String,
    pub actions: Vec<SupervisorPlannerAction>,
}

/// Mathematical model of [`SupervisorActionContract`].
pub struct ContractModel {
    pub version: Seq<char>,
    pub actions: Seq<PlannerActionModel>,
}

impl View for SupervisorActionContract {
    type V = ContractModel;

    open spec fn view(&self) -> ContractModel {
        ContractModel {
            version: self.version@,
            actions: self.actions.deep_view(),
        }
    }
}

impl DeepView for SupervisorActionContract {
    type V = ContractModel;

    open spec fn deep_view(&self) -> ContractModel {
        self@
    }
}

impl Clone for SupervisorActionContract {
    fn clone(&self) -> (copy: Self)
        ensures
            copy@ == self@,
    {
        let copy = SupervisorActionContract {
            version: self.version.clone(),
            actions: self.actions.clone(),
        };
        proof {
            assert(copy.actions.deep_view() =~= self.actions.deep_view());
        }
        copy
    }
}

/// A contract whose actions were checked and put in normal form.
#[derive(Debug, PartialEq, Eq)]
pub struct ValidatedSupervisorActionContract {
    pub version: String,
    pub dispatch_actions: Vec<SupervisorDispatchAction>,
}

/// Mathematical model of [`ValidatedSupervisorActionContract`].
pub struct ValidatedModel {
    pub version: Seq<char>,
    pub dispatch_actions: Seq<ActionModel>,
}

impl View for ValidatedSupervisorActionContract {
    type V = ValidatedModel;

    open spec fn view(&self) -> ValidatedModel {
        ValidatedModel {
            version: self.version@,
            dispatch_actions: self.dispatch_actions.deep_view(),
        }
    }
}

impl DeepView for ValidatedSupervisorActionContract {
    type V = ValidatedModel;

    open spec fn deep_view(&self) -> ValidatedModel {
        self@
    }
}

impl Clone for ValidatedSupervisorActionContract {
    fn clone(&self) -> (copy: Self)
        ensures
            copy@ == self@,
    {
        let copy = ValidatedSupervisorActionContract {
            version: self.version.clone(),
            dispatch_actions: self.dispatch_actions.clone(),
        };
        proof {
            assert(copy.dispatch_actions.deep_view() =~= self.dispatch_actions.deep_view());
        }
        copy
    }
}

/// The trimmed text, refused where it is blank.
pub open spec fn required(field_name: Seq<char>, value: Seq<char>) -> Result<Seq<char>, Seq<char>> {
    if trimmed(value).len() == 0 {
        Err(field_name + " is required"@)
    } else {
        Ok(trimmed(value))
    }
}

/// The trimmed text, refused where it is blank.
pub fn normalize_required(field_name: &str, value: String) -> (normal: Result<String, String>)
    ensures
        result_model(normal) == required(field_name@, value@),
{
    let cut = value.as_str().trim();
    if cut.unicode_len() == 0 {
        let mut reason = field_name.to_owned();
        reason.append(" is required");
        return Err(reason);
    }
    Ok(cut.to_owned())
}

/// The action of a contract in normal form, or why it has none.
pub open spec fn normalized_turn_action(action: TurnActionModel) -> Result<ActionModel, Seq<char>> {
    match required("action_id"@, action.action_id) {
        Err(reason) => Err(reason),
        Ok(action_id) => match required("workspace_id"@, action.workspace_id) {
            Err(reason) => Err(reason),
            Ok(workspace_id) => match required("prompt"@, action.prompt) {
                Err(reason) => Err(reason),
                Ok(prompt) => if present(action.access_mode) is Some && !is_access_mode(present(action.access_mode)->0) {
                    Err("access_mode must be one of `read-only`, `current`, or `full-access`"@)
                } else {
                    Ok(
                        ActionModel {
                            action_id,
                            workspace_id,
                            thread_id: present(action.thread_id),
                            prompt,
                            dedupe_key: present(action.dedupe_key),
                            model: present(action.model),
                            effort: present(action.effort),
                            access_mode: present(action.access_mode),
                            route_kind: present(action.route_kind),
                            route_reason: present(action.route_reason),
                            route_fallback: present(action.route_fallback),
                        },
                    )
                },
            },
        },
    }
}

/// The action of a contract in normal form, or why it has none.
pub fn normalize_dispatch_turn_action(action: SupervisorDispatchTurnAction) -> (normal: Result<
    SupervisorDispatchAction,
    String,
>)
    ensures
        result_model(normal) == normalized_turn_action(action@),
{
    let action_id = match normalize_required("action_id", action.action_id) {
        Ok(value) => value,
        Err(reason) => {
            return Err(reason);
        },
    };
    let workspace_id = match normalize_required("workspace_id", action.workspace_id) {
        Ok(value) => value,
        Err(reason) => {
            return Err(reason);
        },
    };
    let prompt = match normalize_required("prompt", action.prompt) {
        Ok(value) => value,
        Err(reason) => {
            return Err(reason);
        },
    };
    let access_mode = match normalize_access_mode(action.access_mode) {
        Ok(mode) => mode,
        Err(reason) => {
            return Err(reason);
        },
    };
    Ok(
        SupervisorDispatchAction {
            action_id,
            workspace_id,
            thread_id: normalize_optional(action.thread_id),
            prompt,
            dedupe_key: normalize_optional(action.dedupe_key),
            model: normalize_optional(action.model),
            effort: normalize_optional(action.effort),
            access_mode,
            route_kind: normalize_optional(action.route_kind),
            route_reason: normalize_optional(action.route_reason),
            route_fallback: normalize_optional(action.route_fallback),
        },
    )
}

/// The dedupe token of an action in normal form: its dedupe key where that
/// is not blank, its action id otherwise.
pub open spec fn dedupe_token_of(action: ActionModel) -> Seq<char> {
    match present(action.dedupe_key) {
        Some(token) => token,
        None => action.action_id,
    }
}

/// Whether one of the actions has the action id.
pub open spec fn has_action_id(actions: Seq<ActionModel>, action_id: Seq<char>) -> bool {
    exists|i: int| 0 <= i < actions.len() && (#[trigger] actions[i]).action_id == action_id
}

/// Whether one of the actions has the dedupe token in the workspace.
pub open spec fn has_dedupe_token(actions: Seq<ActionModel>, workspace_id: Seq<char>, token: Seq<char>) -> bool {
    exists|i: int|
        0 <= i < actions.len() && (#[trigger] actions[i]).workspace_id == workspace_id && dedupe_token_of(actions[i])
            == token
}

/// The turn that an action of a contract dispatches.
pub open spec fn turn_of(action: PlannerActionModel) -> TurnActionModel {
    match action {
        PlannerActionModel::DispatchTurn(turn) => turn,
    }
}

/// The actions of a contract in normal form, or the first fault: an action
/// without normal form, an action id that came before, or a dedupe token
/// that came before in the same workspace.
pub open spec fn validated_actions(actions: Seq<PlannerActionModel>) -> Result<Seq<ActionModel>, Seq<char>>
    decreases actions.len(),
{
    if actions.len() == 0 {
        Ok(Seq::empty())
    } else {
        match validated_actions(actions.drop_last()) {
            Err(reason) => Err(reason),
            Ok(done) => match normalized_turn_action(turn_of(actions.last())) {
                Err(reason) => Err(reason),
                Ok(action) => if has_action_id(done, action.action_id) {
                    Err("duplicate action_id `"@ + action.action_id + "` in supervisor contract"@)
                } else if has_dedupe_token(done, action.workspace_id, dedupe_token_of(action)) {
                    Err(
                        "duplicate dedupe key `"@ + dedupe_token_of(action) + "` for workspace `"@ + action.workspace_id
                            + "`"@,
                    )
                } else {
                    Ok(done.push(action))
                },
            },
        }
    }
}

/// The checked form of a contract, or why it is refused: a version other
/// than the supported one, no actions, or a fault among the actions.
pub open spec fn validated(contract: ContractModel) -> Result<ValidatedModel, Seq<char>> {
    if trimmed(contract.version) != SUPERVISOR_ACTION_CONTRACT_VERSION@ {
        Err(
            "unsupported supervisor contract version `"@ + trimmed(contract.version) + "` (expected `"@
                + SUPERVISOR_ACTION_CONTRACT_VERSION@ + "`)"@,
        )
    } else if contract.actions.len() == 0 {
        Err("actions must contain at least one item"@)
    } else {
        match validated_actions(contract.actions) {
            Err(reason) => Err(reason),
            Ok(actions) => Ok(
                ValidatedModel { version: SUPERVISOR_ACTION_CONTRACT_VERSION@, dispatch_actions: actions },
            ),
        }
    }
}

fn token_of(action: &SupervisorDispatchAction) -> (token: String)
    ensures
        token@ == dedupe_token_of(action@),
{
    match &action.dedupe_key {
        Some(key) => {
            let cut = key.as_str().trim();
            if cut.unicode_len() > 0 {
                cut.to_owned()
            } else {
                action.action_id.clone()
            }
        },
        None => action.action_id.clone(),
    }
}

fn seen_action_id(actions: &Vec<SupervisorDispatchAction>, action_id: &str) -> (seen: bool)
    ensures
        seen == has_action_id(actions.deep_view(), action_id@),
{
    let mut i: usize = 0;
    while i < actions.len()
        invariant
            i <= actions.len(),
            forall|j: int| 0 <= j < i ==> (#[trigger] actions.deep_view()[j]).action_id != action_id@,
        decreases actions.len() - i,
    {
        if text_eq(actions[i].action_id.as_str(), action_id) {
            assert(actions.deep_view()[i as int].action_id == action_id@);
            return true;
        }
        i += 1;
    }
    false
}

fn seen_dedupe_token(actions: &Vec<SupervisorDispatchAction>, workspace_id: &str, token: &str) -> (seen: bool)
    ensures
        seen == has_dedupe_token(actions.deep_view(), workspace_id@, token@),
{
    let mut i: usize = 0;
    while i < actions.len()
        invariant
            i <= actions.len(),
            forall|j: int|
                0 <= j < i ==> !((#[trigger] actions.deep_view()[j]).workspace_id == workspace_id@ && dedupe_token_of(
                    actions.deep_view()[j],
                ) == token@),
        decreases actions.len() - i,
    {
        if text_eq(actions[i].workspace_id.as_str(), workspace_id) && text_eq(token_of(&actions[i]).as_str(), token) {
            assert(actions.deep_view()[i as int].workspace_id == workspace_id@);
            return true;
        }
        i += 1;
    }
    false
}

/// Checks a contract and puts its actions in normal form.
#[verifier::loop_isolation(false)]
pub fn validate_supervisor_action_contract(contract: SupervisorActionContract) -> (outcome: Result<
    ValidatedSupervisorActionContract,
    String,
>)
    ensures
        result_model(outcome) == validated(contract@),
{
    let ghost model = contract@;
    let version = contract.version.as_str().trim();
    if !text_eq(version, SUPERVISOR_ACTION_CONTRACT_VERSION) {
        let mut reason = "unsupported supervisor contract version `".to_owned();
        reason.append(version);
        reason.append("` (expected `");
        reason.append(SUPERVISOR_ACTION_CONTRACT_VERSION);
        reason.append("`)");
        return Err(reason);
    }
    if contract.actions.len() == 0 {
        return Err("actions must contain at least one item".to_owned());
    }
    let ghost all = contract@.actions;
    let mut dispatch_actions: Vec<SupervisorDispatchAction> = Vec::new();
    let mut rest = contract.actions;
    let ghost mut done: int = 0;
    assert(all.take(0) =~= Seq::<PlannerActionModel>::empty());
    assert(all.skip(0) =~= all);
    assert(dispatch_actions.deep_view() =~= Seq::<ActionModel>::empty());
    while rest.len() > 0
        invariant
            0 <= done <= all.len(),
            model == contract@,
            all == model.actions,
            rest.deep_view() == all.skip(done),
            validated_actions(all.take(done)) == Ok::<Seq<ActionModel>, Seq<char>>(dispatch_actions.deep_view()),
        decreases rest.len(),
    {
        let ghost before = rest.deep_view();
        let ghost accepted = dispatch_actions.deep_view();
        let action = rest.remove(0);
        proof {
            assert(rest.deep_view() =~= before.drop_first());
            assert(action@ == before[0]);
            assert(all.skip(done)[0] == all[done]);
            assert(all.take(done + 1).drop_last() =~= all.take(done));
            assert(all.take(done + 1).last() == all[done]);
            assert(all.skip(done).drop_first() =~= all.skip(done + 1));
        }
        let ghost prefix_result = validated_actions(all.take(done + 1));
        let dispatch_action = match action {
            SupervisorPlannerAction::DispatchTurn(turn) => match normalize_dispatch_turn_action(turn) {
                Ok(value) => value,
                Err(reason) => {
                    proof {
                        lemma_fault_stays(all, done + 1);
                    }
                    return Err(reason);
                },
            },
        };
        if seen_action_id(&dispatch_actions, dispatch_action.action_id.as_str()) {
            let mut reason = "duplicate action_id `".to_owned();
            reason.append(dispatch_action.action_id.as_str());
            reason.append("` in supervisor contract");
            proof {
                lemma_fault_stays(all, done + 1);
            }
            return Err(reason);
        }
        let token = token_of(&dispatch_action);
        if seen_dedupe_token(&dispatch_actions, dispatch_action.workspace_id.as_str(), token.as_str()) {
            let mut reason = "duplicate dedupe key `".to_owned();
            reason.append(token.as_str());
            reason.append("` for workspace `");
            reason.append(dispatch_action.workspace_id.as_str());
            reason.append("`");
            proof {
                lemma_fault_stays(all, done + 1);
            }
            return Err(reason);
        }
        dispatch_actions.push(dispatch_action);
        proof {
            assert(dispatch_actions.deep_view() =~= accepted.push(dispatch_action@));
            done = done + 1;
        }
    }
    assert(all.take(done) =~= all);
    Ok(
        ValidatedSupervisorActionContract {
            version: SUPERVISOR_ACTION_CONTRACT_VERSION.to_owned(),
            dispatch_actions,
        },
    )
}

/// A fault among the first `n` actions is the fault of the whole list.
pub proof fn lemma_fault_stays(actions: Seq<PlannerActionModel>, n: int)
    requires
        0 <= n <= actions.len(),
        validated_actions(actions.take(n)) is Err,
    ensures
        validated_actions(actions) == validated_actions(actions.take(n)),
    decreases actions.len() - n,
{
    if n < actions.len() {
        assert(actions.take(n + 1).drop_last() =~= actions.take(n));
        lemma_fault_stays(actions, n + 1);
    } else {
        assert(actions.take(n) =~= actions);
    }
}

/// Whether a contract may have a member of this name.
pub open spec fn is_contract_field(key: Seq<char>) -> bool {
    key == "version"@ || key == "actions"@
}

/// Whether an action may have a member of this name.
pub open spec fn is_action_field(key: Seq<char>) -> bool {
    key == "type"@ || key == "action_id"@ || key == "workspace_id"@ || key == "prompt"@ || key == "thread_id"@ || key == "dedupe_key"@ || key == "model"@ || key == "effort"@ || key == "access_mode"@ || key == "route_kind"@ || key == "route_reason"@ || key == "route_fallback"@
}

/// The first member name that is not allowed; `top` tells whether the
/// members are those of the contract or of an action.
pub open spec fn first_unknown_field(members: Seq<(Seq<char>, JsonModel)>, top: bool) -> Option<Seq<char>>
    decreases members.len(),
{
    if members.len() == 0 {
        None
    } else {
        match first_unknown_field(members.drop_last(), top) {
            Some(key) => Some(key),
            None => {
                let key = members.last().0;
                let known = if top {
                    is_contract_field(key)
                } else {
                    is_action_field(key)
                };
                if known {
                    None
                } else {
                    Some(key)
                }
            },
        }
    }
}

/// The text of a member that must be there and be a string.
pub open spec fn text_field(map: JsonModel, field: Seq<char>) -> Result<Seq<char>, Seq<char>> {
    match json_member(map, field) {
        None => Err("missing field `"@ + field + "`"@),
        Some(JsonModel::Text(text)) => Ok(text),
        Some(_) => Err("invalid type for `"@ + field + "`, expected a string"@),
    }
}

/// The text of a member that may be missing or null, and must be a string otherwise.
pub open spec fn optional_text_field(map: JsonModel, field: Seq<char>) -> Result<Option<Seq<char>>, Seq<char>> {
    match json_member(map, field) {
        None => Ok(None),
        Some(JsonModel::Null) => Ok(None),
        Some(JsonModel::Text(text)) => Ok(Some(text)),
        Some(_) => Err("invalid type for `"@ + field + "`, expected a string"@),
    }
}

/// What is wrong with the `type` of an action, if anything.
pub open spec fn type_fault(value: JsonModel) -> Option<Seq<char>> {
    match text_field(value, "type"@) {
        Err(reason) => Some(reason),
        Ok(name) => if name == "dispatch_turn"@ {
            None
        } else {
            Some("unknown variant `"@ + name + "`, expected `dispatch_turn`"@)
        },
    }
}

/// The action that a JSON value states, or the first fault: not an object,
/// a type other than `dispatch_turn`, a member that is not allowed, or a
/// member that is missing or no string.
pub open spec fn decoded_turn(value: JsonModel) -> Result<TurnActionModel, Seq<char>> {
    if !(value is Object) {
        Err("invalid type for an action, expected an object"@)
    } else if type_fault(value) is Some {
        Err(type_fault(value)->0)
    } else if first_unknown_field(value->Object_0, false) is Some {
        Err("unknown field `"@ + first_unknown_field(value->Object_0, false)->0 + "` in action"@)
    } else if text_field(value, "action_id"@) is Err {
        Err(text_field(value, "action_id"@)->Err_0)
    } else if text_field(value, "workspace_id"@) is Err {
        Err(text_field(value, "workspace_id"@)->Err_0)
    } else if text_field(value, "prompt"@) is Err {
        Err(text_field(value, "prompt"@)->Err_0)
    } else if optional_text_field(value, "thread_id"@) is Err {
        Err(optional_text_field(value, "thread_id"@)->Err_0)
    } else if optional_text_field(value, "dedupe_key"@) is Err {
        Err(optional_text_field(value, "dedupe_key"@)->Err_0)
    } else if optional_text_field(value, "model"@) is Err {
        Err(optional_text_field(value, "model"@)->Err_0)
    } else if optional_text_field(value, "effort"@) is Err {
        Err(optional_text_field(value, "effort"@)->Err_0)
    } else if optional_text_field(value, "access_mode"@) is Err {
        Err(optional_text_field(value, "access_mode"@)->Err_0)
    } else if optional_text_field(value, "route_kind"@) is Err {
        Err(optional_text_field(value, "route_kind"@)->Err_0)
    } else if optional_text_field(value, "route_reason"@) is Err {
        Err(optional_text_field(value, "route_reason"@)->Err_0)
    } else if optional_text_field(value, "route_fallback"@) is Err {
        Err(optional_text_field(value, "route_fallback"@)->Err_0)
    } else {
        Ok(
            TurnActionModel {
                action_id: text_field(value, "action_id"@)->Ok_0,
                workspace_id: text_field(value, "workspace_id"@)->Ok_0,
                prompt: text_field(value, "prompt"@)->Ok_0,
                thread_id: optional_text_field(value, "thread_id"@)->Ok_0,
                dedupe_key: optional_text_field(value, "dedupe_key"@)->Ok_0,
                model: optional_text_field(value, "model"@)->Ok_0,
                effort: optional_text_field(value, "effort"@)->Ok_0,
                access_mode: optional_text_field(value, "access_mode"@)->Ok_0,
                route_kind: optional_text_field(value, "route_kind"@)->Ok_0,
                route_reason: optional_text_field(value, "route_reason"@)->Ok_0,
                route_fallback: optional_text_field(value, "route_fallback"@)->Ok_0,
            },
        )
    }
}

/// The actions that the items of a JSON array state, or the first fault.
pub open spec fn decoded_actions(items: Seq<JsonModel>) -> Result<Seq<PlannerActionModel>, Seq<char>>
    decreases items.len(),
{
    if items.len() == 0 {
        Ok(Seq::empty())
    } else {
        match decoded_actions(items.drop_last()) {
            Err(reason) => Err(reason),
            Ok(done) => match decoded_turn(items.last()) {
                Err(reason) => Err(reason),
                Ok(turn) => Ok(done.push(PlannerActionModel::DispatchTurn(turn))),
            },
        }
    }
}

/// The contract that a JSON value states, or the first fault: not an
/// object, a member that is not allowed, a version that is missing or no
/// string, actions that are missing or no array, or a fault in an action.
pub open spec fn decoded_contract(value: JsonModel) -> Result<ContractModel, Seq<char>> {
    if !(value is Object) {
        Err("invalid type, expected an object"@)
    } else if first_unknown_field(value->Object_0, true) is Some {
        Err("unknown field `"@ + first_unknown_field(value->Object_0, true)->0 + "`, expected `version` or `actions`"@)
    } else if text_field(value, "version"@) is Err {
        Err(text_field(value, "version"@)->Err_0)
    } else {
        match json_member(value, "actions"@) {
            None => Err("missing field `actions`"@),
            Some(JsonModel::Array(items)) => match decoded_actions(items) {
                Err(reason) => Err(reason),
                Ok(actions) => Ok(ContractModel { version: text_field(value, "version"@)->Ok_0, actions }),
            },
            Some(_) => Err("invalid type for `actions`, expected an array"@),
        }
    }
}

/// The checked contract that a JSON value states, or why it is refused.
pub open spec fn parsed_contract(value: JsonModel) -> Result<ValidatedModel, Seq<char>> {
    match decoded_contract(value) {
        Err(reason) => Err("invalid supervisor action contract: "@ + reason),
        Ok(contract) => validated(contract),
    }
}

fn known_field(key: &str, top: bool) -> (known: bool)
    ensures
        known == if top {
            is_contract_field(key@)
        } else {
            is_action_field(key@)
        },
{
    if top {
        text_eq(key, "version") || text_eq(key, "actions")
    } else {
        text_eq(key, "type") || text_eq(key, "action_id") || text_eq(key, "workspace_id") || text_eq(key, "prompt") || text_eq(key, "thread_id") || text_eq(key, "dedupe_key") || text_eq(key, "model") || text_eq(key, "effort") || text_eq(key, "access_mode") || text_eq(key, "route_kind") || text_eq(key, "route_reason") || text_eq(key, "route_fallback")
    }
}

fn find_unknown_field(members: &Vec<(String, JsonValue)>, top: bool) -> (found: Option<String>)
    ensures
        found.deep_view() == first_unknown_field(members_view(members@), top),
{
    let ghost models = members_view(members@);
    let mut i: usize = 0;
    assert(models.take(0) =~= Seq::<(Seq<char>, JsonModel)>::empty());
    while i < members.len()
        invariant
            i <= members.len(),
            models == members_view(members@),
            first_unknown_field(models.take(i as int), top) is None,
        decreases members.len() - i,
    {
        proof {
            assert(models.take(i + 1).drop_last() =~= models.take(i as int));
            assert(models.take(i + 1).last() == models[i as int]);
        }
        if !known_field(members[i].0.as_str(), top) {
            proof {
                lemma_unknown_stays(models, top, i + 1);
            }
            return Some(members[i].0.clone());
        }
        i += 1;
    }
    assert(models.take(i as int) =~= models);
    None
}

/// A member that is not allowed among the first `n` is the first such of all.
pub proof fn lemma_unknown_stays(members: Seq<(Seq<char>, JsonModel)>, top: bool, n: int)
    requires
        0 <= n <= members.len(),
        first_unknown_field(members.take(n), top) is Some,
    ensures
        first_unknown_field(members, top) == first_unknown_field(members.take(n), top),
    decreases members.len() - n,
{
    if n < members.len() {
        assert(members.take(n + 1).drop_last() =~= members.take(n));
        lemma_unknown_stays(members, top, n + 1);
    } else {
        assert(members.take(n) =~= members);
    }
}

fn type_error(field: &str) -> (reason: String)
    ensures
        reason@ == "invalid type for `"@ + field@ + "`, expected a string"@,
{
    let mut reason = "invalid type for `".to_owned();
    reason.append(field);
    reason.append("`, expected a string");
    reason
}

fn read_text_field(map: &JsonValue, field: &str) -> (text: Result<String, String>)
    ensures
        result_model(text) == text_field(map@, field@),
{
    match map.get(field) {
        None => {
            let mut reason = "missing field `".to_owned();
            reason.append(field);
            reason.append("`");
            Err(reason)
        },
        Some(JsonValue::Text(text)) => Ok(text.clone()),
        Some(_) => Err(type_error(field)),
    }
}

fn read_optional_text_field(map: &JsonValue, field: &str) -> (text: Result<Option<String>, String>)
    ensures
        result_model(text) == optional_text_field(map@, field@),
{
    match map.get(field) {
        None => Ok(None),
        Some(JsonValue::Null) => Ok(None),
        Some(JsonValue::Text(text)) => Ok(Some(text.clone())),
        Some(_) => Err(type_error(field)),
    }
}

/// Reads an action from a JSON value.
pub fn decode_turn_action(value: &JsonValue) -> (turn: Result<SupervisorDispatchTurnAction, String>)
    ensures
        result_model(turn) == decoded_turn(value@),
{
    let members = match value {
        JsonValue::Object(members) => members,
        _ => {
            return Err("invalid type for an action, expected an object".to_owned());
        },
    };
    proof {
        assert(value@->Object_0 =~= members_view(members@));
    }
    match read_text_field(value, "type") {
        Err(reason) => {
            return Err(reason);
        },
        Ok(name) => {
            if !text_eq(name.as_str(), "dispatch_turn") {
                let mut reason = "unknown variant `".to_owned();
                reason.append(name.as_str());
                reason.append("`, expected `dispatch_turn`");
                return Err(reason);
            }
        },
    }
    match find_unknown_field(members, false) {
        Some(key) => {
            let mut reason = "unknown field `".to_owned();
            reason.append(key.as_str());
            reason.append("` in action");
            return Err(reason);
        },
        None => {},
    }
    let action_id = match read_text_field(value, "action_id") {
        Ok(text) => text,
        Err(reason) => {
            return Err(reason);
        },
    };
    let workspace_id = match read_text_field(value, "workspace_id") {
        Ok(text) => text,
        Err(reason) => {
            return Err(reason);
        },
    };
    let prompt = match read_text_field(value, "prompt") {
        Ok(text) => text,
        Err(reason) => {
            return Err(reason);
        },
    };
    let thread_id = match read_optional_text_field(value, "thread_id") {
        Ok(text) => text,
        Err(reason) => {
            return Err(reason);
        },
    };
    let dedupe_key = match read_optional_text_field(value, "dedupe_key") {
        Ok(text) => text,
        Err(reason) => {
            return Err(reason);
        },
    };
    let model = match read_optional_text_field(value, "model") {
        Ok(text) => text,
        Err(reason) => {
            return Err(reason);
        },
    };
    let effort = match read_optional_text_field(value, "effort") {
        Ok(text) => text,
        Err(reason) => {
            return Err(reason);
        },
    };
    let access_mode = match read_optional_text_field(value, "access_mode") {
        Ok(text) => text,
        Err(reason) => {
            return Err(reason);
        },
    };
    let route_kind = match read_optional_text_field(value, "route_kind") {
        Ok(text) => text,
        Err(reason) => {
            return Err(reason);
        },
    };
    let route_reason = match read_optional_text_field(value, "route_reason") {
        Ok(text) => text,
        Err(reason) => {
            return Err(reason);
        },
    };
    let route_fallback = match read_optional_text_field(value, "route_fallback") {
        Ok(text) => text,
        Err(reason) => {
            return Err(reason);
        },
    };
    Ok(
        SupervisorDispatchTurnAction {
            action_id,
            workspace_id,
            prompt,
            thread_id,
            dedupe_key,
            model,
            effort,
            access_mode,
            route_kind,
            route_reason,
            route_fallback,
        },
    )
}

/// Reads a contract from a JSON value.
#[verifier::loop_isolation(false)]
pub fn decode_contract(value: &JsonValue) -> (contract: Result<SupervisorActionContract, String>)
    ensures
        result_model(contract) == decoded_contract(value@),
{
    let members = match value {
        JsonValue::Object(members) => members,
        _ => {
            return Err("invalid type, expected an object".to_owned());
        },
    };
    proof {
        assert(value@->Object_0 =~= members_view(members@));
    }
    match find_unknown_field(members, true) {
        Some(key) => {
            let mut reason = "unknown field `".to_owned();
            reason.append(key.as_str());
            reason.append("`, expected `version` or `actions`");
            return Err(reason);
        },
        None => {},
    }
    let version = match read_text_field(value, "version") {
        Ok(text) => text,
        Err(reason) => {
            return Err(reason);
        },
    };
    let items = match value.get("actions") {
        None => {
            return Err("missing field `actions`".to_owned());
        },
        Some(JsonValue::Array(items)) => items,
        Some(_) => {
            return Err("invalid type for `actions`, expected an array".to_owned());
        },
    };
    let ghost models = items_view(items@);
    proof {
        assert(json_member(value@, "actions"@)->0->Array_0 =~= models);
    }
    let mut actions: Vec<SupervisorPlannerAction> = Vec::new();
    let mut i: usize = 0;
    assert(models.take(0) =~= Seq::<JsonModel>::empty());
    assert(actions.deep_view() =~= Seq::<PlannerActionModel>::empty());
    while i < items.len()
        invariant
            i <= items.len(),
            models == items_view(items@),
            decoded_actions(models.take(i as int)) == Ok::<Seq<PlannerActionModel>, Seq<char>>(actions.deep_view()),
        decreases items.len() - i,
    {
        let ghost accepted = actions.deep_view();
        proof {
            assert(models.take(i + 1).drop_last() =~= models.take(i as int));
            assert(models.take(i + 1).last() == models[i as int]);
            assert(models[i as int] == items@[i as int]@);
        }
        match decode_turn_action(&items[i]) {
            Err(reason) => {
                proof {
                    lemma_decode_fault_stays(models, i + 1);
                }
                return Err(reason);
            },
            Ok(turn) => {
                actions.push(SupervisorPlannerAction::DispatchTurn(turn));
                assert(actions.deep_view() =~= accepted.push(PlannerActionModel::DispatchTurn(turn@)));
            },
        }
        i += 1;
    }
    assert(models.take(i as int) =~= models);
    Ok(SupervisorActionContract { version, actions })
}

/// A fault among the first `n` items is the fault of the whole array.
pub proof fn lemma_decode_fault_stays(items: Seq<JsonModel>, n: int)
    requires
        0 <= n <= items.len(),
        decoded_actions(items.take(n)) is Err,
    ensures
        decoded_actions(items) == decoded_actions(items.take(n)),
    decreases items.len() - n,
{
    if n < items.len() {
        assert(items.take(n + 1).drop_last() =~= items.take(n));
        lemma_decode_fault_stays(items, n + 1);
    } else {
        assert(items.take(n) =~= items);
    }
}

/// Reads and checks a contract that is given as a JSON value.
pub fn parse_supervisor_action_contract_value(value: &JsonValue) -> (outcome: Result<
    ValidatedSupervisorActionContract,
    String,
>)
    ensures
        result_model(outcome) == parsed_contract(value@),
{
    match decode_contract(value) {
        Err(reason) => {
            let mut message = "invalid supervisor action contract: ".to_owned();
            message.append(reason.as_str());
            Err(message)
        },
        Ok(contract) => validate_supervisor_action_contract(contract),
    }
}

/// Reads and checks a contract that is given as JSON text: a text that is
/// no JSON is refused, and what the text states is checked as a value is.
pub fn parse_supervisor_action_contract_json(raw_json: &str) -> (outcome: Result<
    ValidatedSupervisorActionContract,
    String,
>)
    ensures
        match json_parsed(raw_json@) {
            Some(value) => result_model(outcome) == parsed_contract(value),
            None => outcome is Err && crate::text::begins_with(
                outcome->Err_0@,
                "invalid supervisor action contract JSON: "@,
            ),
        },
{
    match outside_parse(raw_json) {
        Ok(value) => parse_supervisor_action_contract_value(&value),
        Err(error) => {
            let mut message = "invalid supervisor action contract JSON: ".to_owned();
            let ghost prefix = message@;
            message.append(outside_error_text(&error).as_str());
            assert(message@.subrange(0, prefix.len() as int) =~= prefix);
            Err(message)
        },
    }
}

} // verus!
