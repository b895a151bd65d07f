//! Rules that are written as Rhai scripts.
//!
//! A script reports by what it returns: nothing, the identifier of one
//! description, or a list of findings with their captures. Anything else is
//! not understood, and a script that raises an error has failed.

use vstd::prelude::*;
use crate::report::{Captures, CapturesModel, RawOutputModel, RawRuleOutput};
use crate::rules::{OutcomeModel, RuleOutcome};

verus! {

/// `rhai::Engine`, the runtime of the scripts. Nothing is known of what is
/// inside; it is only handed on to the evaluation.
#[verifier::external_type_specification]
#[verifier::external_body]
pub struct ExEngine(rhai::Engine);

/// `rhai::Scope`, the variables that a script sees. Nothing is known of what
/// is inside; it is only handed on to the evaluation.
#[verifier::external_type_specification]
#[verifier::external_body]
pub struct ExScope<'a>(rhai::Scope<'a>);

/// `rhai::AST`, a compiled script. Nothing is known of what is inside; it is
/// only handed on to the evaluation.
#[verifier::external_type_specification]
#[verifier::external_body]
pub struct ExAst(rhai::AST);

/// What a script returned, by its shape.
#[derive(Clone, Debug)]
pub enum ScriptValue {
    /// The unit value.
    Unit,
    /// A string.
    Text(String),
    /// A list of findings.
    Findings(Vec<Captures>),
    /// A value of any other type.
    Other,
}

/// What a [`ScriptValue`] stands for.
pub enum ScriptValueModel {
    Unit,
    Text(Seq<char>),
    Findings(Seq<CapturesModel>),
    Other,
}

impl View for ScriptValue {
    type V = ScriptValueModel;

    open spec fn view(&self) -> ScriptValueModel {
        match self {
            ScriptValue::Unit => ScriptValueModel::Unit,
            ScriptValue::Text(text) => ScriptValueModel::Text(text@),
            ScriptValue::Findings(items) => ScriptValueModel::Findings(items.deep_view()),
            ScriptValue::Other => ScriptValueModel::Other,
        }
    }
}

/// How the run of a script ended, from what the evaluation gave: the value
/// that the script returned, or the words of the error that it raised.
pub open spec fn outcome_of(evaluated: Result<ScriptValueModel, Seq<char>>) -> OutcomeModel {
    match evaluated {
        Ok(ScriptValueModel::Unit) => OutcomeModel::Completed(RawOutputModel::Empty),
        Ok(ScriptValueModel::Text(identifier)) => OutcomeModel::Completed(
            RawOutputModel::SingleIdentifier(identifier),
        ),
        Ok(ScriptValueModel::Findings(items)) => OutcomeModel::Completed(
            RawOutputModel::CaptureSet(items),
        ),
        Ok(ScriptValueModel::Other) => OutcomeModel::Malformed,
        Err(_) => OutcomeModel::Failed,
    }
}

/// What an evaluation stands for.
pub open spec fn evaluated_model(evaluated: Result<ScriptValue, String>) -> Result<
    ScriptValueModel,
    Seq<char>,
> {
    match evaluated {
        Ok(value) => Ok(value@),
        Err(error) => Err(error@),
    }
}

/// Calls `rhai::Engine::eval_ast_with_scope` for a `rhai::Dynamic` and hands
/// back what came of it: the words of the error, or the value by its shape,
/// as `Dynamic::is_unit`, `Dynamic::is_string` and `Dynamic::try_cast` tell
/// it. What a script returns, and what it leaves in the scope, is the
/// script's business: the contract claims nothing of either.
#[verifier::external_body]
fn evaluate(engine: &rhai::Engine, scope: &mut rhai::Scope<'static>, ast: &rhai::AST) -> Result<
    ScriptValue,
    String,
> {
    match engine.eval_ast_with_scope::<rhai::Dynamic>(scope, ast) {
        Err(error) => Err(error.to_string()),
        Ok(value) if value.is_unit() => Ok(ScriptValue::Unit),
        Ok(value) if value.is_string() => Ok(ScriptValue::Text(value.to_string())),
        Ok(value) => match value.try_cast::<Vec<Captures>>() {
            Some(items) => Ok(ScriptValue::Findings(items)),
            None => Ok(ScriptValue::Other),
        },
    }
}

/// How the run of a script ended, from what the evaluation gave. A script
/// that returned nothing found nothing; a string names one description; a
/// list of findings is taken as it is; any other value is not understood;
/// and an error means that the script has failed.
pub fn interpret(evaluated: Result<ScriptValue, String>) -> (outcome: RuleOutcome)
    ensures
        outcome@ == outcome_of(evaluated_model(evaluated)),
{
    match evaluated {
        Ok(ScriptValue::Unit) => RuleOutcome::Completed(RawRuleOutput::Empty),
        Ok(ScriptValue::Text(identifier)) => RuleOutcome::Completed(
            RawRuleOutput::SingleIdentifier(identifier),
        ),
        Ok(ScriptValue::Findings(items)) => RuleOutcome::Completed(
            RawRuleOutput::CaptureSet(items),
        ),
        Ok(ScriptValue::Other) => RuleOutcome::Malformed,
        Err(_) => RuleOutcome::Failed,
    }
}

/// Runs one script on `engine` with `scope` and tells how the run ended.
pub fn run_script(engine: &rhai::Engine, scope: &mut rhai::Scope<'static>, ast: &rhai::AST) -> (outcome:
    RuleOutcome) {
    interpret(evaluate(engine, scope, ast))
}

} // verus!
