//! Moving the model selection of existing DSH sessions to the image-capable
//! `deepseek-plus` provider.
use vstd::prelude::*;
use crate::text::{decimal, push_decimal, str_eq};
use crate::mca::{ov_str, or_empty};

verus! {

broadcast use vstd::string::group_string_axioms;

/// The model selection of one session; fields missing or not strings are `None`.
#[derive(Clone, Debug, PartialEq, Eq)]
pub struct SessionModel {
    pub provider: Option<String>,
    pub model: Option<String>,
    pub reasoning_effort: Option<String>,
}

/// The new selection for a session: `deepseek-plus` with the same model and, where
/// one was chosen, the same reasoning effort.
#[derive(Clone, Debug, PartialEq, Eq)]
pub struct ModelSelection {
    pub provider: &'static str,
    pub model: String,
    pub reasoning_effort: Option<String>,
}

/// A session moves when its provider is the DeepSeek one and it names a model.
pub open spec fn moves(current: SessionModel) -> bool {
    (or_empty(current.provider) == "deepseek-official"@ || or_empty(current.provider) == "deepseek"@)
        && or_empty(current.model).len() > 0
}

/// The new selection of a session, where it moves.
pub fn session_migration(current: &SessionModel) -> (r: Option<ModelSelection>)
    ensures
        r is Some <==> moves(*current),
        r matches Some(s) ==> s.provider@ == "deepseek-plus"@ && s.model@ == or_empty(current.model)
            && ov_str(s.reasoning_effort) == ov_str(current.reasoning_effort),
{
    let provider = match &current.provider {
        Some(p) => p.clone(),
        None => String::new(),
    };
    assert(provider@ == or_empty(current.provider));
    if !str_eq(provider.as_str(), "deepseek-official") && !str_eq(provider.as_str(), "deepseek") {
        return None;
    }
    let model = match &current.model {
        Some(m) => m.clone(),
        None => String::new(),
    };
    if model.as_str().is_empty() {
        return None;
    }
    Some(ModelSelection {
        provider: "deepseek-plus",
        model,
        reasoning_effort: match &current.reasoning_effort {
            Some(e) => Some(e.clone()),
            None => None,
        },
    })
}

/// The id of a DSH RPC request: `dshplusplus-<process id>-<suffix>`.
pub fn rpc_id(pid: u32, suffix: &str) -> (r: String)
    ensures
        r@ == "dshplusplus-"@ + decimal(pid as nat) + "-"@ + suffix@,
{
    let mut r = String::from_str("dshplusplus-");
    push_decimal(&mut r, pid as u64);
    r.append("-");
    r.append(suffix);
    r
}

/// The address of RPC method `method` of the DSH at `host:port`.
pub fn rpc_url(host: &str, port: u16, method: &str) -> (r: String)
    ensures
        r@ == "http://"@ + host@ + ":"@ + decimal(port as nat) + "/api/"@ + method@,
{
    let mut r = String::from_str("http://");
    r.append(host);
    r.append(":");
    push_decimal(&mut r, port as u64);
    r.append("/api/");
    r.append(method);
    r
}


/// Law: a session that moved does not move again: once its provider is
/// `deepseek-plus`, `session_migration` leaves it alone, so the migration can run on
/// every start.
pub proof fn law_session_migration_idempotent(moved: SessionModel)
    requires
        or_empty(moved.provider) == "deepseek-plus"@,
    ensures
        !moves(moved),
{
    reveal_strlit("deepseek-plus");
    reveal_strlit("deepseek-official");
    reveal_strlit("deepseek");
    assert("deepseek-plus"@.len() != "deepseek-official"@.len());
    assert("deepseek-plus"@.len() != "deepseek"@.len());
}

} // verus!
