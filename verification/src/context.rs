//! The context Herdr hands a plugin action.
use vstd::prelude::*;

use crate::format::trim_chars;
use crate::text::{chars_are_blank, chars_of, is_blank, string_of, trim};

verus! {

/// The fields the plugin reads from Herdr's context JSON.
#[derive(Debug, Clone, PartialEq, Eq, Default)]
pub struct PluginContext {
    pub focused_pane_id: Option<String>,
    pub focused_pane_cwd: Option<String>,
    pub selected_text: Option<String>,
}

/// Everything an action needs to know about where it runs.
#[derive(Debug, Clone, PartialEq, Eq)]
pub struct ActionContext {
    pub pane_id: String,
    pub pane_cwd: Option<String>,
    pub selected_text: Option<String>,
    pub state_dir: String,
    pub herdr_bin: String,
    pub session_identity: String,
}

/// A value Herdr must provide.
#[derive(Debug, Clone, Copy, PartialEq, Eq)]
pub enum ContextField {
    FocusedPane,
    StateDirectory,
    HerdrBinary,
    SessionIdentity,
}

/// Why an action context was refused.
#[derive(Debug, Clone, Copy, PartialEq, Eq)]
pub enum ContextError {
    Missing { field: ContextField },
}

impl ContextError {
    /// The message shown to the user.
    pub fn message(&self) -> (m: String)
        ensures
            m@ == match self {
                ContextError::Missing { field: ContextField::FocusedPane } => "Herdr did not provide a focused pane"@,
                ContextError::Missing { field: ContextField::StateDirectory } => "Herdr did not provide a plugin state directory"@,
                ContextError::Missing { field: ContextField::HerdrBinary } => "Herdr did not provide a Herdr binary"@,
                ContextError::Missing { field: ContextField::SessionIdentity } => "Herdr did not provide a Herdr session identity"@,
            },
    {
        match self {
            ContextError::Missing { field: ContextField::FocusedPane } => "Herdr did not provide a focused pane".to_string(),
            ContextError::Missing { field: ContextField::StateDirectory } => "Herdr did not provide a plugin state directory".to_string(),
            ContextError::Missing { field: ContextField::HerdrBinary } => "Herdr did not provide a Herdr binary".to_string(),
            ContextError::Missing { field: ContextField::SessionIdentity } => "Herdr did not provide a Herdr session identity".to_string(),
        }
    }
}

/// A required value: present and not blank, then trimmed.
pub open spec fn required_value(value: Option<Seq<char>>) -> Option<Seq<char>> {
    let v = match value {
        Some(v) => v,
        None => Seq::empty(),
    };
    if trim(v).len() == 0 {
        None
    } else {
        Some(trim(v))
    }
}

pub open spec fn opt_view(o: Option<String>) -> Option<Seq<char>> {
    match o {
        Some(s) => Some(s@),
        None => None,
    }
}

/// A required value, trimmed; refused when missing or blank.
pub fn required(value: Option<&str>, field: ContextField) -> (r: Result<String, ContextError>)
    ensures
        match required_value(match value { Some(v) => Some(v@), None => None }) {
            Some(v) => r matches Ok(s) && s@ == v,
            None => r == Err::<String, ContextError>(ContextError::Missing { field }),
        },
{
    let chars = match value {
        Some(v) => chars_of(v),
        None => Vec::new(),
    };
    proof {
        if value is None {
            assert(chars@ =~= Seq::<char>::empty());
        }
    }
    let trimmed = trim_chars(&chars);
    if trimmed.len() == 0 {
        return Err(ContextError::Missing { field });
    }
    Ok(string_of(&trimmed))
}

/// What `ActionContext::from_values` gives: the focused pane, state
/// directory, Herdr binary and session identity are required (in that order)
/// and trimmed; a blank working directory counts as none.
pub open spec fn context_outcome(
    parsed: PluginContext,
    state_dir: Seq<char>,
    herdr_bin: Seq<char>,
    session_identity: Seq<char>,
) -> Result<(Seq<char>, Seq<char>, Seq<char>, Seq<char>), ContextError> {
    match required_value(opt_view(parsed.focused_pane_id)) {
        None => Err(ContextError::Missing { field: ContextField::FocusedPane }),
        Some(pane) => match required_value(Some(state_dir)) {
            None => Err(ContextError::Missing { field: ContextField::StateDirectory }),
            Some(dir) => match required_value(Some(herdr_bin)) {
                None => Err(ContextError::Missing { field: ContextField::HerdrBinary }),
                Some(bin) => match required_value(Some(session_identity)) {
                    None => Err(ContextError::Missing { field: ContextField::SessionIdentity }),
                    Some(identity) => Ok((pane, dir, bin, identity)),
                },
            },
        },
    }
}

impl ActionContext {
    /// Builds the context from Herdr's parsed context and runtime values.
    pub fn from_values(parsed: PluginContext, state_dir: &str, herdr_bin: &str, session_identity: &str) -> (r: Result<Self, ContextError>)
        ensures
            match context_outcome(parsed, state_dir@, herdr_bin@, session_identity@) {
                Ok((pane, dir, bin, identity)) => r matches Ok(c) && c.pane_id@ == pane && c.state_dir@ == dir
                    && c.herdr_bin@ == bin && c.session_identity@ == identity
                    && c.selected_text == parsed.selected_text
                    && c.pane_cwd == (match parsed.focused_pane_cwd {
                        Some(cwd) => if is_blank(cwd@) { None } else { Some(cwd) },
                        None => None,
                    }),
                Err(e) => r == Err::<Self, ContextError>(e),
            },
    {
        let pane_id = match &parsed.focused_pane_id {
            Some(p) => required(Some(p.as_str()), ContextField::FocusedPane)?,
            None => required(None, ContextField::FocusedPane)?,
        };
        let state_dir = required(Some(state_dir), ContextField::StateDirectory)?;
        let herdr_bin = required(Some(herdr_bin), ContextField::HerdrBinary)?;
        let session_identity = required(Some(session_identity), ContextField::SessionIdentity)?;
        let pane_cwd = match parsed.focused_pane_cwd {
            Some(cwd) => if chars_are_blank(&chars_of(cwd.as_str())) {
                None
            } else {
                Some(cwd)
            },
            None => None,
        };
        Ok(ActionContext {
            pane_id,
            pane_cwd,
            selected_text: parsed.selected_text,
            state_dir,
            herdr_bin,
            session_identity,
        })
    }
}

} // verus!
