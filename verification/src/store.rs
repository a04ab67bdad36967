//! Settings and application-state data shared with the desktop shell: the
//! provider kinds, window geometry, and the global state codes exchanged
//! with the front end.

use vstd::prelude::*;
use vstd::string::StringExecFns;

verus! {

/// Which kind of backend serves a model.
#[derive(Clone, Copy, Debug, PartialEq, Eq, Structural)]
pub enum ProviderType {
    Opla,
    Server,
    Api,
    Proxy,
}

impl ProviderType {
    /// The provider kind's wire name, as the configuration files spell it.
    pub fn label(&self) -> (r: String)
        ensures
            r@ == (match self {
                ProviderType::Opla => "opla"@,
                ProviderType::Server => "server"@,
                ProviderType::Api => "api"@,
                ProviderType::Proxy => "proxy"@,
            }),
    {
        match self {
            ProviderType::Opla => String::from_str("opla"),
            ProviderType::Server => String::from_str("server"),
            ProviderType::Api => String::from_str("api"),
            ProviderType::Proxy => String::from_str("proxy"),
        }
    }
}

/// The size and mode a window was left in.
#[derive(Clone, Copy, Debug, PartialEq, Eq, Structural)]
pub struct WindowSettings {
    pub width: u32,
    pub height: u32,
    pub fullscreen: bool,
}

/// A payload with nothing in it, used where the front end expects a value.
#[derive(Clone, Copy, Debug, PartialEq, Eq, Structural)]
pub struct Empty {}

/// The global application states exchanged with the front end, each keyed
/// by a small numeric code.
#[derive(Clone, Copy, Debug, PartialEq, Eq, Structural)]
pub enum GlobalAppState {
    ACTIVE,
    WORKSPACE,
    ERROR,
    PROJECT,
    CONVERSATIONS,
    DELETECONVERSATION,
    ARCHIVES,
}

/// The state a numeric code denotes; codes outside the table mean `ERROR`.
pub open spec fn spec_app_state_of(code: u32) -> GlobalAppState {
    if code == 0 {
        GlobalAppState::ACTIVE
    } else if code == 1 {
        GlobalAppState::WORKSPACE
    } else if code == 3 {
        GlobalAppState::PROJECT
    } else if code == 4 {
        GlobalAppState::CONVERSATIONS
    } else if code == 5 {
        GlobalAppState::DELETECONVERSATION
    } else if code == 6 {
        GlobalAppState::ARCHIVES
    } else {
        GlobalAppState::ERROR
    }
}

/// The numeric code of a state; inverse of [`spec_app_state_of`].
pub open spec fn spec_app_state_code(s: GlobalAppState) -> u32 {
    match s {
        GlobalAppState::ACTIVE => 0,
        GlobalAppState::WORKSPACE => 1,
        GlobalAppState::ERROR => 2,
        GlobalAppState::PROJECT => 3,
        GlobalAppState::CONVERSATIONS => 4,
        GlobalAppState::DELETECONVERSATION => 5,
        GlobalAppState::ARCHIVES => 6,
    }
}

impl From<u32> for GlobalAppState {
    /// Decode a state code; anything outside the table is `ERROR`.
    fn from(item: u32) -> (r: GlobalAppState) {
        match item {
            0 => GlobalAppState::ACTIVE,
            1 => GlobalAppState::WORKSPACE,
            3 => GlobalAppState::PROJECT,
            4 => GlobalAppState::CONVERSATIONS,
            5 => GlobalAppState::DELETECONVERSATION,
            6 => GlobalAppState::ARCHIVES,
            _ => GlobalAppState::ERROR,
        }
    }
}

impl vstd::std_specs::convert::FromSpecImpl<u32> for GlobalAppState {
    open spec fn obeys_from_spec() -> bool {
        true
    }

    open spec fn from_spec(v: u32) -> GlobalAppState {
        spec_app_state_of(v)
    }
}

impl GlobalAppState {
    /// The state's numeric code; decoding it gives the state back.
    pub fn code(&self) -> (c: u32)
        ensures
            c == spec_app_state_code(*self),
            spec_app_state_of(c) == *self,
    {
        match self {
            GlobalAppState::ACTIVE => 0,
            GlobalAppState::WORKSPACE => 1,
            GlobalAppState::ERROR => 2,
            GlobalAppState::PROJECT => 3,
            GlobalAppState::CONVERSATIONS => 4,
            GlobalAppState::DELETECONVERSATION => 5,
            GlobalAppState::ARCHIVES => 6,
        }
    }
}

} // verus!
