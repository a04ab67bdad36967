//! Prompt parsing data: the token stream a conversation prompt is broken
//! into, and the parsed prompt wrapper around a raw input line.

use vstd::prelude::*;
use vstd::string::StringExecFns;

verus! {

/// What one token of a prompt line is.
#[derive(Clone, Copy, Debug, PartialEq, Eq, Structural)]
pub enum PromptTokenType {
    Text,
    Newline,
    Mention,
    Hashtag,
    Action,
    ParameterValue,
}

/// The editing state a prompt token can be in.
#[derive(Clone, Copy, Debug, PartialEq, Eq, Structural)]
pub enum PromptTokenState {
    Valid,
    Error,
    Editing,
    Disabled,
    Duplicate,
}

/// One token of a parsed prompt: its kind, its text, its position, an
/// optional editing state, and whether it blocks other commands.
#[derive(Clone, Debug)]
pub struct PromptToken {
    pub kind: PromptTokenType,
    pub value: String,
    pub index: u32,
    pub state: Option<PromptTokenState>,
    pub block_other_commands: bool,
}

impl PromptToken {
    /// Build a token from its parts.
    pub fn new(
        kind: PromptTokenType,
        value: String,
        index: u32,
        state: Option<PromptTokenState>,
        block_other_commands: bool,
    ) -> (t: PromptToken)
        ensures
            t.kind == kind,
            t.value@ == value@,
            t.index == index,
            t.state == state,
            t.block_other_commands == block_other_commands,
    {
        PromptToken { kind, value, index, state, block_other_commands }
    }

}

/// A prompt line together with what it was parsed into.
#[derive(Clone, Debug)]
pub struct ParsedPrompt {
    pub raw: String,
    pub text: String,
    pub caret_position: u32,
    pub current_token_index: u32,
    pub tokens: Vec<PromptToken>,
    pub locked: bool,
    pub token_count: Option<u32>,
}

impl ParsedPrompt {
    /// Wrap a plain string as an untokenized prompt: the raw and displayed
    /// text are the string itself; no tokens, caret at the start, unlocked.
    pub fn from_str(s: &str) -> (p: ParsedPrompt)
        ensures
            p.raw@ == s@,
            p.text@ == s@,
            p.caret_position == 0,
            p.current_token_index == 0,
            p.tokens@.len() == 0,
            !p.locked,
            p.token_count is None,
    {
        ParsedPrompt {
            raw: String::from_str(s),
            text: String::from_str(s),
            caret_position: 0,
            current_token_index: 0,
            tokens: Vec::new(),
            locked: false,
            token_count: None,
        }
    }
}

} // verus!
