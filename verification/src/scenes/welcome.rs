//! The welcome screen, where the user enters the token of the archive.

use vstd::prelude::*;
use vstd::utf8::encode_utf8;
use crate::api::{default_host, Config, ConfigView};
use crate::file::text_of;
use crate::message::{Command, CommandView};

verus! {

/// A token must be longer than this many bytes before it can be submitted.
pub const MIN_KEY_LEN: usize = 5;

#[derive(Debug)]
pub struct WelcomeScene {
    api_key: String,
    error: Option<String>,
}

/// The welcome screen as the contracts speak of it.
pub struct WelcomeView {
    pub api_key: Seq<char>,
    pub error: Option<Seq<char>>,
}

#[derive(Debug, Clone, PartialEq, Eq)]
pub enum WelcomeMessage {
    ApiKeyInputChanged(String),
    SetDisplayError(String),
    NextScene,
}

impl View for WelcomeScene {
    type V = WelcomeView;

    closed spec fn view(&self) -> WelcomeView {
        WelcomeView { api_key: self.api_key@, error: text_of(self.error) }
    }
}

impl WelcomeView {
    /// The welcome screen before anything was entered.
    pub open spec fn initial() -> WelcomeView {
        WelcomeView { api_key: Seq::empty(), error: None }
    }

    /// The screen after a message: a change of the input replaces the token
    /// and clears the error, an error is put on display, and a request to go
    /// on changes nothing here.
    pub open spec fn updated(self, message: WelcomeMessage) -> WelcomeView {
        match message {
            WelcomeMessage::ApiKeyInputChanged(value) => WelcomeView {
                api_key: value@,
                error: None,
            },
            WelcomeMessage::SetDisplayError(error) => WelcomeView {
                error: Some(error@),
                ..self
            },
            WelcomeMessage::NextScene => self,
        }
    }

    /// What a message asks the caller to do: a request to go on asks for the
    /// identity behind the entered token; the others ask for nothing.
    pub open spec fn commands(self, message: WelcomeMessage) -> Seq<CommandView> {
        match message {
            WelcomeMessage::NextScene => seq![
                CommandView::GetUser {
                    config: ConfigView { host: default_host(), api_token: self.api_key },
                },
            ],
            _ => Seq::empty(),
        }
    }

    /// Whether the entered token is long enough to be submitted.
    pub open spec fn can_continue(self) -> bool {
        encode_utf8(self.api_key).len() > MIN_KEY_LEN
    }
}

impl Default for WelcomeScene {
    fn default() -> (scene: Self)
        ensures
            scene@ == WelcomeView::initial(),
    {
        WelcomeScene { api_key: String::new(), error: None }
    }
}

impl WelcomeScene {
    /// The token as entered so far.
    pub fn api_key(&self) -> (key: &String)
        ensures
            key@ == self@.api_key,
    {
        &self.api_key
    }

    /// The error on display, if any.
    pub fn error(&self) -> (error: &Option<String>)
        ensures
            text_of(*error) == self@.error,
    {
        &self.error
    }

    /// Whether the button that submits the token is offered.
    pub fn can_continue(&self) -> (offered: bool)
        ensures
            offered == self@.can_continue(),
    {
        self.api_key.as_str().as_bytes().len() > MIN_KEY_LEN
    }

    /// Applies a message to the welcome screen and says what is to be done.
    pub fn update(&mut self, message: WelcomeMessage) -> (commands: Vec<Command>)
        ensures
            final(self)@ == old(self)@.updated(message),
            commands@.map_values(|c: Command| c@) == old(self)@.commands(message),
    {
        let mut commands: Vec<Command> = Vec::new();
        match message {
            WelcomeMessage::ApiKeyInputChanged(new_value) => {
                self.api_key = new_value;
                self.error = None;
            },
            WelcomeMessage::SetDisplayError(error) => {
                self.error = Some(error);
            },
            WelcomeMessage::NextScene => {
                let config = Config::new(self.api_key.clone());
                commands.push(Command::GetUser { config });
            },
        }
        assert(commands@.map_values(|c: Command| c@) =~= old(self)@.commands(message));
        commands
    }
}

} // verus!
