//! The `gpt4` command: its declaration, the prompt it carries, and the text
//! that finally answers it.

use crate::completion::{result_view, CompletionError};
use crate::json::Json;
use vstd::prelude::*;

verus! {

/// The name under which the command is declared and recognized.
pub const COMMAND_NAME: &'static str = "gpt4";

/// The description shown to users of the command.
pub const COMMAND_DESCRIPTION: &'static str = "Query OpenAI ChatGPT4.";

/// The name of the command's single parameter.
pub const PARAMETER_NAME: &'static str = "prompt";

/// The description shown for the command's single parameter.
pub const PARAMETER_DESCRIPTION: &'static str = "The prompt to pass to gpt";

/// What the user reads when the completion service could not be reached.
pub const RETRY_LATER: &'static str =
    "Error while processing the request: please try again later.";

/// What the user reads when the completion service answered in a shape that
/// could not be understood.
pub const UNREADABLE_ANSWER: &'static str =
    "Error while processing the request: unexpected answer.";

/// Whether `name` is the name of this command.
pub fn is_recognized(name: &str) -> (r: bool)
    ensures
        r == (name@ == COMMAND_NAME@),
{
    let given = name.to_owned();
    let known = COMMAND_NAME.to_owned();
    given == known
}

/// One argument of an invocation, as the platform delivers it: the name of
/// the parameter and the value given for it, if one was given.
#[derive(Debug, PartialEq, Eq)]
pub struct CommandOption {
    pub name: String,
    pub value: Option<Json>,
}

/// The prompt an invocation carries: the value of its first argument where
/// that is a string, and the empty text where the argument is missing, has no
/// value, or has a value that is not a string.
pub open spec fn prompt_of(options: Seq<CommandOption>) -> Seq<char> {
    if options.len() > 0 && options[0].value is Some && options[0].value->0@.text() is Some {
        options[0].value->0@.text()->0
    } else {
        Seq::empty()
    }
}

/// Extracts the prompt from the arguments of an invocation.
pub fn prompt(options: &[CommandOption]) -> (text: &str)
    ensures
        text@ == prompt_of(options@),
{
    proof {
        reveal_strlit("");
    }
    assert(""@ =~= Seq::<char>::empty());
    if options.len() > 0 {
        match &options[0].value {
            Some(value) => match value.as_str() {
                Some(text) => text,
                None => "",
            },
            None => "",
        }
    } else {
        ""
    }
}

/// The text that answers an invocation once the completion call is over: the
/// answer itself, or a fixed notice for each kind of failure.
pub open spec fn reply_text(outcome: Result<Seq<char>, CompletionError>) -> Seq<char> {
    match outcome {
        Ok(answer) => answer,
        Err(CompletionError::Transport) => RETRY_LATER@,
        Err(CompletionError::Payload) => UNREADABLE_ANSWER@,
    }
}

/// Turns the outcome of the completion call into the text sent to the user.
/// No outcome is left without a text, so no failure travels further.
pub fn run(outcome: Result<String, CompletionError>) -> (reply: String)
    ensures
        reply@ == reply_text(result_view(outcome)),
{
    match outcome {
        Ok(answer) => answer,
        Err(CompletionError::Transport) => RETRY_LATER.to_owned(),
        Err(CompletionError::Payload) => UNREADABLE_ANSWER.to_owned(),
    }
}

/// A required string parameter of a command.
#[derive(Debug, Clone, PartialEq, Eq)]
pub struct StringParameter {
    pub name: String,
    pub description: String,
    pub required: bool,
}

/// The mathematical value of a [`StringParameter`].
pub ghost struct StringParameterView {
    pub name: Seq<char>,
    pub description: Seq<char>,
    pub required: bool,
}

impl View for StringParameter {
    type V = StringParameterView;

    open spec fn view(&self) -> StringParameterView {
        StringParameterView {
            name: self.name@,
            description: self.description@,
            required: self.required,
        }
    }
}

/// The declaration of a command, as it is handed to the platform at startup.
#[derive(Debug, Clone, PartialEq, Eq)]
pub struct CommandDeclaration {
    pub name: String,
    pub description: String,
    pub parameters: Vec<StringParameter>,
}

/// The mathematical value of a [`CommandDeclaration`].
pub ghost struct CommandDeclarationView {
    pub name: Seq<char>,
    pub description: Seq<char>,
    pub parameters: Seq<StringParameterView>,
}

impl View for CommandDeclaration {
    type V = CommandDeclarationView;

    open spec fn view(&self) -> CommandDeclarationView {
        CommandDeclarationView {
            name: self.name@,
            description: self.description@,
            parameters: self.parameters@.map_values(|p: StringParameter| p@),
        }
    }
}

impl CommandDeclaration {
    /// A declaration with no name, no description and no parameter.
    pub fn new() -> (declaration: CommandDeclaration)
        ensures
            declaration@ == (CommandDeclarationView {
                name: Seq::empty(),
                description: Seq::empty(),
                parameters: Seq::empty(),
            }),
    {
        let declaration = CommandDeclaration {
            name: String::new(),
            description: String::new(),
            parameters: Vec::new(),
        };
        assert(declaration@.parameters =~= Seq::empty());
        declaration
    }
}

/// The command's single parameter: the prompt, a required string.
pub open spec fn prompt_parameter() -> StringParameterView {
    StringParameterView {
        name: PARAMETER_NAME@,
        description: PARAMETER_DESCRIPTION@,
        required: true,
    }
}

/// What [`register`] makes of a declaration: the name and the description are
/// set, and the prompt parameter is added behind those already declared.
pub open spec fn registered(before: CommandDeclarationView) -> CommandDeclarationView {
    CommandDeclarationView {
        name: COMMAND_NAME@,
        description: COMMAND_DESCRIPTION@,
        parameters: before.parameters.push(prompt_parameter()),
    }
}

/// Declares the command: its name, its description, and its single required
/// string parameter.
pub fn register(command: &mut CommandDeclaration)
    ensures
        final(command)@ == registered(old(command)@),
{
    command.name = COMMAND_NAME.to_owned();
    command.description = COMMAND_DESCRIPTION.to_owned();
    command.parameters.push(
        StringParameter {
            name: PARAMETER_NAME.to_owned(),
            description: PARAMETER_DESCRIPTION.to_owned(),
            required: true,
        },
    );
    assert(command@.parameters =~= registered(old(command)@).parameters);
}

} // verus!
