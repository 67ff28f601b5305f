//! What a command answers when it does not do what it was asked, and who may
//! ask.

use vstd::prelude::*;

use crate::money::MoneyError;
use crate::repo::{RepoError, Why};
use crate::state::Session;

verus! {

/// Why a command did nothing.
#[derive(Debug)]
pub enum CommandError {
    Repo(RepoError),
    Money(MoneyError),
    /// The request was understood and turned down, in these words.
    Refused(String),
    /// What is stored cannot be used.
    Database(String),
    NotSignedIn,
    NotPermitted,
}

/// [`CommandError`], over characters.
pub enum CommandWhy {
    Repo(Why),
    Money(MoneyError),
    Refused(Seq<char>),
    Database(Seq<char>),
    NotSignedIn,
    NotPermitted,
}

impl View for CommandError {
    type V = CommandWhy;

    open spec fn view(&self) -> CommandWhy {
        match self {
            CommandError::Repo(error) => CommandWhy::Repo(error@),
            CommandError::Money(error) => CommandWhy::Money(*error),
            CommandError::Refused(message) => CommandWhy::Refused(message@),
            CommandError::Database(message) => CommandWhy::Database(message@),
            CommandError::NotSignedIn => CommandWhy::NotSignedIn,
            CommandError::NotPermitted => CommandWhy::NotPermitted,
        }
    }
}

impl CommandWhy {
    /// What sort of answer this is, for a screen to act on.
    pub open spec fn kind(self) -> Seq<char> {
        match self {
            CommandWhy::Repo(Why::Refused(_)) => "REFUSED"@,
            CommandWhy::Repo(Why::Missing(_)) => "MISSING"@,
            CommandWhy::Repo(_) => "DATABASE"@,
            CommandWhy::Money(_) => "REFUSED"@,
            CommandWhy::Refused(_) => "REFUSED"@,
            CommandWhy::Database(_) => "DATABASE"@,
            CommandWhy::NotSignedIn => "NOT_SIGNED_IN"@,
            CommandWhy::NotPermitted => "NOT_PERMITTED"@,
        }
    }

    /// What the screen shows.
    pub open spec fn message(self) -> Seq<char> {
        match self {
            CommandWhy::Repo(why) => why.message(),
            CommandWhy::Money(error) => error.spec_message(),
            CommandWhy::Refused(message) => message,
            CommandWhy::Database(message) => message,
            CommandWhy::NotSignedIn => "Sign in first."@,
            CommandWhy::NotPermitted => "Only the owner may do that."@,
        }
    }
}

impl CommandError {
    /// What sort of answer this is, for a screen to act on.
    pub fn kind(&self) -> (result: &'static str)
        ensures
            result@ == self@.kind(),
    {
        match self {
            CommandError::Repo(RepoError::Refused(_)) => "REFUSED",
            CommandError::Repo(RepoError::Missing { what: _ }) => "MISSING",
            CommandError::Repo(_) => "DATABASE",
            CommandError::Money(_) => "REFUSED",
            CommandError::Refused(_) => "REFUSED",
            CommandError::Database(_) => "DATABASE",
            CommandError::NotSignedIn => "NOT_SIGNED_IN",
            CommandError::NotPermitted => "NOT_PERMITTED",
        }
    }

    /// What the screen shows.
    pub fn message(&self) -> (result: String)
        ensures
            result@ == self@.message(),
    {
        match self {
            CommandError::Repo(error) => error.message(),
            CommandError::Money(error) => (*error).message().to_owned(),
            CommandError::Refused(message) => message.clone(),
            CommandError::Database(message) => message.clone(),
            CommandError::NotSignedIn => "Sign in first.".to_owned(),
            CommandError::NotPermitted => "Only the owner may do that.".to_owned(),
        }
    }

    /// A request turned down, in these words.
    pub fn refused(message: &str) -> (result: CommandError)
        ensures
            result@ == CommandWhy::Refused(message@),
    {
        CommandError::Refused(message.to_owned())
    }

    /// What is stored cannot be used, in these words.
    pub fn database(message: &str) -> (result: CommandError)
        ensures
            result@ == CommandWhy::Database(message@),
    {
        CommandError::Database(message.to_owned())
    }
}

/// What keeps anybody from looking; nothing, while somebody is signed in.
pub open spec fn session_refusal(session: Option<Session>) -> Option<CommandWhy> {
    match session {
        None => Some(CommandWhy::NotSignedIn),
        Some(_) => None,
    }
}

/// Lets anybody through who is signed in.
pub fn require_session(session: &Option<Session>) -> (result: Result<Session, CommandError>)
    ensures
        match session_refusal(*session) {
            None => result matches Ok(found) && Some(found) == *session,
            Some(why) => result matches Err(error) && error@ == why,
        },
{
    match session {
        Some(found) => Ok(found.clone()),
        None => Err(CommandError::NotSignedIn),
    }
}

/// What keeps anybody but the owner out; nothing, while the owner is signed in.
pub open spec fn owner_refusal(session: Option<Session>) -> Option<CommandWhy> {
    match session {
        None => Some(CommandWhy::NotSignedIn),
        Some(found) => if found.role@ == "OWNER"@ {
            None
        } else {
            Some(CommandWhy::NotPermitted)
        },
    }
}

/// Lets only the owner through.
pub fn require_owner(session: &Option<Session>) -> (result: Result<Session, CommandError>)
    ensures
        match owner_refusal(*session) {
            None => result matches Ok(found) && Some(found) == *session,
            Some(why) => result matches Err(error) && error@ == why,
        },
{
    match session {
        Some(found) => {
            if !found.is_owner() {
                return Err(CommandError::NotPermitted);
            }
            Ok(found.clone())
        },
        None => Err(CommandError::NotSignedIn),
    }
}

} // verus!
