//! The error type shared by every operation of the toolkit.

use vstd::prelude::*;
use vstd::string::StringExecFns;

verus! {

/// Everything that can go wrong while configuring the client or talking to a cluster.
#[derive(Debug, Clone, PartialEq, Eq)]
pub enum KafkyError {
    ConfigurationNotFound(String),
    InvalidConfiguration(String),
    EnvironmentParamNotFound(),
    EnvironmentNotFound(String, String),
    NoCredentialSpecified(String),
    ParseError(String),
    CredentialNotFound(String, String, String),
    KafkaError(String),
    InvalidCommand(),
    InvalidOffset(),
    CannotCreateSampleConfig(String),
    TopicNotFound(String),
    InvalidJson(String),
    KeySeparatorNotFound(),
    Exit(),
}

impl KafkyError {
    /// The text shown to the user for this error.
    pub open spec fn message_spec(&self) -> Seq<char> {
        match self {
            KafkyError::ConfigurationNotFound(path) => "Configuration not found: "@ + path@,
            KafkyError::InvalidConfiguration(cause) => "Invalid configuration "@ + cause@,
            KafkyError::EnvironmentParamNotFound() => "Environment parameter is mandatory"@,
            KafkyError::EnvironmentNotFound(name, available) => "Environment not found "@ + name@
                + ", available environment "@ + available@,
            KafkyError::NoCredentialSpecified(available) =>
                "No credential specified, available credentials "@ + available@,
            KafkyError::ParseError(cause) => "Parse error :"@ + cause@,
            KafkyError::CredentialNotFound(name, environment, available) =>
                "Credential not found "@ + name@ + ", in the environment "@ + environment@
                + " available credentials "@ + available@,
            KafkyError::KafkaError(cause) => "Kafka error:"@ + cause@,
            KafkyError::InvalidCommand() => "Invalid command"@,
            KafkyError::InvalidOffset() => "Invalid offset"@,
            KafkyError::CannotCreateSampleConfig(cause) => "Error creating sample config: "@
                + cause@,
            KafkyError::TopicNotFound(topic) => "Topic not found: "@ + topic@,
            KafkyError::InvalidJson(cause) => "Invalid json: "@ + cause@,
            KafkyError::KeySeparatorNotFound() => "Key separator not found"@,
            KafkyError::Exit() => "Exit"@,
        }
    }

    /// Renders the error as the text shown to the user.
    pub fn message(&self) -> (text: String)
        ensures
            text@ == self.message_spec(),
    {
        match self {
            KafkyError::ConfigurationNotFound(path) => String::from_str(
                "Configuration not found: ",
            ).concat(path.as_str()),
            KafkyError::InvalidConfiguration(cause) => String::from_str(
                "Invalid configuration ",
            ).concat(cause.as_str()),
            KafkyError::EnvironmentParamNotFound() => String::from_str(
                "Environment parameter is mandatory",
            ),
            KafkyError::EnvironmentNotFound(name, available) => String::from_str(
                "Environment not found ",
            ).concat(name.as_str()).concat(", available environment ").concat(available.as_str()),
            KafkyError::NoCredentialSpecified(available) => String::from_str(
                "No credential specified, available credentials ",
            ).concat(available.as_str()),
            KafkyError::ParseError(cause) => String::from_str("Parse error :").concat(
                cause.as_str(),
            ),
            KafkyError::CredentialNotFound(name, environment, available) => String::from_str(
                "Credential not found ",
            ).concat(name.as_str()).concat(", in the environment ").concat(
                environment.as_str(),
            ).concat(" available credentials ").concat(available.as_str()),
            KafkyError::KafkaError(cause) => String::from_str("Kafka error:").concat(
                cause.as_str(),
            ),
            KafkyError::InvalidCommand() => String::from_str("Invalid command"),
            KafkyError::InvalidOffset() => String::from_str("Invalid offset"),
            KafkyError::CannotCreateSampleConfig(cause) => String::from_str(
                "Error creating sample config: ",
            ).concat(cause.as_str()),
            KafkyError::TopicNotFound(topic) => String::from_str("Topic not found: ").concat(
                topic.as_str(),
            ),
            KafkyError::InvalidJson(cause) => String::from_str("Invalid json: ").concat(
                cause.as_str(),
            ),
            KafkyError::KeySeparatorNotFound() => String::from_str("Key separator not found"),
            KafkyError::Exit() => String::from_str("Exit"),
        }
    }
}

} // verus!
