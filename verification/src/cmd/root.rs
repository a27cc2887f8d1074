//! The command line as a whole: which command runs, against which environment
//! and under which credential.

use crate::config::{
    credential_names, environment_names, first_place, lemma_first_place, KafkyConfig,
};
use crate::errors::KafkyError;
use crate::text::{join, joined, same_text};
use vstd::prelude::*;
use vstd::string::StringExecFns;

verus! {

/// The root of the command line.
#[derive(Debug, Clone, Copy, PartialEq, Eq, Structural)]
pub struct RootCmd {}

/// A command that works on a cluster.
#[derive(Debug, Clone, Copy, PartialEq, Eq, Structural)]
pub enum ClusterCommand {
    Get,
    Produce,
    Consume,
    Create,
    Delete,
}

impl ClusterCommand {
    /// The command that is called `name`, if there is one.
    pub open spec fn named(name: Seq<char>) -> Option<ClusterCommand> {
        if name == "get"@ {
            Some(ClusterCommand::Get)
        } else if name == "produce"@ {
            Some(ClusterCommand::Produce)
        } else if name == "consume"@ {
            Some(ClusterCommand::Consume)
        } else if name == "create"@ {
            Some(ClusterCommand::Create)
        } else if name == "delete"@ {
            Some(ClusterCommand::Delete)
        } else {
            None
        }
    }

    /// The command that is called `name`, if there is one.
    pub fn from_name(name: &str) -> (command: Option<ClusterCommand>)
        ensures
            command == ClusterCommand::named(name@),
    {
        if same_text(name, "get") {
            Some(ClusterCommand::Get)
        } else if same_text(name, "produce") {
            Some(ClusterCommand::Produce)
        } else if same_text(name, "consume") {
            Some(ClusterCommand::Consume)
        } else if same_text(name, "create") {
            Some(ClusterCommand::Create)
        } else if same_text(name, "delete") {
            Some(ClusterCommand::Delete)
        } else {
            None
        }
    }
}

/// What the command line asks for.
#[derive(Debug, Clone, PartialEq, Eq)]
pub enum Invocation {
    /// Work on the configuration file.
    Config,
    /// Run a command on the cluster of an environment, under a credential.
    Cluster { command: ClusterCommand, environment: String, credential: String },
}

/// What an [`Invocation`] holds.
pub ghost enum InvocationModel {
    Config,
    Cluster { command: ClusterCommand, environment: Seq<char>, credential: Seq<char> },
}

impl View for Invocation {
    type V = InvocationModel;

    open spec fn view(&self) -> InvocationModel {
        match self {
            Invocation::Config => InvocationModel::Config,
            Invocation::Cluster { command, environment, credential } => InvocationModel::Cluster {
                command: *command,
                environment: environment@,
                credential: credential@,
            },
        }
    }
}

/// Why no credential could be settled on.
pub ghost enum CredentialFault {
    /// The configuration knows no environment of the name.
    EnvironmentNotFound,
    /// The environment, at this place of the configuration, does not have
    /// exactly one credential, so that one must be named.
    NoCredentialSpecified(int),
}

/// The credential to use: the one that was named, or else the only one of the
/// environment.
pub open spec fn credential_for(
    named: Option<Seq<char>>,
    config: KafkyConfig,
    environment: Seq<char>,
) -> Result<Seq<char>, CredentialFault> {
    match named {
        Some(name) => Ok(name),
        None => match first_place(environment_names(config.environments@), environment) {
            None => Err(CredentialFault::EnvironmentNotFound),
            Some(e) => if config.environments@[e].credentials@.len() == 1 {
                Ok(config.environments@[e].credentials@[0].name@)
            } else {
                Err(CredentialFault::NoCredentialSpecified(e))
            },
        },
    }
}

/// Whether `error` is the report of `fault`.
pub open spec fn credential_fault_reported(
    fault: CredentialFault,
    error: KafkyError,
    config: KafkyConfig,
    environment: Seq<char>,
) -> bool {
    match fault {
        CredentialFault::EnvironmentNotFound => error matches KafkyError::EnvironmentNotFound(
            name,
            available,
        ) && name@ == environment && available@ == joined(
            environment_names(config.environments@),
            ","@,
        ),
        CredentialFault::NoCredentialSpecified(e) => error matches KafkyError::NoCredentialSpecified(
            available,
        ) && available@ == joined(credential_names(config.environments@[e].credentials@), ","@),
    }
}

/// Whether `r` is the outcome `expected` of settling on a credential.
pub open spec fn credential_settled(
    r: Result<String, KafkyError>,
    expected: Result<Seq<char>, CredentialFault>,
    config: KafkyConfig,
    environment: Seq<char>,
) -> bool {
    match expected {
        Ok(name) => r matches Ok(found) && found@ == name,
        Err(fault) => r matches Err(error) && credential_fault_reported(
            fault,
            error,
            config,
            environment,
        ),
    }
}

/// Why the command line asks for nothing that can run.
pub ghost enum RouteFault {
    /// No command is given, or one that is not known.
    InvalidCommand,
    /// A command that works on a cluster is given without an environment.
    EnvironmentParamNotFound,
    /// No credential could be settled on.
    Credential(CredentialFault),
}

/// The invocation that the command line comes to.
///
/// Without a command there is nothing to run. The command `config` needs no
/// environment. Every other command needs one, then a credential, and only
/// then is its name looked at.
pub open spec fn route_of(
    command: Option<Seq<char>>,
    environment: Option<Seq<char>>,
    credential: Option<Seq<char>>,
    config: KafkyConfig,
) -> Result<InvocationModel, RouteFault> {
    match command {
        None => Err(RouteFault::InvalidCommand),
        Some(name) => if name == "config"@ {
            Ok(InvocationModel::Config)
        } else {
            match environment {
                None => Err(RouteFault::EnvironmentParamNotFound),
                Some(environment) => match credential_for(credential, config, environment) {
                    Err(fault) => Err(RouteFault::Credential(fault)),
                    Ok(credential) => match ClusterCommand::named(name) {
                        None => Err(RouteFault::InvalidCommand),
                        Some(command) => Ok(
                            InvocationModel::Cluster { command, environment, credential },
                        ),
                    },
                },
            }
        },
    }
}

/// The sequence of characters of an optional string.
pub open spec fn text_view(text: Option<&str>) -> Option<Seq<char>> {
    match text {
        Some(text) => Some(text@),
        None => None,
    }
}

impl RootCmd {
    /// Settles on the credential to use: the one that was named on the command
    /// line, or else the only credential of the environment.
    pub fn extract_credential(credential: Option<&str>, config: &KafkyConfig, environment: &str) -> (r:
        Result<String, KafkyError>)
        ensures
            credential_settled(
                r,
                credential_for(text_view(credential), *config, environment@),
                *config,
                environment@,
            ),
    {
        match credential {
            Some(name) => Ok(String::from_str(name)),
            None => {
                proof {
                    lemma_first_place(environment_names(config.environments@), environment@);
                }
                match config.get_environment(environment) {
                    None => Err(
                        KafkyError::EnvironmentNotFound(
                            String::from_str(environment),
                            join(&config.environment_names(), ","),
                        ),
                    ),
                    Some(found) => {
                        if found.credentials.len() == 1 {
                            Ok(found.credentials[0].name.clone())
                        } else {
                            Err(
                                KafkyError::NoCredentialSpecified(
                                    join(&found.get_credential_names(), ","),
                                ),
                            )
                        }
                    },
                }
            },
        }
    }

    /// Works out what the command line asks for.
    pub fn route(
        command: Option<&str>,
        environment: Option<&str>,
        credential: Option<&str>,
        config: &KafkyConfig,
    ) -> (r: Result<Invocation, KafkyError>)
        ensures
            match route_of(
                text_view(command),
                text_view(environment),
                text_view(credential),
                *config,
            ) {
                Ok(invocation) => r matches Ok(found) && found@ == invocation,
                Err(RouteFault::InvalidCommand) => r matches Err(KafkyError::InvalidCommand()),
                Err(RouteFault::EnvironmentParamNotFound) => r matches Err(
                    KafkyError::EnvironmentParamNotFound(),
                ),
                Err(RouteFault::Credential(fault)) => r matches Err(error)
                    && credential_fault_reported(fault, error, *config, environment->0@),
            },
    {
        let name = match command {
            Some(name) => name,
            None => {
                return Err(KafkyError::InvalidCommand());
            },
        };
        if same_text(name, "config") {
            return Ok(Invocation::Config);
        }
        let environment = match environment {
            Some(environment) => environment,
            None => {
                return Err(KafkyError::EnvironmentParamNotFound());
            },
        };
        let credential = match Self::extract_credential(credential, config, environment) {
            Ok(credential) => credential,
            Err(error) => {
                return Err(error);
            },
        };
        match ClusterCommand::from_name(name) {
            Some(command) => Ok(
                Invocation::Cluster {
                    command,
                    environment: String::from_str(environment),
                    credential,
                },
            ),
            None => Err(KafkyError::InvalidCommand()),
        }
    }
}

} // verus!
