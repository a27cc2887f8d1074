//! The configuration of the client: the clusters it knows, called
//! environments, and the credentials to reach each of them with.

use crate::errors::KafkyError;
use crate::text::{is_yes, same_text, says_yes};
use vstd::prelude::*;
use vstd::string::StringExecFns;

verus! {

/// A private key with the password that unlocks it.
#[derive(Debug, Clone, PartialEq, Eq)]
pub struct KafkyPrivateKey {
    pub key: KafkyPEM,
    pub password: Option<String>,
}

/// PEM material, given in one of three ways.
#[derive(Debug, Clone, PartialEq, Eq)]
pub enum KafkyPEM {
    /// The path of a file that holds the PEM text.
    Path(String),
    /// The PEM text, encoded as base64.
    Base64(String),
    /// The PEM text itself.
    Pem(String),
}

/// What a client presents to a cluster that speaks TLS.
#[derive(Debug, Clone, PartialEq, Eq)]
pub struct KafkySSLCredential {
    pub truststore: KafkyPEM,
    pub certificate: KafkyPEM,
    pub private_key: KafkyPrivateKey,
}

/// A user name and its password.
#[derive(Debug, Clone, PartialEq, Eq)]
pub struct KafkyPlainCredential {
    pub username: String,
    pub password: String,
}

/// The two kinds of credential.
#[derive(Debug, Clone, PartialEq, Eq)]
pub enum KafkyCredentialKind {
    Ssl(KafkySSLCredential),
    Plain(KafkyPlainCredential),
}

/// A credential under the name by which the user picks it.
#[derive(Debug, Clone, PartialEq, Eq)]
pub struct KafkyCredential {
    pub name: String,
    pub credential: KafkyCredentialKind,
}

/// A cluster: its brokers and the credentials that it accepts.
#[derive(Debug, Clone, PartialEq, Eq)]
pub struct KafkyEnvironment {
    pub name: String,
    pub brokers: Vec<String>,
    pub credentials: Vec<KafkyCredential>,
}

/// The names of the credentials, in their order.
pub open spec fn credential_names(credentials: Seq<KafkyCredential>) -> Seq<Seq<char>> {
    Seq::new(credentials.len(), |i: int| credentials[i].name@)
}

/// The names of the environments, in their order.
pub open spec fn environment_names(environments: Seq<KafkyEnvironment>) -> Seq<Seq<char>> {
    Seq::new(environments.len(), |i: int| environments[i].name@)
}

/// The first place at which `wanted` stands in `names`, if it stands there at all.
pub open spec fn first_place(names: Seq<Seq<char>>, wanted: Seq<char>) -> Option<int> {
    if exists|i: int| 0 <= i < names.len() && names[i] == wanted {
        Some(
            choose|i: int|
                0 <= i < names.len() && names[i] == wanted && forall|j: int|
                    0 <= j < i ==> names[j] != wanted,
        )
    } else {
        None
    }
}

/// `first_place` finds a place before which the name does not stand, and finds
/// none only if the name stands nowhere.
pub proof fn lemma_first_place(names: Seq<Seq<char>>, wanted: Seq<char>)
    ensures
        match first_place(names, wanted) {
            Some(i) => 0 <= i < names.len() && names[i] == wanted && forall|j: int|
                0 <= j < i ==> names[j] != wanted,
            None => forall|i: int| 0 <= i < names.len() ==> names[i] != wanted,
        },
{
    if exists|i: int| 0 <= i < names.len() && names[i] == wanted {
        let some = choose|i: int| 0 <= i < names.len() && names[i] == wanted;
        lemma_least_place(names, wanted, some);
    }
}

proof fn lemma_least_place(names: Seq<Seq<char>>, wanted: Seq<char>, at: int)
    requires
        0 <= at < names.len(),
        names[at] == wanted,
    ensures
        exists|i: int|
            0 <= i < names.len() && names[i] == wanted && forall|j: int|
                0 <= j < i ==> names[j] != wanted,
    decreases at,
{
    if exists|j: int| 0 <= j < at && names[j] == wanted {
        let earlier = choose|j: int| 0 <= j < at && names[j] == wanted;
        lemma_least_place(names, wanted, earlier);
    } else {
        assert(0 <= at < names.len() && names[at] == wanted && forall|j: int|
            0 <= j < at ==> names[j] != wanted);
    }
}

/// A place before which the name does not stand is the first place of the name.
pub proof fn lemma_first_place_is(names: Seq<Seq<char>>, wanted: Seq<char>, at: int)
    requires
        0 <= at < names.len(),
        names[at] == wanted,
        forall|j: int| 0 <= j < at ==> names[j] != wanted,
    ensures
        first_place(names, wanted) == Some(at),
{
    lemma_first_place(names, wanted);
    let found = first_place(names, wanted)->0;
    if found < at {
        assert(names[found] != wanted);
    } else if at < found {
        assert(names[at] != wanted);
    }
}

impl KafkyEnvironment {
    /// The first credential of the environment that is called `credential`.
    pub fn get_credential(&self, credential: &str) -> (found: Option<&KafkyCredential>)
        ensures
            match first_place(credential_names(self.credentials@), credential@) {
                Some(i) => found == Some(&self.credentials@[i]),
                None => found is None,
            },
    {
        let mut i: usize = 0;
        while i < self.credentials.len()
            invariant
                i <= self.credentials.len(),
                forall|k: int|
                    0 <= k < i ==> credential_names(self.credentials@)[k] != credential@,
            decreases self.credentials.len() - i,
        {
            if same_text(self.credentials[i].name.as_str(), credential) {
                proof {
                    lemma_first_place_is(
                        credential_names(self.credentials@),
                        credential@,
                        i as int,
                    );
                }
                return Some(&self.credentials[i]);
            }
            i += 1;
        }
        proof {
            lemma_first_place(credential_names(self.credentials@), credential@);
        }
        None
    }

    /// The names of the environment's credentials, in their order.
    pub fn get_credential_names(&self) -> (names: Vec<String>)
        ensures
            names.deep_view() == credential_names(self.credentials@),
    {
        let mut names: Vec<String> = Vec::new();
        let mut i: usize = 0;
        while i < self.credentials.len()
            invariant
                i <= self.credentials.len(),
                names@.len() == i,
                forall|k: int| 0 <= k < i ==> names@[k]@ == self.credentials@[k].name@,
            decreases self.credentials.len() - i,
        {
            names.push(self.credentials[i].name.clone());
            i += 1;
        }
        assert(names.deep_view() =~= credential_names(self.credentials@));
        names
    }
}

/// The certificate authorities of the sample configuration: a placeholder in
/// the shape of PEM text.
pub const SAMPLE_TRUSTSTORE: &'static str =
    "-----BEGIN CERTIFICATE-----DQEJARYAMIGfMA0GCSqGSIb3DQEBAQUAA4GNADCBiQKBgQCJ9WRanG/fUvcfKiGl\n                    DQEJARYAMIGfMA0GCSqGSIb3DQEBAQUAA4GNADCBiQKBgQCJ9WRanG/fUvcfKiGl\n                    DQEJARYAMIGfMA0GCSqGSIb3DQEBAQUAA4GNADCBiQKBgQCJ9WRanG/fUvcfKiGl\n                    DQEJARYAMIGfMA0GCSqGSIb3DQEBAQUAA4GNADCBiQKBgQCJ9WRanG/fUvcfKiGl\n                    DQEJARYAMIGfMA0GCSqGSIb3DQEBAQUAA4GNADCBiQKBgQCJ9WRanG/fUvcfKiGl\n                    -----END CERTIFICATE-----";

/// `std::path::Path::parent`, on paths that are text: the path without its
/// final component, if it has one. The empty path has none. What counts as a
/// component of any other path is a matter of the platform, and so nothing
/// more is stated of the result.
#[verifier::external_body]
fn parent_of(path: &str) -> (parent: Option<String>)
    ensures
        path@.len() == 0 ==> parent is None,
{
    let parent = std::path::Path::new(path).parent()?;
    Some(parent.to_str()?.to_string())
}

/// The configuration as loaded from its file.
#[derive(Debug, Clone, PartialEq, Eq)]
pub struct KafkyConfig {
    pub path: String,
    pub environments: Vec<KafkyEnvironment>,
}

/// What to do once the configuration file has been looked for.
#[derive(Debug, PartialEq, Eq)]
pub enum ConfigStep {
    /// Go on with the configuration.
    Ready(KafkyConfig),
    /// There is no configuration file: offer to write a sample.
    OfferSample,
    /// Give up with the error.
    Failed(KafkyError),
}

/// Decides what follows the attempt to load the configuration: a missing file
/// leads to the offer of a sample, any other failure ends the program.
pub fn load_config_or_create(loaded: Result<KafkyConfig, KafkyError>) -> (step: ConfigStep)
    ensures
        match loaded {
            Ok(config) => step == ConfigStep::Ready(config),
            Err(KafkyError::ConfigurationNotFound(_)) => step == ConfigStep::OfferSample,
            Err(error) => step == ConfigStep::Failed(error),
        },
{
    match loaded {
        Ok(config) => ConfigStep::Ready(config),
        Err(KafkyError::ConfigurationNotFound(_)) => ConfigStep::OfferSample,
        Err(error) => ConfigStep::Failed(error),
    }
}

impl KafkyConfig {
    /// Makes the configuration out of what was found at `config_file`.
    ///
    /// `content` is `None` where no file is there, the cause where the file
    /// could not be read as a configuration, and the environments otherwise.
    pub fn load(config_file: &str, content: Option<Result<Vec<KafkyEnvironment>, String>>) -> (r:
        Result<KafkyConfig, KafkyError>)
        ensures
            match content {
                None => r matches Err(KafkyError::ConfigurationNotFound(path)) && path@
                    == config_file@,
                Some(Err(cause)) => r matches Err(KafkyError::InvalidConfiguration(text)) && text@
                    == cause@,
                Some(Ok(environments)) => r matches Ok(config) && config.path@
                    == config_file@ && config.environments == environments,
            },
    {
        match content {
            None => Err(KafkyError::ConfigurationNotFound(String::from_str(config_file))),
            Some(Err(cause)) => Err(KafkyError::InvalidConfiguration(cause)),
            Some(Ok(environments)) => Ok(
                KafkyConfig { path: String::from_str(config_file), environments },
            ),
        }
    }

    /// Whether `config` is the sample configuration for the file at `path`:
    /// one environment, with a credential of each kind.
    pub open spec fn is_sample(config: KafkyConfig, path: Seq<char>) -> bool {
        &&& config.path@ == path
        &&& config.environments@.len() == 1
        &&& config.environments@[0].name@ == "sample-env"@
        &&& config.environments@[0].brokers@.len() == 1
        &&& config.environments@[0].brokers@[0]@ == "localhost:9094"@
        &&& config.environments@[0].credentials@.len() == 2
        &&& config.environments@[0].credentials@[0].name@ == "plain-cred"@
        &&& config.environments@[0].credentials@[0].credential matches KafkyCredentialKind::Plain(
            plain,
        )
        &&& plain.username@ == "kafka-user"@
        &&& plain.password@ == "kafka-password"@
        &&& config.environments@[0].credentials@[1].name@ == "ssl-cred"@
        &&& config.environments@[0].credentials@[1].credential matches KafkyCredentialKind::Ssl(ssl)
        &&& ssl.truststore matches KafkyPEM::Pem(truststore)
        &&& truststore@ == SAMPLE_TRUSTSTORE@
        &&& ssl.certificate matches KafkyPEM::Path(certificate)
        &&& certificate@ == "/my.cert.pem"@
        &&& ssl.private_key.key matches KafkyPEM::Base64(key)
        &&& key@ == "bXkgcHJpdmF0ZSBrZXk="@
        &&& ssl.private_key.password matches Some(password)
        &&& password@ == "my-cert-password"@
    }

    /// The sample configuration for the file at `config_file_path`.
    pub fn create_sample(config_file_path: &str) -> (config: KafkyConfig)
        ensures
            Self::is_sample(config, config_file_path@),
    {
        let mut brokers: Vec<String> = Vec::new();
        brokers.push(String::from_str("localhost:9094"));
        let mut credentials: Vec<KafkyCredential> = Vec::new();
        credentials.push(
            KafkyCredential {
                name: String::from_str("plain-cred"),
                credential: KafkyCredentialKind::Plain(
                    KafkyPlainCredential {
                        username: String::from_str("kafka-user"),
                        password: String::from_str("kafka-password"),
                    },
                ),
            },
        );
        credentials.push(
            KafkyCredential {
                name: String::from_str("ssl-cred"),
                credential: KafkyCredentialKind::Ssl(
                    KafkySSLCredential {
                        truststore: KafkyPEM::Pem(String::from_str(SAMPLE_TRUSTSTORE)),
                        certificate: KafkyPEM::Path(String::from_str("/my.cert.pem")),
                        private_key: KafkyPrivateKey {
                            key: KafkyPEM::Base64(String::from_str("bXkgcHJpdmF0ZSBrZXk=")),
                            password: Some(String::from_str("my-cert-password")),
                        },
                    },
                ),
            },
        );
        let mut environments: Vec<KafkyEnvironment> = Vec::new();
        environments.push(
            KafkyEnvironment { name: String::from_str("sample-env"), brokers, credentials },
        );
        KafkyConfig { path: String::from_str(config_file_path), environments }
    }

    /// The question that is put to the user where no configuration file is found.
    pub fn sample_question(config_file: &str) -> (text: String)
        ensures
            text@ == "Configuration file "@ + config_file@
                + " not found, do you want to create a sample one? [y/N]: "@,
    {
        String::from_str("Configuration file ").concat(config_file).concat(
            " not found, do you want to create a sample one? [y/N]: ",
        )
    }

    /// Decides, from the user's answer, what becomes of a configuration that
    /// was not found: the sample configuration where the answer says yes, and
    /// else the report that there is none.
    pub fn create_configuration_sample(config_file: &str, answer: &str) -> (r: Result<
        KafkyConfig,
        KafkyError,
    >)
        ensures
            if says_yes(answer@) {
                r matches Ok(config) && Self::is_sample(config, config_file@)
            } else {
                r matches Err(KafkyError::ConfigurationNotFound(path)) && path@ == config_file@
            },
    {
        if is_yes(answer) {
            Ok(Self::create_sample(config_file))
        } else {
            Err(KafkyError::ConfigurationNotFound(String::from_str(config_file)))
        }
    }

    /// The first environment that is called `environment`.
    pub fn get_environment(&self, environment: &str) -> (found: Option<&KafkyEnvironment>)
        ensures
            match first_place(environment_names(self.environments@), environment@) {
                Some(i) => found == Some(&self.environments@[i]),
                None => found is None,
            },
    {
        let mut i: usize = 0;
        while i < self.environments.len()
            invariant
                i <= self.environments.len(),
                forall|k: int|
                    0 <= k < i ==> environment_names(self.environments@)[k] != environment@,
            decreases self.environments.len() - i,
        {
            if same_text(self.environments[i].name.as_str(), environment) {
                proof {
                    lemma_first_place_is(
                        environment_names(self.environments@),
                        environment@,
                        i as int,
                    );
                }
                return Some(&self.environments[i]);
            }
            i += 1;
        }
        proof {
            lemma_first_place(environment_names(self.environments@), environment@);
        }
        None
    }

    /// The names of the environments, in their order.
    pub fn get_environment_names(&self) -> (names: Vec<&str>)
        ensures
            names@.len() == self.environments@.len(),
            forall|i: int|
                0 <= i < names@.len() ==> (#[trigger] names@[i])@ == self.environments@[i].name@,
    {
        let mut names: Vec<&str> = Vec::new();
        let mut i: usize = 0;
        while i < self.environments.len()
            invariant
                i <= self.environments.len(),
                names@.len() == i,
                forall|k: int|
                    0 <= k < i ==> (#[trigger] names@[k])@ == self.environments@[k].name@,
            decreases self.environments.len() - i,
        {
            names.push(self.environments[i].name.as_str());
            i += 1;
        }
        names
    }

    /// The names of the environments, in their order, each as a string of its own.
    pub fn environment_names(&self) -> (names: Vec<String>)
        ensures
            names.deep_view() == environment_names(self.environments@),
    {
        let mut names: Vec<String> = Vec::new();
        let mut i: usize = 0;
        while i < self.environments.len()
            invariant
                i <= self.environments.len(),
                names@.len() == i,
                forall|k: int| 0 <= k < i ==> names@[k]@ == self.environments@[k].name@,
            decreases self.environments.len() - i,
        {
            names.push(self.environments[i].name.clone());
            i += 1;
        }
        assert(names.deep_view() =~= environment_names(self.environments@));
        names
    }

    /// The folder of the file that the configuration came from, if the path
    /// of the file names one. A configuration without a path has no folder.
    pub fn config_folder(&self) -> (folder: Option<String>)
        ensures
            self.path@.len() == 0 ==> folder is None,
    {
        parent_of(self.path.as_str())
    }

    /// The path of the file that the configuration came from.
    pub fn path(&self) -> (path: &str)
        ensures
            path@ == self.path@,
    {
        self.path.as_str()
    }
}

} // verus!
