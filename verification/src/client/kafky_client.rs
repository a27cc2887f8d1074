//! The settings with which the client reaches a cluster, worked out from the
//! configuration, the environment and the credential that the user chose.

use crate::client::consumer::KafkyConsumeProperties;
use crate::client::wire::text_of;
use crate::config::{
    credential_names, environment_names, first_place, lemma_first_place, KafkyConfig,
    KafkyCredential, KafkyCredentialKind, KafkyEnvironment, KafkyPEM, KafkySSLCredential,
};
use crate::errors::KafkyError;
use crate::text::{join, joined};
use vstd::prelude::*;
use vstd::string::StringExecFns;
use vstd::utf8::{decode_utf8, valid_utf8};

verus! {

/// The bytes that `base64::decode` gives for `text`, or nothing where it
/// refuses the text.
pub uninterp spec fn base64_decoded(text: Seq<char>) -> Option<Seq<u8>>;

/// `base64::decode`, with its error dropped: the bytes that the text stands
/// for in the standard alphabet, or nothing where the text is not base64.
#[verifier::external_body]
fn base64_decode(text: &str) -> (bytes: Option<Vec<u8>>)
    ensures
        match base64_decoded(text@) {
            Some(decoded) => bytes matches Some(found) && found@ == decoded,
            None => bytes is None,
        },
{
    base64::decode(text).ok()
}

/// Why PEM material could not be had from the configuration.
#[derive(Debug, Clone, Copy, PartialEq, Eq, Structural)]
pub enum PemFault {
    /// The text is not base64.
    Base64,
    /// The decoded bytes are not UTF-8 text.
    Utf8,
}

/// The PEM text that decoded base64 holds.
pub open spec fn pem_from(decoded: Option<Seq<u8>>) -> Result<Seq<char>, PemFault> {
    match decoded {
        None => Err(PemFault::Base64),
        Some(bytes) => if valid_utf8(bytes) {
            Ok(decode_utf8(bytes))
        } else {
            Err(PemFault::Utf8)
        },
    }
}

/// Reads the outcome of a base64 decoding as PEM text.
pub fn pem_from_decoded(decoded: Option<Vec<u8>>) -> (r: Result<String, PemFault>)
    ensures
        match pem_from(
            match decoded {
                Some(bytes) => Some(bytes@),
                None => None,
            },
        ) {
            Ok(text) => r matches Ok(found) && found@ == text,
            Err(fault) => r == Err::<String, PemFault>(fault),
        },
{
    match decoded {
        None => Err(PemFault::Base64),
        Some(bytes) => match text_of(bytes.as_slice()) {
            Some(text) => Ok(String::from_str(text)),
            None => Err(PemFault::Utf8),
        },
    }
}

/// Decodes PEM text that the configuration holds as base64.
pub fn decode_pem(encoded: &str) -> (r: Result<String, PemFault>)
    ensures
        match pem_from(base64_decoded(encoded@)) {
            Ok(text) => r matches Ok(found) && found@ == text,
            Err(fault) => r == Err::<String, PemFault>(fault),
        },
{
    pem_from_decoded(base64_decode(encoded))
}

/// What a piece of PEM material is used for.
#[derive(Debug, Clone, Copy, PartialEq, Eq, Structural)]
pub enum PemUse {
    Truststore,
    Certificate,
    PrivateKey,
}

impl PemUse {
    /// The word for the use in messages.
    pub open spec fn word(self) -> Seq<char> {
        match self {
            PemUse::Truststore => "truststore"@,
            PemUse::Certificate => "certificate"@,
            PemUse::PrivateKey => "private key"@,
        }
    }

    /// The setting that names a file with the material.
    pub open spec fn location_key(self) -> Seq<char> {
        match self {
            PemUse::Truststore => "ssl.ca.location"@,
            PemUse::Certificate => "ssl.certificate.location"@,
            PemUse::PrivateKey => "ssl.key.location"@,
        }
    }

    /// The setting that holds the material itself. There is none for the
    /// truststore, which the client only takes from a file.
    pub open spec fn text_key(self) -> Seq<char> {
        match self {
            PemUse::Truststore => "ssl.ca.location"@,
            PemUse::Certificate => "ssl.certificate.pem"@,
            PemUse::PrivateKey => "ssl.key.pem"@,
        }
    }

    fn word_str(self) -> (word: &'static str)
        ensures
            word@ == self.word(),
    {
        match self {
            PemUse::Truststore => "truststore",
            PemUse::Certificate => "certificate",
            PemUse::PrivateKey => "private key",
        }
    }

    fn location_key_str(self) -> (key: &'static str)
        ensures
            key@ == self.location_key(),
    {
        match self {
            PemUse::Truststore => "ssl.ca.location",
            PemUse::Certificate => "ssl.certificate.location",
            PemUse::PrivateKey => "ssl.key.location",
        }
    }

    fn text_key_str(self) -> (key: &'static str)
        ensures
            key@ == self.text_key(),
    {
        match self {
            PemUse::Truststore => "ssl.ca.location",
            PemUse::Certificate => "ssl.certificate.pem",
            PemUse::PrivateKey => "ssl.key.pem",
        }
    }
}

/// PEM material as the client takes it: a file to read, or the text.
pub ghost enum PemSource {
    File(Seq<char>),
    Text(Seq<char>),
}

/// What the configured PEM material comes to.
pub open spec fn pem_source(pem: KafkyPEM) -> Result<PemSource, PemFault> {
    match pem {
        KafkyPEM::Path(path) => Ok(PemSource::File(path@)),
        KafkyPEM::Base64(encoded) => match pem_from(base64_decoded(encoded@)) {
            Ok(text) => Ok(PemSource::Text(text)),
            Err(fault) => Err(fault),
        },
        KafkyPEM::Pem(text) => Ok(PemSource::Text(text@)),
    }
}

/// One setting: its key and its value.
pub type Setting = (Seq<char>, Seq<char>);

/// The settings of a client, as sequences of characters.
pub ghost struct SettingsModel {
    pub entries: Seq<Setting>,
    pub ca_pem: Option<Seq<char>>,
}

/// The settings of a client.
#[derive(Debug, Clone, PartialEq, Eq)]
pub struct ClientSettings {
    /// Keys and values, in the order in which they are to be set.
    pub entries: Vec<(String, String)>,
    /// The text of the certificate authorities to trust, where it is not in a
    /// file yet. The client reads it from a file only: whoever opens the
    /// connection writes it to one and names that file under `ssl.ca.location`.
    pub ca_pem: Option<String>,
}

/// The keys and values of `entries`, as sequences of characters.
pub open spec fn settings_view(entries: Seq<(String, String)>) -> Seq<Setting> {
    Seq::new(entries.len(), |i: int| (entries[i].0@, entries[i].1@))
}

impl View for ClientSettings {
    type V = SettingsModel;

    open spec fn view(&self) -> SettingsModel {
        SettingsModel {
            entries: settings_view(self.entries@),
            ca_pem: match self.ca_pem {
                Some(text) => Some(text@),
                None => None,
            },
        }
    }
}

/// Adds a setting behind the others.
pub fn push_setting(entries: &mut Vec<(String, String)>, key: &str, value: String)
    ensures
        settings_view(final(entries)@) == settings_view(old(entries)@).push((key@, value@)),
{
    entries.push((String::from_str(key), value));
}

/// Why the settings of a client could not be worked out.
pub ghost enum SettingsFault {
    /// The configuration knows no environment of the name.
    EnvironmentNotFound,
    /// The environment, at this place of the configuration, knows no
    /// credential of the name.
    CredentialNotFound(int),
    /// A piece of PEM material could not be had.
    Pem(PemUse, PemFault),
}

/// The setting that the PEM material `source` comes to when it is used as `usage`.
pub open spec fn pem_setting(usage: PemUse, source: PemSource) -> Setting {
    match source {
        PemSource::File(path) => (usage.location_key(), path),
        PemSource::Text(text) => (usage.text_key(), text),
    }
}

/// The settings that follow the brokers for a credential with certificate and key.
pub open spec fn ssl_settings(ssl: KafkySSLCredential) -> Result<SettingsModel, SettingsFault> {
    match pem_source(ssl.truststore) {
        Err(fault) => Err(SettingsFault::Pem(PemUse::Truststore, fault)),
        Ok(trust) => match pem_source(ssl.certificate) {
            Err(fault) => Err(SettingsFault::Pem(PemUse::Certificate, fault)),
            Ok(certificate) => match pem_source(ssl.private_key.key) {
                Err(fault) => Err(SettingsFault::Pem(PemUse::PrivateKey, fault)),
                Ok(key) => Ok(
                    SettingsModel {
                        entries: (match trust {
                            PemSource::File(path) => seq![("ssl.ca.location"@, path)],
                            PemSource::Text(_) => Seq::<Setting>::empty(),
                        }).push(("security.protocol"@, "ssl"@)).push(
                            pem_setting(PemUse::Certificate, certificate),
                        ).push(pem_setting(PemUse::PrivateKey, key)) + (match ssl.private_key.password {
                            Some(password) => seq![("ssl.key.password"@, password@)],
                            None => Seq::<Setting>::empty(),
                        }),
                        ca_pem: match trust {
                            PemSource::File(_) => None,
                            PemSource::Text(text) => Some(text),
                        },
                    },
                ),
            },
        },
    }
}

/// The settings that follow the brokers for the credential.
pub open spec fn credential_settings(credential: KafkyCredentialKind) -> Result<
    SettingsModel,
    SettingsFault,
> {
    match credential {
        KafkyCredentialKind::Ssl(ssl) => ssl_settings(ssl),
        KafkyCredentialKind::Plain(plain) => Ok(
            SettingsModel {
                entries: seq![
                    ("security.protocol"@, "plaintext"@),
                    ("sasl.username"@, plain.username@),
                    ("sasl.password"@, plain.password@),
                ],
                ca_pem: None,
            },
        ),
    }
}

/// The names of the brokers, as sequences of characters.
pub open spec fn broker_names(brokers: Seq<String>) -> Seq<Seq<char>> {
    Seq::new(brokers.len(), |i: int| brokers[i]@)
}

/// The settings with which a client reaches the environment called
/// `environment` with its credential called `credential`: the brokers first,
/// then what the credential asks for.
pub open spec fn client_settings(
    config: KafkyConfig,
    environment: Seq<char>,
    credential: Seq<char>,
) -> Result<SettingsModel, SettingsFault> {
    match first_place(environment_names(config.environments@), environment) {
        None => Err(SettingsFault::EnvironmentNotFound),
        Some(e) => match first_place(
            credential_names(config.environments@[e].credentials@),
            credential,
        ) {
            None => Err(SettingsFault::CredentialNotFound(e)),
            Some(c) => match credential_settings(
                config.environments@[e].credentials@[c].credential,
            ) {
                Err(fault) => Err(fault),
                Ok(rest) => Ok(
                    SettingsModel {
                        entries: seq![
                            (
                                "bootstrap.servers"@,
                                joined(broker_names(config.environments@[e].brokers@), ","@),
                            ),
                        ] + rest.entries,
                        ca_pem: rest.ca_pem,
                    },
                ),
            },
        },
    }
}

/// Whether `error` is the report of `fault` for the configuration, the
/// environment and the credential that were asked for.
pub open spec fn fault_reported(
    fault: SettingsFault,
    error: KafkyError,
    config: KafkyConfig,
    environment: Seq<char>,
    credential: Seq<char>,
) -> bool {
    match fault {
        SettingsFault::EnvironmentNotFound => error matches KafkyError::EnvironmentNotFound(
            name,
            available,
        ) && name@ == environment && available@ == joined(
            environment_names(config.environments@),
            ","@,
        ),
        SettingsFault::CredentialNotFound(e) => error matches KafkyError::CredentialNotFound(
            name,
            within,
            available,
        ) && name@ == credential && within@ == environment && available@ == joined(
            credential_names(config.environments@[e].credentials@),
            ","@,
        ),
        SettingsFault::Pem(usage, fault) => error matches KafkyError::InvalidConfiguration(cause)
            && cause@ == "Invalid "@ + usage.word() + (match fault {
            PemFault::Base64 => " base64"@,
            PemFault::Utf8 => " text"@,
        }) + " for the environment:"@ + environment + " credential:"@ + credential,
    }
}

/// A client of one environment of the configuration, under one of its credentials.
#[derive(Debug, Clone, Copy)]
pub struct KafkyClient<'a> {
    pub kafky_config: &'a KafkyConfig,
    pub environment: &'a str,
    pub credential: &'a str,
}

impl<'a> KafkyClient<'a> {
    /// A client of the environment called `environment`, under its credential
    /// called `credential`.
    pub fn new(config: &'a KafkyConfig, environment: &'a str, credential: &'a str) -> (client:
        KafkyClient<'a>)
        ensures
            client.kafky_config == config,
            client.environment@ == environment@,
            client.credential@ == credential@,
    {
        KafkyClient { kafky_config: config, environment, credential }
    }

    /// What every connection of this client is set up with.
    pub open spec fn settings(&self) -> Result<SettingsModel, SettingsFault> {
        client_settings(*self.kafky_config, self.environment@, self.credential@)
    }

    /// Whether `error` reports `fault` for this client.
    pub open spec fn reports(&self, fault: SettingsFault, error: KafkyError) -> bool {
        fault_reported(fault, error, *self.kafky_config, self.environment@, self.credential@)
    }

    /// Whether `r` is the outcome `expected` for this client.
    pub open spec fn settled(
        &self,
        r: Result<ClientSettings, KafkyError>,
        expected: Result<SettingsModel, SettingsFault>,
    ) -> bool {
        match expected {
            Ok(model) => r matches Ok(settings) && settings@ == model,
            Err(fault) => r matches Err(error) && self.reports(fault, error),
        }
    }

    fn pem_error(&self, usage: PemUse, fault: PemFault) -> (error: KafkyError)
        ensures
            self.reports(SettingsFault::Pem(usage, fault), error),
    {
        let kind = match fault {
            PemFault::Base64 => " base64",
            PemFault::Utf8 => " text",
        };
        KafkyError::InvalidConfiguration(
            String::from_str("Invalid ").concat(usage.word_str()).concat(kind).concat(
                " for the environment:",
            ).concat(self.environment).concat(" credential:").concat(self.credential),
        )
    }

    fn push_pem(&self, entries: &mut Vec<(String, String)>, usage: PemUse, pem: &KafkyPEM) -> (r:
        Result<(), KafkyError>)
        ensures
            match pem_source(*pem) {
                Ok(source) => r is Ok && settings_view(final(entries)@) == settings_view(
                    old(entries)@,
                ).push(pem_setting(usage, source)),
                Err(fault) => r matches Err(error) && self.reports(
                    SettingsFault::Pem(usage, fault),
                    error,
                ),
            },
    {
        match pem {
            KafkyPEM::Path(path) => {
                push_setting(entries, usage.location_key_str(), path.clone());
            },
            KafkyPEM::Base64(encoded) => match decode_pem(encoded.as_str()) {
                Ok(text) => {
                    push_setting(entries, usage.text_key_str(), text);
                },
                Err(fault) => {
                    return Err(self.pem_error(usage, fault));
                },
            },
            KafkyPEM::Pem(text) => {
                push_setting(entries, usage.text_key_str(), text.clone());
            },
        }
        Ok(())
    }

    fn ssl_settings(&self, entries: Vec<(String, String)>, ssl: &KafkySSLCredential) -> (r: Result<
        ClientSettings,
        KafkyError,
    >)
        ensures
            match ssl_settings(*ssl) {
                Ok(rest) => r matches Ok(settings) && settings@ == (SettingsModel {
                    entries: settings_view(entries@) + rest.entries,
                    ca_pem: rest.ca_pem,
                }),
                Err(fault) => r matches Err(error) && self.reports(fault, error),
            },
    {
        let ghost before = settings_view(entries@);
        let mut entries = entries;
        let mut ca_pem: Option<String> = None;
        match &ssl.truststore {
            KafkyPEM::Path(path) => {
                push_setting(&mut entries, "ssl.ca.location", path.clone());
            },
            KafkyPEM::Base64(encoded) => match decode_pem(encoded.as_str()) {
                Ok(text) => {
                    ca_pem = Some(text);
                },
                Err(fault) => {
                    return Err(self.pem_error(PemUse::Truststore, fault));
                },
            },
            KafkyPEM::Pem(text) => {
                ca_pem = Some(text.clone());
            },
        }
        push_setting(&mut entries, "security.protocol", String::from_str("ssl"));
        match self.push_pem(&mut entries, PemUse::Certificate, &ssl.certificate) {
            Ok(()) => {},
            Err(error) => {
                return Err(error);
            },
        }
        match self.push_pem(&mut entries, PemUse::PrivateKey, &ssl.private_key.key) {
            Ok(()) => {},
            Err(error) => {
                return Err(error);
            },
        }
        match &ssl.private_key.password {
            Some(password) => {
                push_setting(&mut entries, "ssl.key.password", password.clone());
            },
            None => {},
        }
        let settings = ClientSettings { entries, ca_pem };
        proof {
            let rest = ssl_settings(*ssl)->Ok_0;
            assert(settings@.entries =~= before + rest.entries);
        }
        Ok(settings)
    }

    fn environment_not_found(&self) -> (error: KafkyError)
        ensures
            self.reports(SettingsFault::EnvironmentNotFound, error),
    {
        KafkyError::EnvironmentNotFound(
            String::from_str(self.environment),
            join(&self.kafky_config.environment_names(), ","),
        )
    }

    fn plain_settings(entries: Vec<(String, String)>, username: &String, password: &String) -> (settings:
        ClientSettings)
        ensures
            settings@ == (SettingsModel {
                entries: settings_view(entries@) + seq![
                    ("security.protocol"@, "plaintext"@),
                    ("sasl.username"@, username@),
                    ("sasl.password"@, password@),
                ],
                ca_pem: None,
            }),
    {
        let ghost before = settings_view(entries@);
        let mut entries = entries;
        push_setting(&mut entries, "security.protocol", String::from_str("plaintext"));
        push_setting(&mut entries, "sasl.username", username.clone());
        push_setting(&mut entries, "sasl.password", password.clone());
        let settings = ClientSettings { entries, ca_pem: None };
        assert(settings@.entries =~= before + seq![
            ("security.protocol"@, "plaintext"@),
            ("sasl.username"@, username@),
            ("sasl.password"@, password@),
        ]);
        settings
    }

    fn settings_for(&self, environment: &KafkyEnvironment, credential: &KafkyCredential) -> (r:
        Result<ClientSettings, KafkyError>)
        ensures
            match credential_settings(credential.credential) {
                Ok(rest) => r matches Ok(settings) && settings@ == (SettingsModel {
                    entries: seq![
                        ("bootstrap.servers"@, joined(broker_names(environment.brokers@), ","@)),
                    ] + rest.entries,
                    ca_pem: rest.ca_pem,
                }),
                Err(fault) => r matches Err(error) && self.reports(fault, error),
            },
    {
        let mut entries: Vec<(String, String)> = Vec::new();
        assert(environment.brokers.deep_view() =~= broker_names(environment.brokers@));
        push_setting(&mut entries, "bootstrap.servers", join(&environment.brokers, ","));
        assert(settings_view(entries@) =~= seq![
            ("bootstrap.servers"@, joined(broker_names(environment.brokers@), ","@)),
        ]);
        match &credential.credential {
            KafkyCredentialKind::Ssl(ssl) => self.ssl_settings(entries, ssl),
            KafkyCredentialKind::Plain(plain) => Ok(
                Self::plain_settings(entries, &plain.username, &plain.password),
            ),
        }
    }

    /// Works out the settings of every connection of this client: the brokers
    /// of its environment, and what its credential asks for.
    pub fn config_builder(&self) -> (r: Result<ClientSettings, KafkyError>)
        ensures
            self.settled(r, self.settings()),
    {
        proof {
            lemma_first_place(environment_names(self.kafky_config.environments@), self.environment@);
        }
        let environment = match self.kafky_config.get_environment(self.environment) {
            Some(environment) => environment,
            None => {
                return Err(self.environment_not_found());
            },
        };
        proof {
            lemma_first_place(credential_names(environment.credentials@), self.credential@);
        }
        let credential = match environment.get_credential(self.credential) {
            Some(credential) => credential,
            None => {
                return Err(
                    KafkyError::CredentialNotFound(
                        String::from_str(self.credential),
                        String::from_str(self.environment),
                        join(&environment.get_credential_names(), ","),
                    ),
                );
            },
        };
        self.settings_for(environment, credential)
    }
}

/// The text of a switch: `true` or `false`.
pub open spec fn switch_text(on: bool) -> Seq<char> {
    if on {
        "true"@
    } else {
        "false"@
    }
}

/// The settings that a consumer adds to those of its client: its group,
/// whether it commits by itself, how long the cluster waits for it before it
/// counts it as gone, and where it starts without a committed offset.
pub open spec fn consumer_entries(properties: KafkyConsumeProperties) -> Seq<Setting> {
    seq![
        ("group.id"@, properties.consumer_group@),
        ("enable.auto.commit"@, switch_text(properties.auto_commit)),
        ("session.timeout.ms"@, "6000"@),
        ("auto.offset.reset"@, properties.offset.broker_name()),
    ]
}

/// The setting that a producer adds to those of its client: how long a
/// message may wait to be delivered.
pub open spec fn producer_entries() -> Seq<Setting> {
    seq![("message.timeout.ms"@, "5000"@)]
}

/// `base` with `added` behind its entries.
pub open spec fn extended(
    base: Result<SettingsModel, SettingsFault>,
    added: Seq<Setting>,
) -> Result<SettingsModel, SettingsFault> {
    match base {
        Ok(settings) => Ok(
            SettingsModel { entries: settings.entries + added, ca_pem: settings.ca_pem },
        ),
        Err(fault) => Err(fault),
    }
}

impl<'a> KafkyClient<'a> {
    /// Works out the settings of a consumer of this client.
    pub fn consumer_settings(&self, properties: &KafkyConsumeProperties) -> (r: Result<
        ClientSettings,
        KafkyError,
    >)
        ensures
            self.settled(r, extended(self.settings(), consumer_entries(*properties))),
    {
        let mut settings = match self.config_builder() {
            Ok(settings) => settings,
            Err(error) => {
                return Err(error);
            },
        };
        let ghost base = settings@;
        let switch = if properties.auto_commit {
            "true"
        } else {
            "false"
        };
        push_setting(&mut settings.entries, "group.id", properties.consumer_group.clone());
        push_setting(&mut settings.entries, "enable.auto.commit", String::from_str(switch));
        push_setting(&mut settings.entries, "session.timeout.ms", String::from_str("6000"));
        push_setting(
            &mut settings.entries,
            "auto.offset.reset",
            String::from_str(properties.offset.broker_value()),
        );
        assert(settings@.entries =~= base.entries + consumer_entries(*properties));
        Ok(settings)
    }

    /// Works out the settings of a producer of this client.
    pub fn producer_settings(&self) -> (r: Result<ClientSettings, KafkyError>)
        ensures
            self.settled(r, extended(self.settings(), producer_entries())),
    {
        let mut settings = match self.config_builder() {
            Ok(settings) => settings,
            Err(error) => {
                return Err(error);
            },
        };
        let ghost base = settings@;
        push_setting(&mut settings.entries, "message.timeout.ms", String::from_str("5000"));
        assert(settings@.entries =~= base.entries + producer_entries());
        Ok(settings)
    }
}

} // verus!
