use kafky::config::{
    load_config_or_create, ConfigStep, KafkyConfig, KafkyCredential, KafkyCredentialKind, KafkyEnvironment, KafkyPEM,
    KafkyPlainCredential, KafkyPrivateKey, KafkySSLCredential, SAMPLE_TRUSTSTORE,
};
use kafky::errors::KafkyError;

fn plain(name: &str) -> KafkyCredential {
    KafkyCredential {
        name: name.to_string(),
        credential: KafkyCredentialKind::Plain(KafkyPlainCredential {
            username: format!("{}-user", name),
            password: format!("{}-password", name),
        }),
    }
}

fn environment(name: &str, credentials: &[&str]) -> KafkyEnvironment {
    KafkyEnvironment {
        name: name.to_string(),
        brokers: vec!["localhost:9094".to_string()],
        credentials: credentials.iter().map(|c| plain(c)).collect(),
    }
}

fn config() -> KafkyConfig {
    KafkyConfig::load(
        "/home/user/.kafky/config.yml",
        Some(Ok(vec![
            environment("dev", &["alice", "bob"]),
            environment("prod", &["carol"]),
            environment("dev", &["shadowed"]),
        ])),
    )
    .unwrap()
}

fn pem(value: &serde_yaml::Value) -> KafkyPEM {
    if let Some(path) = value.get("path").and_then(|v| v.as_str()) {
        KafkyPEM::Path(path.to_string())
    } else if let Some(encoded) = value.get("base64").and_then(|v| v.as_str()) {
        KafkyPEM::Base64(encoded.to_string())
    } else {
        KafkyPEM::Pem(value.get("pem").and_then(|v| v.as_str()).unwrap().to_string())
    }
}

fn environments(document: &serde_yaml::Value) -> Vec<KafkyEnvironment> {
    let mut environments = Vec::new();
    for environment in document.get("environments").unwrap().as_sequence().unwrap() {
        let mut credentials = Vec::new();
        for credential in environment.get("credentials").unwrap().as_sequence().unwrap() {
            let kind = if let Some(ssl) = credential.get("ssl") {
                let key = ssl.get("privateKey").unwrap();
                KafkyCredentialKind::Ssl(KafkySSLCredential {
                    truststore: pem(ssl.get("truststore").unwrap()),
                    certificate: pem(ssl.get("certificate").unwrap()),
                    private_key: KafkyPrivateKey {
                        key: pem(key),
                        password: key.get("password").and_then(|v| v.as_str()).map(String::from),
                    },
                })
            } else {
                let plain = credential.get("plain").unwrap();
                KafkyCredentialKind::Plain(KafkyPlainCredential {
                    username: plain.get("username").unwrap().as_str().unwrap().to_string(),
                    password: plain.get("password").unwrap().as_str().unwrap().to_string(),
                })
            };
            credentials.push(KafkyCredential {
                name: credential.get("name").unwrap().as_str().unwrap().to_string(),
                credential: kind,
            });
        }
        environments.push(KafkyEnvironment {
            name: environment.get("name").unwrap().as_str().unwrap().to_string(),
            brokers: environment
                .get("brokers")
                .unwrap()
                .as_sequence()
                .unwrap()
                .iter()
                .map(|b| b.as_str().unwrap().to_string())
                .collect(),
            credentials,
        });
    }
    environments
}

#[test]
fn parse_test() -> Result<(), KafkyError> {
    let yml_cfg = "environments:
  - name: test
    brokers:
      - localhost:9094
    credentials:
      - name: cred
        ssl:
          truststore:
            path: ./caroot.cer
          certificate:
            path: ./producer.cer
          privateKey:
            path: /producer.pkcs8
            password: priv-key-password
";
    let document: serde_yaml::Value = serde_yaml::from_str(yml_cfg).expect("error writing yml");
    let cfg = KafkyConfig::load("/tmp/config.yml", Some(Ok(environments(&document))))?;
    assert_eq!(cfg.environments.len(), 1);
    assert_eq!(cfg.path(), "/tmp/config.yml");
    let credential = cfg.get_environment("test").unwrap().get_credential("cred").unwrap();
    assert_eq!(
        credential.credential,
        KafkyCredentialKind::Ssl(KafkySSLCredential {
            truststore: KafkyPEM::Path("./caroot.cer".to_string()),
            certificate: KafkyPEM::Path("./producer.cer".to_string()),
            private_key: KafkyPrivateKey {
                key: KafkyPEM::Path("/producer.pkcs8".to_string()),
                password: Some("priv-key-password".to_string()),
            },
        })
    );
    Ok(())
}

#[test]
fn load_reports_a_missing_file() {
    assert_eq!(
        KafkyConfig::load("/nowhere/config.yml", None),
        Err(KafkyError::ConfigurationNotFound("/nowhere/config.yml".to_string()))
    );
}

#[test]
fn load_reports_an_unreadable_file() {
    assert_eq!(
        KafkyConfig::load("/tmp/config.yml", Some(Err("missing field `name`".to_string()))),
        Err(KafkyError::InvalidConfiguration("missing field `name`".to_string()))
    );
}

#[test]
fn load_keeps_path_and_environments() {
    let config = config();
    assert_eq!(config.path(), "/home/user/.kafky/config.yml");
    assert_eq!(config.path, "/home/user/.kafky/config.yml");
    assert_eq!(config.environments.len(), 3);
}

#[test]
fn environment_is_found_by_its_name() {
    let config = config();
    assert_eq!(config.get_environment("prod").map(|e| e.credentials.len()), Some(1));
    assert_eq!(config.get_environment("staging"), None);
    assert_eq!(config.get_environment("PROD"), None);
    assert_eq!(config.get_environment(""), None);
}

#[test]
fn first_of_two_environments_of_a_name_is_found() {
    let config = config();
    let found = config.get_environment("dev").unwrap();
    assert!(std::ptr::eq(found, &config.environments[0]));
    assert_eq!(found.get_credential_names(), vec!["alice", "bob"]);
}

#[test]
fn environment_names_come_in_their_order() {
    let config = config();
    assert_eq!(config.get_environment_names(), vec!["dev", "prod", "dev"]);
    assert_eq!(config.environment_names(), vec!["dev", "prod", "dev"]);
    let empty = KafkyConfig::load("c.yml", Some(Ok(vec![]))).unwrap();
    assert!(empty.get_environment_names().is_empty());
}

#[test]
fn credential_is_found_by_its_name() {
    let dev = environment("dev", &["alice", "bob", "alice"]);
    let found = dev.get_credential("alice").unwrap();
    assert!(std::ptr::eq(found, &dev.credentials[0]));
    assert_eq!(dev.get_credential("bob"), Some(&plain("bob")));
    assert_eq!(dev.get_credential("carol"), None);
    assert_eq!(dev.get_credential_names(), vec!["alice", "bob", "alice"]);
    assert!(environment("empty", &[]).get_credential_names().is_empty());
}

#[test]
fn config_folder_is_the_parent_of_the_path() {
    assert_eq!(config().config_folder(), Some("/home/user/.kafky".to_string()));
    let bare = KafkyConfig::load("config.yml", Some(Ok(vec![]))).unwrap();
    assert_eq!(bare.config_folder(), Some(String::new()));
    let root = KafkyConfig::load("/", Some(Ok(vec![]))).unwrap();
    assert_eq!(root.config_folder(), None);
    let nameless = KafkyConfig::load("", Some(Ok(vec![]))).unwrap();
    assert_eq!(nameless.config_folder(), None);
}

#[test]
fn sample_has_one_environment_with_two_credentials() {
    let sample = KafkyConfig::create_sample("/home/user/.kafky/config.yml");
    assert_eq!(sample.path(), "/home/user/.kafky/config.yml");
    assert_eq!(
        sample.environments,
        vec![KafkyEnvironment {
            name: "sample-env".to_string(),
            brokers: vec!["localhost:9094".to_string()],
            credentials: vec![
                KafkyCredential {
                    name: "plain-cred".to_string(),
                    credential: KafkyCredentialKind::Plain(KafkyPlainCredential {
                        username: "kafka-user".to_string(),
                        password: "kafka-password".to_string(),
                    }),
                },
                KafkyCredential {
                    name: "ssl-cred".to_string(),
                    credential: KafkyCredentialKind::Ssl(KafkySSLCredential {
                        truststore: KafkyPEM::Pem(SAMPLE_TRUSTSTORE.to_string()),
                        certificate: KafkyPEM::Path("/my.cert.pem".to_string()),
                        private_key: KafkyPrivateKey {
                            key: KafkyPEM::Base64("bXkgcHJpdmF0ZSBrZXk=".to_string()),
                            password: Some("my-cert-password".to_string()),
                        },
                    }),
                },
            ],
        }]
    );
}

#[test]
fn sample_truststore_has_the_shape_of_a_certificate() {
    assert!(SAMPLE_TRUSTSTORE.starts_with("-----BEGIN CERTIFICATE-----DQEJARYAMIGf"));
    assert!(SAMPLE_TRUSTSTORE.ends_with("fKiGl\n                    -----END CERTIFICATE-----"));
    assert_eq!(SAMPLE_TRUSTSTORE.lines().count(), 6);
    assert_eq!(SAMPLE_TRUSTSTORE.len(), 27 + 64 * 5 + 21 * 5 + 25);
}

#[test]
fn sample_is_made_only_on_a_yes() {
    for answer in ["y", "Y", "y\n", "  Y \r\n", "\ty"] {
        assert_eq!(
            KafkyConfig::create_configuration_sample("/c.yml", answer),
            Ok(KafkyConfig::create_sample("/c.yml"))
        );
    }
    for answer in ["", "\n", "n", "yes", "yy", "N", "y y"] {
        assert_eq!(
            KafkyConfig::create_configuration_sample("/c.yml", answer),
            Err(KafkyError::ConfigurationNotFound("/c.yml".to_string()))
        );
    }
}

#[test]
fn sample_question_names_the_file() {
    assert_eq!(
        KafkyConfig::sample_question("/home/u/.kafky/config.yml"),
        "Configuration file /home/u/.kafky/config.yml not found, do you want to create a sample one? [y/N]: "
    );
}

#[test]
fn missing_configuration_leads_to_the_offer_of_a_sample() {
    assert_eq!(
        load_config_or_create(Err(KafkyError::ConfigurationNotFound("/c.yml".to_string()))),
        ConfigStep::OfferSample
    );
    assert_eq!(
        load_config_or_create(Err(KafkyError::InvalidConfiguration("bad".to_string()))),
        ConfigStep::Failed(KafkyError::InvalidConfiguration("bad".to_string()))
    );
    assert_eq!(load_config_or_create(Ok(config())), ConfigStep::Ready(config()));
}
