use kafky::errors::KafkyError;

#[test]
fn every_error_has_its_message() {
    let s = |t: &str| t.to_string();
    assert_eq!(KafkyError::ConfigurationNotFound(s("/c.yml")).message(), "Configuration not found: /c.yml");
    assert_eq!(KafkyError::InvalidConfiguration(s("bad")).message(), "Invalid configuration bad");
    assert_eq!(KafkyError::EnvironmentParamNotFound().message(), "Environment parameter is mandatory");
    assert_eq!(
        KafkyError::EnvironmentNotFound(s("prod"), s("dev,test")).message(),
        "Environment not found prod, available environment dev,test"
    );
    assert_eq!(
        KafkyError::NoCredentialSpecified(s("a,b")).message(),
        "No credential specified, available credentials a,b"
    );
    assert_eq!(KafkyError::ParseError(s("eof")).message(), "Parse error :eof");
    assert_eq!(
        KafkyError::CredentialNotFound(s("c"), s("dev"), s("a,b")).message(),
        "Credential not found c, in the environment dev available credentials a,b"
    );
    assert_eq!(KafkyError::KafkaError(s("down")).message(), "Kafka error:down");
    assert_eq!(KafkyError::InvalidCommand().message(), "Invalid command");
    assert_eq!(KafkyError::InvalidOffset().message(), "Invalid offset");
    assert_eq!(
        KafkyError::CannotCreateSampleConfig(s("denied")).message(),
        "Error creating sample config: denied"
    );
    assert_eq!(KafkyError::TopicNotFound(s("orders")).message(), "Topic not found: orders");
    assert_eq!(KafkyError::InvalidJson(s("eof")).message(), "Invalid json: eof");
    assert_eq!(KafkyError::KeySeparatorNotFound().message(), "Key separator not found");
    assert_eq!(KafkyError::Exit().message(), "Exit");
}

#[test]
fn messages_keep_empty_and_unusual_parts() {
    assert_eq!(KafkyError::ParseError(String::new()).message(), "Parse error :");
    assert_eq!(KafkyError::TopicNotFound("тема".to_string()).message(), "Topic not found: тема");
}
