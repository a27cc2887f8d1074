use kafky::client::consumer::{
    process_message, KafkyConsumerMessage, KafkyConsumerOffset, PayloadFormat, RawMessage,
};
use kafky::cmd::config::ConfigCmd;
use kafky::cmd::consume::ConsumeCmd;
use kafky::cmd::create::{CreateCmd, CreatePlan};
use kafky::cmd::delete::{DeleteCmd, DeletePlan};
use kafky::cmd::produce::ProduceCmd;
use kafky::cmd::root::{ClusterCommand, Invocation, RootCmd};
use kafky::config::{
    KafkyConfig, KafkyCredential, KafkyCredentialKind, KafkyEnvironment, KafkyPlainCredential,
};
use kafky::errors::KafkyError;

fn names(list: &[&str]) -> Vec<String> {
    list.iter().map(|s| s.to_string()).collect()
}

fn config() -> KafkyConfig {
    let credential = |name: &str| KafkyCredential {
        name: name.to_string(),
        credential: KafkyCredentialKind::Plain(KafkyPlainCredential {
            username: "u".to_string(),
            password: "p".to_string(),
        }),
    };
    KafkyConfig::load(
        "config.yml",
        Some(Ok(vec![
            KafkyEnvironment {
                name: "single".to_string(),
                brokers: vec![],
                credentials: vec![credential("only")],
            },
            KafkyEnvironment {
                name: "double".to_string(),
                brokers: vec![],
                credentials: vec![credential("first"), credential("second")],
            },
            KafkyEnvironment { name: "bare".to_string(), brokers: vec![], credentials: vec![] },
        ])),
    )
    .unwrap()
}

fn text_message(topic: &str, key: Option<&[u8]>, payload: &str, timestamp: Option<i64>) -> KafkyConsumerMessage {
    process_message(
        RawMessage {
            topic: topic.to_string(),
            partition: 0,
            offset: 0,
            key: key.map(|k| k.to_vec()),
            payload: payload.as_bytes().to_vec(),
            timestamp,
        },
        PayloadFormat::Text,
    )
    .unwrap()
}

#[test]
fn named_credential_is_taken_as_it_is() {
    assert_eq!(RootCmd::extract_credential(Some("mine"), &config(), "double"), Ok("mine".to_string()));
    assert_eq!(RootCmd::extract_credential(Some("mine"), &config(), "nowhere"), Ok("mine".to_string()));
}

#[test]
fn only_credential_of_an_environment_is_the_default() {
    assert_eq!(RootCmd::extract_credential(None, &config(), "single"), Ok("only".to_string()));
}

#[test]
fn credential_must_be_named_where_there_is_a_choice() {
    assert_eq!(
        RootCmd::extract_credential(None, &config(), "double"),
        Err(KafkyError::NoCredentialSpecified("first,second".to_string()))
    );
    assert_eq!(
        RootCmd::extract_credential(None, &config(), "bare"),
        Err(KafkyError::NoCredentialSpecified(String::new()))
    );
}

#[test]
fn default_credential_needs_a_known_environment() {
    assert_eq!(
        RootCmd::extract_credential(None, &config(), "nowhere"),
        Err(KafkyError::EnvironmentNotFound("nowhere".to_string(), "single,double,bare".to_string()))
    );
}

#[test]
fn command_line_without_a_command_is_invalid() {
    assert_eq!(RootCmd::route(None, Some("single"), None, &config()), Err(KafkyError::InvalidCommand()));
}

#[test]
fn config_command_needs_no_environment() {
    assert_eq!(RootCmd::route(Some("config"), None, None, &config()), Ok(Invocation::Config));
    assert_eq!(RootCmd::route(Some("config"), Some("nowhere"), Some("x"), &config()), Ok(Invocation::Config));
}

#[test]
fn cluster_commands_need_an_environment() {
    for command in ["get", "produce", "consume", "create", "delete", "unknown"] {
        assert_eq!(
            RootCmd::route(Some(command), None, Some("only"), &config()),
            Err(KafkyError::EnvironmentParamNotFound())
        );
    }
}

#[test]
fn cluster_commands_are_routed_with_environment_and_credential() {
    let expected = [
        ("get", ClusterCommand::Get),
        ("produce", ClusterCommand::Produce),
        ("consume", ClusterCommand::Consume),
        ("create", ClusterCommand::Create),
        ("delete", ClusterCommand::Delete),
    ];
    for (name, command) in expected {
        assert_eq!(ClusterCommand::from_name(name), Some(command));
        assert_eq!(
            RootCmd::route(Some(name), Some("single"), None, &config()),
            Ok(Invocation::Cluster {
                command,
                environment: "single".to_string(),
                credential: "only".to_string(),
            })
        );
    }
    assert_eq!(
        RootCmd::route(Some("get"), Some("double"), Some("second"), &config()),
        Ok(Invocation::Cluster {
            command: ClusterCommand::Get,
            environment: "double".to_string(),
            credential: "second".to_string(),
        })
    );
}

#[test]
fn credential_is_settled_before_the_command_is_looked_at() {
    assert_eq!(
        RootCmd::route(Some("unknown"), Some("double"), None, &config()),
        Err(KafkyError::NoCredentialSpecified("first,second".to_string()))
    );
    assert_eq!(
        RootCmd::route(Some("unknown"), Some("single"), None, &config()),
        Err(KafkyError::InvalidCommand())
    );
    assert_eq!(ClusterCommand::from_name("config"), None);
    assert_eq!(ClusterCommand::from_name("Get"), None);
}

#[test]
fn editor_command_is_editor_blank_path() {
    assert_eq!(ConfigCmd::editor_command("vim\n", "/home/u/.kafky/config.yml"), "vim /home/u/.kafky/config.yml");
    assert_eq!(ConfigCmd::editor_command("code -w\n", "c.yml"), "code -w c.yml");
    assert_eq!(ConfigCmd::editor_command("nano", "c.yml"), "nan c.yml");
    assert_eq!(ConfigCmd::editor_command("", "c.yml"), " c.yml");
}

#[test]
fn create_plan_sorts_new_from_existing_topics() {
    assert_eq!(
        CreateCmd::plan(&names(&["new", "orders", "newer"]), &names(&["payments", "orders"])),
        CreatePlan { to_create: names(&["new", "newer"]), already_existent: names(&["orders"]) }
    );
    assert_eq!(
        CreateCmd::plan(&names(&["b", "a"]), &names(&["a", "b", "c"])),
        CreatePlan { to_create: names(&[]), already_existent: names(&["a", "b"]) }
    );
    assert_eq!(
        CreateCmd::plan(&names(&[]), &names(&["a"])),
        CreatePlan { to_create: names(&[]), already_existent: names(&[]) }
    );
}

#[test]
fn delete_plan_sorts_existing_from_missing_topics() {
    assert_eq!(
        DeleteCmd::plan(&names(&["gone", "orders", "lost"]), &names(&["payments", "orders"])),
        DeletePlan { to_delete: names(&["orders"]), missing: names(&["gone", "lost"]) }
    );
    assert_eq!(
        DeleteCmd::plan(&names(&["a", "a"]), &names(&["a"])),
        DeletePlan { to_delete: names(&["a", "a"]), missing: names(&[]) }
    );
}

#[test]
fn deleting_asks_unless_told_not_to() {
    assert!(DeleteCmd::confirmed(true, "n"));
    assert!(DeleteCmd::confirmed(true, ""));
    assert!(DeleteCmd::confirmed(false, "y\n"));
    assert!(DeleteCmd::confirmed(false, " Y "));
    assert!(!DeleteCmd::confirmed(false, "n\n"));
    assert!(!DeleteCmd::confirmed(false, "\n"));
    assert!(!DeleteCmd::confirmed(false, "yes"));
    assert_eq!(
        DeleteCmd::question(&names(&["a", "b"])),
        "Are you sure that you want to delete the a, b topics? [y/N]"
    );
}

#[test]
fn line_without_separator_is_all_payload() {
    assert_eq!(ProduceCmd::extract_key_payload(None, "a:b"), Ok((None, "a:b".to_string())));
    assert_eq!(ProduceCmd::extract_key_payload(None, ""), Ok((None, String::new())));
}

#[test]
fn line_parts_at_its_one_separator() {
    assert_eq!(
        ProduceCmd::extract_key_payload(Some(":"), "key:payload"),
        Ok((Some("key".to_string()), "payload".to_string()))
    );
    assert_eq!(
        ProduceCmd::extract_key_payload(Some("::"), "k::p"),
        Ok((Some("k".to_string()), "p".to_string()))
    );
    assert_eq!(
        ProduceCmd::extract_key_payload(Some(":"), ":"),
        Ok((Some(String::new()), String::new()))
    );
    assert_eq!(
        ProduceCmd::extract_key_payload(Some("→"), "clé→välue"),
        Ok((Some("clé".to_string()), "välue".to_string()))
    );
    assert_eq!(
        ProduceCmd::extract_key_payload(Some("aa"), "aaa"),
        Ok((Some(String::new()), "a".to_string()))
    );
}

#[test]
fn line_without_or_with_two_separators_is_refused() {
    for line in ["", "payload", "a:b:c", "::", "a::"] {
        assert_eq!(
            ProduceCmd::extract_key_payload(Some(":"), line),
            Err(KafkyError::KeySeparatorNotFound()),
            "{:?}",
            line
        );
    }
    assert_eq!(ProduceCmd::extract_key_payload(Some("abc"), "ab"), Err(KafkyError::KeySeparatorNotFound()));
}

#[test]
fn parting_agrees_with_split() {
    let separators = ["", ":", "::", "ab", "a", "é", " -> "];
    let lines = [
        "", ":", "::", ":::", "a:b", "a::b", "a:b:c", "abab", "aba", "aab", "baa", "é", "aéb",
        "x -> y", "x -> y -> z", "ab", "a", "payload",
    ];
    for separator in separators {
        for line in lines {
            let parts: Vec<&str> = line.split(separator).collect();
            let expected = if parts.len() == 2 {
                Ok((Some(parts[0].to_string()), parts[1].to_string()))
            } else {
                Err(KafkyError::KeySeparatorNotFound())
            };
            assert_eq!(
                ProduceCmd::extract_key_payload(Some(separator), line),
                expected,
                "separator {:?}, line {:?}",
                separator,
                line
            );
        }
    }
}

#[test]
fn find_gives_the_first_place_in_characters() {
    assert_eq!(ProduceCmd::find("a:b:c", ":"), Some(1));
    assert_eq!(ProduceCmd::find("ééé→x", "→"), Some(3));
    assert_eq!(ProduceCmd::find("abc", "abcd"), None);
    assert_eq!(ProduceCmd::find("abc", "c"), Some(2));
    assert_eq!(ProduceCmd::find("abc", ""), Some(0));
    assert_eq!(ProduceCmd::find("", ""), Some(0));
    assert_eq!(ProduceCmd::find("", "a"), None);
    assert_eq!(ProduceCmd::find("aab", "ab"), Some(1));
}

#[test]
fn history_file_is_named_after_topic_and_separator() {
    assert_eq!(ProduceCmd::history_file_name("orders", Some(":")), "orders_:.history");
    assert_eq!(ProduceCmd::history_file_name("orders", None), "orders_.history");
    assert_eq!(ProduceCmd::history_file_name("", Some("")), "_.history");
}

#[test]
fn offset_flags_choose_the_first_policy_that_is_set() {
    assert_eq!(ConsumeCmd::extract_offset_from_arg(&names(&[])), Ok(KafkyConsumerOffset::Latest));
    assert_eq!(ConsumeCmd::extract_offset_from_arg(&names(&["latest"])), Ok(KafkyConsumerOffset::Latest));
    assert_eq!(ConsumeCmd::extract_offset_from_arg(&names(&["earliest"])), Ok(KafkyConsumerOffset::Earliest));
    assert_eq!(
        ConsumeCmd::extract_offset_from_arg(&names(&["latest", "earliest"])),
        Ok(KafkyConsumerOffset::Earliest)
    );
    assert_eq!(
        ConsumeCmd::extract_offset_from_arg(&names(&["earliest", "beginning"])),
        Ok(KafkyConsumerOffset::Beginning)
    );
    assert_eq!(
        ConsumeCmd::extract_offset_from_arg(&names(&["timestamp", "autocommit"])),
        Ok(KafkyConsumerOffset::Latest)
    );
}

#[test]
fn timestamps_are_written_as_rfc3339() {
    assert_eq!(ConsumeCmd::timestamp_text(Some(0)), Some("1970-01-01T00:00:00+00:00".to_string()));
    assert_eq!(
        ConsumeCmd::timestamp_text(Some(947_638_923_004)),
        Some("2000-01-12T01:02:03.004+00:00".to_string())
    );
    assert_eq!(
        ConsumeCmd::timestamp_text(Some(-1)),
        Some("1969-12-31T23:59:59.999+00:00".to_string())
    );
    assert_eq!(ConsumeCmd::timestamp_text(None), None);
    assert_eq!(ConsumeCmd::timestamp_text(Some(i64::MAX)), None);
    assert_eq!(ConsumeCmd::timestamp_text(Some(i64::MIN)), None);
}

#[test]
fn row_of_a_message_is_its_payload() {
    let message = text_message("orders", Some(b"k"), "hello", Some(0));
    assert_eq!(ConsumeCmd::text_row(&message, false, false, None), Some("hello".to_string()));
}

#[test]
fn row_shows_topic_time_and_key_where_asked() {
    let message = text_message("orders", Some(b"k"), "hello", Some(947_638_923_004));
    assert_eq!(
        ConsumeCmd::text_row(&message, true, true, Some("|")),
        Some("orders -> [2000-01-12T01:02:03.004+00:00] k|hello".to_string())
    );
    assert_eq!(
        ConsumeCmd::text_row(&message, true, false, None),
        Some("orders -> hello".to_string())
    );
    assert_eq!(
        ConsumeCmd::text_row(&message, false, true, None),
        Some("[2000-01-12T01:02:03.004+00:00] hello".to_string())
    );
    assert_eq!(ConsumeCmd::text_row(&message, false, false, Some("::")), Some("k::hello".to_string()));
}

#[test]
fn row_marks_missing_time_and_key() {
    let message = text_message("orders", None, "hello", None);
    assert_eq!(
        ConsumeCmd::text_row(&message, false, true, Some(":")),
        Some("[NO-TS] null:hello".to_string())
    );
    let unreadable_key = text_message("orders", Some(&[0xff]), "hello", Some(i64::MAX));
    assert_eq!(
        ConsumeCmd::text_row(&unreadable_key, false, true, Some(":")),
        Some("[NO-TS] null:hello".to_string())
    );
}

#[test]
fn row_takes_the_time_it_is_given() {
    let message = text_message("orders", None, "hello", Some(5));
    assert_eq!(
        ConsumeCmd::text_row_at(&message, Some("noon".to_string()), false, true, None),
        Some("[noon] hello".to_string())
    );
    assert_eq!(
        ConsumeCmd::text_row_at(&message, None, false, true, None),
        Some("[NO-TS] hello".to_string())
    );
    assert_eq!(
        ConsumeCmd::text_row_at(&message, Some("noon".to_string()), false, false, None),
        Some("hello".to_string())
    );
}

#[test]
fn bytes_have_no_row() {
    let message = process_message(
        RawMessage {
            topic: "orders".to_string(),
            partition: 0,
            offset: 0,
            key: None,
            payload: b"hello".to_vec(),
            timestamp: None,
        },
        PayloadFormat::Bytes,
    )
    .unwrap();
    assert_eq!(ConsumeCmd::text_row(&message, true, true, Some(":")), None);
}
