use networking::settings::{
    self, configure, scout_cfg, scout_settings, session_settings, ConfigError, Setting,
};

fn key_values(settings: &[Setting]) -> Vec<(&str, &str)> {
    settings.iter().map(|s| (s.key.as_str(), s.value.as_str())).collect()
}

#[test]
fn settings_of_a_session() {
    let settings = session_settings(0xabc0_0123_4567_89ab_cdef, Some("home"));
    let expected = vec![
        ("id", "\"abc00123456789abcdef\""),
        ("mode", "\"peer\""),
        ("scouting/multicast/enabled", "true"),
        ("scouting/multicast/autoconnect", "[]"),
        ("scouting/gossip/multihop", "true"),
        ("namespace", "\"home\""),
        ("transport/link/tx/batch_size", "9216"),
        ("timestamping/enabled", "true"),
        ("plugins/storage_manager/__required__", "true"),
    ];
    assert_eq!(key_values(&settings[..9]), expected);
    assert_eq!(settings.len(), 10);
    assert_eq!(settings[9].key, "plugins/storage_manager/storages/mem1");
    assert_eq!(
        settings[9].value.split_whitespace().collect::<String>(),
        "{key_expr:\"storage/mem1/**\",strip_prefix:\"storage/mem1\",volume:\"memory\",replication:{interval:2,}}",
    );
}

#[test]
fn identities_are_written_in_hexadecimal() {
    assert_eq!(session_settings(0, None)[0].value, "\"0\"");
    assert_eq!(session_settings(9, None)[0].value, "\"9\"");
    assert_eq!(session_settings(10, None)[0].value, "\"a\"");
    assert_eq!(session_settings(255, None)[0].value, "\"ff\"");
    assert_eq!(session_settings(256, None)[0].value, "\"100\"");
    assert_eq!(
        session_settings(u128::MAX, None)[0].value,
        "\"ffffffffffffffffffffffffffffffff\"",
    );
}

#[test]
fn different_identities_are_told_apart() {
    assert_ne!(session_settings(0x1f, None)[0].value, session_settings(0xf1, None)[0].value);
}

#[test]
fn the_default_namespace() {
    assert_eq!(session_settings(1, None)[5].value, "\"exo\"");
}

#[test]
fn namespaces_are_escaped() {
    assert_eq!(session_settings(1, Some(""))[5].value, "\"\"");
    assert_eq!(session_settings(1, Some("a\"b\\c\n"))[5].value, "\"a\\\"b\\\\c\\n\"");
}

#[test]
fn no_two_settings_have_one_key() {
    let settings = session_settings(1, None);
    for i in 0..settings.len() {
        for j in 0..i {
            assert_ne!(settings[i].key, settings[j].key);
        }
    }
}

#[test]
fn settings_of_a_scout() {
    let settings = scout_settings("eth0");
    assert_eq!(key_values(&settings), vec![("scouting/multicast/interface", "\"eth0\"")]);
}

#[test]
fn a_session_is_configured() {
    let config = settings::cfg(0xabcd, Some("home")).unwrap();
    assert_eq!(config.get_json("id").unwrap(), "\"abcd\"");
    assert_eq!(config.get_json("mode").unwrap(), "\"peer\"");
    assert_eq!(config.get_json("scouting/multicast/enabled").unwrap(), "true");
    assert_eq!(config.get_json("scouting/multicast/autoconnect").unwrap(), "[]");
    assert_eq!(config.get_json("scouting/gossip/multihop").unwrap(), "true");
    assert_eq!(config.get_json("namespace").unwrap(), "\"home\"");
    assert_eq!(config.get_json("transport/link/tx/batch_size").unwrap(), "9216");
    assert_eq!(config.get_json("timestamping/enabled").unwrap(), "true");
    assert_eq!(config.get_json("plugins/storage_manager/__required__").unwrap(), "true");
    assert_eq!(
        config.get_json("plugins/storage_manager/storages/mem1/key_expr").unwrap(),
        "\"storage/mem1/**\"",
    );
    assert_eq!(
        config.get_json("plugins/storage_manager/storages/mem1/volume").unwrap(),
        "\"memory\"",
    );
    assert_eq!(
        config.get_json("plugins/storage_manager/storages/mem1/strip_prefix").unwrap(),
        "\"storage/mem1\"",
    );
    assert_eq!(
        config.get_json("plugins/storage_manager/storages/mem1/replication/interval").unwrap(),
        "2",
    );
}

#[test]
fn a_session_is_in_the_default_namespace() {
    let config = settings::cfg(1, None).unwrap();
    assert_eq!(config.get_json("namespace").unwrap(), "\"exo\"");
}

#[test]
fn a_session_has_the_identity_that_was_asked_for() {
    for (identity, text) in [
        (1, "\"1\""),
        (0x10, "\"10\""),
        (u128::MAX, "\"ffffffffffffffffffffffffffffffff\""),
    ] {
        let config = settings::cfg(identity, None).unwrap();
        assert_eq!(config.get_json("id").unwrap(), text);
    }
}

#[test]
fn namespaces_without_wildcards_are_accepted() {
    for namespace in ["a", "Z9", "0", "exo2", "my home", "a/b-c/d_e", "x=1;y", "~(@)"] {
        let config = settings::cfg(1, Some(namespace)).unwrap();
        assert_eq!(config.get_json("namespace").unwrap(), format!("\"{namespace}\""));
    }
}

#[test]
fn namespaces_that_name_no_key_are_refused() {
    for namespace in ["", "/a", "a/", "a//b", "*", "a/**", "a$b", "a$*b", "a#b", "a?b", "/"] {
        assert!(settings::cfg(1, Some(namespace)).is_err());
    }
}

#[test]
fn identity_zero_is_refused() {
    let error = settings::cfg(0, None).unwrap_err();
    assert!(!error.message.is_empty());
}

#[test]
fn a_namespace_with_a_wildcard_is_refused() {
    let error = settings::cfg(1, Some("a/**")).unwrap_err();
    assert!(!error.message.is_empty());
}

#[test]
fn a_scout_is_configured() {
    let config = scout_cfg("eth0").unwrap();
    assert_eq!(config.get_json("scouting/multicast/interface").unwrap(), "\"eth0\"");
}

#[test]
fn names_that_need_no_escapes_are_accepted() {
    for name in ["", "br-lan", "eth0.1", "wlan 0", "it's", "\u{fc}ber", "\u{7f}"] {
        let config = scout_cfg(name).unwrap();
        assert_eq!(
            config.get_json("scouting/multicast/interface").unwrap(),
            format!("\"{name}\""),
        );
    }
}

#[test]
fn an_interface_name_with_a_quote_is_refused() {
    let error = scout_cfg("eth\"0").unwrap_err();
    assert!(!error.message.is_empty());
}

#[test]
fn later_settings_take_effect_after_earlier_ones() {
    let mut settings = scout_settings("eth0");
    settings.extend(scout_settings("eth1"));
    let config = configure(zenoh::Config::default(), &settings).unwrap();
    assert_eq!(config.get_json("scouting/multicast/interface").unwrap(), "\"eth1\"");
}

#[test]
fn a_refused_setting_refuses_the_rest() {
    let mut settings = scout_settings("eth0");
    settings.extend(session_settings(0, None));
    settings.extend(scout_settings("eth1"));
    assert!(configure(zenoh::Config::default(), &settings).is_err());
}

#[test]
fn the_error_is_that_of_the_first_refused_setting() {
    let mut settings = session_settings(0, Some("a*"));
    let error = configure(zenoh::Config::default(), &settings).unwrap_err();
    let zero = settings::cfg(0, None).unwrap_err();
    let wild = settings::cfg(1, Some("a*")).unwrap_err();
    assert_eq!(error.message, zero.message);
    assert_ne!(error.message, wild.message);
    settings.remove(0);
    let error = configure(zenoh::Config::default(), &settings).unwrap_err();
    assert_eq!(error.message, wild.message);
}

#[test]
fn a_config_error_keeps_what_was_said() {
    assert_eq!(ConfigError::new("no".to_string()).message, "no");
}

#[test]
fn no_settings_leave_a_configuration_as_it_was() {
    let config = configure(zenoh::Config::default(), &vec![]).unwrap();
    assert_eq!(
        config.get_json("scouting").unwrap(),
        zenoh::Config::default().get_json("scouting").unwrap(),
    );
}
