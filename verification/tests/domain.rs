use fastdl::domain::{validate_relative, validate_url, Engine, NodeConfig, NodeOs, ServerInput, SetupInput};

#[test]
fn node_os_accepts_legacy_and_normalized_names() {
    for (name, expected) in [
        ("", NodeOs::Linux),
        (" Linux ", NodeOs::Linux),
        ("Windows", NodeOs::Windows),
        ("macos", NodeOs::Unsupported),
    ] {
        assert_eq!(NodeOs::parse(name), expected, "{name}");
    }
}

#[test]
fn node_config_requires_an_ip_address_and_nonzero_port() {
    for listen in [
        "example.com:8080",
        "0.0.0.0:0",
        "0.0.0.0:00",
        "0.0.0.0:000",
        "[::]:0",
        "[::]:00",
        "[::1]:000",
    ] {
        let config = NodeConfig {
            listen: listen.into(),
            ..Default::default()
        };

        assert!(config.validate().is_err(), "{listen}");
    }
}

#[test]
fn node_config_accepts_ipv4_ipv6_and_scoped_addresses() {
    for listen in ["0.0.0.0:8080", "127.0.0.1:1", "[::]:8080", "[::1]:65535", "[fe80::1%2]:80", "[::ffff:1.2.3.4]:80"] {
        let config = NodeConfig {
            listen: listen.into(),
            ..Default::default()
        };
        assert!(config.validate().is_ok(), "{listen}");
    }
    for listen in ["0.0.0.0:65536", "1.2.3:80", "256.0.0.1:80", "::1:80", "[::1]", "0.0.0.0:+80", "01.0.0.0:80"] {
        let config = NodeConfig {
            listen: listen.into(),
            ..Default::default()
        };
        assert!(config.validate().is_err(), "{listen}");
    }
}

#[test]
fn node_config_messages_name_the_problem() {
    let config = NodeConfig { listen: "example.com:8080".into(), ..Default::default() };
    assert_eq!(config.validate().unwrap_err().message, "Listen address must be an IP address and port");
    let config = NodeConfig { listen: "0.0.0.0:0".into(), ..Default::default() };
    assert_eq!(config.validate().unwrap_err().message, "Listen port must not be zero");
    let config = NodeConfig { listen: "0.0.0.0:8080".into(), public_base_url: "ftp://x".into() };
    assert_eq!(config.validate().unwrap_err().status, 400);
    let config = NodeConfig::default();
    assert_eq!(config.listen, "0.0.0.0:8080");
    assert!(config.public_base_url.is_empty());
    assert!(config.validate().is_ok());
}

#[test]
fn internal_directories_are_rejected_case_insensitively() {
    for game_dir in ["cfg", "cstrike/Addons", "Plugins", "cstrike/Backups"] {
        let settings = ServerInput {
            game_dir: game_dir.into(),
            ..ServerInput::for_game("css").0
        };

        assert!(settings.validate().is_err(), "{game_dir}");
    }
}

#[test]
fn game_defaults_preserve_engine_and_directory_mappings() {
    for (game, expected_engine, expected_directory) in [
        ("CS16", Engine::Goldsource, "cstrike"),
        ("hl", Engine::Goldsource, "valve"),
        ("css", Engine::Source, "cstrike"),
        ("tf2", Engine::Source, "tf"),
        ("l4d2", Engine::Source, "left4dead2"),
    ] {
        let (settings, supported) = ServerInput::for_game(game);

        assert!(supported, "{game}");
        assert_eq!(settings.engine, expected_engine, "{game}");
        assert_eq!(settings.game_dir, expected_directory, "{game}");
    }

    let (settings, supported) = ServerInput::for_game("unknown");

    assert!(!supported);
    assert!(!settings.enabled);
    assert!(settings.game_dir.is_empty());
}

#[test]
fn engine_names_round_trip() {
    for engine in [Engine::Goldsource, Engine::Source] {
        assert_eq!(Engine::parse(engine.as_str()), Some(engine));
    }
    assert_eq!(Engine::as_str(Engine::Goldsource), "goldsource");
    assert_eq!(Engine::as_str(Engine::Source), "source");
}

#[test]
fn relative_paths_reject_traversal_and_ambiguous_windows_paths() {
    for path in [
        "../other",
        "/etc",
        "cstrike/../../private",
        "cstrike\\..\\private",
        "C:/games",
        "cstrike/%2e%2e",
        "cstrike//maps",
        ".git",
        "cstrike/.",
        "cstrike/trailing.",
        "cstrike/trailing ",
        "cstrike/file:stream",
        "cstrike/line\nbreak",
    ] {
        assert!(validate_relative(path, false).is_err(), "{path}");
    }

    assert!(validate_relative("servers/css", false).is_ok());
    assert!(validate_relative("", true).is_ok());
    assert!(validate_relative("", false).is_err());
}

#[test]
fn relative_paths_are_limited_to_512_bytes() {
    let long = "a".repeat(512);
    assert!(validate_relative(&long, false).is_ok());
    let longer = "a".repeat(513);
    assert!(validate_relative(&longer, false).is_err());
    let wide = "é".repeat(257);
    assert!(validate_relative(&wide, false).is_err());
}

#[test]
fn urls_reject_credentials_encoded_paths_and_configuration_breakouts() {
    for url in [
        "https://",
        "https://-example.com/file",
        "https://user@example.com/file",
        "https://example.com/../private",
        "https://example.com/%2e%2e/private",
        "https://example.com/file?query=value",
        "https://example.com/file#fragment",
        "https://example.com/a\\b",
        "https://example.com/a\"b",
        "https://example.com/line\nbreak",
    ] {
        assert!(validate_url(url, false).is_err(), "{url}");
    }

    assert!(validate_url("https://example.com/downloads", true).is_ok());
    assert!(validate_url("http://example.com/downloads", false).is_ok());
    assert!(validate_url("http://example.com/downloads", true).is_err());
}

#[test]
fn custom_installation_requires_https_and_digest() {
    for (url, digest) in [
        ("http://example.com/gameap-fastdl", "a".repeat(64)),
        ("https://example.com/file", "bad".into()),
        ("https://example.com/$(touch evil)", "a".repeat(64)),
        ("https://example.com/file", String::new()),
        ("", "a".repeat(64)),
    ] {
        assert!(
            SetupInput {
                download_url: url.into(),
                sha256: digest
            }
            .validate()
            .is_err()
        );
    }
}

#[test]
fn automatic_and_verified_custom_installations_are_accepted() {
    assert!(SetupInput { download_url: String::new(), sha256: String::new() }.validate().is_ok());
    assert!(SetupInput {
        download_url: "https://releases.example/gameap-fastdl".into(),
        sha256: "0123456789abcdefABCDEF".repeat(3)[..64].to_string(),
    }
    .validate()
    .is_ok());
    let error = SetupInput { download_url: "https://example.com/file".into(), sha256: String::new() }
        .validate()
        .unwrap_err();
    assert_eq!(error.message, "Custom downloads require both an HTTPS URL and SHA256");
}

#[test]
fn game_codes_are_matched_in_any_case() {
    for (upper, lower) in [("CSTRIKE", "cstrike"), ("Tf2", "tf2"), ("L4D2", "l4d2"), ("Unknown", "unknown")] {
        let (a, supported_a) = ServerInput::for_game(upper);
        let (b, supported_b) = ServerInput::for_game(lower);
        assert_eq!(supported_a, supported_b);
        assert_eq!(a.engine, b.engine);
        assert_eq!(a.game_dir, b.game_dir);
    }
}

#[test]
fn known_game_defaults_validate() {
    for game in [
        "cstrike", "cs16", "valve", "hldm", "czero", "dod", "tfc", "css", "csgo", "tf2", "gmod",
        "hl2dm", "l4d", "l4d2", "dods", "unknown",
    ] {
        let (settings, _) = ServerInput::for_game(game);
        assert!(settings.validate().is_ok(), "{game}");
    }
}
