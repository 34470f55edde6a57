use m3u_filter::config::{
    Config as PlainConfig, ConfigApi as PlainApi, ConfigFilter, ConfigFilters,
    ConfigInput as PlainInput, ConfigTarget as PlainTarget, FilterMode, ItemField,
};
use m3u_filter::m3u_filter_error::{get_notify_message, M3uFilterError, M3uFilterErrorKind};
use m3u_filter::model::api_proxy::{
    ApiProxyConfig, ApiProxyServerInfo, TargetUser, UserCredentials,
};
use m3u_filter::model::config::{
    validate_targets, Config, ConfigApi, ConfigDto, ConfigInput, ConfigRename, ConfigSort,
    ConfigSortChannel, ConfigSource, ConfigTarget, InputType, ProcessTargets, TargetOutput,
};
use m3u_filter::api::api_model::authorization_body;
use m3u_filter::api::xtream_player_api::get_user_info;
use m3u_filter::model::config::{VideoConfig, VideoDownloadConfig};
use m3u_filter::model::mapping::{Mapping, Mappings};
use m3u_filter::model::model_config::{ItemField as ModelItemField, ProcessingOrder, SortOrder, TargetType};
use m3u_filter::text_util::{
    i32_to_string, i64_to_string, json_parse_i32, parse_i32, u64_to_string,
};

fn server_info() -> ApiProxyServerInfo {
    ApiProxyServerInfo {
        protocol: "http".to_string(),
        ip: "127.0.0.1".to_string(),
        http_port: 8901,
        https_port: 8943,
        rtmp_port: 0,
        timezone: "UTC".to_string(),
        message: "welcome".to_string(),
    }
}

fn proxy() -> ApiProxyConfig {
    ApiProxyConfig {
        server: server_info(),
        user: vec![TargetUser {
            target: "xt".to_string(),
            credentials: vec![UserCredentials {
                username: "alice".to_string(),
                password: "secret".to_string(),
                token: Some("tok1".to_string()),
            }],
        }],
    }
}

fn xtream_target(name: &str) -> ConfigTarget {
    ConfigTarget {
        id: 0,
        enabled: true,
        name: name.to_string(),
        options: None,
        sort: None,
        filter: "".to_string(),
        output: vec![TargetOutput {
            target: TargetType::Xtream,
            filename: None,
        }],
        rename: None,
        mapping: None,
        processing_order: ProcessingOrder::Frm,
        watch: None,
        _watch_re: None,
        _mapping: None,
    }
}

fn xtream_input() -> ConfigInput {
    ConfigInput {
        id: 0,
        input_type: InputType::Xtream,
        headers: vec![],
        url: "http://up.example".to_string(),
        epg_url: None,
        username: Some("iu".to_string()),
        password: Some("ip".to_string()),
        persist: None,
        prefix: None,
        suffix: None,
        name: None,
        enabled: true,
        options: None,
    }
}

fn config_with(sources: Vec<ConfigSource>) -> Config {
    Config {
        threads: 0,
        api: ConfigApi {
            host: "localhost".to_string(),
            port: 8901,
            web_root: "".to_string(),
        },
        sources,
        working_dir: "/tmp/work".to_string(),
        backup_dir: None,
        video: None,
        schedule: None,
        messaging: None,
        _api_proxy: Some(proxy()),
        _config_path: "".to_string(),
        _config_file_path: "".to_string(),
        _sources_file_path: "".to_string(),
    }
}

#[test]
fn resolver_finds_user_and_target() {
    let cfg = config_with(vec![ConfigSource {
        inputs: vec![xtream_input()],
        targets: vec![xtream_target("xt")],
    }]);
    let (user, target) = cfg.get_target_for_user("alice", "secret").unwrap();
    assert_eq!(user.username, "alice");
    assert_eq!(user.password, "secret");
    assert_eq!(target.name, "xt");
}

#[test]
fn resolver_rejects_wrong_password_and_unknown_target() {
    let cfg = config_with(vec![ConfigSource {
        inputs: vec![xtream_input()],
        targets: vec![xtream_target("xt")],
    }]);
    assert!(cfg.get_target_for_user("alice", "wrong").is_none());
    assert!(cfg.get_target_for_user("bob", "secret").is_none());
    let cfg2 = config_with(vec![]);
    assert!(cfg2.get_target_for_user("alice", "secret").is_none());
}

#[test]
fn resolver_by_token() {
    let cfg = config_with(vec![ConfigSource {
        inputs: vec![xtream_input()],
        targets: vec![xtream_target("xt")],
    }]);
    let (user, target) = cfg.get_target_for_user_by_token("tok1").unwrap();
    assert_eq!(user.username, "alice");
    assert_eq!(target.name, "xt");
    assert!(cfg.get_target_for_user_by_token("nope").is_none());
}

#[test]
fn target_has_output_checks_declarations() {
    let t = xtream_target("xt");
    assert!(t.has_output(&TargetType::Xtream));
    assert!(!t.has_output(&TargetType::M3u));
}

#[test]
fn target_prepare_rejects_empty_output() {
    let mut t = xtream_target("xt");
    t.output = vec![];
    let err = t.prepare(1).unwrap_err();
    assert_eq!(err.kind, M3uFilterErrorKind::Info);
}

#[test]
fn target_prepare_requires_filename_for_m3u() {
    let mut t = xtream_target("xt");
    t.output = vec![TargetOutput {
        target: TargetType::M3u,
        filename: None,
    }];
    assert!(t.prepare(1).is_err());
    t.output = vec![TargetOutput {
        target: TargetType::M3u,
        filename: Some("out.m3u".to_string()),
    }];
    assert!(t.prepare(1).is_ok());
    assert_eq!(t.id, 1);
}

#[test]
fn target_prepare_rejects_default_name_for_xtream() {
    let mut t = xtream_target("Default");
    assert!(t.prepare(1).is_err());
}

#[test]
fn target_prepare_rejects_duplicate_output_types() {
    let mut t = xtream_target("xt");
    t.output.push(TargetOutput {
        target: TargetType::Xtream,
        filename: None,
    });
    assert!(t.prepare(1).is_err());
}

#[test]
fn target_prepare_checks_watch_patterns() {
    let mut t = xtream_target("xt");
    t.watch = Some(vec!["^News".to_string()]);
    assert!(t.prepare(1).is_ok());
    assert!(t._watch_re.is_some());
    let mut bad = xtream_target("xt2");
    bad.watch = Some(vec!["(".to_string()]);
    assert!(bad.prepare(2).is_err());
}

#[test]
fn input_prepare_validates_and_normalizes() {
    let mut inp = xtream_input();
    assert!(inp.prepare(5).is_ok());
    assert_eq!(inp.id, 5);

    let mut blank_url = xtream_input();
    blank_url.url = "  ".to_string();
    assert!(blank_url.prepare(1).is_err());

    let mut no_creds = xtream_input();
    no_creds.username = Some("   ".to_string());
    assert!(no_creds.prepare(1).is_err());

    let mut m3u = xtream_input();
    m3u.input_type = InputType::M3u;
    m3u.username = None;
    m3u.password = None;
    m3u.persist = Some(" ".to_string());
    assert!(m3u.prepare(1).is_ok());
    assert_eq!(m3u.persist, None);
}

#[test]
fn input_type_names_round_trip() {
    assert_eq!(InputType::from_str("m3u").unwrap(), InputType::M3u);
    assert_eq!(InputType::from_str("xtream").unwrap(), InputType::Xtream);
    assert!(InputType::from_str("other").is_err());
    assert_eq!(InputType::M3u.to_string(), "m3u");
    assert_eq!(InputType::Xtream.to_string(), "xtream");
}

#[test]
fn config_prepare_assigns_sequential_ids() {
    let mut cfg = config_with(vec![
        ConfigSource {
            inputs: vec![xtream_input()],
            targets: vec![xtream_target("a")],
        },
        ConfigSource {
            inputs: vec![xtream_input(), xtream_input()],
            targets: vec![xtream_target("b"), xtream_target("c")],
        },
    ]);
    cfg.prepare().unwrap();
    assert_eq!(cfg.sources[0].inputs[0].id, 1);
    assert_eq!(cfg.sources[1].inputs[0].id, 2);
    assert_eq!(cfg.sources[1].inputs[1].id, 3);
    assert_eq!(cfg.sources[0].targets[0].id, 1);
    assert_eq!(cfg.sources[1].targets[0].id, 2);
    assert_eq!(cfg.sources[1].targets[1].id, 3);
    assert_eq!(cfg.api.web_root, "./web");
    assert_eq!(cfg.backup_dir, Some("/tmp/work/.backup".to_string()));
    assert!(cfg.video.is_some());
}

#[test]
fn config_prepare_rejects_duplicate_target_names() {
    let mut cfg = config_with(vec![
        ConfigSource {
            inputs: vec![xtream_input()],
            targets: vec![xtream_target("same")],
        },
        ConfigSource {
            inputs: vec![xtream_input()],
            targets: vec![xtream_target("same")],
        },
    ]);
    let err = cfg.prepare().unwrap_err();
    assert_eq!(err.kind, M3uFilterErrorKind::Info);
}

#[test]
fn config_lookups_find_inputs() {
    let mut cfg = config_with(vec![ConfigSource {
        inputs: vec![xtream_input()],
        targets: vec![xtream_target("xt")],
    }]);
    cfg.prepare().unwrap();
    let found = cfg.get_input_by_id(&1).unwrap();
    assert_eq!(found.url, "http://up.example");
    assert!(cfg.get_input_by_id(&9).is_none());
    let by_target = cfg.get_input_for_target("xt", &InputType::Xtream).unwrap();
    assert_eq!(by_target.id, 1);
    assert!(cfg.get_input_for_target("xt", &InputType::M3u).is_none());
    assert!(cfg.get_input_for_target("nope", &InputType::Xtream).is_none());
}

#[test]
fn validate_targets_selects_by_name_case_insensitively() {
    let mut cfg = config_with(vec![ConfigSource {
        inputs: vec![xtream_input()],
        targets: vec![xtream_target("MyTarget"), xtream_target("Other")],
    }]);
    cfg.prepare().unwrap();
    let args = Some(vec!["mytarget".to_string()]);
    let pt = validate_targets(&args, &cfg.sources).unwrap();
    assert!(pt.enabled);
    assert_eq!(pt.targets, vec![1]);
    assert_eq!(pt.inputs, vec![1]);
    assert!(pt.has_target(1));
    assert!(!pt.has_target(2));
    assert!(pt.has_input(1));
}

#[test]
fn validate_targets_reports_missing_names() {
    let cfg = config_with(vec![ConfigSource {
        inputs: vec![xtream_input()],
        targets: vec![xtream_target("a")],
    }]);
    let args = Some(vec!["a".to_string(), "ghost".to_string()]);
    let err = validate_targets(&args, &cfg.sources).unwrap_err();
    assert_eq!(err.kind, M3uFilterErrorKind::Info);
}

#[test]
fn validate_targets_without_selection_is_disabled() {
    let cfg = config_with(vec![]);
    let pt: ProcessTargets = validate_targets(&None, &cfg.sources).unwrap();
    assert!(!pt.enabled);
    assert!(pt.targets.is_empty());
    assert!(pt.inputs.is_empty());
}

#[test]
fn dto_validity_checks_host_and_pattern() {
    let mut dto = ConfigDto {
        threads: 0,
        api: ConfigApi {
            host: "h".to_string(),
            port: 1,
            web_root: "".to_string(),
        },
        working_dir: "/tmp".to_string(),
        backup_dir: None,
        video: None,
        schedule: None,
        messaging: None,
    };
    assert!(dto.is_valid());
    dto.api.host = "".to_string();
    assert!(!dto.is_valid());
}

#[test]
fn dto_validity_rejects_bad_episode_pattern() {
    let make = |pattern: &str| ConfigDto {
        threads: 0,
        api: ConfigApi {
            host: "h".to_string(),
            port: 1,
            web_root: "".to_string(),
        },
        working_dir: "/tmp".to_string(),
        backup_dir: None,
        video: Some(VideoConfig {
            extensions: vec![],
            download: Some(VideoDownloadConfig {
                headers: vec![],
                directory: None,
                organize_into_directories: false,
                episode_pattern: Some(pattern.to_string()),
                _re_episode_pattern: None,
                _re_filename: None,
                _re_remove_filename_ending: None,
            }),
            web_search: None,
        }),
        schedule: None,
        messaging: None,
    };
    assert!(!make("(").is_valid());
    assert!(make("S[0-9]+E[0-9]+").is_valid());
}

#[test]
fn set_mappings_resolves_listed_ids() {
    let mut t = xtream_target("xt");
    t.mapping = Some(vec!["m1".to_string(), "ghost".to_string()]);
    let mut cfg = config_with(vec![ConfigSource {
        inputs: vec![xtream_input()],
        targets: vec![t],
    }]);
    let mappings = Mappings {
        mappings: vec![Mapping {
            id: "m1".to_string(),
        }],
    };
    cfg.set_mappings(Some(mappings)).unwrap();
    let resolved = cfg.sources[0].targets[0]._mapping.as_ref().unwrap();
    assert_eq!(resolved.len(), 1);
    assert_eq!(resolved[0].id, "m1");
}

#[test]
fn error_display_message() {
    let err = M3uFilterError::new(M3uFilterErrorKind::Info, "boom".to_string());
    assert_eq!(err.display_message(), "M3uFilter error: boom");
}

#[test]
fn item_field_names() {
    assert_eq!(ItemField::Group.display_name(), "Group");
    assert_eq!(ItemField::Name.display_name(), "Name");
    assert_eq!(ItemField::Title.display_name(), "Title");
}

#[test]
fn filter_mode_include() {
    let f = ConfigFilters {
        mode: FilterMode::Include,
        rules: vec![],
    };
    assert!(f.is_include());
    let d = ConfigFilters {
        mode: FilterMode::Discard,
        rules: vec![],
    };
    assert!(!d.is_include());
}

#[test]
fn user_info_echoes_credentials() {
    let cfg = config_with(vec![]);
    let user = UserCredentials {
        username: "alice".to_string(),
        password: "secret".to_string(),
        token: None,
    };
    let resp = get_user_info(&user, &cfg);
    assert_eq!(resp.user_info.auth, 1);
    assert_eq!(resp.user_info.username, "alice");
    assert_eq!(resp.user_info.password, "secret");
    assert_eq!(resp.user_info.max_connections, "1");
    assert_eq!(resp.server_info.url, "127.0.0.1");
    assert_eq!(resp.server_info.port, 8901);
    assert_eq!(resp.user_info.exp_date - resp.user_info.created_at, 63072000);
    let body = authorization_body(&resp);
    assert!(body.contains("\"auth\":1"));
    assert!(body.contains("\"username\":\"alice\""));
    assert!(body.contains("\"password\":\"secret\""));
}

#[test]
fn decimal_parsing_matches_std_grammar() {
    assert_eq!(parse_i32("123"), Some(123));
    assert_eq!(parse_i32("+5"), Some(5));
    assert_eq!(parse_i32("-2147483648"), Some(-2147483648));
    assert_eq!(parse_i32("2147483648"), None);
    assert_eq!(parse_i32("abc"), None);
    assert_eq!(parse_i32(""), None);
    assert_eq!(parse_i32("007"), Some(7));

    assert_eq!(json_parse_i32(" 42 "), Some(42));
    assert_eq!(json_parse_i32("-7"), Some(-7));
    assert_eq!(json_parse_i32("042"), None);
    assert_eq!(json_parse_i32("+42"), None);
    assert_eq!(json_parse_i32("4.5"), None);
}

#[test]
fn decimal_rendering() {
    assert_eq!(u64_to_string(0), "0");
    assert_eq!(u64_to_string(90210), "90210");
    assert_eq!(i32_to_string(-42), "-42");
    assert_eq!(i64_to_string(i64::MIN), "-9223372036854775808");
}

#[test]
fn notify_message_joins_notify_errors() {
    assert_eq!(get_notify_message(&vec![], 255), None);
    let errors = vec![
        M3uFilterError::new(M3uFilterErrorKind::Notify, "first".to_string()),
        M3uFilterError::new(M3uFilterErrorKind::Info, "hidden".to_string()),
        M3uFilterError::new(M3uFilterErrorKind::Notify, "second".to_string()),
    ];
    assert_eq!(get_notify_message(&errors, 255), Some("first\nsecond".to_string()));
}

#[test]
fn notify_message_truncates_long_text() {
    let errors = vec![M3uFilterError::new(
        M3uFilterErrorKind::Notify,
        "abcdefghijklmnop".to_string(),
    )];
    assert_eq!(get_notify_message(&errors, 10), Some("abcdefghij...".to_string()));
    assert_eq!(get_notify_message(&errors, 0), Some("abcdefghijklmnop".to_string()));
}

#[test]
fn m3u_filename_comes_from_the_first_m3u_output() {
    let mut t = xtream_target("xt");
    t.output.push(TargetOutput {
        target: TargetType::M3u,
        filename: Some("list.m3u".to_string()),
    });
    assert_eq!(t.get_m3u_filename(), Some("list.m3u".to_string()));
    let plain = xtream_target("xt2");
    assert_eq!(plain.get_m3u_filename(), None);
}

#[test]
fn sort_and_rename_rules_compile_their_patterns() {
    let mut channel = ConfigSortChannel {
        field: ModelItemField::Name,
        group_pattern: "^News".to_string(),
        order: SortOrder::Asc,
        re: None,
    };
    assert!(channel.prepare().is_ok());
    assert!(channel.re.is_some());

    let mut sort = ConfigSort {
        match_as_ascii: false,
        groups: None,
        channels: Some(vec![ConfigSortChannel {
            field: ModelItemField::Group,
            group_pattern: "(".to_string(),
            order: SortOrder::Desc,
            re: None,
        }]),
    };
    let err = sort.prepare().unwrap_err();
    assert_eq!(err.kind, M3uFilterErrorKind::Info);

    let mut rename = ConfigRename {
        field: ModelItemField::Title,
        pattern: "HD$".to_string(),
        new_name: "".to_string(),
        re: None,
    };
    assert!(rename.prepare().is_ok());
    let mut bad = ConfigRename {
        field: ModelItemField::Title,
        pattern: "[".to_string(),
        new_name: "".to_string(),
        re: None,
    };
    assert!(bad.prepare().is_err());
}

#[test]
fn source_prepare_assigns_ids_from_index() {
    let mut source = ConfigSource {
        inputs: vec![xtream_input(), xtream_input()],
        targets: vec![xtream_target("a")],
    };
    let next = source.prepare(4).unwrap();
    assert_eq!(next, 6);
    assert_eq!(source.inputs[0].id, 4);
    assert_eq!(source.inputs[1].id, 5);
}

#[test]
fn plain_config_layout_prepares_rules() {
    let mut cfg = PlainConfig {
        api: PlainApi {
            host: "h".to_string(),
            port: 1,
            web_root: "".to_string(),
        },
        input: PlainInput {
            url: "http://x".to_string(),
            persist: "".to_string(),
        },
        targets: vec![PlainTarget {
            filename: "out.m3u".to_string(),
            filter: ConfigFilters {
                mode: FilterMode::Include,
                rules: vec![ConfigFilter {
                    field: ItemField::Name,
                    pattern: "^A".to_string(),
                    re: None,
                }],
            },
            rename: vec![],
        }],
    };
    cfg.prepare();
    assert_eq!(cfg.api.web_root, "./web");
    assert!(cfg.targets[0].filter.rules[0].re.is_some());
}
