use rewind_core::acemcp::{
    AcemcpConfigData, extract_toml_number_value, extract_toml_string_value,
    parse_acemcp_settings, parse_u32, render_acemcp_settings,
};
use rewind_core::enhance::{
    build_context_section, build_enhancement_request, clean_model_reply, compose_enhanced_prompt,
    count_occurrences, extract_keywords, join_strings, prepare_prompt_section,
    remove_all_occurrences, strip_prefix_occurrences, strip_suffix_occurrences,
    trim_context_result, truncate_utf8_safe,
};
use rewind_core::gemini::{
    GeminiAuthMethod, GeminiConfig, build_gemini_env, default_approval_mode, default_model,
    get_gemini_models,
};
use rewind_core::paths::{
    get_codex_auth_path, get_codex_config_path, get_codex_git_records_path,
    get_codex_providers_path, get_codex_sessions_dir,
};
use rewind_core::providers::{
    add_codex_provider_config, delete_codex_provider_config, extract_api_key_from_auth,
    extract_base_url_from_config, extract_model_from_config, update_codex_provider_config,
    CodexProviderConfig,
};
use rewind_core::sessions::{collect_session_events, line_matches_session, parse_codex_session_file};
use rewind_core::spawn::{
    build_codex_args, default_json_mode, parse_codex_mode, pick_version_string,
    should_forward_output_line, CodexExecutionMode, CodexExecutionOptions, CodexMode,
};
use rewind_core::errors::CoreError;

#[test]
fn toml_string_values_parse() {
    assert_eq!(
        extract_toml_string_value("BASE_URL = \"https://api.example.com\""),
        Some("https://api.example.com".to_string())
    );
    assert_eq!(extract_toml_string_value("TOKEN=\"abc\""), Some("abc".to_string()));
    assert_eq!(extract_toml_string_value("KEY = unquoted"), None);
    assert_eq!(extract_toml_string_value("no equals here"), None);
}

#[test]
fn toml_number_values_parse() {
    assert_eq!(extract_toml_number_value("BATCH_SIZE = 10"), Some(10));
    assert_eq!(extract_toml_number_value("MAX = 800"), Some(800));
    assert_eq!(extract_toml_number_value("MAX = -1"), None);
    assert_eq!(extract_toml_number_value("MAX = 10x"), None);
}

#[test]
fn u32_parsing_matches_std() {
    for s in ["0", "10", "+7", "4294967295", "4294967296", "", "-3", "1 2", "007"] {
        assert_eq!(parse_u32(s), s.parse::<u32>().ok(), "case {:?}", s);
    }
}

#[test]
fn settings_roundtrip() {
    let file = vec![
        "BASE_URL = \"https://old.example\"".to_string(),
        "TOKEN = \"SECRET-REDACTED\"".to_string(),
        "# a comment".to_string(),
        "TEXT_EXTENSIONS = \"rs,toml\"".to_string(),
        "BATCH_SIZE = 5".to_string(),
        "".to_string(),
    ];
    let parsed = parse_acemcp_settings(&file);
    assert_eq!(parsed.base_url, "https://old.example");
    assert_eq!(parsed.token, "SECRET-REDACTED");
    assert_eq!(parsed.batch_size, Some(5));
    assert_eq!(parsed.max_lines_per_blob, None);

    let rendered = render_acemcp_settings(&file, "https://new.example", "tok2", Some(10), Some(800));
    assert_eq!(
        rendered,
        "BASE_URL = \"https://new.example\"\nTOKEN = \"tok2\"\nBATCH_SIZE = 10\nMAX_LINES_PER_BLOB = 800\nTEXT_EXTENSIONS = \"rs,toml\"\n# a comment\n"
    );
    let rendered_lines: Vec<String> = rendered.lines().map(|l| l.to_string()).collect();
    let reparsed = parse_acemcp_settings(&rendered_lines);
    assert_eq!(reparsed.base_url, "https://new.example");
    assert_eq!(reparsed.batch_size, Some(10));
    assert_eq!(reparsed.max_lines_per_blob, Some(800));
}

#[test]
fn acemcp_defaults() {
    let d = AcemcpConfigData::default();
    assert_eq!(d.base_url, "");
    assert_eq!(d.batch_size, Some(10));
    assert_eq!(d.max_lines_per_blob, Some(800));
}

#[test]
fn keywords_drop_stopwords_and_short_words() {
    assert_eq!(
        extract_keywords("please help me write a quicksort function in rust"),
        "write quicksort function rust"
    );
    assert_eq!(extract_keywords(""), "");
    assert_eq!(extract_keywords("the is a"), "");
}

#[test]
fn keywords_are_capped_at_ten() {
    let prompt = "alpha beta gamma delta epsilon zeta eta2 theta iota kappa lambda mu2";
    let kw = extract_keywords(prompt);
    assert_eq!(kw.split(' ').count(), 10);
    assert!(kw.starts_with("alpha"));
    assert!(kw.ends_with("kappa"));
}

#[test]
fn utf8_truncation_respects_boundaries() {
    assert_eq!(truncate_utf8_safe("hello", 10), "hello");
    assert_eq!(truncate_utf8_safe("hello", 3), "hel");
    // 'é' takes two bytes: cutting at 2 keeps only 'h'
    assert_eq!(truncate_utf8_safe("héllo", 2), "h");
    // when not even the first character fits, it is kept anyway
    assert_eq!(truncate_utf8_safe("é", 1), "é");
    assert_eq!(truncate_utf8_safe("", 0), "");
}

#[test]
fn occurrence_counting_is_non_overlapping() {
    assert_eq!(count_occurrences("Path: a Path: b", "Path:"), 2);
    assert_eq!(count_occurrences("aaaa", "aa"), 2);
    assert_eq!(count_occurrences("none here", "Path:"), 0);
}

#[test]
fn context_assembly_wraps_and_marks_cuts() {
    let messages = vec!["first message".to_string(), "second message".to_string()];
    let (section, cut) = build_context_section(&messages, None);
    assert!(!cut);
    assert_eq!(
        section,
        "\n\nRecent conversation context:\nfirst message\n---\nsecond message\n"
    );
    let (empty, _) = build_context_section(&Vec::new(), Some(10));
    assert_eq!(empty, "");

    let trimmed = trim_context_result("abcdefgh", 4);
    assert_eq!(trimmed, "abcd...\n\n(上下文过长，已截断)");
}

#[test]
fn enhanced_prompt_attaches_context_only_when_present() {
    assert_eq!(compose_enhanced_prompt("  ask  ", ""), "  ask  ");
    assert_eq!(
        compose_enhanced_prompt("  ask  ", "Path: x"),
        "ask\n\n--- 项目上下文 (来自 acemcp 语义搜索) ---\nPath: x"
    );
}

#[test]
fn model_reply_cleanup_strips_boilerplate() {
    assert_eq!(
        clean_model_reply("Optimized prompt:\n\"write tests\"\n\nLoaded cached credentials\n"),
        "write tests"
    );
    assert_eq!(clean_model_reply("```\ncode here\n```"), "code here");
    assert_eq!(clean_model_reply("  plain answer  "), "plain answer");
    assert_eq!(clean_model_reply("优化后的提示词：改进它"), "改进它");
}

#[test]
fn occurrence_removal_is_non_overlapping() {
    assert_eq!(remove_all_occurrences("aba", "a"), "b");
    assert_eq!(remove_all_occurrences("aaa", "aa"), "a");
    assert_eq!(remove_all_occurrences("keep", "x"), "keep");
    assert_eq!(strip_prefix_occurrences("``````x", "```"), "x");
    assert_eq!(strip_suffix_occurrences("x``````", "```"), "x");
    assert_eq!(strip_prefix_occurrences("no fence", "```"), "no fence");
}

#[test]
fn enhancement_request_assembly() {
    let (section, truncated) = prepare_prompt_section("  fix the bug  ");
    assert_eq!(section, "fix the bug");
    assert!(!truncated);
    let request = build_enhancement_request("", "fix the bug");
    assert!(request.starts_with("You are a professional prompt optimization assistant"));
    assert!(request.ends_with("Original prompt:\nfix the bug\n"));
}

#[test]
fn joining_uses_separators_between_parts() {
    let parts = vec!["a".to_string(), "b".to_string(), "c".to_string()];
    assert_eq!(join_strings(&parts, "\n---\n"), "a\n---\nb\n---\nc");
    assert_eq!(join_strings(&Vec::new(), ", "), "");
}

#[test]
fn gemini_defaults_and_models() {
    assert_eq!(default_model(), "gemini-2.5-pro");
    assert_eq!(default_approval_mode(), "auto_edit");
    let models = get_gemini_models();
    assert_eq!(models.len(), 3);
    assert_eq!(models[0].id, "gemini-2.5-pro");
    assert!(models[0].is_default);
    assert_eq!(models[1].id, "gemini-2.5-flash");
    assert_eq!(models[2].context_window, 1_000_000);
}

#[test]
fn gemini_env_reflects_auth_method() {
    let mut config = GeminiConfig::default();
    config.auth_method = GeminiAuthMethod::VertexAi;
    config.api_key = Some("SECRET-REDACTED".to_string());
    config.google_cloud_project = Some("proj-1".to_string());
    config.env = vec![("EXTRA".to_string(), "1".to_string())];
    let env = build_gemini_env(&config);
    assert_eq!(env.len(), 4);
    assert_eq!(env[0], ("EXTRA".to_string(), "1".to_string()));
    assert_eq!(env[1].0, "GOOGLE_API_KEY");
    assert_eq!(env[2], ("GOOGLE_CLOUD_PROJECT".to_string(), "proj-1".to_string()));
    assert_eq!(env[3], ("GOOGLE_GENAI_USE_VERTEXAI".to_string(), "true".to_string()));

    config.auth_method = GeminiAuthMethod::GoogleOauth;
    let env = build_gemini_env(&config);
    assert_eq!(env.len(), 1);
}

#[test]
fn path_layout_is_fixed() {
    assert_eq!(get_codex_auth_path("/home/u"), "/home/u/.codex/auth.json");
    assert_eq!(get_codex_config_path("/home/u"), "/home/u/.codex/config.toml");
    assert_eq!(get_codex_providers_path("/home/u"), "/home/u/.codex/providers.json");
    assert_eq!(get_codex_sessions_dir("/home/u"), "/home/u/.codex/sessions");
    assert_eq!(
        get_codex_git_records_path("/home/u", "sess-1"),
        "/home/u/.codex/git-records/sess-1.json"
    );
}

fn preset(id: &str) -> CodexProviderConfig {
    CodexProviderConfig {
        id: id.to_string(),
        name: format!("name-{}", id),
        description: None,
        website_url: None,
        category: None,
        auth: serde_json::from_str("{}").unwrap(),
        config: String::new(),
        is_official: None,
        is_partner: None,
        created_at: None,
    }
}

#[test]
fn provider_add_refuses_duplicates() {
    let list = add_codex_provider_config(Vec::new(), preset("one")).unwrap();
    match add_codex_provider_config(list, preset("one")) {
        Err(CoreError::InvalidState(m)) => {
            assert_eq!(m, "Provider with ID 'one' already exists");
        }
        other => panic!("expected InvalidState, got {:?}", other),
    }
}

#[test]
fn provider_update_and_delete_rules() {
    let list = add_codex_provider_config(Vec::new(), preset("one")).unwrap();
    let list = add_codex_provider_config(list, preset("two")).unwrap();
    let list = update_codex_provider_config(list, preset("two")).unwrap();
    assert_eq!(list.len(), 2);
    match update_codex_provider_config(Vec::new(), preset("zzz")) {
        Err(CoreError::NotFound(m)) => assert_eq!(m, "Provider with ID 'zzz' not found"),
        other => panic!("expected NotFound, got {:?}", other),
    }
    let list = delete_codex_provider_config(list, "one").unwrap();
    assert_eq!(list.len(), 1);
    assert_eq!(list[0].id, "two");
    match delete_codex_provider_config(list, "one") {
        Err(CoreError::NotFound(m)) => assert_eq!(m, "Provider with ID 'one' not found"),
        other => panic!("expected NotFound, got {:?}", other),
    }
}

#[test]
fn api_key_lookup_prefers_the_first_present_key() {
    let auth: serde_json::Value =
        serde_json::from_str("{\"OPENAI_KEY\":\"k2\",\"API_KEY\":\"k3\"}").unwrap();
    assert_eq!(extract_api_key_from_auth(&auth), Some("k2".to_string()));
    let auth: serde_json::Value = serde_json::from_str("{\"OPENAI_API_KEY\":42}").unwrap();
    // the first present key is taken even when it is not a string
    assert_eq!(extract_api_key_from_auth(&auth), None);
    let auth: serde_json::Value = serde_json::from_str("{}").unwrap();
    assert_eq!(extract_api_key_from_auth(&auth), None);
}

#[test]
fn session_file_parsing_reads_meta_and_scan() {
    let lines = vec![
        "{\"type\":\"session_meta\",\"payload\":{\"id\":\"sess-1\",\"timestamp\":\"2024-01-15T10:30:00Z\",\"cwd\":\"/tmp/proj\",\"model\":\"m1\"}}".to_string(),
        "{\"type\":\"response_item\",\"timestamp\":\"2024-01-15T11:00:00Z\",\"payload\":{\"role\":\"user\",\"content\":[{\"type\":\"input_text\",\"text\":\"hello there\"}]}}".to_string(),
    ];
    let sess = parse_codex_session_file(&lines).unwrap();
    assert_eq!(sess.id, "sess-1");
    assert_eq!(sess.project_path, "/tmp/proj");
    assert_eq!(sess.created_at, 1705314600);
    assert_eq!(sess.updated_at, 1705316400);
    assert_eq!(sess.first_message.as_deref(), Some("hello there"));
    assert_eq!(sess.last_message_timestamp.as_deref(), Some("2024-01-15T11:00:00Z"));
    assert_eq!(sess.status, "completed");
    assert!(matches!(sess.mode, CodexExecutionMode::ReadOnly));
    assert!(parse_codex_session_file(&vec!["not json".to_string()]).is_none());
    assert!(parse_codex_session_file(&Vec::new()).is_none());
}

#[test]
fn sessions_sort_newest_first() {
    fn sess(id: &str, created_at: u64) -> rewind_core::sessions::CodexSession {
        rewind_core::sessions::CodexSession {
            id: id.to_string(),
            project_path: "/tmp".to_string(),
            created_at,
            updated_at: created_at,
            mode: CodexExecutionMode::ReadOnly,
            model: None,
            status: "completed".to_string(),
            first_message: None,
            last_message_timestamp: None,
        }
    }
    let sorted = rewind_core::sessions::sort_sessions_by_created_desc(vec![
        sess("old", 10),
        sess("new", 30),
        sess("mid", 20),
    ]);
    let ids: Vec<&str> = sorted.iter().map(|s| s.id.as_str()).collect();
    assert_eq!(ids, vec!["new", "mid", "old"]);
}

#[test]
fn config_text_extraction_finds_first_values() {
    let config = "foo = 1\nbase_url   =  \"https://first.example\"\nbase_url = \"https://second.example\"\nmodel = \"gpt-x\"\n";
    assert_eq!(
        extract_base_url_from_config(config),
        Some("https://first.example".to_string())
    );
    assert_eq!(extract_model_from_config(config), Some("gpt-x".to_string()));
    // the first `model =` line decides, even when it has no quoted value
    let unquoted_first = "model = bare\nmodel = \"quoted\"\n";
    assert_eq!(extract_model_from_config(unquoted_first), None);
    assert_eq!(extract_base_url_from_config("no url here"), None);
    // an indented model line still counts once trimmed
    assert_eq!(
        extract_model_from_config("  model = \"m2\""),
        Some("m2".to_string())
    );
    // an empty quoted value is not a match
    assert_eq!(extract_base_url_from_config("base_url = \"\""), None);
}

#[test]
fn session_lookup_matches_meta_id() {
    let meta = "{\"type\":\"session_meta\",\"payload\":{\"id\":\"sess-1\"}}";
    assert!(line_matches_session(meta, "sess-1"));
    assert!(!line_matches_session(meta, "sess-2"));
    assert!(!line_matches_session("not json", "sess-1"));
}

#[test]
fn history_collects_events_and_counts_errors() {
    let lines = vec![
        "{\"a\":1}".to_string(),
        "".to_string(),
        "broken".to_string(),
        "{\"b\":2}".to_string(),
    ];
    let (events, errors) = collect_session_events(&lines);
    assert_eq!(events.len(), 2);
    assert_eq!(errors, 1);
    assert_eq!(events[0]["a"].as_i64(), Some(1));
    assert_eq!(events[1]["b"].as_i64(), Some(2));
}

#[test]
fn rfc3339_timestamps_reach_session_fields() {
    let epoch_meta = "{\"type\":\"session_meta\",\"payload\":{\"id\":\"s\",\"timestamp\":\"1970-01-01T00:00:00Z\"}}".to_string();
    let sess = parse_codex_session_file(&vec![epoch_meta]).unwrap();
    assert_eq!(sess.created_at, 0);
    // an unparseable timestamp makes the whole metadata read fail
    let bad_meta = "{\"type\":\"session_meta\",\"payload\":{\"id\":\"s\",\"timestamp\":\"not a date\"}}".to_string();
    assert!(parse_codex_session_file(&vec![bad_meta]).is_none());
}

#[test]
fn codex_args_for_a_fresh_run() {
    let options = CodexExecutionOptions {
        project_path: "/tmp/proj".to_string(),
        prompt: "do things".to_string(),
        mode: CodexExecutionMode::FullAuto,
        model: Some("gpt-x".to_string()),
        json: default_json_mode(),
        output_schema: None,
        output_file: Some("/tmp/out.json".to_string()),
        skip_git_repo_check: true,
        api_key: None,
        session_id: None,
        resume_last: false,
    };
    let (args, stdin_payload) = build_codex_args(&options, false, None);
    assert_eq!(
        args,
        vec![
            "exec",
            "--json",
            "--full-auto",
            "--model",
            "gpt-x",
            "-o",
            "/tmp/out.json",
            "--skip-git-repo-check",
            "-",
        ]
    );
    assert_eq!(stdin_payload.as_deref(), Some("do things"));
}

#[test]
fn codex_args_for_a_resumed_run() {
    let options = CodexExecutionOptions {
        project_path: "/tmp/proj".to_string(),
        prompt: "continue".to_string(),
        mode: CodexExecutionMode::DangerFullAccess,
        model: Some("ignored-on-resume".to_string()),
        json: true,
        output_schema: None,
        output_file: None,
        skip_git_repo_check: false,
        api_key: None,
        session_id: Some("sess-1".to_string()),
        resume_last: false,
    };
    let (args, _) = build_codex_args(&options, true, Some("sess-1"));
    assert_eq!(args, vec!["exec", "--json", "resume", "sess-1", "-"]);
}

#[test]
fn version_string_prefers_stdout() {
    assert_eq!(pick_version_string("v1.2", "noise", None), "v1.2");
    assert_eq!(pick_version_string("", "v1.3", None), "v1.3");
    assert_eq!(pick_version_string("", "", Some("v1.4".to_string())), "v1.4");
    assert_eq!(pick_version_string("", "", None), "Unknown version");
}

#[test]
fn output_lines_forward_unless_blank() {
    assert!(should_forward_output_line("{\"event\":1}"));
    assert!(!should_forward_output_line(""));
    assert!(!should_forward_output_line("   \t"));
}

#[test]
fn mode_words_parse_case_insensitively() {
    assert!(matches!(parse_codex_mode("AUTO"), Ok(CodexMode::Auto)));
    assert!(matches!(parse_codex_mode("native"), Ok(CodexMode::Native)));
    assert!(matches!(parse_codex_mode("Wsl"), Ok(CodexMode::Wsl)));
    match parse_codex_mode("bogus") {
        Err(CoreError::InvalidState(m)) => {
            assert_eq!(m, "Invalid mode: bogus. Use 'auto', 'native', or 'wsl'");
        }
        other => panic!("expected InvalidState, got {:?}", other),
    }
}
