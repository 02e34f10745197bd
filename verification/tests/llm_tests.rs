use creatorai::llm::{
    extract_chat_content,
    active_endpoint, active_model, bearer_header_value, build_chat_request,
    chat_completions_url, continue_request, discuss_finish, discuss_request,
    extract_json_block, models_url, normalize_base_url, parse_generation, sort_model_ids,
    summary_context,
};
use creatorai::prompt::{WireMessage, build_system_prompt, build_user_prompt, to_openai_messages};
use creatorai::store::{ProjectFiles, append_summary, init_project, save_chapter};
use creatorai::types::{
    Chapter, ChatMessage, ChatSession, EndpointConfig, LlmConfig, ModelParameters, Preset,
    SummaryRecord,
};

fn endpoint(id: &str, model: &str) -> EndpointConfig {
    EndpointConfig {
        id: id.to_string(),
        name: format!("ep {id}"),
        base_url: "https://api.example.com/v1/".to_string(),
        default_model: model.to_string(),
        parameters: ModelParameters::default_for_writing(),
    }
}

#[test]
fn endpoint_fallback_rules() {
    let cfg = LlmConfig {
        endpoints: vec![endpoint("A", "m-a"), endpoint("B", "m-b")],
        active_endpoint_id: None,
        active_model: None,
    };
    assert_eq!(active_endpoint(&cfg).unwrap().id, "A");

    let cfg_b = LlmConfig {
        active_endpoint_id: Some("B".to_string()),
        ..duplicate_cfg(&cfg)
    };
    assert_eq!(active_endpoint(&cfg_b).unwrap().id, "B");

    let cfg_missing = LlmConfig {
        active_endpoint_id: Some("missing".to_string()),
        ..duplicate_cfg(&cfg)
    };
    assert_eq!(active_endpoint(&cfg_missing).unwrap().id, "A");

    let empty = LlmConfig {
        endpoints: vec![],
        active_endpoint_id: None,
        active_model: None,
    };
    assert_eq!(active_endpoint(&empty).unwrap_err(), "请先在“模型设置”中添加一个 API 端点");
}

fn duplicate_cfg(cfg: &LlmConfig) -> LlmConfig {
    LlmConfig {
        endpoints: cfg.endpoints.clone(),
        active_endpoint_id: cfg.active_endpoint_id.clone(),
        active_model: cfg.active_model.clone(),
    }
}

#[test]
fn model_selection_prefers_non_blank_active_model() {
    let ep = endpoint("A", "default-model");
    let mut cfg = LlmConfig {
        endpoints: vec![endpoint("A", "default-model")],
        active_endpoint_id: None,
        active_model: Some("chosen".to_string()),
    };
    assert_eq!(active_model(&cfg, &ep), "chosen");
    cfg.active_model = Some("   ".to_string());
    assert_eq!(active_model(&cfg, &ep), "default-model");
    cfg.active_model = None;
    assert_eq!(active_model(&cfg, &ep), "default-model");
}

#[test]
fn url_normalization() {
    assert_eq!(normalize_base_url("https://x.test/v1///"), "https://x.test/v1");
    assert_eq!(normalize_base_url("https://x.test/v1"), "https://x.test/v1");
    assert_eq!(models_url("https://x.test/v1/"), "https://x.test/v1/models");
    assert_eq!(
        chat_completions_url("https://x.test/v1/"),
        "https://x.test/v1/chat/completions"
    );
    assert_eq!(bearer_header_value("k-123"), "Bearer k-123");
}

#[test]
fn optional_sampling_fields_are_omitted_at_defaults() {
    let params = ModelParameters {
        temperature_milli: 700,
        max_tokens: 100,
        top_p_milli: Some(1000),
        top_k: Some(0),
    };
    let r = build_chat_request("m".to_string(), &params, vec![]);
    assert_eq!(r.top_p_milli, None);
    assert_eq!(r.top_k, None);

    let params2 = ModelParameters {
        temperature_milli: 700,
        max_tokens: 100,
        top_p_milli: Some(900),
        top_k: Some(40),
    };
    let r2 = build_chat_request("m".to_string(), &params2, vec![]);
    assert_eq!(r2.top_p_milli, Some(900));
    assert_eq!(r2.top_k, Some(40));
}

#[test]
fn generation_parsing_structured_and_fallback() {
    let structured = "```json\n{\"content\":\"C\",\"summary\":\"S\"}\n```";
    let r = parse_generation(structured);
    assert_eq!(r.content, "C");
    assert_eq!(r.summary, "S");
    assert!(r.raw.is_none());

    let plain = "just text";
    let r2 = parse_generation(plain);
    assert_eq!(r2.content, "just text");
    assert_eq!(r2.summary, "");
    assert_eq!(r2.raw.as_deref(), Some("just text"));
}

#[test]
fn generation_parsing_requires_a_fence() {
    // valid JSON, but no fenced block: the fallback applies and the
    // original text is preserved
    let bare = "{\"content\":\"C\",\"summary\":\"S\"}";
    let r = parse_generation(bare);
    assert_eq!(r.content, bare);
    assert_eq!(r.summary, "");
    assert_eq!(r.raw.as_deref(), Some(bare));
}

#[test]
fn generation_parsing_defaults_missing_fields() {
    let only_content = "```json\n{\"content\":\"正文\"}\n```";
    let r = parse_generation(only_content);
    assert_eq!(r.content, "正文");
    assert_eq!(r.summary, "");
    assert!(r.raw.is_none());
}

#[test]
fn extract_json_block_finds_fenced_interior() {
    assert_eq!(
        extract_json_block("before ```json\n {\"a\":1} \n``` after").as_deref(),
        Some("{\"a\":1}")
    );
    assert_eq!(extract_json_block("no fence here"), None);
    assert_eq!(extract_json_block("```json never closed"), None);
}

fn record(k: u32, text: &str) -> SummaryRecord {
    SummaryRecord {
        id: format!("id{k}"),
        chapter_id: k,
        chapter_title: format!("t{k}"),
        summary: text.to_string(),
        created_at: "2024-01-01T00:00:00Z".to_string(),
    }
}

#[test]
fn context_window_keeps_most_recent_twenty_in_order() {
    let records: Vec<SummaryRecord> =
        (0..25u32).map(|k| record(k, &format!("s{k}"))).collect();
    let ctx = summary_context(&records);
    assert_eq!(ctx.len(), 20);
    assert_eq!(ctx[0], ("t5".to_string(), "s5".to_string()));
    assert_eq!(ctx[19], ("t24".to_string(), "s24".to_string()));
}

#[test]
fn context_window_skips_blank_summaries() {
    let records = vec![record(0, "a"), record(1, "   "), record(2, "b")];
    let ctx = summary_context(&records);
    assert_eq!(ctx.len(), 2);
    assert_eq!(ctx[0].1, "a");
    assert_eq!(ctx[1].1, "b");
}

#[test]
fn continue_request_windows_context_into_the_prompt() {
    let mut files = ProjectFiles::empty();
    init_project(&mut files, "/tmp/w".to_string()).unwrap();
    let ch = Chapter {
        id: 1,
        title: "第一章".to_string(),
        content: "当前正文".to_string(),
        summary: "".to_string(),
    };
    save_chapter(&mut files, &ch).unwrap();
    for k in 0..25u32 {
        append_summary(&mut files, record(k, &format!("s{k}"))).unwrap();
    }
    let plan = continue_request(&files, 1, "继续").unwrap();
    assert_eq!(plan.request.messages.len(), 2);
    assert_eq!(plan.request.messages[0].role, "system");
    assert_eq!(plan.request.messages[1].role, "user");
    let user = &plan.request.messages[1].content;
    assert!(user.contains("【t5】s5"));
    assert!(user.contains("【t24】s24"));
    assert!(!user.contains("【t4】s4"));
    assert!(user.contains("当前正文"));
    assert!(user.contains("## 任务：续写正文"));
    assert!(user.contains("用户说：继续"));
    assert!(plan.request.messages[0].content.contains("```json"));
    assert!(plan.url.ends_with("/chat/completions"));
}

#[test]
fn continue_request_without_endpoints_fails() {
    let mut files = ProjectFiles::empty();
    let ch = Chapter {
        id: 1,
        title: "一".to_string(),
        content: "x".to_string(),
        summary: "".to_string(),
    };
    save_chapter(&mut files, &ch).unwrap();
    let e = continue_request(&files, 1, "").unwrap_err();
    assert_eq!(e, "请先在“模型设置”中添加一个 API 端点");
}

#[test]
fn chat_auto_title_is_set_exactly_once() {
    let mut session = ChatSession {
        id: "s".to_string(),
        title: "新对话".to_string(),
        messages: vec![],
    };
    let msg = discuss_finish(
        &mut session,
        "回复一".to_string(),
        "2024-01-01T00:00:00Z".to_string(),
        "What if the hero dies in chapter 3?",
    );
    assert_eq!(msg.role, "assistant");
    assert_eq!(session.title, "What if the hero");
    assert_eq!(session.title.chars().count(), 16);

    // a second turn leaves the title alone
    discuss_finish(
        &mut session,
        "回复二".to_string(),
        "2024-01-01T00:01:00Z".to_string(),
        "another question entirely",
    );
    assert_eq!(session.title, "What if the hero");
    assert_eq!(session.messages.len(), 2);
}

#[test]
fn chat_custom_title_is_never_retitled() {
    let mut session = ChatSession {
        id: "s".to_string(),
        title: "我的标题".to_string(),
        messages: vec![],
    };
    discuss_finish(
        &mut session,
        "回复".to_string(),
        "2024-01-01T00:00:00Z".to_string(),
        "What if the hero dies in chapter 3?",
    );
    assert_eq!(session.title, "我的标题");
}

#[test]
fn discuss_request_appends_user_turn_and_replays_history() {
    let mut files = ProjectFiles::empty();
    init_project(&mut files, "/tmp/d".to_string()).unwrap();
    let (session, plan) = discuss_request(
        &files,
        "sess-1",
        "主角该死吗",
        "2024-01-01T00:00:00Z".to_string(),
    )
    .unwrap();
    assert_eq!(session.id, "sess-1");
    assert_eq!(session.messages.len(), 1);
    assert_eq!(session.messages[0].role, "user");
    assert_eq!(session.messages[0].content, "主角该死吗");
    // fresh session: system prompt plus the one user message
    assert_eq!(plan.request.messages.len(), 2);
    assert_eq!(plan.request.messages[0].role, "system");
    assert!(plan.request.messages[0].content.contains("创作顾问"));
    assert_eq!(plan.request.messages[1].role, "user");
    assert_eq!(plan.request.messages[1].content, "主角该死吗");
}

#[test]
fn sort_model_ids_sorts_ascending() {
    let ids = vec![
        "zeta-9".to_string(),
        "beta-2".to_string(),
        "alpha-1".to_string(),
        "beta-10".to_string(),
    ];
    let sorted = sort_model_ids(&ids);
    let want: Vec<String> = vec![
        "alpha-1".to_string(),
        "beta-10".to_string(),
        "beta-2".to_string(),
        "zeta-9".to_string(),
    ];
    assert_eq!(sorted, want);
}

#[test]
fn system_prompt_renders_preset_and_contract() {
    let preset = Preset {
        style: "简洁".to_string(),
        pov: "第三人称".to_string(),
        rules: vec!["规则一".to_string(), "规则二".to_string()],
    };
    let p = build_system_prompt(&preset, "continue");
    assert!(p.starts_with("你是一位专业的小说写作助手。\n\n## 写作风格\n简洁\n\n## 叙事视角\n第三人称\n\n## 写作规则\n- 规则一\n- 规则二\n"));
    assert!(p.contains("```json"));
    let q = build_system_prompt(&preset, "discuss");
    assert!(q.contains("创作顾问"));
    assert!(!q.contains("```json"));
}

#[test]
fn user_prompt_sections_and_labels() {
    let summaries = vec![("第一章".to_string(), "开端".to_string())];
    let p = build_user_prompt(&summaries, "当前文本", "continue", "  多写点  ");
    assert_eq!(
        p,
        "## 前文摘要\n【第一章】开端\n\n## 当前章节内容\n当前文本\n\n## 任务：续写正文\n用户说：多写点"
    );
    // empty sections vanish, unknown kinds pass through
    let q = build_user_prompt(&vec![], "", "brainstorm", " ");
    assert_eq!(q, "## 任务：brainstorm");
}

#[test]
fn openai_messages_order() {
    let history = vec![
        ChatMessage {
            role: "user".to_string(),
            content: "a".to_string(),
            created_at: "t".to_string(),
        },
        ChatMessage {
            role: "assistant".to_string(),
            content: "b".to_string(),
            created_at: "t".to_string(),
        },
    ];
    let ms: Vec<WireMessage> =
        to_openai_messages("sys".to_string(), &history, "c".to_string());
    assert_eq!(ms.len(), 4);
    assert_eq!(ms[0].role, "system");
    assert_eq!(ms[1].content, "a");
    assert_eq!(ms[2].role, "assistant");
    assert_eq!(ms[3].role, "user");
    assert_eq!(ms[3].content, "c");
}

#[test]
fn chat_response_content_extraction() {
    let body = "{\"choices\":[{\"message\":{\"content\":\"好的\"}}]}";
    assert_eq!(extract_chat_content(body).unwrap(), "好的");
    let bad = "{\"choices\":[]}";
    assert_eq!(
        extract_chat_content(bad).unwrap_err(),
        "响应缺少 choices[0].message.content"
    );
}
