use creatorai::Doc;
use creatorai::paths;
use creatorai::atomic::{FileState, atomic_write, commit_rename, write_temp};
use creatorai::store::{
    ProjectFiles, append_summary, create_chapter, create_chat_session, delete_chapter,
    delete_chat_session, import_preset, init_project, list_chapters, list_chat_sessions,
    load_chapter, load_chat_session, load_llm_config, load_preset, load_summaries,
    rename_chapter, save_chapter, save_chat_session, save_preset, export_preset,
};
use creatorai::types::{Chapter, ChatMessage, ChatSession, Preset, SummaryRecord};

#[test]
fn init_and_create_chapter() {
    let root = "/tmp/novel-project".to_string();
    let mut files = ProjectFiles::empty();
    let info = init_project(&mut files, root.clone()).unwrap();
    assert!(info.project_dir.contains(root.as_str()));
    let chapters = list_chapters(&files).unwrap();
    assert_eq!(chapters.len(), 1);

    let c2 = create_chapter(&mut files, "第二章".to_string()).unwrap();
    assert_eq!(c2.id, 2);
    let chapters = list_chapters(&files).unwrap();
    assert_eq!(chapters.len(), 2);

    let mut ch = load_chapter(&files, 2).unwrap();
    ch.content = "hello".to_string();
    save_chapter(&mut files, &ch).unwrap();
    let ch2 = load_chapter(&files, 2).unwrap();
    assert_eq!(ch2.content, "hello");
}

#[test]
fn save_then_load_round_trip() {
    let mut files = ProjectFiles::empty();
    let ch = Chapter {
        id: 7,
        title: "风起".to_string(),
        content: "夜色如墨。".to_string(),
        summary: "开端".to_string(),
    };
    save_chapter(&mut files, &ch).unwrap();
    let back = load_chapter(&files, 7).unwrap();
    assert_eq!(back.id, 7);
    assert_eq!(back.title, "风起");
    assert_eq!(back.content, "夜色如墨。");
    assert_eq!(back.summary, "开端");
}

#[test]
fn created_chapter_listed_exactly_once() {
    let mut files = ProjectFiles::empty();
    init_project(&mut files, "/tmp/p".to_string()).unwrap();
    let item = create_chapter(&mut files, "T".to_string()).unwrap();
    let listing = list_chapters(&files).unwrap();
    let hits: Vec<_> = listing.iter().filter(|c| c.id == item.id).collect();
    assert_eq!(hits.len(), 1);
    assert_eq!(hits[0].title, "T");
}

#[test]
fn ids_never_reused_even_after_deleting_the_highest() {
    let mut files = ProjectFiles::empty();
    let a = create_chapter(&mut files, "a".to_string()).unwrap();
    let b = create_chapter(&mut files, "b".to_string()).unwrap();
    let c = create_chapter(&mut files, "c".to_string()).unwrap();
    assert!(a.id < b.id && b.id < c.id);
    // deleting the highest-numbered chapter must not free its id
    delete_chapter(&mut files, c.id).unwrap();
    let d = create_chapter(&mut files, "d".to_string()).unwrap();
    assert!(d.id > c.id);
    // nor does deleting one below the maximum
    delete_chapter(&mut files, b.id).unwrap();
    let e = create_chapter(&mut files, "e".to_string()).unwrap();
    assert!(e.id > d.id);
    let ids = [a.id, b.id, c.id, d.id, e.id];
    for i in 0..ids.len() {
        for j in 0..i {
            assert_ne!(ids[i], ids[j]);
        }
    }
}

#[test]
fn init_project_twice_changes_nothing() {
    let mut files = ProjectFiles::empty();
    init_project(&mut files, "/tmp/q".to_string()).unwrap();
    let preset_before = load_preset(&files).unwrap();
    let cfg_before = load_llm_config(&files).unwrap();
    let chapters_before = list_chapters(&files).unwrap();
    let summaries_before = load_summaries(&files).unwrap();

    init_project(&mut files, "/tmp/q".to_string()).unwrap();
    let preset_after = load_preset(&files).unwrap();
    let cfg_after = load_llm_config(&files).unwrap();
    let chapters_after = list_chapters(&files).unwrap();
    let summaries_after = load_summaries(&files).unwrap();

    assert_eq!(preset_before.style, preset_after.style);
    assert_eq!(preset_before.rules, preset_after.rules);
    assert_eq!(cfg_before.endpoints.len(), cfg_after.endpoints.len());
    assert_eq!(cfg_before.endpoints[0].id, cfg_after.endpoints[0].id);
    assert_eq!(chapters_before.len(), chapters_after.len());
    assert_eq!(summaries_before.len(), summaries_after.len());
}

#[test]
fn init_seeds_defaults() {
    let mut files = ProjectFiles::empty();
    let info = init_project(&mut files, "/tmp/dir/MyNovel".to_string()).unwrap();
    assert_eq!(info.project_name, "MyNovel");
    let preset = load_preset(&files).unwrap();
    assert_eq!(preset.style, "细腻、沉浸、画面感强");
    assert_eq!(preset.rules.len(), 4);
    let cfg = load_llm_config(&files).unwrap();
    assert_eq!(cfg.endpoints.len(), 1);
    assert_eq!(cfg.endpoints[0].name, "Local Test");
    assert_eq!(cfg.endpoints[0].base_url, "https://api.openai.com/v1");
    assert_eq!(cfg.endpoints[0].parameters.temperature_milli, 800);
    assert_eq!(cfg.endpoints[0].parameters.max_tokens, 4000);
    assert_eq!(cfg.active_endpoint_id.as_deref(), Some(cfg.endpoints[0].id.as_str()));
    let first = load_chapter(&files, 1).unwrap();
    assert_eq!(first.title, "第一章");
    assert_eq!(first.content, "");
}

#[test]
fn atomic_write_interrupted_before_rename_keeps_old_content() {
    let mut f = FileState {
        main: Some("old content".to_string()),
        temp: None,
    };
    // simulated crash: the temp file is written, the rename never runs
    write_temp(&mut f, "new content".to_string());
    assert_eq!(f.main.as_deref(), Some("old content"));
    // the next attempt completes both steps
    commit_rename(&mut f);
    assert_eq!(f.main.as_deref(), Some("new content"));
    atomic_write(&mut f, "third".to_string());
    assert_eq!(f.main.as_deref(), Some("third"));
    assert!(f.temp.is_none());
}

#[test]
fn load_chapter_missing_body_fails() {
    let files = ProjectFiles::empty();
    let e = load_chapter(&files, 3).unwrap_err();
    assert_eq!(e, "章节不存在");
}

#[test]
fn load_chapter_falls_back_to_index_title() {
    let mut files = ProjectFiles::empty();
    let ch = Chapter {
        id: 2,
        title: "从索引来".to_string(),
        content: "body".to_string(),
        summary: "".to_string(),
    };
    save_chapter(&mut files, &ch).unwrap();
    // drop the metadata file, keep body and index
    files.chapter_metas.clear();
    let back = load_chapter(&files, 2).unwrap();
    assert_eq!(back.title, "从索引来");
    assert_eq!(back.summary, "");
    // drop the index too: the synthesized title appears
    files.chapter_index = Doc::Absent;
    let back = load_chapter(&files, 2).unwrap();
    assert_eq!(back.title, "第2章");
}

#[test]
fn malformed_index_is_an_error() {
    let mut files = ProjectFiles::empty();
    files.chapter_index = Doc::Malformed;
    assert_eq!(list_chapters(&files).unwrap_err(), "章节索引格式错误");
    assert_eq!(create_chapter(&mut files, "x".to_string()).unwrap_err(), "章节索引格式错误");
    assert_eq!(delete_chapter(&mut files, 1).unwrap_err(), "章节索引格式错误");
}

#[test]
fn rename_chapter_updates_index_and_metadata() {
    let mut files = ProjectFiles::empty();
    create_chapter(&mut files, "旧名".to_string()).unwrap();
    rename_chapter(&mut files, 1, "新名".to_string()).unwrap();
    let listing = list_chapters(&files).unwrap();
    assert_eq!(listing[0].title, "新名");
    assert_eq!(load_chapter(&files, 1).unwrap().title, "新名");
}

#[test]
fn rename_missing_chapter_leaves_index_renamed() {
    let mut files = ProjectFiles::empty();
    create_chapter(&mut files, "将消失".to_string()).unwrap();
    // the body file vanishes behind the store's back
    files.chapter_texts.clear();
    let e = rename_chapter(&mut files, 1, "雨".to_string()).unwrap_err();
    assert_eq!(e, "章节不存在");
    // the documented inconsistency window: the index already carries
    // the new title
    assert_eq!(list_chapters(&files).unwrap()[0].title, "雨");
}

#[test]
fn summaries_append_in_order() {
    let mut files = ProjectFiles::empty();
    assert_eq!(load_summaries(&files).unwrap().len(), 0);
    for k in 0..3u32 {
        append_summary(
            &mut files,
            SummaryRecord {
                id: format!("id{k}"),
                chapter_id: k,
                chapter_title: format!("t{k}"),
                summary: format!("s{k}"),
                created_at: "2024-01-01T00:00:00Z".to_string(),
            },
        )
        .unwrap();
    }
    let all = load_summaries(&files).unwrap();
    assert_eq!(all.len(), 3);
    assert_eq!(all[0].summary, "s0");
    assert_eq!(all[2].summary, "s2");
}

#[test]
fn preset_save_load_export_import() {
    let mut files = ProjectFiles::empty();
    let p = Preset {
        style: "硬朗".to_string(),
        pov: "第一人称".to_string(),
        rules: vec!["短句".to_string()],
    };
    save_preset(&mut files, &p).unwrap();
    let back = load_preset(&files).unwrap();
    assert_eq!(back.style, "硬朗");

    let mut exported: Doc<Preset> = Doc::Absent;
    export_preset(&mut exported, &back).unwrap();
    let imported = import_preset(&exported).unwrap();
    assert_eq!(imported.pov, "第一人称");

    let missing: Doc<Preset> = Doc::Absent;
    assert_eq!(import_preset(&missing).unwrap_err(), "无法读取预设文件");
    let bad: Doc<Preset> = Doc::Malformed;
    assert_eq!(import_preset(&bad).unwrap_err(), "预设文件格式错误");
}

#[test]
fn chat_session_lifecycle() {
    let mut files = ProjectFiles::empty();
    let item = create_chat_session(&mut files, None).unwrap();
    assert_eq!(item.id.len(), 36);
    assert_eq!(item.title, "新对话");
    let listing = list_chat_sessions(&files).unwrap();
    assert_eq!(listing.len(), 1);
    assert_eq!(listing[0].id, item.id);

    // loading a session that has no file yields a fresh one
    let fresh = load_chat_session(&files, "nonexistent").unwrap();
    assert_eq!(fresh.id, "nonexistent");
    assert_eq!(fresh.title, "新对话");
    assert!(fresh.messages.is_empty());

    let mut session = load_chat_session(&files, item.id.as_str()).unwrap();
    session.messages.push(ChatMessage {
        role: "user".to_string(),
        content: "你好".to_string(),
        created_at: "2024-01-01T00:00:00Z".to_string(),
    });
    session.title = "问候".to_string();
    save_chat_session(&mut files, &session).unwrap();
    let back = load_chat_session(&files, item.id.as_str()).unwrap();
    assert_eq!(back.title, "问候");
    assert_eq!(back.messages.len(), 1);
    let listing = list_chat_sessions(&files).unwrap();
    assert_eq!(listing[0].title, "问候");

    delete_chat_session(&mut files, item.id.as_str()).unwrap();
    assert_eq!(list_chat_sessions(&files).unwrap().len(), 0);
    assert!(files.sessions.is_empty());
}

#[test]
fn create_session_with_title_keeps_it() {
    let mut files = ProjectFiles::empty();
    let item = create_chat_session(&mut files, Some("构思".to_string())).unwrap();
    assert_eq!(item.title, "构思");
    let s = load_chat_session(&files, item.id.as_str()).unwrap();
    assert_eq!(s.title, "构思");
}

#[test]
fn malformed_session_file_is_an_error() {
    let mut files = ProjectFiles::empty();
    let item = create_chat_session(&mut files, None).unwrap();
    for f in files.sessions.iter_mut() {
        f.session = Doc::Malformed;
    }
    let e = load_chat_session(&files, item.id.as_str()).unwrap_err();
    assert_eq!(e, "会话格式错误");
}

#[test]
fn malformed_singletons_are_errors() {
    let mut files = ProjectFiles::empty();
    files.preset = Doc::Malformed;
    files.llm_config = Doc::Malformed;
    files.summaries = Doc::Malformed;
    assert_eq!(load_preset(&files).unwrap_err(), "config.json 格式错误");
    assert_eq!(load_llm_config(&files).unwrap_err(), "llm_config.json 格式错误");
    assert_eq!(load_summaries(&files).unwrap_err(), "summaries.json 格式错误");
    let rec = SummaryRecord {
        id: "x".to_string(),
        chapter_id: 1,
        chapter_title: "t".to_string(),
        summary: "s".to_string(),
        created_at: "now".to_string(),
    };
    assert_eq!(append_summary(&mut files, rec).unwrap_err(), "summaries.json 格式错误");
}

#[test]
fn init_never_overwrites_existing_artifacts() {
    let mut files = ProjectFiles::empty();
    let p = Preset {
        style: "已有".to_string(),
        pov: "旁白".to_string(),
        rules: vec![],
    };
    save_preset(&mut files, &p).unwrap();
    files.summaries = Doc::Malformed;
    init_project(&mut files, "/tmp/r".to_string()).unwrap();
    assert_eq!(load_preset(&files).unwrap().style, "已有");
    // an unreadable file still counts as existing: never overwritten
    assert!(matches!(files.summaries, Doc::Malformed));
}

#[test]
fn on_disk_paths() {
    assert_eq!(paths::chapter_txt(7), "chapters/chapter_007.txt");
    assert_eq!(paths::chapter_meta(42), "chapters/chapter_042.json");
    assert_eq!(paths::chapter_txt(1234), "chapters/chapter_1234.txt");
    assert_eq!(paths::chapters_index_file(), "chapters/index.json");
    assert_eq!(paths::session_file("abc"), "chat_sessions/session_abc.json");
    assert_eq!(paths::config_file(), "config.json");
    assert_eq!(paths::llm_config_file(), "llm_config.json");
    assert_eq!(paths::summaries_file(), "summaries.json");
    assert_eq!(paths::sessions_index_file(), "chat_sessions/index.json");
    assert_eq!(paths::vectors_dir(), ".creatorai/vectors");
    assert_eq!(paths::chapter_floor_file(), ".creatorai/chapter_floor.json");
}
