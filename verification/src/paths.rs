//! The on-disk layout of a project: every path a store operation
//! touches, relative to the project root.

use vstd::prelude::*;
use crate::strutil::{pad3_spec, pad3_string};

verus! {

pub fn chapters_dir() -> (r: String)
    ensures
        r@ == "chapters"@,
{
    "chapters".to_owned()
}

pub fn chat_sessions_dir() -> (r: String)
    ensures
        r@ == "chat_sessions"@,
{
    "chat_sessions".to_owned()
}

pub fn creatorai_dir() -> (r: String)
    ensures
        r@ == ".creatorai"@,
{
    ".creatorai".to_owned()
}

/// Reserved for the unimplemented vector store.
pub fn vectors_dir() -> (r: String)
    ensures
        r@ == ".creatorai/vectors"@,
{
    ".creatorai/vectors".to_owned()
}

/// The recorded high-water mark of assigned chapter ids.
pub fn chapter_floor_file() -> (r: String)
    ensures
        r@ == ".creatorai/chapter_floor.json"@,
{
    ".creatorai/chapter_floor.json".to_owned()
}

pub fn chapters_index_file() -> (r: String)
    ensures
        r@ == "chapters/index.json"@,
{
    "chapters/index.json".to_owned()
}

/// The body file of a chapter: `chapters/chapter_{id:03}.txt`.
pub fn chapter_txt(id: u32) -> (r: String)
    ensures
        r@ == "chapters/chapter_"@ + pad3_spec(id as int) + ".txt"@,
{
    let mut s = "chapters/chapter_".to_owned();
    let num = pad3_string(id);
    s.append(num.as_str());
    s.append(".txt");
    s
}

/// The metadata file of a chapter: `chapters/chapter_{id:03}.json`.
pub fn chapter_meta(id: u32) -> (r: String)
    ensures
        r@ == "chapters/chapter_"@ + pad3_spec(id as int) + ".json"@,
{
    let mut s = "chapters/chapter_".to_owned();
    let num = pad3_string(id);
    s.append(num.as_str());
    s.append(".json");
    s
}

pub fn config_file() -> (r: String)
    ensures
        r@ == "config.json"@,
{
    "config.json".to_owned()
}

pub fn llm_config_file() -> (r: String)
    ensures
        r@ == "llm_config.json"@,
{
    "llm_config.json".to_owned()
}

pub fn summaries_file() -> (r: String)
    ensures
        r@ == "summaries.json"@,
{
    "summaries.json".to_owned()
}

pub fn sessions_index_file() -> (r: String)
    ensures
        r@ == "chat_sessions/index.json"@,
{
    "chat_sessions/index.json".to_owned()
}

/// The file of one chat session: `chat_sessions/session_{id}.json`.
pub fn session_file(session_id: &str) -> (r: String)
    ensures
        r@ == "chat_sessions/session_"@ + session_id@ + ".json"@,
{
    let mut s = "chat_sessions/session_".to_owned();
    s.append(session_id);
    s.append(".json");
    s
}

} // verus!
