//! The project document store, verified over an explicit in-memory
//! image of the files under one project root.
//!
//! [`ProjectFiles`] holds, for every file the store owns, what a read
//! of that file would yield: absent, present but undecodable, or the
//! decoded value.  Every operation is specified as a transformation of
//! that image; the shell keeps the image and the real directory in
//! step, reading files before a call and writing the changed ones
//! (atomically, see [`crate::atomic`]) after it.

use vstd::prelude::*;
use crate::Doc;
use crate::types::{Chapter, ChapterIndexItem, ChatMessage, ChatSession, ChatSessionIndexItem, EndpointConfig, LlmConfig, Preset, ProjectInfo, SummaryRecord};
use crate::strutil::{dec_spec, u32_string};

verus! {

/// The body file of one chapter.
#[derive(Clone, Debug)]
pub struct ChapterText {
    pub id: u32,
    pub content: String,
}

impl ChapterText {
    pub fn duplicate(&self) -> (r: Self)
        ensures
            r == *self,
    {
        ChapterText { id: self.id, content: self.content.clone() }
    }
}

/// The decoded metadata file of one chapter.  A field is `None` when
/// the stored document lacks it (or holds it with the wrong type); the
/// loader substitutes the documented default.
#[derive(Clone, Debug)]
pub struct ChapterMeta {
    pub title: Option<String>,
    pub summary: Option<String>,
}

/// The metadata file slot of one chapter id.
#[derive(Clone, Debug)]
pub struct ChapterMetaFile {
    pub id: u32,
    pub meta: Doc<ChapterMeta>,
}

/// The file of one chat session, keyed by the id in its file name.
#[derive(Clone, Debug)]
pub struct SessionFile {
    pub id: String,
    pub session: Doc<ChatSession>,
}

/// The in-memory image of every document file under one project root.
#[derive(Clone, Debug)]
pub struct ProjectFiles {
    pub preset: Doc<Preset>,
    pub llm_config: Doc<LlmConfig>,
    pub summaries: Doc<Vec<SummaryRecord>>,
    pub chapter_index: Doc<Vec<ChapterIndexItem>>,
    pub chapter_texts: Vec<ChapterText>,
    pub chapter_metas: Vec<ChapterMetaFile>,
    pub session_index: Doc<Vec<ChatSessionIndexItem>>,
    pub sessions: Vec<SessionFile>,
    /// The recorded high-water mark of assigned chapter ids, kept in
    /// the store's own reserved directory.  Ids are assigned above
    /// both the index maximum and this mark, and deletion leaves the
    /// mark in place, so the id of a deleted chapter — even the
    /// highest-numbered one — is never handed out again.
    pub chapter_floor: Doc<u32>,
}

impl ProjectFiles {
    /// The image of a directory with no document files at all.
    pub fn empty() -> (r: Self)
        ensures
            r.preset is Absent,
            r.llm_config is Absent,
            r.summaries is Absent,
            r.chapter_index is Absent,
            r.chapter_texts@ == Seq::<ChapterText>::empty(),
            r.chapter_metas@ == Seq::<ChapterMetaFile>::empty(),
            r.session_index is Absent,
            r.sessions@ == Seq::<SessionFile>::empty(),
            r.chapter_floor is Absent,
    {
        ProjectFiles {
            preset: Doc::Absent,
            llm_config: Doc::Absent,
            summaries: Doc::Absent,
            chapter_index: Doc::Absent,
            chapter_texts: Vec::new(),
            chapter_metas: Vec::new(),
            session_index: Doc::Absent,
            sessions: Vec::new(),
            chapter_floor: Doc::Absent,
        }
    }
}

// ---------------------------------------------------------------------
// Spec-level lookups over the image
// ---------------------------------------------------------------------

/// The first text file with the given id, as the directory would
/// resolve the file name.
pub open spec fn text_lookup(ts: Seq<ChapterText>, id: u32) -> Option<ChapterText>
    decreases ts.len(),
{
    if ts.len() == 0 {
        None
    } else if ts[0].id == id {
        Some(ts[0])
    } else {
        text_lookup(ts.drop_first(), id)
    }
}

pub open spec fn meta_lookup(ms: Seq<ChapterMetaFile>, id: u32) -> Option<ChapterMetaFile>
    decreases ms.len(),
{
    if ms.len() == 0 {
        None
    } else if ms[0].id == id {
        Some(ms[0])
    } else {
        meta_lookup(ms.drop_first(), id)
    }
}

pub open spec fn index_lookup(v: Seq<ChapterIndexItem>, id: u32) -> Option<ChapterIndexItem>
    decreases v.len(),
{
    if v.len() == 0 {
        None
    } else if v[0].id == id {
        Some(v[0])
    } else {
        index_lookup(v.drop_first(), id)
    }
}

pub open spec fn session_lookup(ss: Seq<SessionFile>, sid: Seq<char>) -> Option<SessionFile>
    decreases ss.len(),
{
    if ss.len() == 0 {
        None
    } else if ss[0].id@ == sid {
        Some(ss[0])
    } else {
        session_lookup(ss.drop_first(), sid)
    }
}

/// The chapter index as a sequence: what `list_chapters` yields when
/// the index file is readable (absent reads as empty).
pub open spec fn index_seq(m: ProjectFiles) -> Seq<ChapterIndexItem> {
    match m.chapter_index {
        Doc::Present(v) => v@,
        _ => Seq::empty(),
    }
}

pub open spec fn session_index_seq(m: ProjectFiles) -> Seq<ChatSessionIndexItem> {
    match m.session_index {
        Doc::Present(v) => v@,
        _ => Seq::empty(),
    }
}

/// The metadata document of a chapter id; `Absent` when no metadata
/// file exists.
pub open spec fn meta_doc(m: ProjectFiles, id: u32) -> Doc<ChapterMeta> {
    match meta_lookup(m.chapter_metas@, id) {
        Some(f) => f.meta,
        None => Doc::Absent,
    }
}

pub open spec fn meta_malformed(m: ProjectFiles, id: u32) -> bool {
    meta_doc(m, id) is Malformed
}

/// The synthesized title used when neither metadata nor index offer
/// one: `第{id}章`.
pub open spec fn default_title_spec(id: u32) -> Seq<char> {
    "第"@ + dec_spec(id as int) + "章"@
}

/// The title `load_chapter` reports: the metadata title when stored,
/// else the index title, else the synthesized default.
pub open spec fn load_title_spec(m: ProjectFiles, id: u32) -> Seq<char> {
    match meta_doc(m, id) {
        Doc::Present(meta) => match meta.title {
            Some(t) => t@,
            None => default_title_spec(id),
        },
        _ => match m.chapter_index {
            Doc::Present(v) => match index_lookup(v@, id) {
                Some(it) => it.title@,
                None => default_title_spec(id),
            },
            _ => default_title_spec(id),
        },
    }
}

/// The summary `load_chapter` reports: the stored one, else empty.
pub open spec fn load_summary_spec(m: ProjectFiles, id: u32) -> Seq<char> {
    match meta_doc(m, id) {
        Doc::Present(meta) => match meta.summary {
            Some(s) => s@,
            None => Seq::empty(),
        },
        _ => Seq::empty(),
    }
}

// ---------------------------------------------------------------------
// Spec-level transformations
// ---------------------------------------------------------------------

pub open spec fn has_text_id(ts: Seq<ChapterText>, id: u32) -> bool {
    exists|k: int| 0 <= k < ts.len() && ts[k].id == id
}

pub open spec fn has_meta_id(ms: Seq<ChapterMetaFile>, id: u32) -> bool {
    exists|k: int| 0 <= k < ms.len() && ms[k].id == id
}

pub open spec fn has_index_id(v: Seq<ChapterIndexItem>, id: u32) -> bool {
    exists|k: int| 0 <= k < v.len() && v[k].id == id
}

pub open spec fn has_session_id(ss: Seq<SessionFile>, sid: Seq<char>) -> bool {
    exists|k: int| 0 <= k < ss.len() && ss[k].id@ == sid
}

/// Overwriting the text file of `id` with `content`: in place when the
/// file exists, else as a new file.
pub open spec fn texts_upserted(
    ts: Seq<ChapterText>,
    new: Seq<ChapterText>,
    id: u32,
    content: Seq<char>,
) -> bool {
    if has_text_id(ts, id) {
        &&& new.len() == ts.len()
        &&& forall|k: int| #![trigger new[k]] 0 <= k < ts.len() && ts[k].id == id ==>
            new[k].id == id && new[k].content@ == content
        &&& forall|k: int| #![trigger new[k]] 0 <= k < ts.len() && ts[k].id != id ==> new[k] == ts[k]
    } else {
        &&& new.len() == ts.len() + 1
        &&& new.take(ts.len() as int) == ts
        &&& new.last().id == id
        &&& new.last().content@ == content
    }
}

/// Overwriting the metadata file of `id` with a full record.
pub open spec fn stored_meta(f: ChapterMetaFile, id: u32, title: Seq<char>, summary: Seq<char>) -> bool {
    &&& f.id == id
    &&& f.meta matches Doc::Present(me)
        && (me.title matches Some(t) && t@ == title)
        && (me.summary matches Some(s) && s@ == summary)
}

pub open spec fn metas_upserted(
    ms: Seq<ChapterMetaFile>,
    new: Seq<ChapterMetaFile>,
    id: u32,
    title: Seq<char>,
    summary: Seq<char>,
) -> bool {
    if has_meta_id(ms, id) {
        &&& new.len() == ms.len()
        &&& forall|k: int| #![trigger new[k]] 0 <= k < ms.len() && ms[k].id == id ==>
            stored_meta(new[k], id, title, summary)
        &&& forall|k: int| #![trigger new[k]] 0 <= k < ms.len() && ms[k].id != id ==> new[k] == ms[k]
    } else {
        &&& new.len() == ms.len() + 1
        &&& new.take(ms.len() as int) == ms
        &&& stored_meta(new.last(), id, title, summary)
    }
}

/// The index after `save_chapter` re-synchronizes it: every entry of
/// the id takes the new title; a missing id is appended.
pub open spec fn sync_index(v: Seq<ChapterIndexItem>, id: u32, title: String) -> Seq<ChapterIndexItem> {
    if has_index_id(v, id) {
        v.map_values(|it: ChapterIndexItem| if it.id == id { ChapterIndexItem { id, title } } else { it })
    } else {
        v.push(ChapterIndexItem { id, title })
    }
}

/// The index after `rename_chapter` retitles matches (never appends).
pub open spec fn retitle_index(v: Seq<ChapterIndexItem>, id: u32, title: String) -> Seq<ChapterIndexItem> {
    v.map_values(|it: ChapterIndexItem| if it.id == id { ChapterIndexItem { id, title } } else { it })
}

pub open spec fn remove_index_id(v: Seq<ChapterIndexItem>, id: u32) -> Seq<ChapterIndexItem>
    decreases v.len(),
{
    if v.len() == 0 {
        Seq::empty()
    } else if v.last().id == id {
        remove_index_id(v.drop_last(), id)
    } else {
        remove_index_id(v.drop_last(), id).push(v.last())
    }
}

pub open spec fn remove_text_id(ts: Seq<ChapterText>, id: u32) -> Seq<ChapterText>
    decreases ts.len(),
{
    if ts.len() == 0 {
        Seq::empty()
    } else if ts.last().id == id {
        remove_text_id(ts.drop_last(), id)
    } else {
        remove_text_id(ts.drop_last(), id).push(ts.last())
    }
}

pub open spec fn remove_meta_id(ms: Seq<ChapterMetaFile>, id: u32) -> Seq<ChapterMetaFile>
    decreases ms.len(),
{
    if ms.len() == 0 {
        Seq::empty()
    } else if ms.last().id == id {
        remove_meta_id(ms.drop_last(), id)
    } else {
        remove_meta_id(ms.drop_last(), id).push(ms.last())
    }
}

/// The greatest chapter id the index lists (0 when empty).
pub open spec fn max_id(v: Seq<ChapterIndexItem>) -> int
    decreases v.len(),
{
    if v.len() == 0 {
        0
    } else if v.last().id > max_id(v.drop_last()) {
        v.last().id as int
    } else {
        max_id(v.drop_last())
    }
}

/// The high-water mark's value; an absent or unreadable mark falls
/// back to the index maximum alone.
pub open spec fn floor_of(m: ProjectFiles) -> int {
    match m.chapter_floor {
        Doc::Present(f) => f as int,
        _ => 0,
    }
}

/// The id the next created chapter receives: one above both every id
/// the index lists and every id ever assigned.
pub open spec fn next_chapter_id(m: ProjectFiles) -> int {
    (if max_id(index_seq(m)) > floor_of(m) {
        max_id(index_seq(m))
    } else {
        floor_of(m)
    }) + 1
}

// ---------------------------------------------------------------------
// Lookup lemmas
// ---------------------------------------------------------------------

proof fn lemma_text_lookup_at(ts: Seq<ChapterText>, id: u32, i: int)
    requires
        0 <= i < ts.len(),
        ts[i].id == id,
        forall|k: int| 0 <= k < i ==> ts[k].id != id,
    ensures
        text_lookup(ts, id) == Some(ts[i]),
    decreases i,
{
    if i > 0 {
        lemma_text_lookup_at(ts.drop_first(), id, i - 1);
    }
}

proof fn lemma_text_lookup_none(ts: Seq<ChapterText>, id: u32)
    requires
        forall|k: int| 0 <= k < ts.len() ==> ts[k].id != id,
    ensures
        text_lookup(ts, id) is None,
    decreases ts.len(),
{
    if ts.len() > 0 {
        lemma_text_lookup_none(ts.drop_first(), id);
    }
}

proof fn lemma_meta_lookup_at(ms: Seq<ChapterMetaFile>, id: u32, i: int)
    requires
        0 <= i < ms.len(),
        ms[i].id == id,
        forall|k: int| 0 <= k < i ==> ms[k].id != id,
    ensures
        meta_lookup(ms, id) == Some(ms[i]),
    decreases i,
{
    if i > 0 {
        lemma_meta_lookup_at(ms.drop_first(), id, i - 1);
    }
}

proof fn lemma_meta_lookup_none(ms: Seq<ChapterMetaFile>, id: u32)
    requires
        forall|k: int| 0 <= k < ms.len() ==> ms[k].id != id,
    ensures
        meta_lookup(ms, id) is None,
    decreases ms.len(),
{
    if ms.len() > 0 {
        lemma_meta_lookup_none(ms.drop_first(), id);
    }
}

proof fn lemma_index_lookup_at(v: Seq<ChapterIndexItem>, id: u32, i: int)
    requires
        0 <= i < v.len(),
        v[i].id == id,
        forall|k: int| 0 <= k < i ==> v[k].id != id,
    ensures
        index_lookup(v, id) == Some(v[i]),
    decreases i,
{
    if i > 0 {
        lemma_index_lookup_at(v.drop_first(), id, i - 1);
    }
}

proof fn lemma_index_lookup_none(v: Seq<ChapterIndexItem>, id: u32)
    requires
        forall|k: int| 0 <= k < v.len() ==> v[k].id != id,
    ensures
        index_lookup(v, id) is None,
    decreases v.len(),
{
    if v.len() > 0 {
        lemma_index_lookup_none(v.drop_first(), id);
    }
}

proof fn lemma_session_lookup_at(ss: Seq<SessionFile>, sid: Seq<char>, i: int)
    requires
        0 <= i < ss.len(),
        ss[i].id@ == sid,
        forall|k: int| 0 <= k < i ==> ss[k].id@ != sid,
    ensures
        session_lookup(ss, sid) == Some(ss[i]),
    decreases i,
{
    if i > 0 {
        lemma_session_lookup_at(ss.drop_first(), sid, i - 1);
    }
}

proof fn lemma_session_lookup_none(ss: Seq<SessionFile>, sid: Seq<char>)
    requires
        forall|k: int| 0 <= k < ss.len() ==> ss[k].id@ != sid,
    ensures
        session_lookup(ss, sid) is None,
    decreases ss.len(),
{
    if ss.len() > 0 {
        lemma_session_lookup_none(ss.drop_first(), sid);
    }
}

fn find_session(ss: &Vec<SessionFile>, sid: &str) -> (r: Option<usize>)
    ensures
        match r {
            Some(i) => i < ss@.len() && ss@[i as int].id@ == sid@
                && session_lookup(ss@, sid@) == Some(ss@[i as int]),
            None => session_lookup(ss@, sid@) is None,
        },
{
    let mut i: usize = 0;
    while i < ss.len()
        invariant
            i <= ss@.len(),
            forall|k: int| 0 <= k < i ==> ss@[k].id@ != sid@,
        decreases ss@.len() - i,
    {
        if crate::strutil::str_eq(ss[i].id.as_str(), sid) {
            proof {
                lemma_session_lookup_at(ss@, sid@, i as int);
            }
            return Some(i);
        }
        i = i + 1;
    }
    proof {
        lemma_session_lookup_none(ss@, sid@);
    }
    None
}

// ---------------------------------------------------------------------
// Chapter operations
// ---------------------------------------------------------------------

/// The chapter index, or the empty listing when the index file does
/// not exist yet.  Fails only on an undecodable index file.
pub fn list_chapters(files: &ProjectFiles) -> (r: Result<Vec<ChapterIndexItem>, String>)
    ensures
        match r {
            Ok(v) => !(files.chapter_index is Malformed) && v@ == index_seq(*files),
            Err(e) => files.chapter_index is Malformed && e@ == "章节索引格式错误"@,
        },
{
    match &files.chapter_index {
        Doc::Absent => Ok(Vec::new()),
        Doc::Malformed => Err("章节索引格式错误".to_owned()),
        Doc::Present(v) => {
            let mut out: Vec<ChapterIndexItem> = Vec::new();
            let mut i: usize = 0;
            while i < v.len()
                invariant
                    i <= v@.len(),
                    out@ == v@.take(i as int),
                decreases v@.len() - i,
            {
                out.push(v[i].duplicate());
                proof {
                    assert(out@ =~= v@.take(i + 1));
                }
                i = i + 1;
            }
            proof {
                assert(v@.take(v@.len() as int) =~= v@);
            }
            Ok(out)
        },
    }
}

fn find_text(ts: &Vec<ChapterText>, id: u32) -> (r: Option<usize>)
    ensures
        match r {
            Some(i) => i < ts@.len() && ts@[i as int].id == id
                && text_lookup(ts@, id) == Some(ts@[i as int]),
            None => text_lookup(ts@, id) is None,
        },
{
    let mut i: usize = 0;
    while i < ts.len()
        invariant
            i <= ts@.len(),
            forall|k: int| 0 <= k < i ==> ts@[k].id != id,
        decreases ts@.len() - i,
    {
        if ts[i].id == id {
            proof {
                lemma_text_lookup_at(ts@, id, i as int);
            }
            return Some(i);
        }
        i = i + 1;
    }
    proof {
        lemma_text_lookup_none(ts@, id);
    }
    None
}

fn find_meta(ms: &Vec<ChapterMetaFile>, id: u32) -> (r: Option<usize>)
    ensures
        match r {
            Some(i) => i < ms@.len() && ms@[i as int].id == id
                && meta_lookup(ms@, id) == Some(ms@[i as int]),
            None => meta_lookup(ms@, id) is None,
        },
{
    let mut i: usize = 0;
    while i < ms.len()
        invariant
            i <= ms@.len(),
            forall|k: int| 0 <= k < i ==> ms@[k].id != id,
        decreases ms@.len() - i,
    {
        if ms[i].id == id {
            proof {
                lemma_meta_lookup_at(ms@, id, i as int);
            }
            return Some(i);
        }
        i = i + 1;
    }
    proof {
        lemma_meta_lookup_none(ms@, id);
    }
    None
}

fn find_index(v: &Vec<ChapterIndexItem>, id: u32) -> (r: Option<usize>)
    ensures
        match r {
            Some(i) => i < v@.len() && v@[i as int].id == id
                && index_lookup(v@, id) == Some(v@[i as int]),
            None => index_lookup(v@, id) is None && !has_index_id(v@, id),
        },
{
    let mut i: usize = 0;
    while i < v.len()
        invariant
            i <= v@.len(),
            forall|k: int| 0 <= k < i ==> v@[k].id != id,
        decreases v@.len() - i,
    {
        if v[i].id == id {
            proof {
                lemma_index_lookup_at(v@, id, i as int);
            }
            return Some(i);
        }
        i = i + 1;
    }
    proof {
        lemma_index_lookup_none(v@, id);
    }
    None
}

fn empty_string() -> (r: String)
    ensures
        r@ == Seq::<char>::empty(),
{
    let r = "".to_owned();
    proof {
        reveal_strlit("");
        assert(r@ =~= Seq::<char>::empty());
    }
    r
}

/// The synthesized fallback title `第{id}章`.
fn default_title(id: u32) -> (r: String)
    ensures
        r@ == default_title_spec(id),
{
    let mut s = "第".to_owned();
    let num = u32_string(id);
    s.append(num.as_str());
    s.append("章");
    proof {
        assert(s@ =~= default_title_spec(id));
    }
    s
}

/// Loads a chapter: fails when the body file is absent, or when a
/// metadata file exists but cannot be decoded.  A missing metadata
/// file falls back to the index title, then to `第{id}章`, with an
/// empty summary.
pub fn load_chapter(files: &ProjectFiles, id: u32) -> (r: Result<Chapter, String>)
    ensures
        match r {
            Ok(ch) => {
                &&& text_lookup(files.chapter_texts@, id) matches Some(t) && ch.content == t.content
                &&& !meta_malformed(*files, id)
                &&& ch.id == id
                &&& ch.title@ == load_title_spec(*files, id)
                &&& ch.summary@ == load_summary_spec(*files, id)
            },
            Err(e) => {
                ||| (text_lookup(files.chapter_texts@, id) is None && e@ == "章节不存在"@)
                ||| (text_lookup(files.chapter_texts@, id) is Some && meta_malformed(*files, id)
                    && e@ == "章节元数据格式错误"@)
            },
        },
{
    let ti = match find_text(&files.chapter_texts, id) {
        None => {
            return Err("章节不存在".to_owned());
        },
        Some(ti) => ti,
    };
    let content = files.chapter_texts[ti].content.clone();

    match find_meta(&files.chapter_metas, id) {
        Some(mi) => {
            match &files.chapter_metas[mi].meta {
                Doc::Malformed => Err("章节元数据格式错误".to_owned()),
                Doc::Present(meta) => {
                    let title = match &meta.title {
                        Some(t) => t.clone(),
                        None => default_title(id),
                    };
                    let summary = match &meta.summary {
                        Some(s) => s.clone(),
                        None => empty_string(),
                    };
                    Ok(Chapter { id, title, content, summary })
                },
                Doc::Absent => {
                    let title = title_from_index(files, id);
                    Ok(Chapter { id, title, content, summary: empty_string() })
                },
            }
        },
        None => {
            let title = title_from_index(files, id);
            Ok(Chapter { id, title, content, summary: empty_string() })
        },
    }
}

fn title_from_index(files: &ProjectFiles, id: u32) -> (r: String)
    requires
        !(meta_doc(*files, id) is Present),
    ensures
        r@ == load_title_spec(*files, id),
{
    match &files.chapter_index {
        Doc::Present(v) => {
            match find_index(v, id) {
                Some(i) => v[i].title.clone(),
                None => default_title(id),
            }
        },
        _ => default_title(id),
    }
}

/// Writes a chapter's body and metadata, then re-synchronizes the
/// index: the single place where index drift is self-healed.  The body
/// and metadata are written even when the index file turns out to be
/// undecodable.
pub fn save_chapter(files: &mut ProjectFiles, chapter: &Chapter) -> (r: Result<(), String>)
    ensures
        texts_upserted(old(files).chapter_texts@, final(files).chapter_texts@, chapter.id, chapter.content@),
        metas_upserted(
            old(files).chapter_metas@,
            final(files).chapter_metas@,
            chapter.id,
            chapter.title@,
            chapter.summary@,
        ),
        final(files).preset == old(files).preset,
        final(files).llm_config == old(files).llm_config,
        final(files).summaries == old(files).summaries,
        final(files).session_index == old(files).session_index,
        final(files).sessions == old(files).sessions,
        final(files).chapter_floor == old(files).chapter_floor,
        match r {
            Ok(()) => !(old(files).chapter_index is Malformed)
                && (final(files).chapter_index matches Doc::Present(v)
                    && v@ == sync_index(index_seq(*old(files)), chapter.id, chapter.title)),
            Err(e) => old(files).chapter_index is Malformed
                && final(files).chapter_index == old(files).chapter_index
                && e@ == "章节索引格式错误"@,
        },
{
    let ghost old_texts = files.chapter_texts@;
    let mut new_texts: Vec<ChapterText> = Vec::new();
    let mut found = false;
    let mut i: usize = 0;
    while i < files.chapter_texts.len()
        invariant
            i <= old_texts.len(),
            files.chapter_texts@ == old_texts,
            new_texts@.len() == i,
            found == exists|k: int| 0 <= k < i && old_texts[k].id == chapter.id,
            forall|k: int| #![trigger new_texts@[k]] 0 <= k < i && old_texts[k].id == chapter.id ==>
                new_texts@[k].id == chapter.id && new_texts@[k].content@ == chapter.content@,
            forall|k: int| #![trigger new_texts@[k]] 0 <= k < i && old_texts[k].id != chapter.id ==>
                new_texts@[k] == old_texts[k],
        decreases old_texts.len() - i,
    {
        if files.chapter_texts[i].id == chapter.id {
            new_texts.push(ChapterText { id: chapter.id, content: chapter.content.clone() });
            found = true;
        } else {
            new_texts.push(files.chapter_texts[i].duplicate());
        }
        i = i + 1;
    }
    if !found {
        new_texts.push(ChapterText { id: chapter.id, content: chapter.content.clone() });
        proof {
            assert(new_texts@.take(old_texts.len() as int) =~= old_texts);
        }
    }
    files.chapter_texts = new_texts;

    let ghost old_metas = files.chapter_metas@;
    let mut new_metas: Vec<ChapterMetaFile> = Vec::new();
    let mut mfound = false;
    let mut j: usize = 0;
    while j < files.chapter_metas.len()
        invariant
            j <= old_metas.len(),
            files.chapter_metas@ == old_metas,
            new_metas@.len() == j,
            mfound == exists|k: int| 0 <= k < j && old_metas[k].id == chapter.id,
            forall|k: int| #![trigger new_metas@[k]] 0 <= k < j && old_metas[k].id == chapter.id ==>
                stored_meta(new_metas@[k], chapter.id, chapter.title@, chapter.summary@),
            forall|k: int| #![trigger new_metas@[k]] 0 <= k < j && old_metas[k].id != chapter.id ==>
                new_metas@[k] == old_metas[k],
        decreases old_metas.len() - j,
    {
        if files.chapter_metas[j].id == chapter.id {
            new_metas.push(ChapterMetaFile {
                id: chapter.id,
                meta: Doc::Present(ChapterMeta {
                    title: Some(chapter.title.clone()),
                    summary: Some(chapter.summary.clone()),
                }),
            });
            mfound = true;
        } else {
            new_metas.push(duplicate_meta_file(&files.chapter_metas[j]));
        }
        j = j + 1;
    }
    if !mfound {
        new_metas.push(ChapterMetaFile {
            id: chapter.id,
            meta: Doc::Present(ChapterMeta {
                title: Some(chapter.title.clone()),
                summary: Some(chapter.summary.clone()),
            }),
        });
        proof {
            assert(new_metas@.take(old_metas.len() as int) =~= old_metas);
        }
    }
    files.chapter_metas = new_metas;

    let index = match list_chapters(files) {
        Ok(v) => v,
        Err(e) => {
            return Err(e);
        },
    };
    let ghost index_view = index@;
    let mut new_index: Vec<ChapterIndexItem> = Vec::new();
    let mut ifound = false;
    let mut k: usize = 0;
    while k < index.len()
        invariant
            k <= index_view.len(),
            index@ == index_view,
            new_index@.len() == k,
            ifound == exists|t: int| 0 <= t < k && index_view[t].id == chapter.id,
            forall|t: int| 0 <= t < k ==> #[trigger] new_index@[t] == (if index_view[t].id == chapter.id {
                ChapterIndexItem { id: chapter.id, title: chapter.title }
            } else {
                index_view[t]
            }),
        decreases index_view.len() - k,
    {
        if index[k].id == chapter.id {
            new_index.push(ChapterIndexItem { id: chapter.id, title: chapter.title.clone() });
            ifound = true;
        } else {
            new_index.push(index[k].duplicate());
        }
        k = k + 1;
    }
    if !ifound {
        new_index.push(ChapterIndexItem { id: chapter.id, title: chapter.title.clone() });
    }
    proof {
        if ifound {
            assert(has_index_id(index_view, chapter.id));
            assert(new_index@ =~= sync_index(index_view, chapter.id, chapter.title));
        } else {
            assert(!has_index_id(index_view, chapter.id));
            assert(new_index@ =~= sync_index(index_view, chapter.id, chapter.title));
        }
    }
    files.chapter_index = Doc::Present(new_index);
    Ok(())
}

fn duplicate_meta_file(f: &ChapterMetaFile) -> (r: ChapterMetaFile)
    ensures
        r == *f,
{
    let meta = match &f.meta {
        Doc::Absent => Doc::Absent,
        Doc::Malformed => Doc::Malformed,
        Doc::Present(m) => Doc::Present(ChapterMeta {
            title: match &m.title {
                Some(t) => Some(t.clone()),
                None => None,
            },
            summary: match &m.summary {
                Some(s) => Some(s.clone()),
                None => None,
            },
        }),
    };
    ChapterMetaFile { id: f.id, meta }
}

fn max_index_id(v: &Vec<ChapterIndexItem>) -> (r: u32)
    ensures
        r as int == max_id(v@),
{
    let mut m: u32 = 0;
    let mut i: usize = 0;
    while i < v.len()
        invariant
            i <= v@.len(),
            m as int == max_id(v@.take(i as int)),
        decreases v@.len() - i,
    {
        proof {
            assert(v@.take(i + 1).drop_last() =~= v@.take(i as int));
        }
        if v[i].id > m {
            m = v[i].id;
        }
        i = i + 1;
    }
    proof {
        assert(v@.take(v@.len() as int) =~= v@);
    }
    m
}

/// Creates an empty chapter under the next id — one above every id
/// the index lists and every id recorded as assigned, so a deleted
/// id is never reused — and appends it to the index.
pub fn create_chapter(files: &mut ProjectFiles, title: String) -> (r: Result<ChapterIndexItem, String>)
    requires
        next_chapter_id(*old(files)) <= u32::MAX,
    ensures
        match r {
            Ok(item) => {
                &&& !(old(files).chapter_index is Malformed)
                &&& item.id as int == next_chapter_id(*old(files))
                &&& item.title == title
                &&& final(files).chapter_index matches Doc::Present(v)
                    && v@ == index_seq(*old(files)).push(item)
                &&& final(files).chapter_floor == Doc::Present::<u32>(item.id)
                &&& texts_upserted(old(files).chapter_texts@, final(files).chapter_texts@, item.id, Seq::empty())
                &&& metas_upserted(
                    old(files).chapter_metas@,
                    final(files).chapter_metas@,
                    item.id,
                    title@,
                    Seq::empty(),
                )
                &&& final(files).preset == old(files).preset
                &&& final(files).llm_config == old(files).llm_config
                &&& final(files).summaries == old(files).summaries
                &&& final(files).session_index == old(files).session_index
                &&& final(files).sessions == old(files).sessions
            },
            Err(e) => old(files).chapter_index is Malformed && *final(files) == *old(files)
                && e@ == "章节索引格式错误"@,
        },
{
    let mut index = match list_chapters(files) {
        Ok(v) => v,
        Err(e) => {
            return Err(e);
        },
    };
    let idx_max = max_index_id(&index);
    let floor = match &files.chapter_floor {
        Doc::Present(f) => *f,
        _ => 0,
    };
    let next_id = if idx_max > floor {
        idx_max + 1
    } else {
        floor + 1
    };

    let ch = Chapter {
        id: next_id,
        title: title.clone(),
        content: empty_string(),
        summary: empty_string(),
    };
    let saved = save_chapter(files, &ch);
    proof {
        assert(saved is Ok);
    }
    let item = ChapterIndexItem { id: next_id, title };
    index.push(item.duplicate());
    proof {
        assert(index@ =~= index_seq(*old(files)).push(item));
    }
    files.chapter_index = Doc::Present(index);
    files.chapter_floor = Doc::Present(next_id);
    Ok(item)
}

/// Retitles the chapter in the index, then rewrites the chapter's own
/// metadata.  When the chapter body is missing, the index keeps the
/// new title while the metadata update fails: the documented
/// inconsistency window of this operation.
pub fn rename_chapter(files: &mut ProjectFiles, id: u32, title: String) -> (r: Result<(), String>)
    ensures
        old(files).chapter_index is Malformed ==> r is Err && *final(files) == *old(files),
        !(old(files).chapter_index is Malformed) ==> {
            &&& final(files).chapter_index matches Doc::Present(v)
                && v@ == (if r is Ok {
                    sync_index(retitle_index(index_seq(*old(files)), id, title), id, title)
                } else {
                    retitle_index(index_seq(*old(files)), id, title)
                })
            &&& final(files).preset == old(files).preset
            &&& final(files).llm_config == old(files).llm_config
            &&& final(files).summaries == old(files).summaries
            &&& final(files).session_index == old(files).session_index
            &&& final(files).sessions == old(files).sessions
            &&& final(files).chapter_floor == old(files).chapter_floor
            &&& match r {
                Ok(()) => {
                    &&& text_lookup(old(files).chapter_texts@, id) matches Some(t)
                        && texts_upserted(old(files).chapter_texts@, final(files).chapter_texts@, id, t.content@)
                    &&& !meta_malformed(*old(files), id)
                    &&& metas_upserted(
                        old(files).chapter_metas@,
                        final(files).chapter_metas@,
                        id,
                        title@,
                        load_summary_spec(*old(files), id),
                    )
                },
                Err(e) => {
                    &&& final(files).chapter_texts == old(files).chapter_texts
                    &&& final(files).chapter_metas == old(files).chapter_metas
                    &&& (text_lookup(old(files).chapter_texts@, id) is None
                        || meta_malformed(*old(files), id))
                },
            }
        },
{
    let index = match list_chapters(files) {
        Ok(v) => v,
        Err(e) => {
            return Err(e);
        },
    };
    let ghost index_view = index@;
    let mut new_index: Vec<ChapterIndexItem> = Vec::new();
    let mut k: usize = 0;
    while k < index.len()
        invariant
            k <= index_view.len(),
            index@ == index_view,
            new_index@.len() == k,
            forall|t: int| 0 <= t < k ==> #[trigger] new_index@[t] == (if index_view[t].id == id {
                ChapterIndexItem { id, title }
            } else {
                index_view[t]
            }),
        decreases index_view.len() - k,
    {
        if index[k].id == id {
            new_index.push(ChapterIndexItem { id, title: title.clone() });
        } else {
            new_index.push(index[k].duplicate());
        }
        k = k + 1;
    }
    proof {
        assert(new_index@ =~= retitle_index(index_view, id, title));
    }
    // loading before the index write changes nothing observable: the
    // index can only contribute a fallback title, and the rename
    // overwrites the title in any case
    let loaded = load_chapter(files, id);
    files.chapter_index = Doc::Present(new_index);
    let mut ch = match loaded {
        Ok(c) => c,
        Err(e) => {
            return Err(e);
        },
    };
    ch.title = title;
    let saved = save_chapter(files, &ch);
    proof {
        assert(saved is Ok);
    }
    Ok(())
}

/// Removes the id from the index, then deletes the chapter's body and
/// metadata files; a missing file is not an error.
pub fn delete_chapter(files: &mut ProjectFiles, id: u32) -> (r: Result<(), String>)
    ensures
        match r {
            Ok(()) => {
                &&& !(old(files).chapter_index is Malformed)
                &&& final(files).chapter_index matches Doc::Present(v)
                    && v@ == remove_index_id(index_seq(*old(files)), id)
                &&& final(files).chapter_texts@ == remove_text_id(old(files).chapter_texts@, id)
                &&& final(files).chapter_metas@ == remove_meta_id(old(files).chapter_metas@, id)
                &&& final(files).preset == old(files).preset
                &&& final(files).llm_config == old(files).llm_config
                &&& final(files).summaries == old(files).summaries
                &&& final(files).session_index == old(files).session_index
                &&& final(files).sessions == old(files).sessions
                &&& final(files).chapter_floor == old(files).chapter_floor
            },
            Err(e) => old(files).chapter_index is Malformed && *final(files) == *old(files)
                && e@ == "章节索引格式错误"@,
        },
{
    let index = match list_chapters(files) {
        Ok(v) => v,
        Err(e) => {
            return Err(e);
        },
    };
    let ghost index_view = index@;
    let mut new_index: Vec<ChapterIndexItem> = Vec::new();
    let mut k: usize = 0;
    while k < index.len()
        invariant
            k <= index_view.len(),
            index@ == index_view,
            new_index@ == remove_index_id(index_view.take(k as int), id),
        decreases index_view.len() - k,
    {
        proof {
            assert(index_view.take(k + 1).drop_last() =~= index_view.take(k as int));
        }
        if index[k].id != id {
            new_index.push(index[k].duplicate());
        }
        k = k + 1;
    }
    proof {
        assert(index_view.take(index_view.len() as int) =~= index_view);
    }
    files.chapter_index = Doc::Present(new_index);

    let ghost old_texts = files.chapter_texts@;
    let mut new_texts: Vec<ChapterText> = Vec::new();
    let mut i: usize = 0;
    while i < files.chapter_texts.len()
        invariant
            i <= old_texts.len(),
            files.chapter_texts@ == old_texts,
            new_texts@ == remove_text_id(old_texts.take(i as int), id),
        decreases old_texts.len() - i,
    {
        proof {
            assert(old_texts.take(i + 1).drop_last() =~= old_texts.take(i as int));
        }
        if files.chapter_texts[i].id != id {
            new_texts.push(files.chapter_texts[i].duplicate());
        }
        i = i + 1;
    }
    proof {
        assert(old_texts.take(old_texts.len() as int) =~= old_texts);
    }
    files.chapter_texts = new_texts;

    let ghost old_metas = files.chapter_metas@;
    let mut new_metas: Vec<ChapterMetaFile> = Vec::new();
    let mut j: usize = 0;
    while j < files.chapter_metas.len()
        invariant
            j <= old_metas.len(),
            files.chapter_metas@ == old_metas,
            new_metas@ == remove_meta_id(old_metas.take(j as int), id),
        decreases old_metas.len() - j,
    {
        proof {
            assert(old_metas.take(j + 1).drop_last() =~= old_metas.take(j as int));
        }
        if files.chapter_metas[j].id != id {
            new_metas.push(duplicate_meta_file(&files.chapter_metas[j]));
        }
        j = j + 1;
    }
    proof {
        assert(old_metas.take(old_metas.len() as int) =~= old_metas);
    }
    files.chapter_metas = new_metas;
    Ok(())
}

// ---------------------------------------------------------------------
// Summaries, preset and configuration files
// ---------------------------------------------------------------------

/// The summary log as a sequence (absent reads as empty).
pub open spec fn summaries_seq(m: ProjectFiles) -> Seq<SummaryRecord> {
    match m.summaries {
        Doc::Present(v) => v@,
        _ => Seq::empty(),
    }
}

/// The whole append-only summary log, oldest first.
pub fn load_summaries(files: &ProjectFiles) -> (r: Result<Vec<SummaryRecord>, String>)
    ensures
        match r {
            Ok(v) => !(files.summaries is Malformed) && v@ == summaries_seq(*files),
            Err(e) => files.summaries is Malformed && e@ == "summaries.json 格式错误"@,
        },
{
    match &files.summaries {
        Doc::Absent => Ok(Vec::new()),
        Doc::Malformed => Err("summaries.json 格式错误".to_owned()),
        Doc::Present(v) => {
            let mut out: Vec<SummaryRecord> = Vec::new();
            let mut i: usize = 0;
            while i < v.len()
                invariant
                    i <= v@.len(),
                    out@ == v@.take(i as int),
                decreases v@.len() - i,
            {
                out.push(v[i].duplicate());
                proof {
                    assert(out@ =~= v@.take(i + 1));
                }
                i = i + 1;
            }
            proof {
                assert(v@.take(v@.len() as int) =~= v@);
            }
            Ok(out)
        },
    }
}

/// Appends one record to the summary log and rewrites it whole.
pub fn append_summary(files: &mut ProjectFiles, record: SummaryRecord) -> (r: Result<(), String>)
    ensures
        match r {
            Ok(()) => {
                &&& !(old(files).summaries is Malformed)
                &&& final(files).summaries matches Doc::Present(v)
                    && v@ == summaries_seq(*old(files)).push(record)
                &&& final(files).preset == old(files).preset
                &&& final(files).llm_config == old(files).llm_config
                &&& final(files).chapter_index == old(files).chapter_index
                &&& final(files).chapter_texts == old(files).chapter_texts
                &&& final(files).chapter_metas == old(files).chapter_metas
                &&& final(files).session_index == old(files).session_index
                &&& final(files).sessions == old(files).sessions
                &&& final(files).chapter_floor == old(files).chapter_floor
            },
            Err(e) => old(files).summaries is Malformed && *final(files) == *old(files)
                && e@ == "summaries.json 格式错误"@,
        },
{
    let mut all = match load_summaries(files) {
        Ok(v) => v,
        Err(e) => {
            return Err(e);
        },
    };
    all.push(record);
    files.summaries = Doc::Present(all);
    Ok(())
}

/// Field-wise agreement of two presets.
pub open spec fn preset_like(a: Preset, b: Preset) -> bool {
    a.style == b.style && a.pov == b.pov && a.rules@ == b.rules@
}

/// The built-in localized default preset, by its contents.
pub open spec fn is_default_preset(p: Preset) -> bool {
    &&& p.style@ == "细腻、沉浸、画面感强"@
    &&& p.pov@ == "第三人称限定视角"@
    &&& p.rules@.len() == 4
    &&& p.rules@[0]@ == "保持文风一致"@
    &&& p.rules@[1]@ == "注重感官描写"@
    &&& p.rules@[2]@ == "避免上帝视角"@
    &&& p.rules@[3]@ == "通过行为和细节展现情感"@
}

/// The preset file, or the built-in default when none exists yet.
pub fn load_preset(files: &ProjectFiles) -> (r: Result<Preset, String>)
    ensures
        match r {
            Ok(p) => {
                ||| (files.preset is Absent && is_default_preset(p))
                ||| (files.preset matches Doc::Present(q) && preset_like(p, q))
            },
            Err(e) => files.preset is Malformed && e@ == "config.json 格式错误"@,
        },
        r is Err <==> files.preset is Malformed,
{
    match &files.preset {
        Doc::Absent => Ok(Preset::default_zh()),
        Doc::Malformed => Err("config.json 格式错误".to_owned()),
        Doc::Present(p) => Ok(p.duplicate()),
    }
}

/// Overwrites the preset file.
pub fn save_preset(files: &mut ProjectFiles, preset: &Preset) -> (r: Result<(), String>)
    ensures
        r is Ok,
        final(files).preset matches Doc::Present(p) && preset_like(p, *preset),
        final(files).llm_config == old(files).llm_config,
        final(files).summaries == old(files).summaries,
        final(files).chapter_index == old(files).chapter_index,
        final(files).chapter_texts == old(files).chapter_texts,
        final(files).chapter_metas == old(files).chapter_metas,
        final(files).session_index == old(files).session_index,
        final(files).sessions == old(files).sessions,
        final(files).chapter_floor == old(files).chapter_floor,
{
    files.preset = Doc::Present(preset.duplicate());
    Ok(())
}

/// Writes a preset to a standalone file outside any project tree.
pub fn export_preset(dest: &mut Doc<Preset>, preset: &Preset) -> (r: Result<(), String>)
    ensures
        r is Ok,
        *final(dest) matches Doc::Present(p) && preset_like(p, *preset),
{
    *dest = Doc::Present(preset.duplicate());
    Ok(())
}

/// Reads a preset from a standalone file; unlike `load_preset`, a
/// missing file is an error here.
pub fn import_preset(src: &Doc<Preset>) -> (r: Result<Preset, String>)
    ensures
        match r {
            Ok(p) => *src matches Doc::Present(q) && preset_like(p, q),
            Err(e) => {
                ||| (*src is Absent && e@ == "无法读取预设文件"@)
                ||| (*src is Malformed && e@ == "预设文件格式错误"@)
            },
        },
{
    match src {
        Doc::Absent => Err("无法读取预设文件".to_owned()),
        Doc::Malformed => Err("预设文件格式错误".to_owned()),
        Doc::Present(p) => Ok(p.duplicate()),
    }
}

/// Field-wise agreement of two endpoint configurations.
pub open spec fn llm_config_like(a: LlmConfig, b: LlmConfig) -> bool {
    a.endpoints@ == b.endpoints@
        && a.active_endpoint_id == b.active_endpoint_id
        && a.active_model == b.active_model
}

/// The endpoint configuration, or the empty default when none exists.
pub fn load_llm_config(files: &ProjectFiles) -> (r: Result<LlmConfig, String>)
    ensures
        match r {
            Ok(c) => {
                ||| (files.llm_config is Absent && c.endpoints@.len() == 0
                    && c.active_endpoint_id is None && c.active_model is None)
                ||| (files.llm_config matches Doc::Present(q) && llm_config_like(c, q))
            },
            Err(e) => files.llm_config is Malformed && e@ == "llm_config.json 格式错误"@,
        },
        r is Err <==> files.llm_config is Malformed,
{
    match &files.llm_config {
        Doc::Absent => Ok(LlmConfig::default()),
        Doc::Malformed => Err("llm_config.json 格式错误".to_owned()),
        Doc::Present(c) => Ok(c.duplicate()),
    }
}

/// Overwrites the endpoint configuration file.
pub fn save_llm_config(files: &mut ProjectFiles, cfg: &LlmConfig) -> (r: Result<(), String>)
    ensures
        r is Ok,
        final(files).llm_config matches Doc::Present(c) && llm_config_like(c, *cfg),
        final(files).preset == old(files).preset,
        final(files).summaries == old(files).summaries,
        final(files).chapter_index == old(files).chapter_index,
        final(files).chapter_texts == old(files).chapter_texts,
        final(files).chapter_metas == old(files).chapter_metas,
        final(files).session_index == old(files).session_index,
        final(files).sessions == old(files).sessions,
        final(files).chapter_floor == old(files).chapter_floor,
{
    files.llm_config = Doc::Present(cfg.duplicate());
    Ok(())
}

// ---------------------------------------------------------------------
// Chat sessions
// ---------------------------------------------------------------------

/// The default placeholder title of a fresh session.
pub open spec fn default_session_title() -> Seq<char> {
    "新对话"@
}

/// The stored file of `sid` holds exactly this session content.
pub open spec fn stored_session(f: SessionFile, sid: String, title: String, msgs: Seq<ChatMessage>) -> bool {
    &&& f.id == sid
    &&& f.session matches Doc::Present(t) && t.id == sid && t.title == title && t.messages@ == msgs
}

/// Overwriting the session file of `sid`: in place when it exists,
/// else as a new file.
pub open spec fn sessions_upserted(
    ss: Seq<SessionFile>,
    new: Seq<SessionFile>,
    sid: String,
    title: String,
    msgs: Seq<ChatMessage>,
) -> bool {
    if has_session_id(ss, sid@) {
        &&& new.len() == ss.len()
        &&& forall|k: int| #![trigger new[k]] 0 <= k < ss.len() && ss[k].id@ == sid@ ==>
            stored_session(new[k], sid, title, msgs)
        &&& forall|k: int| #![trigger new[k]] 0 <= k < ss.len() && ss[k].id@ != sid@ ==> new[k] == ss[k]
    } else {
        &&& new.len() == ss.len() + 1
        &&& new.take(ss.len() as int) == ss
        &&& stored_session(new.last(), sid, title, msgs)
    }
}

pub open spec fn has_sindex_id(v: Seq<ChatSessionIndexItem>, sid: Seq<char>) -> bool {
    exists|k: int| 0 <= k < v.len() && v[k].id@ == sid
}

/// The session index after `save_chat_session` re-synchronizes it.
pub open spec fn sync_sindex(v: Seq<ChatSessionIndexItem>, sid: String, title: String) -> Seq<ChatSessionIndexItem> {
    if has_sindex_id(v, sid@) {
        v.map_values(|it: ChatSessionIndexItem| if it.id@ == sid@ {
            ChatSessionIndexItem { id: it.id, title }
        } else {
            it
        })
    } else {
        v.push(ChatSessionIndexItem { id: sid, title })
    }
}

pub open spec fn remove_session_id(ss: Seq<SessionFile>, sid: Seq<char>) -> Seq<SessionFile>
    decreases ss.len(),
{
    if ss.len() == 0 {
        Seq::empty()
    } else if ss.last().id@ == sid {
        remove_session_id(ss.drop_last(), sid)
    } else {
        remove_session_id(ss.drop_last(), sid).push(ss.last())
    }
}

pub open spec fn remove_sindex_id(v: Seq<ChatSessionIndexItem>, sid: Seq<char>) -> Seq<ChatSessionIndexItem>
    decreases v.len(),
{
    if v.len() == 0 {
        Seq::empty()
    } else if v.last().id@ == sid {
        remove_sindex_id(v.drop_last(), sid)
    } else {
        remove_sindex_id(v.drop_last(), sid).push(v.last())
    }
}

/// The session index, or the empty listing when no index file exists.
pub fn list_chat_sessions(files: &ProjectFiles) -> (r: Result<Vec<ChatSessionIndexItem>, String>)
    ensures
        match r {
            Ok(v) => !(files.session_index is Malformed) && v@ == session_index_seq(*files),
            Err(e) => files.session_index is Malformed && e@ == "会话索引格式错误"@,
        },
{
    match &files.session_index {
        Doc::Absent => Ok(Vec::new()),
        Doc::Malformed => Err("会话索引格式错误".to_owned()),
        Doc::Present(v) => {
            let mut out: Vec<ChatSessionIndexItem> = Vec::new();
            let mut i: usize = 0;
            while i < v.len()
                invariant
                    i <= v@.len(),
                    out@ == v@.take(i as int),
                decreases v@.len() - i,
            {
                out.push(v[i].duplicate());
                proof {
                    assert(out@ =~= v@.take(i + 1));
                }
                i = i + 1;
            }
            proof {
                assert(v@.take(v@.len() as int) =~= v@);
            }
            Ok(out)
        },
    }
}

/// Writes the session file, then re-synchronizes the session index;
/// the session file is written even when the index is undecodable.
pub fn save_chat_session(files: &mut ProjectFiles, session: &ChatSession) -> (r: Result<(), String>)
    ensures
        sessions_upserted(
            old(files).sessions@,
            final(files).sessions@,
            session.id,
            session.title,
            session.messages@,
        ),
        final(files).preset == old(files).preset,
        final(files).llm_config == old(files).llm_config,
        final(files).summaries == old(files).summaries,
        final(files).chapter_index == old(files).chapter_index,
        final(files).chapter_texts == old(files).chapter_texts,
        final(files).chapter_metas == old(files).chapter_metas,
        final(files).chapter_floor == old(files).chapter_floor,
        match r {
            Ok(()) => !(old(files).session_index is Malformed)
                && (final(files).session_index matches Doc::Present(v)
                    && v@ == sync_sindex(session_index_seq(*old(files)), session.id, session.title)),
            Err(e) => old(files).session_index is Malformed
                && final(files).session_index == old(files).session_index
                && e@ == "会话索引格式错误"@,
        },
{
    let ghost old_sessions = files.sessions@;
    let mut found = false;
    let mut i: usize = 0;
    while i < files.sessions.len()
        invariant
            i <= old_sessions.len(),
            files.sessions@.len() == old_sessions.len(),
            found == exists|k: int| 0 <= k < i && old_sessions[k].id@ == session.id@,
            forall|k: int| #![trigger files.sessions@[k]] 0 <= k < i && old_sessions[k].id@ == session.id@ ==>
                stored_session(files.sessions@[k], session.id, session.title, session.messages@),
            forall|k: int| #![trigger files.sessions@[k]] 0 <= k < i && old_sessions[k].id@ != session.id@ ==>
                files.sessions@[k] == old_sessions[k],
            forall|k: int| #![trigger files.sessions@[k]] i <= k < old_sessions.len() ==>
                files.sessions@[k] == old_sessions[k],
            files.preset == old(files).preset,
            files.llm_config == old(files).llm_config,
            files.summaries == old(files).summaries,
            files.chapter_index == old(files).chapter_index,
            files.chapter_texts == old(files).chapter_texts,
            files.chapter_metas == old(files).chapter_metas,
            files.session_index == old(files).session_index,
            files.chapter_floor == old(files).chapter_floor,
        decreases old_sessions.len() - i,
    {
        if crate::strutil::str_eq(files.sessions[i].id.as_str(), session.id.as_str()) {
            let ghost before = files.sessions@;
            let nf = SessionFile {
                id: session.id.clone(),
                session: Doc::Present(session.duplicate()),
            };
            files.sessions.remove(i);
            files.sessions.insert(i, nf);
            found = true;
            proof {
                assert forall|k: int| 0 <= k < before.len() && k != i implies
                    files.sessions@[k] == before[k] by {
                    if k > i {
                        assert(files.sessions@[k] == before.remove(i as int)[k - 1]);
                    }
                }
            }
        }
        i = i + 1;
    }
    if !found {
        files.sessions.push(SessionFile {
            id: session.id.clone(),
            session: Doc::Present(session.duplicate()),
        });
        proof {
            assert(files.sessions@.take(old_sessions.len() as int) =~= old_sessions);
        }
    }

    let index = match list_chat_sessions(files) {
        Ok(v) => v,
        Err(e) => {
            return Err(e);
        },
    };
    let ghost index_view = index@;
    let mut new_index: Vec<ChatSessionIndexItem> = Vec::new();
    let mut ifound = false;
    let mut k: usize = 0;
    while k < index.len()
        invariant
            k <= index_view.len(),
            index@ == index_view,
            new_index@.len() == k,
            ifound == exists|t: int| 0 <= t < k && index_view[t].id@ == session.id@,
            forall|t: int| 0 <= t < k ==> #[trigger] new_index@[t] == (if index_view[t].id@ == session.id@ {
                ChatSessionIndexItem { id: index_view[t].id, title: session.title }
            } else {
                index_view[t]
            }),
        decreases index_view.len() - k,
    {
        if crate::strutil::str_eq(index[k].id.as_str(), session.id.as_str()) {
            new_index.push(ChatSessionIndexItem { id: index[k].id.clone(), title: session.title.clone() });
            ifound = true;
        } else {
            new_index.push(index[k].duplicate());
        }
        k = k + 1;
    }
    if !ifound {
        new_index.push(ChatSessionIndexItem { id: session.id.clone(), title: session.title.clone() });
    }
    proof {
        if ifound {
            assert(has_sindex_id(index_view, session.id@));
            assert(new_index@ =~= sync_sindex(index_view, session.id, session.title));
        } else {
            assert(!has_sindex_id(index_view, session.id@));
            assert(new_index@ =~= sync_sindex(index_view, session.id, session.title));
        }
    }
    files.session_index = Doc::Present(new_index);
    Ok(())
}

/// A freshly created, empty session stands stored: under some
/// generated 36-character id, bearing the given title (the default
/// placeholder when none was given).
pub open spec fn created_session_stored(
    ss: Seq<SessionFile>,
    new: Seq<SessionFile>,
    title: Option<String>,
) -> bool {
    exists|sid: String, t: String|
        {
            &&& #[trigger] sessions_upserted(ss, new, sid, t, Seq::empty())
            &&& sid@.len() == 36
            &&& match title {
                Some(g) => t == g,
                None => t@ == default_session_title(),
            }
        }
}

/// Creates a fresh session under a generated id (default title when
/// none is given) and persists it.
pub fn create_chat_session(files: &mut ProjectFiles, title: Option<String>) -> (r: Result<ChatSessionIndexItem, String>)
    ensures
        match r {
            Ok(item) => {
                &&& item.id@.len() == 36
                &&& match title {
                    Some(t) => item.title == t,
                    None => item.title@ == default_session_title(),
                }
                &&& sessions_upserted(
                    old(files).sessions@,
                    final(files).sessions@,
                    item.id,
                    item.title,
                    Seq::empty(),
                )
                &&& !(old(files).session_index is Malformed)
                &&& final(files).session_index matches Doc::Present(v)
                    && v@ == sync_sindex(session_index_seq(*old(files)), item.id, item.title)
            },
            Err(e) => {
                // the session file is written before the index turns
                // out to be undecodable, as on disk
                &&& old(files).session_index is Malformed
                &&& e@ == "会话索引格式错误"@
                &&& final(files).session_index == old(files).session_index
                &&& created_session_stored(old(files).sessions@, final(files).sessions@, title)
            },
        },
        final(files).preset == old(files).preset,
        final(files).llm_config == old(files).llm_config,
        final(files).summaries == old(files).summaries,
        final(files).chapter_index == old(files).chapter_index,
        final(files).chapter_texts == old(files).chapter_texts,
        final(files).chapter_metas == old(files).chapter_metas,
        final(files).chapter_floor == old(files).chapter_floor,
{
    let ghost given_title = title;
    let id = crate::types::new_uuid_string();
    let title = match title {
        Some(t) => t,
        None => "新对话".to_owned(),
    };
    let session = ChatSession {
        id: id.clone(),
        title: title.clone(),
        messages: Vec::new(),
    };
    match save_chat_session(files, &session) {
        Ok(()) => Ok(ChatSessionIndexItem { id, title }),
        Err(e) => {
            proof {
                assert(sessions_upserted(
                    old(files).sessions@,
                    files.sessions@,
                    session.id,
                    session.title,
                    Seq::empty(),
                ));
                assert(created_session_stored(old(files).sessions@, files.sessions@, given_title));
            }
            Err(e)
        },
    }
}

/// The session document stored under `sid`, `Absent` when none.
pub open spec fn session_doc(m: ProjectFiles, sid: Seq<char>) -> Doc<ChatSession> {
    match session_lookup(m.sessions@, sid) {
        Some(f) => f.session,
        None => Doc::Absent,
    }
}

/// Loads a session; a missing file yields a fresh empty session under
/// the requested id rather than an error (sessions may be created
/// implicitly, unlike chapters).  A stored document keeps its own id
/// field as written.
pub fn load_chat_session(files: &ProjectFiles, session_id: &str) -> (r: Result<ChatSession, String>)
    ensures
        match r {
            Ok(s) => match session_doc(*files, session_id@) {
                Doc::Present(q) => s.id == q.id && s.title == q.title && s.messages@ == q.messages@,
                _ => s.id@ == session_id@ && s.title@ == default_session_title()
                    && s.messages@.len() == 0,
            },
            Err(e) => session_doc(*files, session_id@) is Malformed && e@ == "会话格式错误"@,
        },
        r is Err <==> session_doc(*files, session_id@) is Malformed,
{
    let found = find_session(&files.sessions, session_id);
    match found {
        Some(fi) => {
            match &files.sessions[fi].session {
                Doc::Malformed => Err("会话格式错误".to_owned()),
                Doc::Present(s) => Ok(s.duplicate()),
                Doc::Absent => Ok(ChatSession {
                    id: session_id.to_owned(),
                    title: "新对话".to_owned(),
                    messages: Vec::new(),
                }),
            }
        },
        None => Ok(ChatSession {
            id: session_id.to_owned(),
            title: "新对话".to_owned(),
            messages: Vec::new(),
        }),
    }
}

/// Deletes the session file, then removes its index entry.
pub fn delete_chat_session(files: &mut ProjectFiles, session_id: &str) -> (r: Result<(), String>)
    ensures
        final(files).sessions@ == remove_session_id(old(files).sessions@, session_id@),
        final(files).preset == old(files).preset,
        final(files).llm_config == old(files).llm_config,
        final(files).summaries == old(files).summaries,
        final(files).chapter_index == old(files).chapter_index,
        final(files).chapter_texts == old(files).chapter_texts,
        final(files).chapter_metas == old(files).chapter_metas,
        final(files).chapter_floor == old(files).chapter_floor,
        match r {
            Ok(()) => !(old(files).session_index is Malformed)
                && (final(files).session_index matches Doc::Present(v)
                    && v@ == remove_sindex_id(session_index_seq(*old(files)), session_id@)),
            Err(e) => old(files).session_index is Malformed
                && final(files).session_index == old(files).session_index
                && e@ == "会话索引格式错误"@,
        },
{
    let ghost old_sessions = files.sessions@;
    let ghost mut j: int = 0;
    let mut i: usize = 0;
    while i < files.sessions.len()
        invariant
            0 <= j <= old_sessions.len(),
            i as int == remove_session_id(old_sessions.take(j), session_id@).len(),
            files.sessions@ == remove_session_id(old_sessions.take(j), session_id@)
                + old_sessions.skip(j),
            files.preset == old(files).preset,
            files.llm_config == old(files).llm_config,
            files.summaries == old(files).summaries,
            files.chapter_index == old(files).chapter_index,
            files.chapter_texts == old(files).chapter_texts,
            files.chapter_metas == old(files).chapter_metas,
            files.session_index == old(files).session_index,
            files.chapter_floor == old(files).chapter_floor,
        decreases old_sessions.len() - j,
    {
        proof {
            assert(old_sessions.take(j + 1).drop_last() =~= old_sessions.take(j));
            assert(files.sessions@[i as int] == old_sessions[j]);
        }
        if crate::strutil::str_eq(files.sessions[i].id.as_str(), session_id) {
            files.sessions.remove(i);
            proof {
                j = j + 1;
                assert(files.sessions@ =~= remove_session_id(old_sessions.take(j), session_id@)
                    + old_sessions.skip(j));
            }
        } else {
            i = i + 1;
            proof {
                j = j + 1;
                assert(files.sessions@ =~= remove_session_id(old_sessions.take(j), session_id@)
                    + old_sessions.skip(j));
            }
        }
    }
    proof {
        assert(j == old_sessions.len());
        assert(old_sessions.take(j) =~= old_sessions);
        assert(files.sessions@ =~= remove_session_id(old_sessions, session_id@));
    }

    let index = match list_chat_sessions(files) {
        Ok(v) => v,
        Err(e) => {
            return Err(e);
        },
    };
    let ghost index_view = index@;
    let mut new_index: Vec<ChatSessionIndexItem> = Vec::new();
    let mut k: usize = 0;
    while k < index.len()
        invariant
            k <= index_view.len(),
            index@ == index_view,
            new_index@ == remove_sindex_id(index_view.take(k as int), session_id@),
        decreases index_view.len() - k,
    {
        proof {
            assert(index_view.take(k + 1).drop_last() =~= index_view.take(k as int));
        }
        if !crate::strutil::str_eq(index[k].id.as_str(), session_id) {
            new_index.push(index[k].duplicate());
        }
        k = k + 1;
    }
    proof {
        assert(index_view.take(index_view.len() as int) =~= index_view);
    }
    files.session_index = Doc::Present(new_index);
    Ok(())
}

// ---------------------------------------------------------------------
// Project initialization
// ---------------------------------------------------------------------

/// The final component of a filesystem path, a function of the path
/// string alone.
pub uninterp spec fn file_name_spec(path: Seq<char>) -> Option<Seq<char>>;

/// Relies on `std::path::Path::file_name` for the display name of a
/// project directory.
#[verifier::external_body]
fn path_file_name(path: &str) -> (r: Option<String>)
    ensures
        match r {
            Some(n) => file_name_spec(path@) matches Some(v) && v == n@,
            None => file_name_spec(path@) is None,
        },
{
    std::path::Path::new(path).file_name().map(|s| s.to_string_lossy().to_string())
}

/// The one endpoint `init_project` seeds: a generic OpenAI-compatible
/// provider with the writing defaults, selected as active.
pub open spec fn is_default_llm_config(c: LlmConfig) -> bool {
    &&& c.endpoints@.len() == 1
    &&& c.endpoints@[0].name@ == "Local Test"@
    &&& c.endpoints@[0].base_url@ == "https://api.openai.com/v1"@
    &&& c.endpoints@[0].default_model@ == "gemini-3-pro-preview"@
    &&& c.endpoints@[0].parameters == crate::types::writing_defaults()
    &&& c.active_endpoint_id matches Some(i) && i@ == c.endpoints@[0].id@
    &&& c.active_model matches Some(m) && m@ == "gemini-3-pro-preview"@
}

/// Idempotent seeding of a project directory: creates each missing
/// artifact (preset, endpoint configuration, empty summary log, first
/// chapter plus index) and never overwrites one that exists, be it
/// readable or not.
pub fn init_project(files: &mut ProjectFiles, project_dir: String) -> (r: Result<ProjectInfo, String>)
    ensures
        old(files).preset is Absent ==> (final(files).preset matches Doc::Present(p)
            && is_default_preset(p)),
        !(old(files).preset is Absent) ==> final(files).preset == old(files).preset,
        old(files).llm_config is Absent ==> (final(files).llm_config matches Doc::Present(c)
            && is_default_llm_config(c)),
        !(old(files).llm_config is Absent) ==> final(files).llm_config == old(files).llm_config,
        old(files).summaries is Absent ==> (final(files).summaries matches Doc::Present(v)
            && v@.len() == 0),
        !(old(files).summaries is Absent) ==> final(files).summaries == old(files).summaries,
        old(files).chapter_index is Absent ==> {
            &&& final(files).chapter_index matches Doc::Present(v) && v@.len() == 1
                && v@[0].id == 1 && v@[0].title@ == "第一章"@
            &&& texts_upserted(old(files).chapter_texts@, final(files).chapter_texts@, 1, Seq::empty())
            &&& metas_upserted(old(files).chapter_metas@, final(files).chapter_metas@, 1, "第一章"@, Seq::empty())
        },
        !(old(files).chapter_index is Absent) ==> {
            &&& final(files).chapter_index == old(files).chapter_index
            &&& final(files).chapter_texts == old(files).chapter_texts
            &&& final(files).chapter_metas == old(files).chapter_metas
        },
        final(files).session_index == old(files).session_index,
        final(files).sessions == old(files).sessions,
        final(files).chapter_floor == old(files).chapter_floor,
        !(final(files).preset is Absent),
        !(final(files).llm_config is Absent),
        !(final(files).summaries is Absent),
        !(final(files).chapter_index is Absent),
        r matches Ok(info) && info.project_dir == project_dir
            && (match file_name_spec(project_dir@) {
                Some(n) => info.project_name@ == n,
                None => info.project_name@ == "Project"@,
            }),
{
    if let Doc::Absent = &files.preset {
        files.preset = Doc::Present(Preset::default_zh());
    }

    if let Doc::Absent = &files.llm_config {
        let ep = EndpointConfig::new(
            "Local Test".to_owned(),
            "https://api.openai.com/v1".to_owned(),
            "gemini-3-pro-preview".to_owned(),
        );
        let active_id = ep.id.clone();
        let active_model = ep.default_model.clone();
        let mut endpoints: Vec<EndpointConfig> = Vec::new();
        endpoints.push(ep);
        files.llm_config = Doc::Present(LlmConfig {
            endpoints,
            active_endpoint_id: Some(active_id),
            active_model: Some(active_model),
        });
    }

    if let Doc::Absent = &files.summaries {
        files.summaries = Doc::Present(Vec::new());
    }

    if let Doc::Absent = &files.chapter_index {
        let first = Chapter {
            id: 1,
            title: "第一章".to_owned(),
            content: empty_string(),
            summary: empty_string(),
        };
        let saved = save_chapter(files, &first);
        proof {
            assert(saved is Ok);
        }
        let mut index: Vec<ChapterIndexItem> = Vec::new();
        index.push(ChapterIndexItem { id: 1, title: first.title });
        files.chapter_index = Doc::Present(index);
    }

    let project_name = match path_file_name(project_dir.as_str()) {
        Some(n) => n,
        None => "Project".to_owned(),
    };
    Ok(ProjectInfo { project_dir, project_name })
}

// ---------------------------------------------------------------------
// Laws of the store
// ---------------------------------------------------------------------

proof fn lemma_text_lookup_found(ts: Seq<ChapterText>, id: u32, content: Seq<char>)
    requires
        exists|k: int| 0 <= k < ts.len() && ts[k].id == id,
        forall|k: int| #![trigger ts[k]] 0 <= k < ts.len() && ts[k].id == id ==> ts[k].content@ == content,
    ensures
        text_lookup(ts, id) matches Some(t) && t.content@ == content,
    decreases ts.len(),
{
    if ts[0].id == id {
    } else {
        let k = choose|k: int| 0 <= k < ts.len() && ts[k].id == id;
        assert(ts.drop_first()[k - 1].id == id);
        assert(forall|t: int| 0 <= t < ts.drop_first().len() ==>
            #[trigger] ts.drop_first()[t] == ts[t + 1]);
        lemma_text_lookup_found(ts.drop_first(), id, content);
    }
}

proof fn lemma_meta_lookup_found(ms: Seq<ChapterMetaFile>, id: u32, title: Seq<char>, summary: Seq<char>)
    requires
        exists|k: int| 0 <= k < ms.len() && ms[k].id == id,
        forall|k: int| #![trigger ms[k]] 0 <= k < ms.len() && ms[k].id == id ==>
            stored_meta(ms[k], id, title, summary),
    ensures
        meta_lookup(ms, id) matches Some(f) && stored_meta(f, id, title, summary),
    decreases ms.len(),
{
    if ms[0].id == id {
    } else {
        let k = choose|k: int| 0 <= k < ms.len() && ms[k].id == id;
        assert(ms.drop_first()[k - 1].id == id);
        assert(forall|t: int| 0 <= t < ms.drop_first().len() ==>
            #[trigger] ms.drop_first()[t] == ms[t + 1]);
        lemma_meta_lookup_found(ms.drop_first(), id, title, summary);
    }
}

/// Law: saving a chapter and then loading the same id yields a value
/// equal in id, title, content and summary.  The two `requires`
/// clauses are exactly what `save_chapter` guarantees of the image,
/// whether or not the index write succeeded.
pub proof fn lemma_save_then_load_roundtrip(m: ProjectFiles, m2: ProjectFiles, ch: Chapter)
    requires
        texts_upserted(m.chapter_texts@, m2.chapter_texts@, ch.id, ch.content@),
        metas_upserted(m.chapter_metas@, m2.chapter_metas@, ch.id, ch.title@, ch.summary@),
    ensures
        text_lookup(m2.chapter_texts@, ch.id) matches Some(t) && t.content@ == ch.content@,
        !meta_malformed(m2, ch.id),
        load_title_spec(m2, ch.id) == ch.title@,
        load_summary_spec(m2, ch.id) == ch.summary@,
{
    let ts = m.chapter_texts@;
    let nts = m2.chapter_texts@;
    if has_text_id(ts, ch.id) {
        let k = choose|k: int| 0 <= k < ts.len() && ts[k].id == ch.id;
        assert(nts[k].id == ch.id);
        assert forall|t: int| #![trigger nts[t]] 0 <= t < nts.len() && nts[t].id == ch.id
            implies nts[t].content@ == ch.content@ by {
            if ts[t].id != ch.id {
                assert(nts[t] == ts[t]);
            }
        }
    } else {
        assert(nts.last().id == ch.id);
        assert forall|t: int| #![trigger nts[t]] 0 <= t < nts.len() && nts[t].id == ch.id
            implies nts[t].content@ == ch.content@ by {
            if t < ts.len() {
                assert(nts[t] == nts.take(ts.len() as int)[t]);
            }
        }
    }
    lemma_text_lookup_found(nts, ch.id, ch.content@);

    let ms = m.chapter_metas@;
    let nms = m2.chapter_metas@;
    if has_meta_id(ms, ch.id) {
        let k = choose|k: int| 0 <= k < ms.len() && ms[k].id == ch.id;
        assert(stored_meta(nms[k], ch.id, ch.title@, ch.summary@));
        assert forall|t: int| #![trigger nms[t]] 0 <= t < nms.len() && nms[t].id == ch.id
            implies stored_meta(nms[t], ch.id, ch.title@, ch.summary@) by {
            if ms[t].id != ch.id {
                assert(nms[t] == ms[t]);
            }
        }
    } else {
        assert(stored_meta(nms.last(), ch.id, ch.title@, ch.summary@));
        assert forall|t: int| #![trigger nms[t]] 0 <= t < nms.len() && nms[t].id == ch.id
            implies stored_meta(nms[t], ch.id, ch.title@, ch.summary@) by {
            if t < ms.len() {
                assert(nms[t] == nms.take(ms.len() as int)[t]);
            }
        }
    }
    lemma_meta_lookup_found(nms, ch.id, ch.title@, ch.summary@);
}

/// How many index entries carry the given id.
pub open spec fn count_index_id(v: Seq<ChapterIndexItem>, id: u32) -> int
    decreases v.len(),
{
    if v.len() == 0 {
        0
    } else {
        count_index_id(v.drop_last(), id) + if v.last().id == id { 1int } else { 0int }
    }
}

proof fn lemma_max_id_bound(v: Seq<ChapterIndexItem>)
    ensures
        forall|k: int| 0 <= k < v.len() ==> #[trigger] v[k].id <= max_id(v),
    decreases v.len(),
{
    if v.len() > 0 {
        lemma_max_id_bound(v.drop_last());
        assert forall|k: int| 0 <= k < v.len() implies #[trigger] v[k].id <= max_id(v) by {
            if k < v.len() - 1 {
                assert(v.drop_last()[k] == v[k]);
            }
        }
    }
}

proof fn lemma_count_zero(v: Seq<ChapterIndexItem>, id: u32)
    requires
        forall|k: int| 0 <= k < v.len() ==> #[trigger] v[k].id != id,
    ensures
        count_index_id(v, id) == 0,
    decreases v.len(),
{
    if v.len() > 0 {
        lemma_count_zero(v.drop_last(), id);
    }
}

/// Law: right after a create hands back the new entry, the index
/// lists exactly one entry under the new id, and it bears the given
/// title.  `index_seq` of the resulting image is `v.push(item)` and
/// `item.id` exceeds the old maximum, both by `create_chapter`'s
/// contract.
pub proof fn lemma_created_listed_once(v: Seq<ChapterIndexItem>, item: ChapterIndexItem)
    requires
        item.id as int > max_id(v),
    ensures
        count_index_id(v.push(item), item.id) == 1,
        index_lookup(v.push(item), item.id) == Some(item),
{
    lemma_max_id_bound(v);
    assert(forall|k: int| 0 <= k < v.len() ==> #[trigger] v[k].id != item.id);
    lemma_count_zero(v, item.id);
    assert(v.push(item).drop_last() =~= v);
    assert(v.push(item).last() == item);
    lemma_index_lookup_at(v.push(item), item.id, v.len() as int);
}

/// Law: consecutive creates hand out strictly increasing ids: after
/// a create returned `item`, both the index maximum and the recorded
/// mark sit at `item.id`, so the next create returns `item.id + 1`.
pub proof fn lemma_create_ids_monotonic(v: Seq<ChapterIndexItem>, item: ChapterIndexItem)
    requires
        item.id as int > max_id(v),
    ensures
        max_id(v.push(item)) == item.id as int,
        max_id(v.push(item)) + 1 > item.id as int,
{
    assert(v.push(item).drop_last() =~= v);
    assert(v.push(item).last() == item);
}

/// Law: chapter ids are never reused, even after deleting the
/// highest-numbered chapter.  A create returning id `n` records `n`
/// as the high-water mark, deletions leave the mark in place
/// (`delete_chapter` keeps `chapter_floor` unchanged), and any image
/// whose mark still sits at or above `n` — whatever its index now
/// lists — hands out its next id strictly above `n`.
pub proof fn lemma_ids_never_reused(m: ProjectFiles, n: u32)
    requires
        floor_of(m) >= n as int,
    ensures
        next_chapter_id(m) > n as int,
{
}

/// Law: initializing an already-seeded project a second time changes
/// no file: each seeding step runs only when its artifact is absent.
/// The `requires` clauses below are exactly what `init_project`
/// guarantees of a run on an image whose four artifacts all exist.
pub proof fn lemma_init_idempotent(m: ProjectFiles, m2: ProjectFiles)
    requires
        !(m.preset is Absent),
        !(m.llm_config is Absent),
        !(m.summaries is Absent),
        !(m.chapter_index is Absent),
        !(m.preset is Absent) ==> m2.preset == m.preset,
        !(m.llm_config is Absent) ==> m2.llm_config == m.llm_config,
        !(m.summaries is Absent) ==> m2.summaries == m.summaries,
        !(m.chapter_index is Absent) ==> m2.chapter_index == m.chapter_index
            && m2.chapter_texts == m.chapter_texts
            && m2.chapter_metas == m.chapter_metas,
        m2.session_index == m.session_index,
        m2.sessions == m.sessions,
        m2.chapter_floor == m.chapter_floor,
    ensures
        m2 == m,
{
}

} // verus!
