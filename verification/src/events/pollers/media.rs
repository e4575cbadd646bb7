//! Media messages (images and videos): once a message's media is decrypted
//! it is written under the media directory and announced with
//! `message.media_ready`. Pending media is retried on the next poll;
//! unsupported or empty media only moves the cursor.

use crate::events::bus::{opt_str_view, published_new, EventBus};
use crate::events::{kinds, Event, EventShape, JsonValue, JsonView, Payload};
use crate::str_map::StrMap;
use crate::text::{decimal, signed_decimal};
use crate::types::{is_stable_sort_by_local_id, sort_by_local_id, Message};
use base64::Engine;
use vstd::prelude::*;

verus! {

broadcast use vstd::string::group_string_axioms;

/// The message type of an image.
pub const IMAGE_MSG_TYPE: i32 = 3;

/// The message type of a video.
pub const VIDEO_MSG_TYPE: i32 = 43;

/// How long one wait for an original image lasts, in milliseconds.
pub const ORIGINAL_WAIT_STEP_MS: u64 = 500;

/// Polls every chat for new media messages.
pub struct MediaPoller {
    /// chat id to the largest `local_id` handled in it.
    pub last_seen: StrMap<i64>,
    pub interval_ms: u64,
    /// Set until the first poll ends; the first poll only records cursors.
    pub cold_start: bool,
    /// The directory media files are written under.
    pub media_dir: String,
    /// Whether to open the chat so that WeChat fetches an image's original.
    pub image_fetch_original: bool,
    pub image_fetch_timeout_ms: u64,
}

/// What to do with a media message once its media was looked up.
#[derive(Debug, Clone, Copy, PartialEq, Eq, Structural)]
pub enum PollAction {
    /// Stop this chat and try again on the next poll.
    Retry,
    /// Skip the message but move the cursor past it.
    UpdateCursor,
    /// Write the media and announce it.
    Emit,
}

/// What to do with a message of a chat being scanned.
#[derive(Debug, Clone, Copy, PartialEq, Eq, Structural)]
pub enum MediaStep {
    /// Not a media message, or not newer than the cursor.
    Skip,
    /// Cold start: only move the cursor.
    RecordOnly,
    /// Look the media up, first waiting for the original image as told.
    Fetch(OriginalFetch),
}

/// Whether to wait for an image's original before looking its media up.
#[derive(Debug, Clone, Copy, PartialEq, Eq, Structural)]
pub enum OriginalFetch {
    /// Not an image, or originals are not fetched.
    NotWanted,
    /// Wait for the original of the image created at this Unix time.
    WaitFor(i64),
    /// The message's timestamp could not be read; no wait.
    NoTimestamp,
}

/// The cursor of one chat during a poll.
#[derive(Debug, Clone, Copy)]
pub struct MediaChatScan {
    pub latest_seen: i64,
    pub updated: bool,
}

/// A decoded media file ready to be written.
#[derive(Debug)]
pub struct MediaFile {
    /// `chat_id/local_id.format`, under the media directory.
    pub relative_path: String,
    pub bytes: Vec<u8>,
}

/// What a fetched message's media lookup leads to.
#[derive(Debug)]
pub enum MediaPlan {
    /// The media is still pending: stop this chat and retry on the next poll.
    StopChat,
    /// Unsupported or empty media: skip it and move the cursor past it.
    SkipPast,
    /// The data does not decode: skip it, leaving the cursor.
    Undecodable,
    /// Write this file, then announce it.
    Write(MediaFile),
}

/// A media lookup's result, as values: the media type, the file format and
/// the base64 data, if any.
pub struct MediaLookupView {
    pub media_type: Seq<char>,
    pub format: Seq<char>,
    pub data: Option<Seq<char>>,
}

/// What a media lookup leads to, as values.
pub enum LookupOutcome {
    StopChat,
    SkipPast,
    Undecodable,
    Write { relative_path: Seq<char>, bytes: Seq<u8> },
}

/// What the lookup `lk` of message `local_id` of chat `chat_id` leads to.
pub open spec fn lookup_outcome(cold_start: bool, chat_id: Seq<char>, local_id: i64, lk: MediaLookupView) -> LookupOutcome {
    match media_action(lk.media_type, lk.data is Some, cold_start) {
        PollAction::Retry => LookupOutcome::StopChat,
        PollAction::UpdateCursor => LookupOutcome::SkipPast,
        PollAction::Emit => match lk.data {
            Some(d) => match base64_standard_decode(d) {
                Some(b) => LookupOutcome::Write { relative_path: media_path(chat_id, local_id, lk.format), bytes: b },
                None => LookupOutcome::Undecodable,
            },
            None => LookupOutcome::Undecodable,
        },
    }
}

/// The Unix time of an RFC 3339 timestamp, as chrono's
/// `DateTime::parse_from_rfc3339` followed by `timestamp` computes it; none
/// when the text is not RFC 3339.
pub uninterp spec fn rfc3339_unix_seconds(text: Seq<char>) -> Option<i64>;

/// Calls `chrono::DateTime::parse_from_rfc3339` and takes `timestamp()` of the
/// result. Which texts parse, and to what, is named, not stated.
#[verifier::external_body]
fn parse_rfc3339_seconds(text: &str) -> (r: Option<i64>)
    ensures
        r == rfc3339_unix_seconds(text@),
{
    chrono::DateTime::parse_from_rfc3339(text).ok().map(|dt| dt.timestamp())
}

/// The bytes that standard base64 (with padding) decodes `text` to, as the
/// base64 crate's `general_purpose::STANDARD` engine decodes it; none when
/// the text is not valid base64.
pub uninterp spec fn base64_standard_decode(text: Seq<char>) -> Option<Seq<u8>>;

/// Calls `base64::engine::general_purpose::STANDARD.decode`. What it decodes
/// is named, not stated.
#[verifier::external_body]
fn decode_base64_standard(text: &str) -> (r: Option<Vec<u8>>)
    ensures
        match r {
            Some(v) => base64_standard_decode(text@) == Some(v@),
            None => base64_standard_decode(text@) is None,
        },
{
    base64::engine::general_purpose::STANDARD.decode(text).ok()
}

/// An image or a video.
pub open spec fn is_media_type(msg_type: i32) -> bool {
    msg_type == IMAGE_MSG_TYPE || msg_type == VIDEO_MSG_TYPE
}

/// Whether a message type is an image or a video.
pub fn is_media_message_type(msg_type: i32) -> (r: bool)
    ensures
        r == is_media_type(msg_type),
{
    msg_type == IMAGE_MSG_TYPE || msg_type == VIDEO_MSG_TYPE
}

/// The Unix time of a message's RFC 3339 timestamp.
pub fn message_create_time(timestamp: &str) -> (r: Option<i64>)
    ensures
        r == rfc3339_unix_seconds(timestamp@),
{
    parse_rfc3339_seconds(timestamp)
}

/// The action for a looked-up media: a cold start only moves the cursor;
/// `pending` media is retried; `unsupported` media and media without data
/// are skipped; anything else is announced.
pub open spec fn media_action(media_type: Seq<char>, has_data: bool, cold_start: bool) -> PollAction {
    if cold_start {
        PollAction::UpdateCursor
    } else if media_type == "pending"@ {
        PollAction::Retry
    } else if media_type == "unsupported"@ {
        PollAction::UpdateCursor
    } else if !has_data {
        PollAction::UpdateCursor
    } else {
        PollAction::Emit
    }
}

/// The action for a looked-up media.
pub fn decide_media_action(media_type: &str, has_data: bool, cold_start: bool) -> (r: PollAction)
    ensures
        r == media_action(media_type@, has_data, cold_start),
{
    if cold_start {
        return PollAction::UpdateCursor;
    }
    if crate::text::str_eq(media_type, "pending") {
        PollAction::Retry
    } else if crate::text::str_eq(media_type, "unsupported") {
        PollAction::UpdateCursor
    } else if !has_data {
        PollAction::UpdateCursor
    } else {
        PollAction::Emit
    }
}

/// The payload of `message.media_ready`.
pub open spec fn media_ready_payload(
    chat_id: Seq<char>,
    local_id: i64,
    media_type: Seq<char>,
    format: Seq<char>,
    container_path: Seq<char>,
    relative_path: Seq<char>,
    size_bytes: usize,
) -> Seq<(Seq<char>, JsonView)> {
    seq![
        ("chatId"@, JsonView::Str(chat_id)),
        ("localId"@, JsonView::Int(local_id)),
        ("mediaType"@, JsonView::Str(media_type)),
        ("format"@, JsonView::Str(format)),
        ("sizeBytes"@, JsonView::UInt(size_bytes as u64)),
        ("containerPath"@, JsonView::Str(container_path)),
        ("relativePath"@, JsonView::Str(relative_path)),
    ]
}

/// The `message.media_ready` event for a written media file.
pub fn media_ready_event(
    chat_id: &str,
    local_id: i64,
    media_type: &str,
    format: &str,
    container_path: &str,
    relative_path: &str,
    size_bytes: usize,
) -> (r: Event)
    ensures
        crate::events::is_new_event(
            r@,
            kinds::MESSAGE_MEDIA_READY@,
            media_ready_payload(
                chat_id@,
                local_id,
                media_type@,
                format@,
                container_path@,
                relative_path@,
                size_bytes,
            ),
        ),
{
    let data = Payload::new().with("chatId", JsonValue::Str(chat_id.to_string())).with(
        "localId",
        JsonValue::Int(local_id),
    ).with("mediaType", JsonValue::Str(media_type.to_string())).with(
        "format",
        JsonValue::Str(format.to_string()),
    ).with("sizeBytes", JsonValue::UInt(size_bytes as u64)).with(
        "containerPath",
        JsonValue::Str(container_path.to_string()),
    ).with("relativePath", JsonValue::Str(relative_path.to_string()));
    assert(data@ =~= media_ready_payload(
        chat_id@,
        local_id,
        media_type@,
        format@,
        container_path@,
        relative_path@,
        size_bytes,
    ));
    Event::new(kinds::MESSAGE_MEDIA_READY, data)
}

/// Where a chat's media file goes: `chat_id/local_id.format`.
pub open spec fn media_path(chat_id: Seq<char>, local_id: i64, format: Seq<char>) -> Seq<char> {
    chat_id + "/"@ + signed_decimal(local_id as int) + "."@ + format
}

/// `rel` joined onto the directory `dir`, as `Path::join` joins on Unix: an
/// absolute `rel` (starting with `/`) replaces `dir`; otherwise a `/` is put
/// between them unless `dir` is empty or already ends with one.
pub open spec fn path_join(dir: Seq<char>, rel: Seq<char>) -> Seq<char> {
    if rel.len() > 0 && rel[0] == '/' {
        rel
    } else if dir.len() == 0 || dir.last() == '/' {
        dir + rel
    } else {
        dir + "/"@ + rel
    }
}

/// `rel` joined onto the directory `dir`.
pub fn join_path(dir: &str, rel: &str) -> (r: String)
    ensures
        r@ == path_join(dir@, rel@),
{
    proof {
        reveal_strlit("/");
    }
    if crate::text::starts_with(rel, "/") {
        proof {
            assert(rel@.subrange(0, 1)[0] == rel@[0]);
        }
        return rel.to_string();
    }
    let dir_ends_with_sep = crate::text::ends_with(dir, "/");
    let mut out = dir.to_string();
    if !dir.is_empty() && !dir_ends_with_sep {
        out.append("/");
    }
    out.append(rel);
    proof {
        if dir@.len() > 0 && dir_ends_with_sep {
            assert(dir@.subrange(dir@.len() - 1, dir@.len() as int) == "/"@);
            assert(dir@.last() == dir@.subrange(dir@.len() - 1, dir@.len() as int)[0]);
        }
        if dir@.len() > 0 && dir@.last() == '/' {
            assert(dir@.subrange(dir@.len() - 1, dir@.len() as int) =~= "/"@);
        }
        if rel@.len() > 0 && rel@[0] == '/' {
            assert(rel@.subrange(0, 1) =~= "/"@);
        }
    }
    out
}

/// The path of a chat's media file under the media directory.
pub fn media_relative_path(chat_id: &str, local_id: i64, format: &str) -> (r: String)
    ensures
        r@ == media_path(chat_id@, local_id, format@),
{
    let mut p = chat_id.to_string();
    p.append("/");
    let id = crate::text::i64_to_decimal(local_id);
    p.append(id.as_str());
    p.append(".");
    p.append(format);
    p
}

/// The file for a media whose data is `data_b64` (standard base64), when the
/// data decodes.
pub fn prepare_media_file(chat_id: &str, local_id: i64, format: &str, data_b64: &str) -> (r: Option<MediaFile>)
    ensures
        match r {
            Some(f) => base64_standard_decode(data_b64@) == Some(f.bytes@) && f.relative_path@
                == media_path(chat_id@, local_id, format@),
            None => base64_standard_decode(data_b64@) is None,
        },
{
    match decode_base64_standard(data_b64) {
        Some(bytes) => Some(MediaFile { relative_path: media_relative_path(chat_id, local_id, format), bytes }),
        None => None,
    }
}

/// Whether to wait for the original: only for an image when originals are
/// fetched, and only when the message's time is known.
pub open spec fn original_fetch(msg_type: i32, fetch_original: bool, create_time: Option<i64>) -> OriginalFetch {
    if msg_type == IMAGE_MSG_TYPE && fetch_original {
        match create_time {
            Some(t) => OriginalFetch::WaitFor(t),
            None => OriginalFetch::NoTimestamp,
        }
    } else {
        OriginalFetch::NotWanted
    }
}

/// Originals are waited for only when fetching them is on, and only for
/// images: with fetching off no message waits or reports a missing
/// timestamp; with it on, a message that is not an image never waits, and an
/// image waits for the original made at its own creation time (or reports
/// that its time is unknown).
pub proof fn law_original_wait_only_when_fetching(msg_type: i32, create_time: Option<i64>)
    ensures
        original_fetch(msg_type, false, create_time) == OriginalFetch::NotWanted,
        msg_type != IMAGE_MSG_TYPE ==> original_fetch(msg_type, true, create_time)
            == OriginalFetch::NotWanted,
        msg_type == IMAGE_MSG_TYPE && create_time is Some ==> original_fetch(msg_type, true, create_time)
            == OriginalFetch::WaitFor(create_time->0),
        msg_type == IMAGE_MSG_TYPE && create_time is None ==> original_fetch(msg_type, true, create_time)
            == OriginalFetch::NoTimestamp,
{
}

/// Whether to wait for the original of a message, given its creation time.
pub fn plan_original_fetch(msg_type: i32, fetch_original: bool, create_time: Option<i64>) -> (r: OriginalFetch)
    ensures
        r == original_fetch(msg_type, fetch_original, create_time),
{
    if msg_type == IMAGE_MSG_TYPE && fetch_original {
        match create_time {
            Some(t) => OriginalFetch::WaitFor(t),
            None => OriginalFetch::NoTimestamp,
        }
    } else {
        OriginalFetch::NotWanted
    }
}

/// The time waited after one more wait for an original, when the timeout
/// has not been reached yet.
pub fn next_original_wait(waited: u64, timeout_ms: u64) -> (r: Option<u64>)
    requires
        waited <= u64::MAX - ORIGINAL_WAIT_STEP_MS,
    ensures
        match r {
            Some(w) => waited < timeout_ms && w == waited + ORIGINAL_WAIT_STEP_MS,
            None => waited >= timeout_ms,
        },
{
    if waited < timeout_ms {
        Some(waited + ORIGINAL_WAIT_STEP_MS)
    } else {
        None
    }
}

impl MediaPoller {
    /// A poller that starts cold and knows no chat.
    pub fn new(interval_ms: u64, media_dir: String, image_fetch_original: bool, image_fetch_timeout_ms: u64) -> (r: MediaPoller)
        ensures
            r.last_seen.map() == Map::<Seq<char>, i64>::empty(),
            r.interval_ms == interval_ms,
            r.cold_start,
            r.media_dir@ == media_dir@,
            r.image_fetch_original == image_fetch_original,
            r.image_fetch_timeout_ms == image_fetch_timeout_ms,
    {
        let last_seen = StrMap::new();
        assert(last_seen.map() =~= Map::<Seq<char>, i64>::empty());
        MediaPoller {
            last_seen,
            interval_ms,
            cold_start: true,
            media_dir,
            image_fetch_original,
            image_fetch_timeout_ms,
        }
    }

    /// Starts the scan of a chat: its latest messages sorted by `local_id`
    /// (stably), and the cursor the scan starts from, the chat's last handled
    /// `local_id` or 0.
    pub fn start_chat(&self, chat_id: &str, messages: Vec<Message>) -> (r: (MediaChatScan, Vec<Message>))
        ensures
            r.0.latest_seen == crate::events::pollers::message::cursor_of(self.last_seen.map(), chat_id@),
            !r.0.updated,
            is_stable_sort_by_local_id(messages@, r.1@),
    {
        let mut messages = messages;
        sort_by_local_id(&mut messages);
        let latest_seen = match self.last_seen.get(chat_id) {
            Some(v) => *v,
            None => 0,
        };
        (MediaChatScan { latest_seen, updated: false }, messages)
    }

    /// What to do with the next message of a chat (messages come sorted by
    /// `local_id`): skip those that are not media or not newer than the
    /// cursor; on a cold start only move the cursor; otherwise fetch.
    pub fn classify_message(&self, scan: &mut MediaChatScan, msg: &Message) -> (r: MediaStep)
        ensures
            if !is_media_type(msg.msg_type) || msg.local_id <= old(scan).latest_seen {
                r == MediaStep::Skip && *final(scan) == *old(scan)
            } else if self.cold_start {
                r == MediaStep::RecordOnly && final(scan).latest_seen == msg.local_id && final(scan).updated
            } else {
                r == MediaStep::Fetch(
                    original_fetch(msg.msg_type, self.image_fetch_original, rfc3339_unix_seconds(msg.timestamp@)),
                ) && *final(scan) == *old(scan)
            },
    {
        if !is_media_message_type(msg.msg_type) || msg.local_id <= scan.latest_seen {
            return MediaStep::Skip;
        }
        if self.cold_start {
            scan.latest_seen = msg.local_id;
            scan.updated = true;
            return MediaStep::RecordOnly;
        }
        let create_time = if msg.msg_type == IMAGE_MSG_TYPE && self.image_fetch_original {
            message_create_time(msg.timestamp.as_str())
        } else {
            None
        };
        let fetch = plan_original_fetch(msg.msg_type, self.image_fetch_original, create_time);
        MediaStep::Fetch(fetch)
    }

    /// Decides what a fetched message's media lookup leads to: `pending`
    /// media stops the chat's scan (retried on the next poll); unsupported or
    /// empty media is skipped with the cursor moved past it; otherwise the
    /// data is decoded into the file to write, or, when it does not decode,
    /// skipped without moving the cursor.
    pub fn plan_lookup(
        &self,
        scan: &mut MediaChatScan,
        chat_id: &str,
        local_id: i64,
        media_type: &str,
        format: &str,
        data: Option<&str>,
    ) -> (r: MediaPlan)
        ensures
            match lookup_outcome(
                self.cold_start,
                chat_id@,
                local_id,
                MediaLookupView { media_type: media_type@, format: format@, data: opt_str_view(data) },
            ) {
                LookupOutcome::StopChat => r is StopChat && *final(scan) == *old(scan),
                LookupOutcome::SkipPast => r is SkipPast && final(scan).latest_seen == local_id
                    && final(scan).updated,
                LookupOutcome::Undecodable => r is Undecodable && *final(scan) == *old(scan),
                LookupOutcome::Write { relative_path, bytes } => (r matches MediaPlan::Write(f)
                    && f.relative_path@ == relative_path && f.bytes@ == bytes) && *final(scan)
                    == *old(scan),
            },
    {
        let action = decide_media_action(media_type, data.is_some(), self.cold_start);
        match action {
            PollAction::Retry => MediaPlan::StopChat,
            PollAction::UpdateCursor => {
                scan.latest_seen = local_id;
                scan.updated = true;
                MediaPlan::SkipPast
            },
            PollAction::Emit => match data {
                Some(d) => match prepare_media_file(chat_id, local_id, format, d) {
                    Some(f) => MediaPlan::Write(f),
                    None => MediaPlan::Undecodable,
                },
                None => MediaPlan::Undecodable,
            },
        }
    }

    /// Where a media file is written: its relative path joined onto the
    /// media directory.
    pub fn media_file_path(&self, file: &MediaFile) -> (r: String)
        ensures
            r@ == path_join(self.media_dir@, file.relative_path@),
    {
        join_path(self.media_dir.as_str(), file.relative_path.as_str())
    }

    /// Announces a media file that was written under the media directory,
    /// and moves the cursor past it.
    pub fn announce_media(
        &self,
        scan: &mut MediaChatScan,
        bus: &mut EventBus,
        chat_id: &str,
        local_id: i64,
        media_type: &str,
        format: &str,
        file: &MediaFile,
    )
        ensures
            final(scan).latest_seen == local_id,
            final(scan).updated,
            published_new(
                *old(bus),
                *final(bus),
                kinds::MESSAGE_MEDIA_READY@,
                media_ready_payload(
                    chat_id@,
                    local_id,
                    media_type@,
                    format@,
                    path_join(self.media_dir@, file.relative_path@),
                    file.relative_path@,
                    file.bytes@.len() as usize,
                ),
            ),
    {
        let container_path = self.media_file_path(file);
        let e = media_ready_event(
            chat_id,
            local_id,
            media_type,
            format,
            container_path.as_str(),
            file.relative_path.as_str(),
            file.bytes.len(),
        );
        let ghost ev = e@;
        bus.publish(e);
        assert(crate::events::is_new_event(
            ev,
            kinds::MESSAGE_MEDIA_READY@,
            media_ready_payload(
                chat_id@,
                local_id,
                media_type@,
                format@,
                path_join(self.media_dir@, file.relative_path@),
                file.relative_path@,
                file.bytes@.len() as usize,
            ),
        ));
        scan.latest_seen = local_id;
        scan.updated = true;
    }

    /// Ends a chat's scan: the cursor is stored when it moved or the chat
    /// already had one.
    pub fn finish_chat(&mut self, chat_id: String, scan: MediaChatScan)
        ensures
            final(self).last_seen.map() == if scan.updated || old(self).last_seen.map().contains_key(chat_id@) {
                old(self).last_seen.map().insert(chat_id@, scan.latest_seen)
            } else {
                old(self).last_seen.map()
            },
            final(self).cold_start == old(self).cold_start,
            final(self).interval_ms == old(self).interval_ms,
            final(self).image_fetch_original == old(self).image_fetch_original,
            final(self).image_fetch_timeout_ms == old(self).image_fetch_timeout_ms,
            final(self).media_dir@ == old(self).media_dir@,
    {
        if scan.updated || self.last_seen.contains_key(chat_id.as_str()) {
            self.last_seen.insert(chat_id, scan.latest_seen);
        }
    }

    /// Ends a poll: later polls fetch and announce.
    pub fn finish_poll(&mut self)
        ensures
            !final(self).cold_start,
            final(self).last_seen.map() == old(self).last_seen.map(),
            final(self).interval_ms == old(self).interval_ms,
            final(self).image_fetch_original == old(self).image_fetch_original,
            final(self).image_fetch_timeout_ms == old(self).image_fetch_timeout_ms,
            final(self).media_dir@ == old(self).media_dir@,
    {
        self.cold_start = false;
    }
}

/// One message of a chat's scan, with what the outside world gave for it:
/// the media lookup, and whether the decoded file was written to its path
/// under the media directory.
pub struct MediaInput {
    pub msg: Message,
    pub lookup: MediaLookupView,
    pub written: bool,
}

/// A chat's scan so far: the cursor, whether it moved, whether the scan
/// stopped, the events announced and the positions of the messages they
/// announce.
pub struct MediaScan {
    pub latest: i64,
    pub updated: bool,
    pub stopped: bool,
    pub events: Seq<EventShape>,
    pub announced: Seq<int>,
}

/// The `message.media_ready` event of a written media file.
pub open spec fn media_ready_shape(
    media_dir: Seq<char>,
    chat_id: Seq<char>,
    m: Message,
    lk: MediaLookupView,
    relative_path: Seq<char>,
    bytes: Seq<u8>,
) -> EventShape {
    EventShape {
        kind: kinds::MESSAGE_MEDIA_READY@,
        data: media_ready_payload(
            chat_id,
            m.local_id,
            lk.media_type,
            lk.format,
            path_join(media_dir, relative_path),
            relative_path,
            bytes.len() as usize,
        ),
    }
}

/// One message's step of a chat's scan, as `classify_message`, `plan_lookup`
/// and `announce_media` take it: messages after a stop, other than media or
/// not newer than the cursor are passed over; a cold start only moves the
/// cursor; otherwise the lookup decides, and a written file is announced and
/// moves the cursor.
pub open spec fn media_step(
    cold_start: bool,
    media_dir: Seq<char>,
    chat_id: Seq<char>,
    st: MediaScan,
    inp: MediaInput,
    k: int,
) -> MediaScan {
    let m = inp.msg;
    if st.stopped || !is_media_type(m.msg_type) || m.local_id <= st.latest {
        st
    } else if cold_start {
        MediaScan { latest: m.local_id, updated: true, stopped: false, events: st.events, announced: st.announced }
    } else {
        match lookup_outcome(false, chat_id, m.local_id, inp.lookup) {
            LookupOutcome::StopChat => MediaScan {
                latest: st.latest,
                updated: st.updated,
                stopped: true,
                events: st.events,
                announced: st.announced,
            },
            LookupOutcome::SkipPast => MediaScan {
                latest: m.local_id,
                updated: true,
                stopped: false,
                events: st.events,
                announced: st.announced,
            },
            LookupOutcome::Undecodable => st,
            LookupOutcome::Write { relative_path, bytes } => if inp.written {
                MediaScan {
                    latest: m.local_id,
                    updated: true,
                    stopped: false,
                    events: st.events.push(
                        media_ready_shape(media_dir, chat_id, m, inp.lookup, relative_path, bytes),
                    ),
                    announced: st.announced.push(k),
                }
            } else {
                st
            },
        }
    }
}

/// A chat's scan over `inputs` (its messages sorted by `local_id`) from the
/// cursor `start`.
pub open spec fn media_scan(
    cold_start: bool,
    media_dir: Seq<char>,
    chat_id: Seq<char>,
    inputs: Seq<MediaInput>,
    start: i64,
) -> MediaScan
    decreases inputs.len(),
{
    if inputs.len() == 0 {
        MediaScan { latest: start, updated: false, stopped: false, events: Seq::empty(), announced: Seq::empty() }
    } else {
        media_step(
            cold_start,
            media_dir,
            chat_id,
            media_scan(cold_start, media_dir, chat_id, inputs.drop_last(), start),
            inputs.last(),
            inputs.len() - 1,
        )
    }
}

/// What an announcement of the `k`-th input says: the message is a media
/// message newer than `start` and not past the final cursor `latest`; its
/// media was neither pending nor unsupported, its data decoded to `bytes`, the
/// file was written, and the event names the chat, the message, the media
/// type and format, the relative path `chat/local_id.format`, that path joined
/// onto the media directory (where the file was written) and the decoded
/// size.
pub open spec fn announcement_of(
    media_dir: Seq<char>,
    chat_id: Seq<char>,
    inputs: Seq<MediaInput>,
    start: i64,
    latest: i64,
    k: int,
    e: EventShape,
) -> bool {
    &&& 0 <= k < inputs.len()
    &&& {
        let inp = inputs[k];
        let m = inp.msg;
        &&& inp.written
        &&& is_media_type(m.msg_type)
        &&& start < m.local_id <= latest
        &&& inp.lookup.media_type != "pending"@
        &&& inp.lookup.media_type != "unsupported"@
        &&& match inp.lookup.data {
            Some(d) => match base64_standard_decode(d) {
                Some(b) => e == media_ready_shape(
                    media_dir,
                    chat_id,
                    m,
                    inp.lookup,
                    media_path(chat_id, m.local_id, inp.lookup.format),
                    b,
                ),
                None => false,
            },
            None => false,
        }
    }
}

/// Every media announcement of a chat's scan is right, and its message is not
/// past the cursor the scan leaves: a cold start announces nothing; each
/// announced event is `message.media_ready` for a media message newer than the
/// starting cursor whose media was neither pending nor unsupported, whose data
/// decoded and whose file was written, with the path `chat/local_id.format`,
/// the same path under the media directory, and the decoded size; the cursor never moves back, and moves whenever
/// something is announced (so `finish_chat` stores it).
pub proof fn law_media_announcements(
    cold_start: bool,
    media_dir: Seq<char>,
    chat_id: Seq<char>,
    inputs: Seq<MediaInput>,
    start: i64,
)
    ensures
        media_scan(cold_start, media_dir, chat_id, inputs, start).latest >= start,
        media_scan(cold_start, media_dir, chat_id, inputs, start).events.len() == media_scan(
            cold_start,
            media_dir,
            chat_id,
            inputs,
            start,
        ).announced.len(),
        cold_start ==> media_scan(cold_start, media_dir, chat_id, inputs, start).events.len() == 0,
        media_scan(cold_start, media_dir, chat_id, inputs, start).events.len() > 0 ==> media_scan(
            cold_start,
            media_dir,
            chat_id,
            inputs,
            start,
        ).updated,
        forall|j: int|
            0 <= j < media_scan(cold_start, media_dir, chat_id, inputs, start).events.len() ==> announcement_of(
                media_dir,
                chat_id,
                inputs,
                start,
                media_scan(cold_start, media_dir, chat_id, inputs, start).latest,
                #[trigger] media_scan(cold_start, media_dir, chat_id, inputs, start).announced[j],
                media_scan(cold_start, media_dir, chat_id, inputs, start).events[j],
            ),
    decreases inputs.len(),
{
    reveal_strlit("pending");
    reveal_strlit("unsupported");
    if inputs.len() > 0 {
        let prev_inputs = inputs.drop_last();
        law_media_announcements(cold_start, media_dir, chat_id, prev_inputs, start);
        let prev = media_scan(cold_start, media_dir, chat_id, prev_inputs, start);
        let st = media_scan(cold_start, media_dir, chat_id, inputs, start);
        let k = inputs.len() - 1;
        assert forall|j: int| 0 <= j < st.events.len() implies announcement_of(
            media_dir,
            chat_id,
            inputs,
            start,
            st.latest,
            #[trigger] st.announced[j],
            st.events[j],
        ) by {
            if j < prev.events.len() {
                assert(st.announced[j] == prev.announced[j]);
                assert(st.events[j] == prev.events[j]);
                assert(announcement_of(media_dir, chat_id, prev_inputs, start, prev.latest, prev.announced[j], prev.events[j]));
                assert(inputs[prev.announced[j]] == prev_inputs[prev.announced[j]]);
            } else {
                assert(st.announced[j] == k);
            }
        }
    }
}

/// No media is announced twice: whatever messages a later scan of the chat
/// sees, starting from the cursor an earlier scan left, none of its
/// announcements is for a message the earlier scan announced.
pub proof fn law_media_not_announced_twice(
    cold_start: bool,
    media_dir: Seq<char>,
    chat_id: Seq<char>,
    inputs: Seq<MediaInput>,
    start: i64,
    later_cold: bool,
    later_inputs: Seq<MediaInput>,
)
    ensures
        forall|j1: int, j2: int|
            0 <= j1 < media_scan(cold_start, media_dir, chat_id, inputs, start).events.len() && 0 <= j2
                < media_scan(
                later_cold,
                media_dir,
                chat_id,
                later_inputs,
                media_scan(cold_start, media_dir, chat_id, inputs, start).latest,
            ).events.len() ==> inputs[#[trigger] media_scan(cold_start, media_dir, chat_id, inputs, start).announced[j1]].msg.local_id
                != later_inputs[#[trigger] media_scan(
                later_cold,
                media_dir,
                chat_id,
                later_inputs,
                media_scan(cold_start, media_dir, chat_id, inputs, start).latest,
            ).announced[j2]].msg.local_id,
{
    let first = media_scan(cold_start, media_dir, chat_id, inputs, start);
    law_media_announcements(cold_start, media_dir, chat_id, inputs, start);
    law_media_announcements(later_cold, media_dir, chat_id, later_inputs, first.latest);
}

} // verus!
