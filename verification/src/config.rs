//! Settings of the push service, read from environment variables: each
//! variable that is missing or does not parse leaves its default.

use crate::text::{ascii_lower, ascii_lower_char};
use vstd::prelude::*;

verus! {

broadcast use vstd::string::group_string_axioms;

/// Settings of the websocket push.
#[derive(Debug, Clone)]
pub struct WsConfig {
    pub ring_buffer_size: usize,
    pub broadcast_capacity: usize,
    pub heartbeat_interval_secs: u64,
}

/// Settings of the pollers.
#[derive(Debug, Clone)]
pub struct PollersConfig {
    pub message_interval_ms: u64,
    pub friend_request_interval_ms: u64,
    pub contact_diff_interval_secs: u64,
    pub media_interval_ms: Option<u64>,
    pub image_fetch_original: bool,
    pub image_fetch_timeout_ms: u64,
}

pub fn default_ring_buffer_size() -> (r: usize)
    ensures
        r == 10_000,
{
    10_000
}

pub fn default_broadcast_capacity() -> (r: usize)
    ensures
        r == 1024,
{
    1024
}

pub fn default_heartbeat_interval_secs() -> (r: u64)
    ensures
        r == 30,
{
    30
}

pub fn default_message_interval_ms() -> (r: u64)
    ensures
        r == 200,
{
    200
}

pub fn default_friend_request_interval_ms() -> (r: u64)
    ensures
        r == 500,
{
    500
}

pub fn default_contact_diff_interval_secs() -> (r: u64)
    ensures
        r == 60,
{
    60
}

pub fn default_media_interval_ms() -> (r: Option<u64>)
    ensures
        r == Some(2000u64),
{
    Some(2000)
}

pub fn default_image_fetch_original() -> (r: bool)
    ensures
        r,
{
    true
}

pub fn default_image_fetch_timeout_ms() -> (r: u64)
    ensures
        r == 5000,
{
    5000
}

impl Default for WsConfig {
    fn default() -> (r: Self)
        ensures
            r.ring_buffer_size == 10_000,
            r.broadcast_capacity == 1024,
            r.heartbeat_interval_secs == 30,
    {
        WsConfig {
            ring_buffer_size: default_ring_buffer_size(),
            broadcast_capacity: default_broadcast_capacity(),
            heartbeat_interval_secs: default_heartbeat_interval_secs(),
        }
    }
}

impl Default for PollersConfig {
    fn default() -> (r: Self)
        ensures
            r.message_interval_ms == 200,
            r.friend_request_interval_ms == 500,
            r.contact_diff_interval_secs == 60,
            r.media_interval_ms == Some(2000u64),
            r.image_fetch_original,
            r.image_fetch_timeout_ms == 5000,
    {
        PollersConfig {
            message_interval_ms: default_message_interval_ms(),
            friend_request_interval_ms: default_friend_request_interval_ms(),
            contact_diff_interval_secs: default_contact_diff_interval_secs(),
            media_interval_ms: default_media_interval_ms(),
            image_fetch_original: default_image_fetch_original(),
            image_fetch_timeout_ms: default_image_fetch_timeout_ms(),
        }
    }
}

/// The value of the decimal digits `s`.
pub open spec fn digits_value(s: Seq<char>) -> int
    decreases s.len(),
{
    if s.len() == 0 {
        0
    } else {
        digits_value(s.drop_last()) * 10 + ((s.last() as u32) - ('0' as u32))
    }
}

/// Every character of `s` is an ASCII digit.
pub open spec fn all_digits(s: Seq<char>) -> bool {
    forall|i: int| 0 <= i < s.len() ==> '0' <= #[trigger] s[i] && s[i] <= '9'
}

/// What `str::parse` gives for an unsigned integer type whose largest value is
/// `max`: an optional `+` then one or more digits, and no more than `max`.
pub open spec fn parse_unsigned(s: Seq<char>, max: int) -> Option<int> {
    let body = if s.len() > 0 && s[0] == '+' {
        s.drop_first()
    } else {
        s
    };
    if body.len() > 0 && all_digits(body) && digits_value(body) <= max {
        Some(digits_value(body))
    } else {
        None
    }
}

/// The optional `u64` as an optional integer.
pub open spec fn opt_u64_int(v: Option<u64>) -> Option<int> {
    match v {
        Some(n) => Some(n as int),
        None => None,
    }
}

/// The optional `usize` as an optional integer.
pub open spec fn opt_usize_int(v: Option<usize>) -> Option<int> {
    match v {
        Some(n) => Some(n as int),
        None => None,
    }
}

/// Calls `str::parse::<u64>`, which accepts an optional `+` followed by one or
/// more decimal digits whose value fits in `u64`.
#[verifier::external_body]
fn parse_u64_text(s: &str) -> (r: Option<u64>)
    ensures
        opt_u64_int(r) == parse_unsigned(s@, u64::MAX as int),
{
    s.parse::<u64>().ok()
}

/// Calls `str::parse::<usize>`, which accepts an optional `+` followed by one
/// or more decimal digits whose value fits in `usize`.
#[verifier::external_body]
fn parse_usize_text(s: &str) -> (r: Option<usize>)
    ensures
        opt_usize_int(r) == parse_unsigned(s@, usize::MAX as int),
{
    s.parse::<usize>().ok()
}

/// What `str::parse::<bool>` gives: exactly `true` or `false`.
pub open spec fn parse_bool_spec(s: Seq<char>) -> Option<bool> {
    if s == "true"@ {
        Some(true)
    } else if s == "false"@ {
        Some(false)
    } else {
        None
    }
}

/// `str::parse::<bool>`: `true` and `false`, nothing else.
pub fn parse_bool_text(s: &str) -> (r: Option<bool>)
    ensures
        r == parse_bool_spec(s@),
{
    if crate::text::str_eq(s, "true") {
        Some(true)
    } else if crate::text::str_eq(s, "false") {
        Some(false)
    } else {
        None
    }
}

/// A setting read as `u64`, or `default`.
pub open spec fn u64_setting(value: Option<Seq<char>>, default: u64) -> u64 {
    match value {
        Some(s) => match parse_unsigned(s, u64::MAX as int) {
            Some(n) => n as u64,
            None => default,
        },
        None => default,
    }
}

/// A setting read as `usize`, or `default`.
pub open spec fn usize_setting(value: Option<Seq<char>>, default: usize) -> usize {
    match value {
        Some(s) => match parse_unsigned(s, usize::MAX as int) {
            Some(n) => n as usize,
            None => default,
        },
        None => default,
    }
}

/// A setting read as `bool`, or `default`.
pub open spec fn bool_setting(value: Option<Seq<char>>, default: bool) -> bool {
    match value {
        Some(s) => match parse_bool_spec(s) {
            Some(b) => b,
            None => default,
        },
        None => default,
    }
}

/// A setting read as an optional `u64`: none when missing or unparsable.
pub open spec fn opt_u64_setting(value: Option<Seq<char>>) -> Option<u64> {
    match value {
        Some(s) => match parse_unsigned(s, u64::MAX as int) {
            Some(n) => Some(n as u64),
            None => None,
        },
        None => None,
    }
}

fn read_u64(value: Option<&str>, default: u64) -> (r: u64)
    ensures
        r == u64_setting(crate::events::bus::opt_str_view(value), default),
{
    match value {
        Some(s) => match parse_u64_text(s) {
            Some(n) => n,
            None => default,
        },
        None => default,
    }
}

fn read_usize(value: Option<&str>, default: usize) -> (r: usize)
    ensures
        r == usize_setting(crate::events::bus::opt_str_view(value), default),
{
    match value {
        Some(s) => match parse_usize_text(s) {
            Some(n) => n,
            None => default,
        },
        None => default,
    }
}

impl WsConfig {
    /// The settings given the values of `YOYO_WS_RING_BUFFER_SIZE`,
    /// `YOYO_WS_BROADCAST_CAPACITY` and `YOYO_WS_HEARTBEAT_INTERVAL_SECS`.
    pub fn from_values(
        ring_buffer_size: Option<&str>,
        broadcast_capacity: Option<&str>,
        heartbeat_interval_secs: Option<&str>,
    ) -> (r: WsConfig)
        ensures
            r.ring_buffer_size == usize_setting(crate::events::bus::opt_str_view(ring_buffer_size), 10_000),
            r.broadcast_capacity == usize_setting(crate::events::bus::opt_str_view(broadcast_capacity), 1024),
            r.heartbeat_interval_secs == u64_setting(
                crate::events::bus::opt_str_view(heartbeat_interval_secs),
                30,
            ),
    {
        WsConfig {
            ring_buffer_size: read_usize(ring_buffer_size, default_ring_buffer_size()),
            broadcast_capacity: read_usize(broadcast_capacity, default_broadcast_capacity()),
            heartbeat_interval_secs: read_u64(heartbeat_interval_secs, default_heartbeat_interval_secs()),
        }
    }
}

impl PollersConfig {
    /// The settings given the values of `YOYO_WS_MESSAGE_INTERVAL_MS`,
    /// `YOYO_WS_FRIEND_REQUEST_INTERVAL_MS`, `YOYO_WS_CONTACT_DIFF_INTERVAL_SECS`,
    /// `YOYO_WS_MEDIA_INTERVAL_MS`, `YOYO_WS_IMAGE_FETCH_ORIGINAL` and
    /// `YOYO_WS_IMAGE_FETCH_TIMEOUT_MS`. A missing or unparsable media interval
    /// leaves none (the poller then uses its own default).
    pub fn from_values(
        message_interval_ms: Option<&str>,
        friend_request_interval_ms: Option<&str>,
        contact_diff_interval_secs: Option<&str>,
        media_interval_ms: Option<&str>,
        image_fetch_original: Option<&str>,
        image_fetch_timeout_ms: Option<&str>,
    ) -> (r: PollersConfig)
        ensures
            r.message_interval_ms == u64_setting(crate::events::bus::opt_str_view(message_interval_ms), 200),
            r.friend_request_interval_ms == u64_setting(
                crate::events::bus::opt_str_view(friend_request_interval_ms),
                500,
            ),
            r.contact_diff_interval_secs == u64_setting(
                crate::events::bus::opt_str_view(contact_diff_interval_secs),
                60,
            ),
            r.media_interval_ms == opt_u64_setting(crate::events::bus::opt_str_view(media_interval_ms)),
            r.image_fetch_original == bool_setting(crate::events::bus::opt_str_view(image_fetch_original), true),
            r.image_fetch_timeout_ms == u64_setting(
                crate::events::bus::opt_str_view(image_fetch_timeout_ms),
                5000,
            ),
    {
        let media = match media_interval_ms {
            Some(s) => parse_u64_text(s),
            None => None,
        };
        let fetch_original = match image_fetch_original {
            Some(s) => match parse_bool_text(s) {
                Some(b) => b,
                None => true,
            },
            None => true,
        };
        PollersConfig {
            message_interval_ms: read_u64(message_interval_ms, default_message_interval_ms()),
            friend_request_interval_ms: read_u64(
                friend_request_interval_ms,
                default_friend_request_interval_ms(),
            ),
            contact_diff_interval_secs: read_u64(
                contact_diff_interval_secs,
                default_contact_diff_interval_secs(),
            ),
            media_interval_ms: media,
            image_fetch_original: fetch_original,
            image_fetch_timeout_ms: read_u64(image_fetch_timeout_ms, 5000),
        }
    }
}

/// A flag's value turns it on when, ignoring ASCII case, it is `1`, `true`,
/// `yes` or `on`.
pub open spec fn flag_on(value: Option<Seq<char>>) -> bool {
    match value {
        Some(v) => {
            let l = ascii_lower(v);
            l == "1"@ || l == "true"@ || l == "yes"@ || l == "on"@
        },
        None => false,
    }
}

/// A flag's value is read without regard to ASCII case: a value and its
/// lower-case form turn the flag on alike.
pub proof fn law_flag_ignores_ascii_case(value: Seq<char>)
    ensures
        flag_on(Some(value)) == flag_on(Some(ascii_lower(value))),
{
    assert(ascii_lower(ascii_lower(value)) =~= ascii_lower(value)) by {
        assert forall|i: int| 0 <= i < value.len() implies ascii_lower_char(ascii_lower_char(value[i]))
            == ascii_lower_char(value[i]) by {
            let c = value[i];
            if 'A' <= c && c <= 'Z' {
                assert(('a' as u32) <= (c as u32) + 32 <= ('z' as u32));
            }
        }
    }
}

/// Whether a flag's value turns it on.
pub fn parse_bool_env_var(value: Option<String>) -> (r: bool)
    ensures
        r == flag_on(crate::router::events::opt_string_view(value)),
{
    match value {
        Some(v) => {
            let l = crate::text::to_ascii_lowercase_chars(v.as_str());
            crate::text::chars_eq_str(&l, "1") || crate::text::chars_eq_str(&l, "true") || crate::text::chars_eq_str(&l, "yes") || crate::text::chars_eq_str(&l, "on")
        },
        None => false,
    }
}

/// The a11y probe interval of receive-only mode, from the value of
/// `AGENT_WECHAT_RO_A11Y_PROBE_SECS`: 0 (off) when missing or unparsable.
pub fn receive_only_probe_secs_from(value: Option<&str>) -> (r: u64)
    ensures
        r == u64_setting(crate::events::bus::opt_str_view(value), 0),
{
    read_u64(value, 0)
}

} // verus!
