//! Uploading bytecode to a board: the address to post to, and when the
//! `watch` command uploads again.

use vstd::prelude::*;

verus! {

broadcast use vstd::string::group_string_axioms;

/// `url::Url` (re-exported by `reqwest`); carried through, never looked into.
#[verifier::external_type_specification]
#[verifier::external_body]
pub struct ExUrl(reqwest::Url);

/// The URL that `reqwest::Url::parse` makes of a text, when it takes it.
pub uninterp spec fn parsed_url(input: Seq<char>) -> Option<reqwest::Url>;

/// `reqwest::Url::parse`. Trusted: its result, `None` where the parser refuses
/// the text, is the named `parsed_url` of the text; nothing more is claimed of
/// which texts the parser takes.
#[verifier::external_body]
fn parse_url(input: &str) -> (r: Option<reqwest::Url>)
    ensures
        r == parsed_url(input@),
{
    reqwest::Url::parse(input).ok()
}

/// The path on the board that takes uploads.
pub const UPLOAD_PATH: &'static str = "/upload";

/// The content type of an upload.
pub const UPLOAD_CONTENT_TYPE: &'static str = "application/octet-stream";

/// The user agent that `watch` sends.
pub const WATCH_USER_AGENT: &'static str = "self-esp/cli";

/// The address of the upload endpoint of a host.
pub open spec fn upload_address(host: Seq<char>) -> Seq<char> {
    host + UPLOAD_PATH@
}

/// The address of the upload endpoint, as text.
pub fn upload_address_text(host: &str) -> (r: String)
    ensures
        r@ == upload_address(host@),
        r@ == host@ + "/upload"@,
{
    let mut r = String::from_str(host);
    r.append(UPLOAD_PATH);
    r
}

/// The URL of the upload endpoint of a host; `None` when it is no URL.
pub fn upload_url(host: &str) -> (r: Option<reqwest::Url>)
    ensures
        r == parsed_url(upload_address(host@)),
        r == parsed_url(host@ + "/upload"@),
{
    let address = upload_address_text(host);
    parse_url(address.as_str())
}

/// What the file watcher reported.
pub enum WatchEvent {
    /// The content of the file changed.
    ContentModified,
    /// Any other change.
    Other,
    /// The watcher reported an error.
    Failed,
    /// The channel from the watcher failed.
    ChannelFailed,
}

/// What `watch` does with an event.
#[derive(PartialEq, Eq, Structural)]
pub enum WatchStep {
    /// Compile and upload the file again.
    Publish,
    /// Nothing.
    Skip,
    /// Report the watcher's error and exit.
    Exit,
    /// Report the channel's error and go on watching.
    Report,
}

/// Changes that come closer than this to the reference time are grouped.
pub const DEBOUNCE_MS: u128 = 700;

/// The watch decision from the time elapsed since a fixed reference (the
/// start of watching, set `DEBOUNCE_MS` back): a content change publishes once
/// at least `DEBOUNCE_MS` have passed since it; a watcher error ends the
/// command; a channel error is reported.
pub fn watch_step(event: WatchEvent, elapsed_ms: u128) -> (r: WatchStep)
    ensures
        r == match event {
            WatchEvent::ContentModified => if elapsed_ms >= DEBOUNCE_MS {
                WatchStep::Publish
            } else {
                WatchStep::Skip
            },
            WatchEvent::Other => WatchStep::Skip,
            WatchEvent::Failed => WatchStep::Exit,
            WatchEvent::ChannelFailed => WatchStep::Report,
        },
{
    match event {
        WatchEvent::ContentModified => if elapsed_ms >= DEBOUNCE_MS {
            WatchStep::Publish
        } else {
            WatchStep::Skip
        },
        WatchEvent::Other => WatchStep::Skip,
        WatchEvent::Failed => WatchStep::Exit,
        WatchEvent::ChannelFailed => WatchStep::Report,
    }
}


/// The debounce rule: what `watch` does with an event arriving at `now_ms`
/// when its last upload was at `last_publish_ms` (none yet: `None`), and the
/// time of the last upload afterwards. A content change uploads, and becomes
/// the last upload, unless it comes less than `DEBOUNCE_MS` after the last
/// upload, in which case it is grouped into that one.
pub open spec fn debounced(last_publish_ms: Option<u128>, event: WatchEvent, now_ms: u128) -> (
    WatchStep,
    Option<u128>,
) {
    match event {
        WatchEvent::ContentModified => if last_publish_ms matches Some(l) && now_ms - l
            < DEBOUNCE_MS {
            (WatchStep::Skip, last_publish_ms)
        } else {
            (WatchStep::Publish, Some(now_ms))
        },
        WatchEvent::Other => (WatchStep::Skip, last_publish_ms),
        WatchEvent::Failed => (WatchStep::Exit, last_publish_ms),
        WatchEvent::ChannelFailed => (WatchStep::Report, last_publish_ms),
    }
}

/// One turn of the watch loop with the debounce: the action for the event and
/// the new time of the last upload.
pub fn debounce_step(last_publish_ms: Option<u128>, event: WatchEvent, now_ms: u128) -> (r: (
    WatchStep,
    Option<u128>,
))
    ensures
        r == debounced(last_publish_ms, event, now_ms),
{
    match event {
        WatchEvent::ContentModified => {
            let grouped = match last_publish_ms {
                Some(l) => now_ms < l || now_ms - l < DEBOUNCE_MS,
                None => false,
            };
            if grouped {
                (WatchStep::Skip, last_publish_ms)
            } else {
                (WatchStep::Publish, Some(now_ms))
            }
        },
        WatchEvent::Other => (WatchStep::Skip, last_publish_ms),
        WatchEvent::Failed => (WatchStep::Exit, last_publish_ms),
        WatchEvent::ChannelFailed => (WatchStep::Report, last_publish_ms),
    }
}

/// Two uploads are at least `DEBOUNCE_MS` apart: after an event that uploads
/// at `t1`, any later step at `t2` uploads again only if `t2 - t1 >=
/// DEBOUNCE_MS`, and a step that does not upload keeps `t1` as the last upload.
pub proof fn law_uploads_are_debounced(
    last: Option<u128>,
    first: WatchEvent,
    t1: u128,
    second: WatchEvent,
    t2: u128,
)
    requires
        debounced(last, first, t1).0 == WatchStep::Publish,
    ensures
        debounced(last, first, t1).1 == Some(t1),
        debounced(debounced(last, first, t1).1, second, t2).0 == WatchStep::Publish ==> t2 - t1
            >= DEBOUNCE_MS,
        debounced(debounced(last, first, t1).1, second, t2).0 != WatchStep::Publish ==> debounced(
            debounced(last, first, t1).1,
            second,
            t2,
        ).1 == Some(t1),
{
}


/// The upload address keeps the whole host: it is the host followed by the
/// seven characters `/upload`.
pub proof fn law_upload_address_keeps_host(host: Seq<char>)
    ensures
        upload_address(host).len() == host.len() + 7,
        upload_address(host).subrange(0, host.len() as int) == host,
        upload_address(host).subrange(host.len() as int, host.len() as int + 7) == seq![
            '/',
            'u',
            'p',
            'l',
            'o',
            'a',
            'd',
        ],
{
    reveal_strlit("/upload");
    assert(upload_address(host).subrange(0, host.len() as int) =~= host);
    assert(upload_address(host).subrange(host.len() as int, host.len() as int + 7) =~= seq![
        '/',
        'u',
        'p',
        'l',
        'o',
        'a',
        'd',
    ]);
}

/// A content change uploads when nothing was uploaded yet or when the last
/// upload is at least 700 ms old, and the change becomes the last upload;
/// closer changes upload nothing. No other event uploads or moves the time
/// of the last upload.
pub proof fn law_debounce_rule(last: Option<u128>, event: WatchEvent, now: u128)
    ensures
        event is ContentModified && (last is None || now - last->0 >= 700) ==> debounced(
            last,
            event,
            now,
        ) == (WatchStep::Publish, Some(now)),
        event is ContentModified && last is Some && now - last->0 < 700 ==> debounced(
            last,
            event,
            now,
        ) == (WatchStep::Skip, last),
        !(event is ContentModified) ==> debounced(last, event, now).0 != WatchStep::Publish
            && debounced(last, event, now).1 == last,
{
}

} // verus!
