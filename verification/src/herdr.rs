//! What the plugin asks of Herdr: command lines, socket requests, and how
//! Herdr's failures are reported.
use vstd::prelude::*;

use crate::config::PopupSize;
use crate::decimal::{decimal, push_decimal};
use crate::model::PaneSnapshot;
use crate::snapshot::{rows_of, row_count, ScrollState};
use crate::text::{byte_len, byte_len_of, chars_are_blank, chars_of, exec_is_control, is_blank, is_control, push_char, push_str};

verus! {

pub const PLUGIN_ID: &'static str = "shadowfax.comments";

/// The largest request Herdr's socket accepts, including the final newline.
pub const MAX_API_REQUEST_BYTES: usize = 1024 * 1024;

/// The largest response line read back from Herdr.
pub const MAX_API_RESPONSE_BYTES: usize = 64 * 1024;

/// Why Herdr refused a command.
#[derive(Debug, Clone, Copy, PartialEq, Eq)]
pub enum FailureKind {
    UiBusy,
    PaneMissing,
    Command,
}

/// Why talking to Herdr failed.
#[derive(Debug, Clone, PartialEq, Eq)]
pub enum HerdrError {
    /// Herdr refused `operation`.
    Failed { operation: String, kind: FailureKind },
    InvalidPaneId,
    RequestTooLarge,
    EncodingFailed,
    NoResponse,
    InvalidFrame,
    MismatchedResponse,
    UnexpectedResponse,
    ScrollOutOfRange,
    /// Any other failure, with its message.
    Other { message: String },
}

/// Herdr as the plugin uses it. Implementations run Herdr's command line and
/// socket; tests record the calls.
pub trait HerdrClient {
    fn capture_snapshot(&self, pane_id: &str) -> Result<PaneSnapshot, HerdrError>;

    fn open_annotation(&self, run_id: &str, popup: &PopupSize) -> Result<(), HerdrError>;

    fn open_inline_annotation(&self, run_id: &str, popup: &PopupSize) -> Result<(), HerdrError>;

    fn open_review(&self, review_id: &str, popup: &PopupSize) -> Result<(), HerdrError>;

    fn send_input(&self, pane_id: &str, text: &str) -> Result<(), HerdrError>;

    fn notify(&self, title: &str, body: &str) -> Result<(), HerdrError>;
}

pub open spec fn ascii_lower(c: char) -> char {
    if 'A' <= c && c <= 'Z' {
        ((c as u32) + 32) as char
    } else {
        c
    }
}

/// `s` with ASCII capitals lowered (what `str::to_ascii_lowercase` gives).
pub open spec fn ascii_lowercase(s: Seq<char>) -> Seq<char> {
    s.map_values(|c: char| ascii_lower(c))
}

pub open spec fn occurs_at(hay: Seq<char>, needle: Seq<char>, i: int) -> bool {
    0 <= i && i + needle.len() <= hay.len() && hay.subrange(i, i + needle.len()) == needle
}

/// Whether `needle` occurs in `hay` (what `str::contains` reports).
pub open spec fn contains(hay: Seq<char>, needle: Seq<char>) -> bool {
    exists|i: int| #[trigger] occurs_at(hay, needle, i)
}

/// How Herdr's diagnostic output is read: a busy UI, a missing pane, or any
/// other refusal (case-insensitive for ASCII).
pub open spec fn failure_kind_of(output: Seq<char>) -> FailureKind {
    let lower = ascii_lowercase(output);
    if contains(lower, "ui_busy"@) {
        FailureKind::UiBusy
    } else if contains(lower, "pane_not_found"@) || contains(lower, "pane not found"@) || contains(
        lower,
        "no such pane"@,
    ) {
        FailureKind::PaneMissing
    } else {
        FailureKind::Command
    }
}

/// Classifies Herdr's diagnostic output.
pub fn classify_failure(output: &str) -> (k: FailureKind)
    ensures
        k == failure_kind_of(output@),
{
    let lower = ascii_lowercase_chars(&chars_of(output));
    if contains_chars(&lower, &chars_of("ui_busy")) {
        FailureKind::UiBusy
    } else if contains_chars(&lower, &chars_of("pane_not_found")) || contains_chars(&lower, &chars_of("pane not found"))
        || contains_chars(&lower, &chars_of("no such pane")) {
        FailureKind::PaneMissing
    } else {
        FailureKind::Command
    }
}

fn ascii_lowercase_chars(s: &[char]) -> (r: Vec<char>)
    ensures
        r@ == ascii_lowercase(s@),
{
    let mut r: Vec<char> = Vec::new();
    let mut i: usize = 0;
    while i < s.len()
        invariant
            i <= s@.len(),
            r@ == ascii_lowercase(s@.take(i as int)),
        decreases s@.len() - i,
    {
        let c = s[i];
        let l = if 'A' <= c && c <= 'Z' { ((c as u8) + 32) as char } else { c };
        r.push(l);
        i += 1;
        assert(r@ =~= ascii_lowercase(s@.take(i as int)));
    }
    assert(s@.take(s@.len() as int) =~= s@);
    r
}

fn matches_at(hay: &[char], needle: &[char], i: usize) -> (r: bool)
    requires
        i + needle@.len() <= hay@.len(),
    ensures
        r == occurs_at(hay@, needle@, i as int),
{
    let n = needle.len();
    let h = hay.len();
    let mut j: usize = 0;
    while j < n
        invariant
            n == needle@.len(),
            h == hay@.len(),
            i + n <= hay@.len(),
            j <= n,
            forall|m: int| 0 <= m < j ==> hay@[i + m] == needle@[m],
        decreases n - j,
    {
        if hay[i + j] != needle[j] {
            assert(hay@.subrange(i as int, i + n)[j as int] == hay@[i + j]);
            return false;
        }
        j += 1;
    }
    assert(hay@.subrange(i as int, i + n) =~= needle@);
    true
}

/// Whether `needle` occurs in `hay`.
pub fn contains_chars(hay: &[char], needle: &[char]) -> (r: bool)
    ensures
        r == contains(hay@, needle@),
{
    if needle.len() > hay.len() {
        assert forall|i: int| !occurs_at(hay@, needle@, i) by {}
        return false;
    }
    if needle.len() == 0 {
        assert(hay@.subrange(0, 0) =~= needle@);
        assert(occurs_at(hay@, needle@, 0));
        return true;
    }
    let bound = hay.len() - needle.len() + 1;
    let mut i: usize = 0;
    while i < bound
        invariant
            bound == hay@.len() - needle@.len() + 1,
            i <= bound,
            forall|k: int| 0 <= k < i ==> !occurs_at(hay@, needle@, k),
        decreases bound - i,
    {
        if matches_at(hay, needle, i) {
            return true;
        }
        i += 1;
    }
    false
}

/// The message for a refused operation.
pub open spec fn failure_message_of(operation: Seq<char>, kind: FailureKind) -> Seq<char> {
    "could not "@ + operation + match kind {
        FailureKind::UiBusy => ": close the active Herdr popup or modal"@,
        FailureKind::PaneMissing => ": the originating pane no longer exists"@,
        FailureKind::Command => ": Herdr rejected the request"@,
    }
}

/// The message for a refused operation.
pub fn failure_message(operation: &str, kind: FailureKind) -> (m: String)
    ensures
        m@ == failure_message_of(operation@, kind),
{
    let mut m = "could not ".to_string();
    push_str(&mut m, operation);
    match kind {
        FailureKind::UiBusy => push_str(&mut m, ": close the active Herdr popup or modal"),
        FailureKind::PaneMissing => push_str(&mut m, ": the originating pane no longer exists"),
        FailureKind::Command => push_str(&mut m, ": Herdr rejected the request"),
    }
    m
}

impl HerdrError {
    /// The message shown to the user.
    pub fn message(&self) -> (m: String)
        ensures
            m@ == match self {
                HerdrError::Failed { operation, kind } => failure_message_of(operation@, *kind),
                HerdrError::InvalidPaneId => "Herdr returned an invalid pane identifier"@,
                HerdrError::RequestTooLarge => "could not insert comments: the review exceeds Herdr's socket request limit"@,
                HerdrError::EncodingFailed => "could not encode the Herdr request"@,
                HerdrError::NoResponse => "could not insert comments: Herdr closed the API socket without a response"@,
                HerdrError::InvalidFrame => "could not insert comments: Herdr returned an invalid framed response"@,
                HerdrError::MismatchedResponse => "could not insert comments: Herdr returned a mismatched response"@,
                HerdrError::UnexpectedResponse => "could not insert comments: Herdr returned an unexpected response"@,
                HerdrError::ScrollOutOfRange => "Herdr reported a scroll position out of range"@,
                HerdrError::Other { message } => message@,
            },
    {
        match self {
            HerdrError::Failed { operation, kind } => failure_message(operation.as_str(), *kind),
            HerdrError::InvalidPaneId => "Herdr returned an invalid pane identifier".to_string(),
            HerdrError::RequestTooLarge => "could not insert comments: the review exceeds Herdr's socket request limit".to_string(),
            HerdrError::EncodingFailed => "could not encode the Herdr request".to_string(),
            HerdrError::NoResponse => "could not insert comments: Herdr closed the API socket without a response".to_string(),
            HerdrError::InvalidFrame => "could not insert comments: Herdr returned an invalid framed response".to_string(),
            HerdrError::MismatchedResponse => "could not insert comments: Herdr returned a mismatched response".to_string(),
            HerdrError::UnexpectedResponse => "could not insert comments: Herdr returned an unexpected response".to_string(),
            HerdrError::ScrollOutOfRange => "Herdr reported a scroll position out of range".to_string(),
            HerdrError::Other { message } => message.clone(),
        }
    }
}

/// A Herdr command failure: the operation with how its output classifies.
pub fn fail_with_output(operation: &str, output: &str) -> (e: HerdrError)
    ensures
        e matches HerdrError::Failed { operation: op, kind } && op@ == operation@ && kind == failure_kind_of(output@),
{
    HerdrError::Failed { operation: operation.to_string(), kind: classify_failure(output) }
}

pub open spec fn string_views(v: Seq<String>) -> Seq<Seq<char>> {
    v.map_values(|s: String| s@)
}

fn push_arg(args: &mut Vec<String>, s: &str)
    ensures
        string_views(final(args)@) == string_views(old(args)@).push(s@),
{
    let ghost before = args@;
    args.push(s.to_string());
    assert(string_views(args@) =~= string_views(before).push(s@));
}

fn push_owned(args: &mut Vec<String>, s: String)
    ensures
        string_views(final(args)@) == string_views(old(args)@).push(s@),
{
    let ghost before = args@;
    args.push(s);
    assert(string_views(args@) =~= string_views(before).push(s@));
}

fn concat(a: &str, b: &str) -> (s: String)
    ensures
        s@ == a@ + b@,
{
    let mut s = a.to_string();
    push_str(&mut s, b);
    s
}

/// The command line that opens the capture popup (`inline` marks a comment
/// on Herdr's own selection).
pub open spec fn annotation_args_of(run_id: Seq<char>, popup: PopupSize, inline: bool) -> Seq<Seq<char>> {
    let head = seq![
        "plugin"@,
        "pane"@,
        "open"@,
        "--plugin"@,
        PLUGIN_ID@,
        "--entrypoint"@,
        "capture"@,
        "--placement"@,
        "popup"@,
        "--width"@,
        popup.width@,
        "--height"@,
        popup.height@,
        "--env"@,
        "HERDR_COMMENTS_RUN_ID="@ + run_id,
    ];
    if inline {
        head + seq!["--env"@, "HERDR_COMMENTS_INLINE=1"@, "--focus"@]
    } else {
        head + seq!["--focus"@]
    }
}

fn annotation_popup_args_with_mode(run_id: &str, popup: &PopupSize, inline: bool) -> (args: Vec<String>)
    ensures
        string_views(args@) == annotation_args_of(run_id@, *popup, inline),
{
    let mut args: Vec<String> = Vec::new();
    push_arg(&mut args, "plugin");
    push_arg(&mut args, "pane");
    push_arg(&mut args, "open");
    push_arg(&mut args, "--plugin");
    push_arg(&mut args, PLUGIN_ID);
    push_arg(&mut args, "--entrypoint");
    push_arg(&mut args, "capture");
    push_arg(&mut args, "--placement");
    push_arg(&mut args, "popup");
    push_arg(&mut args, "--width");
    push_arg(&mut args, popup.width.as_str());
    push_arg(&mut args, "--height");
    push_arg(&mut args, popup.height.as_str());
    push_arg(&mut args, "--env");
    push_owned(&mut args, concat("HERDR_COMMENTS_RUN_ID=", run_id));
    if inline {
        push_arg(&mut args, "--env");
        push_arg(&mut args, "HERDR_COMMENTS_INLINE=1");
    }
    push_arg(&mut args, "--focus");
    assert(string_views(args@) =~= annotation_args_of(run_id@, *popup, inline));
    args
}

/// The command line that opens the annotation popup for a run.
pub fn annotation_popup_args(run_id: &str, popup: &PopupSize) -> (args: Vec<String>)
    ensures
        string_views(args@) == annotation_args_of(run_id@, *popup, false),
{
    annotation_popup_args_with_mode(run_id, popup, false)
}

/// The command line that opens the popup commenting on Herdr's selection.
pub fn inline_annotation_popup_args(run_id: &str, popup: &PopupSize) -> (args: Vec<String>)
    ensures
        string_views(args@) == annotation_args_of(run_id@, *popup, true),
{
    annotation_popup_args_with_mode(run_id, popup, true)
}

/// The command line that opens the review popup.
pub open spec fn review_args_of(review_id: Seq<char>, popup: PopupSize) -> Seq<Seq<char>> {
    seq![
        "plugin"@,
        "pane"@,
        "open"@,
        "--plugin"@,
        PLUGIN_ID@,
        "--entrypoint"@,
        "review"@,
        "--placement"@,
        "popup"@,
        "--width"@,
        popup.width@,
        "--height"@,
        popup.height@,
        "--env"@,
        "HERDR_COMMENTS_REVIEW_ID="@ + review_id,
        "--focus"@,
    ]
}

/// The command line that opens the review popup.
pub fn review_popup_args(review_id: &str, popup: &PopupSize) -> (args: Vec<String>)
    ensures
        string_views(args@) == review_args_of(review_id@, *popup),
{
    let mut args: Vec<String> = Vec::new();
    push_arg(&mut args, "plugin");
    push_arg(&mut args, "pane");
    push_arg(&mut args, "open");
    push_arg(&mut args, "--plugin");
    push_arg(&mut args, PLUGIN_ID);
    push_arg(&mut args, "--entrypoint");
    push_arg(&mut args, "review");
    push_arg(&mut args, "--placement");
    push_arg(&mut args, "popup");
    push_arg(&mut args, "--width");
    push_arg(&mut args, popup.width.as_str());
    push_arg(&mut args, "--height");
    push_arg(&mut args, popup.height.as_str());
    push_arg(&mut args, "--env");
    push_owned(&mut args, concat("HERDR_COMMENTS_REVIEW_ID=", review_id));
    push_arg(&mut args, "--focus");
    assert(string_views(args@) =~= review_args_of(review_id@, *popup));
    args
}

/// The command line that reads a pane (`lines` limits the rows read).
pub open spec fn pane_read_args_of(pane_id: Seq<char>, source: Seq<char>, format: Seq<char>, lines: Option<u32>) -> Seq<Seq<char>> {
    let head = seq!["pane"@, "read"@, pane_id, "--source"@, source, "--format"@, format];
    match lines {
        Some(n) => head + seq!["--lines"@, decimal(n as nat)],
        None => head,
    }
}

/// The command line that reads a pane.
pub fn pane_read_args(pane_id: &str, source: &str, format: &str, lines: Option<u32>) -> (args: Vec<String>)
    ensures
        string_views(args@) == pane_read_args_of(pane_id@, source@, format@, lines),
{
    let mut args: Vec<String> = Vec::new();
    push_arg(&mut args, "pane");
    push_arg(&mut args, "read");
    push_arg(&mut args, pane_id);
    push_arg(&mut args, "--source");
    push_arg(&mut args, source);
    push_arg(&mut args, "--format");
    push_arg(&mut args, format);
    match lines {
        Some(n) => {
            push_arg(&mut args, "--lines");
            let mut s = String::new();
            push_decimal(&mut s, n as u128);
            assert(s@ =~= decimal(n as nat));
            push_owned(&mut args, s);
        },
        None => {},
    }
    assert(string_views(args@) =~= pane_read_args_of(pane_id@, source@, format@, lines));
    args
}

/// The command line that inspects a pane.
pub fn pane_get_args(pane_id: &str) -> (args: Vec<String>)
    ensures
        string_views(args@) == seq!["pane"@, "get"@, pane_id@],
{
    let mut args: Vec<String> = Vec::new();
    push_arg(&mut args, "pane");
    push_arg(&mut args, "get");
    push_arg(&mut args, pane_id);
    assert(string_views(args@) =~= seq!["pane"@, "get"@, pane_id@]);
    args
}

/// The command line that reports the layout around a pane.
pub fn pane_layout_args(pane_id: &str) -> (args: Vec<String>)
    ensures
        string_views(args@) == seq!["pane"@, "layout"@, "--pane"@, pane_id@],
{
    let mut args: Vec<String> = Vec::new();
    push_arg(&mut args, "pane");
    push_arg(&mut args, "layout");
    push_arg(&mut args, "--pane");
    push_arg(&mut args, pane_id);
    assert(string_views(args@) =~= seq!["pane"@, "layout"@, "--pane"@, pane_id@]);
    args
}

/// The command line that shows a silent notification.
pub fn notification_args(title: &str, body: &str) -> (args: Vec<String>)
    ensures
        string_views(args@) == seq!["notification"@, "show"@, title@, "--body"@, body@, "--sound"@, "none"@],
{
    let mut args: Vec<String> = Vec::new();
    push_arg(&mut args, "notification");
    push_arg(&mut args, "show");
    push_arg(&mut args, title);
    push_arg(&mut args, "--body");
    push_arg(&mut args, body);
    push_arg(&mut args, "--sound");
    push_arg(&mut args, "none");
    assert(string_views(args@) =~= seq!["notification"@, "show"@, title@, "--body"@, body@, "--sound"@, "none"@]);
    args
}

/// The right edge of the client's layout area: where the client width ends.
pub fn layout_right_edge(x: u16, width: u16) -> (r: u16)
    ensures
        r == if x + width > u16::MAX { u16::MAX as int } else { x + width },
{
    x.saturating_add(width)
}

/// A scroll state from Herdr's counters, refused when one does not fit a `usize`.
pub fn scroll_from_raw(offset_from_bottom: u64, max_offset_from_bottom: u64, viewport_rows: u64) -> (r: Result<
    ScrollState,
    HerdrError,
>)
    ensures
        (offset_from_bottom <= usize::MAX && max_offset_from_bottom <= usize::MAX && viewport_rows <= usize::MAX)
            ==> r == Ok::<ScrollState, HerdrError>(
            ScrollState {
                offset_from_bottom: offset_from_bottom as usize,
                max_offset_from_bottom: max_offset_from_bottom as usize,
                viewport_rows: viewport_rows as usize,
            },
        ),
        !(offset_from_bottom <= usize::MAX && max_offset_from_bottom <= usize::MAX && viewport_rows <= usize::MAX)
            ==> r == Err::<ScrollState, HerdrError>(HerdrError::ScrollOutOfRange),
{
    if offset_from_bottom > usize::MAX as u64 || max_offset_from_bottom > usize::MAX as u64 || viewport_rows
        > usize::MAX as u64 {
        return Err(HerdrError::ScrollOutOfRange);
    }
    Ok(
        ScrollState {
            offset_from_bottom: offset_from_bottom as usize,
            max_offset_from_bottom: max_offset_from_bottom as usize,
            viewport_rows: viewport_rows as usize,
        },
    )
}

/// The scroll state assumed when Herdr reports none: the bottom of a viewport
/// as tall as the visible text.
pub fn default_scroll(visible_text: &str) -> (s: ScrollState)
    ensures
        s == (ScrollState { offset_from_bottom: 0, max_offset_from_bottom: 0, viewport_rows: rows_of(visible_text@).len() as usize }),
{
    ScrollState { offset_from_bottom: 0, max_offset_from_bottom: 0, viewport_rows: row_count(visible_text) }
}

/// Refuses a blank pane identifier or one holding a control character.
pub fn validate_pane_id(pane_id: &str) -> (r: Result<(), HerdrError>)
    ensures
        r is Ok <==> (!is_blank(pane_id@) && forall|i: int| 0 <= i < pane_id@.len() ==> !is_control(#[trigger] pane_id@[i])),
        r is Err ==> r == Err::<(), HerdrError>(HerdrError::InvalidPaneId),
{
    let chars = chars_of(pane_id);
    if chars_are_blank(&chars) {
        return Err(HerdrError::InvalidPaneId);
    }
    let mut i: usize = 0;
    while i < chars.len()
        invariant
            chars@ == pane_id@,
            !is_blank(pane_id@),
            i <= chars@.len(),
            forall|j: int| 0 <= j < i ==> !is_control(#[trigger] chars@[j]),
        decreases chars@.len() - i,
    {
        if exec_is_control(chars[i]) {
            return Err(HerdrError::InvalidPaneId);
        }
        i += 1;
    }
    Ok(())
}

pub open spec fn hex_digit_lower(d: nat) -> char {
    if d < 10 {
        ((d + 48) as u8) as char
    } else {
        ((d + 87) as u8) as char
    }
}

/// How a JSON string writer escapes one character: quote, backslash and
/// control characters below U+0020 are escaped, everything else is kept.
pub open spec fn json_escape(c: char) -> Seq<char> {
    let u = c as u32;
    if c == '"' {
        seq!['\\', '"']
    } else if c == '\\' {
        seq!['\\', '\\']
    } else if u == 0x08 {
        seq!['\\', 'b']
    } else if u == 0x09 {
        seq!['\\', 't']
    } else if u == 0x0a {
        seq!['\\', 'n']
    } else if u == 0x0c {
        seq!['\\', 'f']
    } else if u == 0x0d {
        seq!['\\', 'r']
    } else if u < 0x20 {
        seq!['\\', 'u', '0', '0', hex_digit_lower((u / 16) as nat), hex_digit_lower((u % 16) as nat)]
    } else {
        seq![c]
    }
}

pub open spec fn json_escaped(s: Seq<char>) -> Seq<char>
    decreases s.len(),
{
    if s.len() == 0 {
        Seq::empty()
    } else {
        json_escaped(s.drop_last()) + json_escape(s.last())
    }
}

/// `s` as a JSON string literal.
pub open spec fn json_quoted(s: Seq<char>) -> Seq<char> {
    seq!['"'] + json_escaped(s) + seq!['"']
}

/// `serde_json::to_string` of a string: the contract restates the escaping
/// that serde_json's writer applies (its `ESCAPE` table), and that writing a
/// string into memory does not fail (its only error source is the writer,
/// here a `Vec<u8>`). An error would be passed on as `None`.
#[verifier::external_body]
fn json_string(s: &str) -> (r: Option<String>)
    ensures
        r is Some,
        r matches Some(j) ==> j@ == json_quoted(s@),
{
    match serde_json::to_string(s) {
        Ok(j) => Some(j),
        Err(_) => None,
    }
}

/// The JSON request asking Herdr to paste `text` into a pane without
/// pressing any key.
pub open spec fn send_input_json(request_id: Seq<char>, pane_id: Seq<char>, text: Seq<char>) -> Seq<char> {
    "{\"id\":"@ + json_quoted(request_id) + ",\"method\":\"pane.send_input\",\"params\":{\"pane_id\":"@
        + json_quoted(pane_id) + ",\"text\":"@ + json_quoted(text) + ",\"keys\":[]}}"@
}

/// The `pane.send_input` request line for the socket, refused when it
/// would exceed Herdr's request limit together with its final newline.
pub fn pane_send_input_request(request_id: &str, pane_id: &str, text: &str) -> (r: Result<String, HerdrError>)
    ensures
        r is Ok <==> byte_len(send_input_json(request_id@, pane_id@, text@)) + 1 <= MAX_API_REQUEST_BYTES,
        r matches Ok(s) ==> s@ == send_input_json(request_id@, pane_id@, text@),
        r matches Err(e) ==> e == HerdrError::RequestTooLarge,
{
    let id = match json_string(request_id) {
        Some(j) => j,
        None => {
            return Err(HerdrError::EncodingFailed);
        },
    };
    let pane = match json_string(pane_id) {
        Some(j) => j,
        None => {
            return Err(HerdrError::EncodingFailed);
        },
    };
    let body = match json_string(text) {
        Some(j) => j,
        None => {
            return Err(HerdrError::EncodingFailed);
        },
    };
    let mut request = "{\"id\":".to_string();
    push_str(&mut request, id.as_str());
    push_str(&mut request, ",\"method\":\"pane.send_input\",\"params\":{\"pane_id\":");
    push_str(&mut request, pane.as_str());
    push_str(&mut request, ",\"text\":");
    push_str(&mut request, body.as_str());
    push_str(&mut request, ",\"keys\":[]}}");
    let size = byte_len_of(&chars_of(request.as_str()));
    if size >= MAX_API_REQUEST_BYTES as u128 {
        return Err(HerdrError::RequestTooLarge);
    }
    Ok(request)
}

/// Checks the framing of Herdr's response line: present, within the limit,
/// ending in a newline.
pub fn check_response_frame(response: &str) -> (r: Result<(), HerdrError>)
    ensures
        response@.len() == 0 ==> r == Err::<(), HerdrError>(HerdrError::NoResponse),
        response@.len() > 0 && (byte_len(response@) > MAX_API_RESPONSE_BYTES || response@.last() != '\n') ==> r
            == Err::<(), HerdrError>(HerdrError::InvalidFrame),
        response@.len() > 0 && byte_len(response@) <= MAX_API_RESPONSE_BYTES && response@.last() == '\n' ==> r
            is Ok,
{
    let chars = chars_of(response);
    if chars.len() == 0 {
        return Err(HerdrError::NoResponse);
    }
    if byte_len_of(&chars) > MAX_API_RESPONSE_BYTES as u128 || chars[chars.len() - 1] != '\n' {
        return Err(HerdrError::InvalidFrame);
    }
    Ok(())
}

/// An error Herdr's API reported.
#[derive(Debug, Clone, PartialEq, Eq)]
pub struct ApiError {
    pub code: String,
    pub message: String,
}

/// Interprets Herdr's parsed response to a `pane.send_input` request: it
/// must answer this request, and either report an error (classified by its
/// code and message) or a result of type `ok`.
pub fn interpret_api_response(
    request_id: &str,
    response_id: &str,
    result_kind: Option<&str>,
    error: Option<&ApiError>,
) -> (r: Result<(), HerdrError>)
    ensures
        response_id@ != request_id@ ==> r == Err::<(), HerdrError>(HerdrError::MismatchedResponse),
        response_id@ == request_id@ ==> match error {
            Some(e) => r matches Err(HerdrError::Failed { operation, kind }) && operation@ == "insert comments"@
                && kind == failure_kind_of(e.code@ + seq!['\n'] + e.message@),
            None => match result_kind {
                Some(k) => if k@ == "ok"@ {
                    r is Ok
                } else {
                    r == Err::<(), HerdrError>(HerdrError::UnexpectedResponse)
                },
                None => r == Err::<(), HerdrError>(HerdrError::UnexpectedResponse),
            },
        },
{
    if !crate::config::str_equal(response_id, request_id) {
        return Err(HerdrError::MismatchedResponse);
    }
    match error {
        Some(e) => {
            let mut output = e.code.clone();
            push_char(&mut output, '\n');
            push_str(&mut output, e.message.as_str());
            assert(output@ =~= e.code@ + seq!['\n'] + e.message@);
            Err(fail_with_output("insert comments", output.as_str()))
        },
        None => match result_kind {
            Some(k) => if crate::config::str_equal(k, "ok") {
                Ok(())
            } else {
                Err(HerdrError::UnexpectedResponse)
            },
            None => Err(HerdrError::UnexpectedResponse),
        },
    }
}

/// The socket request's identifier for a random suffix.
pub fn request_id(suffix: &str) -> (s: String)
    ensures
        s@ == "herdr-comments-"@ + suffix@,
{
    concat("herdr-comments-", suffix)
}

/// Where the Neovim review script lives under the plugin root.
pub open spec fn review_script_of(root: Seq<char>) -> Seq<char> {
    if root.len() == 0 {
        "nvim/review.lua"@
    } else if root.last() == '/' {
        root + "nvim/review.lua"@
    } else {
        root + "/nvim/review.lua"@
    }
}

/// The Neovim review script under the plugin root (`root.join("nvim/review.lua")`).
pub fn review_script(root: &str) -> (s: String)
    ensures
        s@ == review_script_of(root@),
{
    let chars = chars_of(root);
    if chars.len() == 0 {
        "nvim/review.lua".to_string()
    } else if chars[chars.len() - 1] == '/' {
        concat(root, "nvim/review.lua")
    } else {
        concat(root, "/nvim/review.lua")
    }
}

} // verus!
