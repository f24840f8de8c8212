//! Identifiers, scopes and expiry rules of the plugin's private state.
use vstd::prelude::*;

use sha2::Digest;

use crate::text::{chars_of, push_char};

verus! {

/// Drafts, annotation runs and unsaved reviews expire after a day.
pub const TRANSIENT_TTL_MS: u64 = 24 * 60 * 60 * 1_000;

/// Why a state record or identifier was refused.
#[derive(Debug, Clone, Copy, PartialEq, Eq)]
pub enum StoreError {
    InvalidId,
    InvalidScope,
    UnsupportedRecord,
    InvalidDraftContext,
    InvalidReviewContext,
}

impl StoreError {
    /// The message shown to the user.
    pub fn message(&self) -> (m: String)
        ensures
            m@ == match self {
                StoreError::InvalidId => "state identifier is invalid"@,
                StoreError::InvalidScope => "comment scope is invalid"@,
                StoreError::UnsupportedRecord => "state file has an unsupported schema or identity"@,
                StoreError::InvalidDraftContext => "draft context is invalid"@,
                StoreError::InvalidReviewContext => "review context is invalid"@,
            },
    {
        match self {
            StoreError::InvalidId => "state identifier is invalid".to_string(),
            StoreError::InvalidScope => "comment scope is invalid".to_string(),
            StoreError::UnsupportedRecord => "state file has an unsupported schema or identity".to_string(),
            StoreError::InvalidDraftContext => "draft context is invalid".to_string(),
            StoreError::InvalidReviewContext => "review context is invalid".to_string(),
        }
    }
}

pub open spec fn is_ascii_hexdigit(c: char) -> bool {
    ('0' <= c && c <= '9') || ('a' <= c && c <= 'f') || ('A' <= c && c <= 'F')
}

pub open spec fn is_lower_hexdigit(c: char) -> bool {
    ('0' <= c && c <= '9') || ('a' <= c && c <= 'f')
}

/// `n` hexadecimal digits (since they are ASCII, also `n` bytes).
pub open spec fn is_hex_of_len(s: Seq<char>, n: nat) -> bool {
    s.len() == n && forall|i: int| 0 <= i < s.len() ==> is_ascii_hexdigit(#[trigger] s[i])
}

/// A state identifier: 32 hexadecimal digits.
pub open spec fn is_valid_id(s: Seq<char>) -> bool {
    is_hex_of_len(s, 32)
}

/// A scope: 64 hexadecimal digits.
pub open spec fn is_valid_scope(s: Seq<char>) -> bool {
    is_hex_of_len(s, 64)
}

fn hex_of_len(s: &str, n: usize) -> (r: bool)
    ensures
        r == is_hex_of_len(s@, n as nat),
{
    let chars = chars_of(s);
    if chars.len() != n {
        return false;
    }
    let mut i: usize = 0;
    while i < chars.len()
        invariant
            chars@ == s@,
            i <= chars@.len(),
            forall|j: int| 0 <= j < i ==> is_ascii_hexdigit(#[trigger] chars@[j]),
        decreases chars@.len() - i,
    {
        let c = chars[i];
        if !(('0' <= c && c <= '9') || ('a' <= c && c <= 'f') || ('A' <= c && c <= 'F')) {
            return false;
        }
        i += 1;
    }
    true
}

/// Whether `id` is a state identifier (32 hexadecimal digits).
pub fn valid_id(id: &str) -> (r: bool)
    ensures
        r == is_valid_id(id@),
{
    hex_of_len(id, 32)
}

/// Whether `scope` is a scope (64 hexadecimal digits).
pub fn valid_scope(scope: &str) -> (r: bool)
    ensures
        r == is_valid_scope(scope@),
{
    hex_of_len(scope, 64)
}

/// Refuses an identifier that is not 32 hexadecimal digits.
pub fn validate_id(id: &str) -> (r: Result<(), StoreError>)
    ensures
        r is Ok <==> is_valid_id(id@),
        r is Err ==> r == Err::<(), StoreError>(StoreError::InvalidId),
{
    if !valid_id(id) {
        return Err(StoreError::InvalidId);
    }
    Ok(())
}

/// Refuses a scope that is not 64 hexadecimal digits.
pub fn validate_scope(scope: &str) -> (r: Result<(), StoreError>)
    ensures
        r is Ok <==> is_valid_scope(scope@),
        r is Err ==> r == Err::<(), StoreError>(StoreError::InvalidScope),
{
    if !valid_scope(scope) {
        return Err(StoreError::InvalidScope);
    }
    Ok(())
}

/// Refuses a record whose identity is not the one it was read under, or
/// whose schema is not the current one.
pub fn validate_model(actual_id: &str, expected_id: &str, schema_version: u32) -> (r: Result<(), StoreError>)
    ensures
        r is Ok <==> (actual_id@ == expected_id@ && schema_version == crate::model::SCHEMA_VERSION),
        r is Err ==> r == Err::<(), StoreError>(StoreError::UnsupportedRecord),
{
    if !crate::config::str_equal(actual_id, expected_id) || schema_version != crate::model::SCHEMA_VERSION {
        return Err(StoreError::UnsupportedRecord);
    }
    Ok(())
}

/// The identifier a state file name carries: the part before `.json`, when
/// that is a valid identifier.
pub open spec fn json_id_of(name: Seq<char>) -> Option<Seq<char>> {
    if name.len() >= 5 && name.subrange(name.len() - 5, name.len() as int) == ".json"@ && is_valid_id(
        name.subrange(0, name.len() - 5),
    ) {
        Some(name.subrange(0, name.len() - 5))
    } else {
        None
    }
}

/// The identifier a state file name carries (`<id>.json`).
pub fn json_id(file_name: &str) -> (r: Option<String>)
    ensures
        match json_id_of(file_name@) {
            Some(id) => r matches Some(s) && s@ == id,
            None => r is None,
        },
{
    let chars = chars_of(file_name);
    let n = chars.len();
    proof {
        reveal_strlit(".json");
    }
    if n < 5 || chars[n - 5] != '.' || chars[n - 4] != 'j' || chars[n - 3] != 's' || chars[n - 2] != 'o'
        || chars[n - 1] != 'n' {
        proof {
            if n >= 5 {
                let tail = chars@.subrange(n - 5, n as int);
                if tail == ".json"@ {
                    assert(tail[0] == '.' && tail[1] == 'j' && tail[2] == 's' && tail[3] == 'o' && tail[4] == 'n');
                }
            }
        }
        return None;
    }
    assert(chars@.subrange(n - 5, n as int) =~= ".json"@);
    let id = crate::text::string_of(crate::wrap::char_slice(&chars, 0, n - 5).as_slice());
    assert(id@ =~= chars@.subrange(0, n - 5));
    if !valid_id(id.as_str()) {
        return None;
    }
    Some(id)
}

/// Whether a record created at `created_at_ms` has expired at `now_ms`.
pub open spec fn is_expired_at(now_ms: u64, created_at_ms: u64) -> bool {
    now_ms > created_at_ms && now_ms - created_at_ms > TRANSIENT_TTL_MS
}

/// Whether a record created at `created_at_ms` has expired at `now_ms`
/// (more than a day old; a creation time in the future has not).
pub fn is_expired(now_ms: u64, created_at_ms: u64) -> (r: bool)
    ensures
        r == is_expired_at(now_ms, created_at_ms),
{
    now_ms.saturating_sub(created_at_ms) > TRANSIENT_TTL_MS
}

/// Milliseconds as a `u64`, saturating.
pub fn clamp_millis(ms: u128) -> (r: u64)
    ensures
        r == if ms > u64::MAX { u64::MAX } else { ms as u64 },
{
    if ms > u64::MAX as u128 {
        u64::MAX
    } else {
        ms as u64
    }
}

pub open spec fn hex_digit(d: nat) -> char {
    if d < 10 {
        ((d + 48) as u8) as char
    } else {
        ((d + 87) as u8) as char
    }
}

/// Each byte as two lowercase hexadecimal digits (what `{:x}` prints for a digest).
pub open spec fn hex_lower(bytes: Seq<u8>) -> Seq<char>
    decreases bytes.len(),
{
    if bytes.len() == 0 {
        Seq::empty()
    } else {
        hex_lower(bytes.drop_last()) + seq![
            hex_digit((bytes.last() / 16) as nat),
            hex_digit((bytes.last() % 16) as nat),
        ]
    }
}

/// The SHA-256 digest of a byte sequence.
pub uninterp spec fn sha256_digest(data: Seq<u8>) -> Seq<u8>;

/// SHA-256 of `data` (`sha2::Sha256::digest`); the digest is 32 bytes.
#[verifier::external_body]
fn sha256(data: &[u8]) -> (d: Vec<u8>)
    ensures
        d@ == sha256_digest(data@),
        d@.len() == 32,
{
    sha2::Sha256::digest(data).to_vec()
}

/// A fresh random state identifier (`uuid::Uuid::new_v4().simple()`):
/// 32 lowercase hexadecimal digits. Which digits is left to chance.
#[verifier::external_body]
pub(crate) fn new_id() -> (id: String)
    ensures
        id@.len() == 32,
        forall|i: int| 0 <= i < id@.len() ==> is_lower_hexdigit(#[trigger] id@[i]),
{
    uuid::Uuid::new_v4().simple().to_string()
}

fn push_hex(out: &mut String, bytes: &[u8])
    ensures
        final(out)@ == old(out)@ + hex_lower(bytes@),
{
    let ghost start = out@;
    let mut i: usize = 0;
    while i < bytes.len()
        invariant
            i <= bytes@.len(),
            out@ == start + hex_lower(bytes@.take(i as int)),
        decreases bytes@.len() - i,
    {
        let b = bytes[i];
        let hi = b / 16;
        let lo = b % 16;
        let ch = if hi < 10 { (hi + 48) as char } else { (hi + 87) as char };
        let cl = if lo < 10 { (lo + 48) as char } else { (lo + 87) as char };
        push_char(out, ch);
        push_char(out, cl);
        proof {
            assert(bytes@.take(i + 1).drop_last() =~= bytes@.take(i as int));
            assert(out@ =~= start + hex_lower(bytes@.take(i + 1)));
        }
        i += 1;
    }
    assert(bytes@.take(bytes@.len() as int) =~= bytes@);
}

/// The bytes hashed for a scope: the session identity, a zero byte, the pane.
pub open spec fn scope_input(session_identity: Seq<char>, pane_id: Seq<char>) -> Seq<u8> {
    vstd::utf8::encode_utf8(session_identity) + seq![0u8] + vstd::utf8::encode_utf8(pane_id)
}

/// The scope of a pane within a Herdr session: the lowercase hexadecimal
/// SHA-256 of the session identity, a zero byte and the pane identifier.
pub fn scope_id(session_identity: &str, pane_id: &str) -> (s: String)
    ensures
        s@ == hex_lower(sha256_digest(scope_input(session_identity@, pane_id@))),
{
    let mut data: Vec<u8> = Vec::new();
    let a = session_identity.as_bytes();
    let b = pane_id.as_bytes();
    let mut i: usize = 0;
    while i < a.len()
        invariant
            i <= a@.len(),
            data@ == a@.take(i as int),
        decreases a@.len() - i,
    {
        data.push(a[i]);
        i += 1;
        assert(data@ =~= a@.take(i as int));
    }
    data.push(0u8);
    let mut j: usize = 0;
    while j < b.len()
        invariant
            j <= b@.len(),
            data@ == a@ + seq![0u8] + b@.take(j as int),
        decreases b@.len() - j,
    {
        proof {
            assert(a@.take(a@.len() as int) =~= a@);
        }
        data.push(b[j]);
        j += 1;
        assert(data@ =~= a@ + seq![0u8] + b@.take(j as int));
    }
    proof {
        assert(a@.take(a@.len() as int) =~= a@);
        assert(b@.take(b@.len() as int) =~= b@);
        assert(data@ =~= scope_input(session_identity@, pane_id@));
    }
    let digest = sha256(&data);
    let mut s = String::new();
    push_hex(&mut s, &digest);
    assert(s@ =~= hex_lower(digest@));
    s
}

/// Checks what a new draft records: a pane and a valid scope.
pub fn validate_draft_context(pane_id: &str, scope: &str) -> (r: Result<(), StoreError>)
    ensures
        r is Ok <==> (!crate::text::is_blank(pane_id@) && is_valid_scope(scope@)),
        r is Err ==> r == Err::<(), StoreError>(StoreError::InvalidDraftContext),
{
    if crate::text::chars_are_blank(&chars_of(pane_id)) || !valid_scope(scope) {
        return Err(StoreError::InvalidDraftContext);
    }
    Ok(())
}

/// Checks what a new review records: a pane, a valid scope, at least one
/// comment, and valid comment identifiers.
pub fn validate_review_context(pane_id: &str, scope: &str, comment_ids: &[String]) -> (r: Result<(), StoreError>)
    ensures
        r is Ok <==> (!crate::text::is_blank(pane_id@) && is_valid_scope(scope@) && comment_ids@.len() > 0
            && forall|i: int| 0 <= i < comment_ids@.len() ==> is_valid_id(#[trigger] comment_ids@[i]@)),
        r is Err ==> (r == Err::<(), StoreError>(StoreError::InvalidReviewContext) || r == Err::<(), StoreError>(
            StoreError::InvalidId,
        )),
        (r is Err && (crate::text::is_blank(pane_id@) || !is_valid_scope(scope@) || comment_ids@.len() == 0))
            ==> r == Err::<(), StoreError>(StoreError::InvalidReviewContext),
        (r is Err && !crate::text::is_blank(pane_id@) && is_valid_scope(scope@) && comment_ids@.len() > 0)
            ==> r == Err::<(), StoreError>(StoreError::InvalidId),
{
    if crate::text::chars_are_blank(&chars_of(pane_id)) || !valid_scope(scope) || comment_ids.len() == 0 {
        return Err(StoreError::InvalidReviewContext);
    }
    let mut i: usize = 0;
    while i < comment_ids.len()
        invariant
            i <= comment_ids@.len(),
            !crate::text::is_blank(pane_id@) && is_valid_scope(scope@) && comment_ids@.len() > 0,
            forall|j: int| 0 <= j < i ==> is_valid_id(#[trigger] comment_ids@[j]@),
        decreases comment_ids@.len() - i,
    {
        if !valid_id(comment_ids[i].as_str()) {
            return Err(StoreError::InvalidId);
        }
        i += 1;
    }
    Ok(())
}

/// A record that has expired stays expired.
pub proof fn law_expiry_lasts(now_ms: u64, later_ms: u64, created_at_ms: u64)
    requires
        is_expired_at(now_ms, created_at_ms),
        now_ms <= later_ms,
    ensures
        is_expired_at(later_ms, created_at_ms),
{
}

/// A record is not expired during its first day.
pub proof fn law_fresh_records_survive(now_ms: u64, created_at_ms: u64)
    requires
        now_ms <= created_at_ms + TRANSIENT_TTL_MS,
    ensures
        !is_expired_at(now_ms, created_at_ms),
{
}

/// The only character whose UTF-8 encoding holds a zero byte is NUL.
pub proof fn lemma_encode_scalar_nonzero(c: char)
    requires
        c != '\0',
    ensures
        forall|i: int| 0 <= i < vstd::utf8::encode_scalar(c as u32).len()
            ==> #[trigger] vstd::utf8::encode_scalar(c as u32)[i] != 0u8,
{
    let u = c as u32;
    assert(u != 0) by {
        vstd::utf8::char_u32_cast(c, u);
    }
    assert(u <= 0x7F ==> (u & 0x7F) as u8 != 0u8) by (bit_vector)
        requires
            u != 0,
    ;
    assert(0xC0u8 | ((u >> 6) & 0x1F) as u8 != 0u8) by (bit_vector);
    assert(0xE0u8 | ((u >> 12) & 0x0F) as u8 != 0u8) by (bit_vector);
    assert(0xF0u8 | ((u >> 18) & 0x7) as u8 != 0u8) by (bit_vector);
    assert(0x80u8 | (u & 0x3F) as u8 != 0u8) by (bit_vector);
    assert(0x80u8 | ((u >> 6) & 0x3F) as u8 != 0u8) by (bit_vector);
    assert(0x80u8 | ((u >> 12) & 0x3F) as u8 != 0u8) by (bit_vector);
}

/// Text without NUL characters encodes to bytes without zero bytes.
pub proof fn lemma_encode_utf8_nonzero(s: Seq<char>)
    requires
        forall|i: int| 0 <= i < s.len() ==> #[trigger] s[i] != '\0',
    ensures
        forall|i: int| 0 <= i < vstd::utf8::encode_utf8(s).len() ==> #[trigger] vstd::utf8::encode_utf8(s)[i] != 0u8,
    decreases s.len(),
{
    if s.len() > 0 {
        lemma_encode_scalar_nonzero(s[0]);
        lemma_encode_utf8_nonzero(s.drop_first());
        let head = vstd::utf8::encode_scalar(s[0] as u32);
        let tail = vstd::utf8::encode_utf8(s.drop_first());
        assert(vstd::utf8::encode_utf8(s) == head + tail);
        assert forall|i: int| 0 <= i < (head + tail).len() implies #[trigger] (head + tail)[i] != 0u8 by {
            if i < head.len() {
                assert(head[i] != 0u8);
            } else {
                assert(tail[i - head.len()] != 0u8);
            }
        }
    }
}

/// Two byte strings cut at their first zero byte: equal joins have equal parts.
proof fn lemma_split_at_zero(a: Seq<u8>, b: Seq<u8>, a2: Seq<u8>, b2: Seq<u8>)
    requires
        forall|i: int| 0 <= i < a.len() ==> #[trigger] a[i] != 0u8,
        forall|i: int| 0 <= i < a2.len() ==> #[trigger] a2[i] != 0u8,
        a + seq![0u8] + b == a2 + seq![0u8] + b2,
    ensures
        a == a2,
        b == b2,
{
    let x = a + seq![0u8] + b;
    let y = a2 + seq![0u8] + b2;
    if a.len() < a2.len() {
        assert(x[a.len() as int] == 0u8);
        assert(y[a.len() as int] == a2[a.len() as int]);
    } else if a2.len() < a.len() {
        assert(y[a2.len() as int] == 0u8);
        assert(x[a2.len() as int] == a[a2.len() as int]);
    }
    assert(a =~= x.take(a.len() as int));
    assert(a2 =~= y.take(a2.len() as int));
    assert(b =~= x.skip(a.len() as int + 1));
    assert(b2 =~= y.skip(a2.len() as int + 1));
}

/// Every Herdr session and pane has its own scope: distinct session and pane
/// pairs hash distinct bytes, as long as session identities hold no NUL
/// character. (That distinct bytes give distinct digests is what SHA-256 is
/// trusted for; it is not proved here.)
pub proof fn law_scope_inputs_are_distinct(session_a: Seq<char>, pane_a: Seq<char>, session_b: Seq<char>, pane_b: Seq<char>)
    requires
        forall|i: int| 0 <= i < session_a.len() ==> #[trigger] session_a[i] != '\0',
        forall|i: int| 0 <= i < session_b.len() ==> #[trigger] session_b[i] != '\0',
        session_a != session_b || pane_a != pane_b,
    ensures
        scope_input(session_a, pane_a) != scope_input(session_b, pane_b),
{
    if scope_input(session_a, pane_a) == scope_input(session_b, pane_b) {
        lemma_encode_utf8_nonzero(session_a);
        lemma_encode_utf8_nonzero(session_b);
        lemma_split_at_zero(
            vstd::utf8::encode_utf8(session_a),
            vstd::utf8::encode_utf8(pane_a),
            vstd::utf8::encode_utf8(session_b),
            vstd::utf8::encode_utf8(pane_b),
        );
        vstd::utf8::encode_utf8_decode_utf8(session_a);
        vstd::utf8::encode_utf8_decode_utf8(session_b);
        vstd::utf8::encode_utf8_decode_utf8(pane_a);
        vstd::utf8::encode_utf8_decode_utf8(pane_b);
    }
}

} // verus!
