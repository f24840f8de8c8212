//! Character-level text model shared by the whole library.
//!
//! Text is modelled as `Seq<char>` (the view of `str` and `String`); its size
//! in bytes is the length of its UTF-8 encoding.
use vstd::prelude::*;

verus! {

/// Characters of Unicode general category Cc (what `char::is_control` reports).
pub open spec fn is_control(c: char) -> bool {
    (c as u32) <= 0x1f || (0x7f <= (c as u32) && (c as u32) <= 0x9f)
}

/// Characters with the Unicode `White_Space` property (what `char::is_whitespace` reports).
pub open spec fn is_whitespace(c: char) -> bool {
    let u = c as u32;
    ||| 0x9 <= u && u <= 0xd
    ||| u == 0x20
    ||| u == 0x85
    ||| u == 0xa0
    ||| u == 0x1680
    ||| 0x2000 <= u && u <= 0x200a
    ||| u == 0x2028
    ||| u == 0x2029
    ||| u == 0x202f
    ||| u == 0x205f
    ||| u == 0x3000
}

/// Size of the text in bytes (its UTF-8 encoding).
pub open spec fn byte_len(s: Seq<char>) -> nat {
    vstd::utf8::encode_utf8(s).len()
}

/// Every character is whitespace (what `str::trim(..).is_empty()` reports).
pub open spec fn is_blank(s: Seq<char>) -> bool {
    forall|i: int| 0 <= i < s.len() ==> is_whitespace(#[trigger] s[i])
}

/// Line endings made uniform: each `"\r\n"` and each lone `'\r'` becomes `'\n'`.
pub open spec fn normalize_newlines(s: Seq<char>) -> Seq<char>
    decreases s.len(),
{
    if s.len() == 0 {
        Seq::empty()
    } else if s[0] == '\r' && s.len() > 1 && s[1] == '\n' {
        seq!['\n'] + normalize_newlines(s.subrange(2, s.len() as int))
    } else if s[0] == '\r' {
        seq!['\n'] + normalize_newlines(s.drop_first())
    } else {
        seq![s[0]] + normalize_newlines(s.drop_first())
    }
}

/// `s` without its leading whitespace.
pub open spec fn trim_start(s: Seq<char>) -> Seq<char>
    decreases s.len(),
{
    if s.len() > 0 && is_whitespace(s[0]) {
        trim_start(s.drop_first())
    } else {
        s
    }
}

/// `s` without its trailing whitespace.
pub open spec fn trim_end(s: Seq<char>) -> Seq<char>
    decreases s.len(),
{
    if s.len() > 0 && is_whitespace(s.last()) {
        trim_end(s.drop_last())
    } else {
        s
    }
}

/// `s` without leading and trailing whitespace (what `str::trim` returns).
pub open spec fn trim(s: Seq<char>) -> Seq<char> {
    trim_end(trim_start(s))
}

/// `s` without any trailing `c` (what `str::trim_end_matches(c)` returns).
pub open spec fn strip_trailing(s: Seq<char>, c: char) -> Seq<char>
    decreases s.len(),
{
    if s.len() > 0 && s.last() == c {
        strip_trailing(s.drop_last(), c)
    } else {
        s
    }
}

/// The pieces of `s` between occurrences of `sep` (what `str::split(sep)` yields).
/// There is always at least one piece.
pub open spec fn split_on(s: Seq<char>, sep: char) -> Seq<Seq<char>>
    decreases s.len(),
{
    if s.len() == 0 {
        seq![Seq::<char>::empty()]
    } else {
        let prev = split_on(s.drop_last(), sep);
        if s.last() == sep {
            prev.push(Seq::<char>::empty())
        } else {
            prev.update(prev.len() - 1, prev.last().push(s.last()))
        }
    }
}

/// The pieces joined with `sep` between consecutive pieces (what `join(sep)` returns).
pub open spec fn join_with(parts: Seq<Seq<char>>, sep: Seq<char>) -> Seq<char>
    decreases parts.len(),
{
    if parts.len() == 0 {
        Seq::empty()
    } else if parts.len() == 1 {
        parts[0]
    } else {
        join_with(parts.drop_last(), sep) + sep + parts.last()
    }
}

pub proof fn lemma_split_on_nonempty(s: Seq<char>, sep: char)
    ensures
        split_on(s, sep).len() >= 1,
    decreases s.len(),
{
    if s.len() > 0 {
        lemma_split_on_nonempty(s.drop_last(), sep);
    }
}

/// Splitting a prefix one character longer.
pub proof fn lemma_split_on_step(s: Seq<char>, sep: char, i: int)
    requires
        0 <= i < s.len(),
    ensures
        split_on(s.take(i + 1), sep) == ({
            let prev = split_on(s.take(i), sep);
            if s[i] == sep {
                prev.push(Seq::<char>::empty())
            } else {
                prev.update(prev.len() - 1, prev.last().push(s[i]))
            }
        }),
{
    assert(s.take(i + 1).drop_last() =~= s.take(i));
    assert(s.take(i + 1).last() == s[i]);
}

pub proof fn lemma_join_push(parts: Seq<Seq<char>>, sep: Seq<char>, p: Seq<char>)
    requires
        parts.len() >= 1,
    ensures
        join_with(parts.push(p), sep) == join_with(parts, sep) + sep + p,
{
    assert(parts.push(p).drop_last() =~= parts);
}

pub proof fn lemma_join_update_last(parts: Seq<Seq<char>>, sep: Seq<char>, p: Seq<char>, extra: Seq<char>)
    requires
        parts.len() >= 1,
        parts.last() == p,
    ensures
        join_with(parts.update(parts.len() - 1, p + extra), sep) == join_with(parts, sep) + extra,
{
    let n = parts.len();
    let q = parts.update(n - 1, p + extra);
    if n == 1 {
        assert(join_with(q, sep) == q[0]);
    } else {
        assert(q.drop_last() =~= parts.drop_last());
        assert(join_with(q, sep) == join_with(parts.drop_last(), sep) + sep + (p + extra));
        assert(join_with(parts, sep) == join_with(parts.drop_last(), sep) + sep + p);
        assert(join_with(parts.drop_last(), sep) + sep + (p + extra) =~= join_with(parts.drop_last(), sep) + sep + p + extra);
    }
}

pub fn exec_is_control(c: char) -> (r: bool)
    ensures
        r == is_control(c),
{
    let u = c as u32;
    u <= 0x1f || (0x7f <= u && u <= 0x9f)
}

pub fn exec_is_whitespace(c: char) -> (r: bool)
    ensures
        r == is_whitespace(c),
{
    let u = c as u32;
    (0x9 <= u && u <= 0xd) || u == 0x20 || u == 0x85 || u == 0xa0 || u == 0x1680 || (0x2000 <= u
        && u <= 0x200a) || u == 0x2028 || u == 0x2029 || u == 0x202f || u == 0x205f || u == 0x3000
}

/// Appends one character (`String::push`).
#[verifier::external_body]
pub(crate) fn push_char(s: &mut String, c: char)
    ensures
        final(s)@ == old(s)@.push(c),
{
    s.push(c);
}

/// Appends a string (`String::push_str`).
#[verifier::external_body]
pub(crate) fn push_str(s: &mut String, t: &str)
    ensures
        final(s)@ == old(s)@ + t@,
{
    s.push_str(t);
}

/// The characters of `s`, in order.
pub fn chars_of(s: &str) -> (v: Vec<char>)
    ensures
        v@ == s@,
{
    let mut v: Vec<char> = Vec::new();
    for c in it: s.chars()
        invariant
            it.seq() == s@,
            v@ == s@.take(it.index() as int),
    {
        v.push(c);
    }
    v
}

/// Appends the characters of `v` to `out`.
pub fn push_chars(out: &mut String, v: &[char])
    ensures
        final(out)@ == old(out)@ + v@,
{
    let ghost start = out@;
    let mut i: usize = 0;
    while i < v.len()
        invariant
            i <= v@.len(),
            out@ == start + v@.take(i as int),
        decreases v@.len() - i,
    {
        push_char(out, v[i]);
        i += 1;
        assert(start + v@.take(i as int) =~= (start + v@.take(i - 1)).push(v@[i - 1]));
    }
    assert(v@.take(v@.len() as int) =~= v@);
}

/// Appends the characters `v[from..to]` to `out`.
pub fn push_char_range(out: &mut String, v: &[char], from: usize, to: usize)
    requires
        from <= to <= v@.len(),
    ensures
        final(out)@ == old(out)@ + v@.subrange(from as int, to as int),
{
    let ghost start = out@;
    let mut i: usize = from;
    while i < to
        invariant
            from <= i <= to <= v@.len(),
            out@ == start + v@.subrange(from as int, i as int),
        decreases to - i,
    {
        push_char(out, v[i]);
        i += 1;
        assert(start + v@.subrange(from as int, i as int) =~= (start + v@.subrange(from as int, i - 1)).push(v@[i - 1]));
    }
}

/// A `String` holding exactly the characters of `v`.
pub fn string_of(v: &[char]) -> (s: String)
    ensures
        s@ == v@,
{
    let mut s = String::new();
    push_chars(&mut s, v);
    assert(Seq::<char>::empty() + v@ =~= v@);
    s
}

/// Bytes in the UTF-8 encoding of one character.
pub open spec fn char_byte_len(c: char) -> nat {
    vstd::utf8::encode_scalar(c as u32).len()
}

pub proof fn lemma_byte_len_front(s: Seq<char>)
    requires
        s.len() > 0,
    ensures
        byte_len(s) == char_byte_len(s[0]) + byte_len(s.drop_first()),
{
}

pub fn exec_char_byte_len(c: char) -> (n: u8)
    ensures
        n == char_byte_len(c),
        1 <= n <= 4,
{
    let u = c as u32;
    if u <= 0x7f {
        1
    } else if u <= 0x7ff {
        2
    } else if u <= 0xffff {
        3
    } else {
        4
    }
}

/// Size in bytes of the UTF-8 encoding of `s`.
pub fn byte_len_of(s: &[char]) -> (n: u128)
    ensures
        n == byte_len(s@),
{
    let mut n: u128 = 0;
    let mut i: usize = 0;
    assert(s@.subrange(0, s@.len() as int) =~= s@);
    while i < s.len()
        invariant
            i <= s@.len(),
            n <= 4 * i,
            n + byte_len(s@.subrange(i as int, s@.len() as int)) == byte_len(s@),
        decreases s@.len() - i,
    {
        let ghost rest = s@.subrange(i as int, s@.len() as int);
        proof {
            lemma_byte_len_front(rest);
            assert(rest.drop_first() =~= s@.subrange(i + 1, s@.len() as int));
        }
        n = n + exec_char_byte_len(s[i]) as u128;
        i += 1;
    }
    assert(s@.subrange(i as int, s@.len() as int) =~= Seq::<char>::empty());
    n
}

/// Line endings made uniform (`"\r\n"` and lone `'\r'` become `'\n'`).
pub fn normalize_newline_chars(s: &[char]) -> (out: Vec<char>)
    ensures
        out@ == normalize_newlines(s@),
{
    let mut out: Vec<char> = Vec::new();
    let mut i: usize = 0;
    assert(s@.subrange(0, s@.len() as int) =~= s@);
    assert(out@ + normalize_newlines(s@) =~= normalize_newlines(s@));
    while i < s.len()
        invariant
            i <= s@.len(),
            out@ + normalize_newlines(s@.subrange(i as int, s@.len() as int)) == normalize_newlines(s@),
        decreases s@.len() - i,
    {
        let ghost rest = s@.subrange(i as int, s@.len() as int);
        if s[i] == '\r' && i + 1 < s.len() && s[i + 1] == '\n' {
            assert(rest.subrange(2, rest.len() as int) =~= s@.subrange(i + 2, s@.len() as int));
            out.push('\n');
            i += 2;
        } else {
            assert(rest.drop_first() =~= s@.subrange(i + 1, s@.len() as int));
            if s[i] == '\r' {
                out.push('\n');
            } else {
                out.push(s[i]);
            }
            i += 1;
        }
        proof {
            let ghost prev_out = out@.drop_last();
            assert(out@ =~= prev_out + seq![out@.last()]);
        }
        assert(out@ + normalize_newlines(s@.subrange(i as int, s@.len() as int)) =~= normalize_newlines(s@));
    }
    assert(s@.subrange(i as int, s@.len() as int) =~= Seq::<char>::empty());
    assert(out@ + Seq::<char>::empty() =~= out@);
    out
}

/// Whether every character is whitespace.
pub fn chars_are_blank(s: &[char]) -> (r: bool)
    ensures
        r == is_blank(s@),
{
    let mut i: usize = 0;
    while i < s.len()
        invariant
            i <= s@.len(),
            forall|j: int| 0 <= j < i ==> is_whitespace(#[trigger] s@[j]),
        decreases s@.len() - i,
    {
        if !exec_is_whitespace(s[i]) {
            return false;
        }
        i += 1;
    }
    true
}

/// What `trim_end` leaves is empty or ends in a character that is not whitespace.
pub proof fn lemma_trim_end_last(s: Seq<char>)
    ensures
        trim_end(s).len() > 0 ==> !is_whitespace(trim_end(s).last()),
    decreases s.len(),
{
    if s.len() > 0 && is_whitespace(s.last()) {
        lemma_trim_end_last(s.drop_last());
    }
}

/// Normalized text holds no carriage return.
pub proof fn lemma_normalized_has_no_cr(s: Seq<char>)
    ensures
        forall|i: int| 0 <= i < normalize_newlines(s).len() ==> #[trigger] normalize_newlines(s)[i] != '\r',
    decreases s.len(),
{
    if s.len() > 0 {
        if s[0] == '\r' && s.len() > 1 && s[1] == '\n' {
            lemma_normalized_has_no_cr(s.subrange(2, s.len() as int));
        } else {
            lemma_normalized_has_no_cr(s.drop_first());
        }
        let n = normalize_newlines(s);
        assert forall|i: int| 0 <= i < n.len() implies #[trigger] n[i] != '\r' by {
            if i > 0 {
                if s[0] == '\r' && s.len() > 1 && s[1] == '\n' {
                    assert(n[i] == normalize_newlines(s.subrange(2, s.len() as int))[i - 1]);
                } else {
                    assert(n[i] == normalize_newlines(s.drop_first())[i - 1]);
                }
            }
        }
    }
}

/// Text without carriage returns is already normalized.
pub proof fn lemma_normalize_without_cr(s: Seq<char>)
    requires
        forall|i: int| 0 <= i < s.len() ==> #[trigger] s[i] != '\r',
    ensures
        normalize_newlines(s) == s,
    decreases s.len(),
{
    if s.len() > 0 {
        assert(s[0] != '\r');
        assert forall|i: int| 0 <= i < s.drop_first().len() implies #[trigger] s.drop_first()[i] != '\r' by {
            assert(s.drop_first()[i] == s[i + 1]);
        }
        lemma_normalize_without_cr(s.drop_first());
        assert(seq![s[0]] + s.drop_first() =~= s);
    }
}

/// Normalizing line endings twice is normalizing them once.
pub proof fn lemma_normalize_idempotent(s: Seq<char>)
    ensures
        normalize_newlines(normalize_newlines(s)) == normalize_newlines(s),
{
    lemma_normalized_has_no_cr(s);
    lemma_normalize_without_cr(normalize_newlines(s));
}

/// `trim_start` drops a prefix; what remains starts with a character that is
/// not whitespace.
pub proof fn lemma_trim_start_suffix(s: Seq<char>)
    ensures
        trim_start(s).len() <= s.len(),
        trim_start(s) =~= s.skip(s.len() - trim_start(s).len()),
        trim_start(s).len() > 0 ==> !is_whitespace(trim_start(s)[0]),
    decreases s.len(),
{
    if s.len() > 0 && is_whitespace(s[0]) {
        lemma_trim_start_suffix(s.drop_first());
        assert(s.drop_first().skip(s.drop_first().len() - trim_start(s).len()) =~= s.skip(
            s.len() - trim_start(s).len(),
        ));
    }
}

/// `trim_end` drops a suffix.
pub proof fn lemma_trim_end_prefix(s: Seq<char>)
    ensures
        trim_end(s).len() <= s.len(),
        trim_end(s) =~= s.take(trim_end(s).len() as int),
    decreases s.len(),
{
    if s.len() > 0 && is_whitespace(s.last()) {
        lemma_trim_end_prefix(s.drop_last());
        assert(s.drop_last().take(trim_end(s).len() as int) =~= s.take(trim_end(s).len() as int));
    }
}

/// Trimmed text is its own trim, and holds only characters of the untrimmed text.
pub proof fn lemma_trim_idempotent(s: Seq<char>)
    ensures
        trim(trim(s)) == trim(s),
        forall|i: int| 0 <= i < trim(s).len() ==> exists|j: int| 0 <= j < s.len() && #[trigger] trim(s)[i] == s[j],
{
    let a = trim_start(s);
    let t = trim_end(a);
    lemma_trim_start_suffix(s);
    lemma_trim_end_prefix(a);
    lemma_trim_end_last(a);
    if t.len() > 0 {
        assert(t[0] == a[0]);
        assert(trim_start(t) == t);
        assert(trim_end(t) == t);
    } else {
        assert(trim_start(t) == t);
    }
    assert forall|i: int| 0 <= i < t.len() implies exists|j: int| 0 <= j < s.len() && #[trigger] t[i] == s[j] by {
        let j = s.len() - a.len() + i;
        assert(t[i] == a[i]);
        assert(a[i] == s[j]);
    }
}

/// Joining the pieces of a split with the separator gives the text back, and
/// no piece holds the separator.
pub proof fn lemma_split_join(s: Seq<char>, sep: char)
    ensures
        join_with(split_on(s, sep), seq![sep]) == s,
        forall|i: int, j: int|
            0 <= i < split_on(s, sep).len() && 0 <= j < split_on(s, sep)[i].len() ==> #[trigger] split_on(
                s,
                sep,
            )[i][j] != sep,
    decreases s.len(),
{
    if s.len() == 0 {
        assert(join_with(seq![Seq::<char>::empty()], seq![sep]) == Seq::<char>::empty());
    } else {
        let prev = split_on(s.drop_last(), sep);
        lemma_split_join(s.drop_last(), sep);
        lemma_split_on_nonempty(s.drop_last(), sep);
        let cur = split_on(s, sep);
        if s.last() == sep {
            lemma_join_push(prev, seq![sep], Seq::<char>::empty());
            assert(s.drop_last() + seq![sep] + Seq::<char>::empty() =~= s);
            assert forall|i: int, j: int| 0 <= i < cur.len() && 0 <= j < cur[i].len() implies #[trigger] cur[i][j]
                != sep by {
                assert(cur[i] == prev[i]);
            }
        } else {
            lemma_join_update_last(prev, seq![sep], prev.last(), seq![s.last()]);
            assert(prev.last() + seq![s.last()] =~= prev.last().push(s.last()));
            assert(s.drop_last() + seq![s.last()] =~= s);
            assert forall|i: int, j: int| 0 <= i < cur.len() && 0 <= j < cur[i].len() implies #[trigger] cur[i][j]
                != sep by {
                if i < prev.len() - 1 {
                    assert(cur[i] == prev[i]);
                } else {
                    assert(cur[i] == prev.last().push(s.last()));
                    if j < prev.last().len() {
                        assert(cur[i][j] == prev[prev.len() - 1][j]);
                    }
                }
            }
        }
    }
}

/// Normalizing line endings never lengthens a text.
pub proof fn lemma_normalize_len(s: Seq<char>)
    ensures
        normalize_newlines(s).len() <= s.len(),
    decreases s.len(),
{
    if s.len() > 0 {
        if s[0] == '\r' && s.len() > 1 && s[1] == '\n' {
            lemma_normalize_len(s.subrange(2, s.len() as int));
        } else {
            lemma_normalize_len(s.drop_first());
        }
    }
}

/// Whether text `a` sorts no later than `b`: character by character (by
/// code point), a prefix first.
pub open spec fn text_le(a: Seq<char>, b: Seq<char>) -> bool
    decreases a.len(),
{
    if a.len() == 0 {
        true
    } else if b.len() == 0 {
        false
    } else if a[0] != b[0] {
        (a[0] as u32) < (b[0] as u32)
    } else {
        text_le(a.drop_first(), b.drop_first())
    }
}

pub proof fn lemma_text_le_total(a: Seq<char>, b: Seq<char>)
    ensures
        text_le(a, b) || text_le(b, a),
    decreases a.len(),
{
    if a.len() > 0 && b.len() > 0 {
        if a[0] == b[0] {
            lemma_text_le_total(a.drop_first(), b.drop_first());
        } else {
            vstd::utf8::char_u32_cast(a[0], a[0] as u32);
            vstd::utf8::char_u32_cast(b[0], b[0] as u32);
        }
    }
}

pub proof fn lemma_text_le_transitive(a: Seq<char>, b: Seq<char>, c: Seq<char>)
    requires
        text_le(a, b),
        text_le(b, c),
    ensures
        text_le(a, c),
    decreases a.len(),
{
    if a.len() > 0 && b.len() > 0 && c.len() > 0 && a[0] == b[0] && b[0] == c[0] {
        lemma_text_le_transitive(a.drop_first(), b.drop_first(), c.drop_first());
    }
}

/// Whether text `a` sorts no later than `b`.
pub fn texts_in_order(a: &str, b: &str) -> (r: bool)
    ensures
        r == text_le(a@, b@),
{
    let x = chars_of(a);
    let y = chars_of(b);
    let mut i: usize = 0;
    assert(a@.skip(0) =~= a@ && b@.skip(0) =~= b@);
    while i < x.len() && i < y.len()
        invariant
            i <= x@.len(),
            i <= y@.len(),
            x@ == a@,
            y@ == b@,
            x@.take(i as int) == y@.take(i as int),
            text_le(a@, b@) == text_le(a@.skip(i as int), b@.skip(i as int)),
        decreases x@.len() - i,
    {
        let ghost sa = a@.skip(i as int);
        let ghost sb = b@.skip(i as int);
        assert(sa.drop_first() =~= a@.skip(i + 1));
        assert(sb.drop_first() =~= b@.skip(i + 1));
        if x[i] != y[i] {
            return (x[i] as u32) < (y[i] as u32);
        }
        assert(x@.take(i + 1) =~= x@.take(i as int).push(x@[i as int]));
        assert(y@.take(i + 1) =~= y@.take(i as int).push(y@[i as int]));
        i += 1;
    }
    i == x.len()
}

pub proof fn lemma_text_le_antisymmetric(a: Seq<char>, b: Seq<char>)
    requires
        text_le(a, b),
        text_le(b, a),
    ensures
        a == b,
    decreases a.len(),
{
    if a.len() > 0 && b.len() > 0 {
        if a[0] == b[0] {
            lemma_text_le_antisymmetric(a.drop_first(), b.drop_first());
            assert(a =~= seq![a[0]] + a.drop_first());
            assert(b =~= seq![b[0]] + b.drop_first());
        }
    } else {
        assert(a.len() == 0 && b.len() == 0);
        assert(a =~= b);
    }
}

} // verus!
