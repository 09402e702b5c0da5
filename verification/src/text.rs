//! Text helpers: views of string collections, trimming, replacing and the
//! decoding of captured bytes.

use vstd::prelude::*;
use vstd::string::*;
use vstd::utf8::*;

verus! {

/// The contents of a list of strings.
pub open spec fn texts(v: Seq<String>) -> Seq<Seq<char>> {
    Seq::new(v.len(), |i: int| v[i]@)
}

/// The contents of an optional string.
pub open spec fn opt_text(o: Option<String>) -> Option<Seq<char>> {
    match o {
        Some(s) => Some(s@),
        None => None,
    }
}

/// The contents of an optional list of strings.
pub open spec fn opt_texts(o: Option<Vec<String>>) -> Option<Seq<Seq<char>>> {
    match o {
        Some(v) => Some(texts(v@)),
        None => None,
    }
}

/// Characters with the Unicode property `White_Space`.
pub open spec fn is_whitespace(c: char) -> bool {
    let n = c as u32;
    (0x09 <= n && n <= 0x0D) || n == 0x20 || n == 0x85 || n == 0xA0 || n == 0x1680 || (0x2000 <= n
        && n <= 0x200A) || n == 0x2028 || n == 0x2029 || n == 0x202F || n == 0x205F || n == 0x3000
}

/// `s` without its leading whitespace.
pub open spec fn trim_start_of(s: Seq<char>) -> Seq<char>
    decreases s.len(),
{
    if s.len() > 0 && is_whitespace(s[0]) {
        trim_start_of(s.subrange(1, s.len() as int))
    } else {
        s
    }
}

/// `s` without its trailing whitespace.
pub open spec fn trim_end_of(s: Seq<char>) -> Seq<char>
    decreases s.len(),
{
    if s.len() > 0 && is_whitespace(s.last()) {
        trim_end_of(s.drop_last())
    } else {
        s
    }
}

/// `s` without leading and trailing whitespace.
pub open spec fn trimmed(s: Seq<char>) -> Seq<char> {
    trim_end_of(trim_start_of(s))
}

/// The number of whitespace characters at the start of `s`.
pub open spec fn leading_whitespace(s: Seq<char>) -> nat
    decreases s.len(),
{
    if s.len() > 0 && is_whitespace(s[0]) {
        1 + leading_whitespace(s.subrange(1, s.len() as int))
    } else {
        0
    }
}

/// The number of whitespace characters at the end of `s`.
pub open spec fn trailing_whitespace(s: Seq<char>) -> nat
    decreases s.len(),
{
    if s.len() > 0 && is_whitespace(s.last()) {
        1 + trailing_whitespace(s.drop_last())
    } else {
        0
    }
}

/// Trimming the start drops the whitespace that leads, up to the first
/// character that is none.
pub proof fn lemma_trim_start_shape(s: Seq<char>)
    ensures
        leading_whitespace(s) <= s.len(),
        trim_start_of(s) == s.subrange(leading_whitespace(s) as int, s.len() as int),
        forall|i: int| 0 <= i < leading_whitespace(s) ==> is_whitespace(s[i]),
        leading_whitespace(s) < s.len() ==> !is_whitespace(s[leading_whitespace(s) as int]),
    decreases s.len(),
{
    if s.len() > 0 && is_whitespace(s[0]) {
        let t = s.subrange(1, s.len() as int);
        lemma_trim_start_shape(t);
        let n = leading_whitespace(t) as int;
        assert(t.subrange(n, t.len() as int) =~= s.subrange(n + 1, s.len() as int));
        assert forall|i: int| 0 <= i < n + 1 implies is_whitespace(s[i]) by {
            if i > 0 {
                assert(s[i] == t[i - 1]);
            }
        }
        if n + 1 < s.len() {
            assert(s[n + 1] == t[n]);
        }
    } else {
        assert(s.subrange(0, s.len() as int) =~= s);
    }
}

/// Trimming the end drops the whitespace that trails, back to the last
/// character that is none.
pub proof fn lemma_trim_end_shape(s: Seq<char>)
    ensures
        trailing_whitespace(s) <= s.len(),
        trim_end_of(s) == s.subrange(0, s.len() - trailing_whitespace(s)),
        forall|i: int| s.len() - trailing_whitespace(s) <= i < s.len() ==> is_whitespace(s[i]),
        trailing_whitespace(s) < s.len() ==> !is_whitespace(
            s[s.len() - trailing_whitespace(s) - 1],
        ),
    decreases s.len(),
{
    if s.len() > 0 && is_whitespace(s.last()) {
        let t = s.drop_last();
        lemma_trim_end_shape(t);
        let n = trailing_whitespace(t) as int;
        assert(t.subrange(0, t.len() - n) =~= s.subrange(0, s.len() - (n + 1)));
        assert forall|i: int| s.len() - (n + 1) <= i < s.len() implies is_whitespace(s[i]) by {
            if i < s.len() - 1 {
                assert(s[i] == t[i]);
            }
        }
        if n + 1 < s.len() {
            assert(s[s.len() - (n + 1) - 1] == t[t.len() - n - 1]);
        }
    } else {
        assert(s.subrange(0, s.len() as int) =~= s);
    }
}

/// Trimming removes whitespace at both ends and nothing else: what is left
/// is the stretch of `s` between a run of whitespace that leads and one
/// that trails, and it neither starts nor ends with whitespace.
pub proof fn lemma_trimmed_shape(s: Seq<char>) -> (bounds: (int, int))
    ensures
        0 <= bounds.0 <= bounds.1 <= s.len(),
        trimmed(s) == s.subrange(bounds.0, bounds.1),
        forall|i: int| 0 <= i < bounds.0 ==> is_whitespace(s[i]),
        forall|i: int| bounds.1 <= i < s.len() ==> is_whitespace(s[i]),
        bounds.0 < bounds.1 ==> !is_whitespace(s[bounds.0]) && !is_whitespace(s[bounds.1 - 1]),
{
    lemma_trim_start_shape(s);
    let a = leading_whitespace(s) as int;
    let rest = s.subrange(a, s.len() as int);
    lemma_trim_end_shape(rest);
    let b = s.len() - trailing_whitespace(rest);
    assert(rest.subrange(0, rest.len() - trailing_whitespace(rest)) =~= s.subrange(a, b));
    assert forall|i: int| b <= i < s.len() implies is_whitespace(s[i]) by {
        assert(s[i] == rest[i - a]);
    }
    if a < b {
        assert(rest[0] == s[a]);
        assert(rest[rest.len() - trailing_whitespace(rest) - 1] == s[b - 1]);
    }
    (a, b)
}

/// A text that neither starts nor ends with whitespace is its own trimmed
/// text.
pub proof fn lemma_trimmed_keeps_tight_text(s: Seq<char>)
    requires
        s.len() > 0 ==> !is_whitespace(s[0]) && !is_whitespace(s.last()),
    ensures
        trimmed(s) == s,
{
}

/// Trimming twice is trimming once.
pub proof fn lemma_trimmed_is_idempotent(s: Seq<char>)
    ensures
        trimmed(trimmed(s)) == trimmed(s),
{
    let bounds = lemma_trimmed_shape(s);
    let t = trimmed(s);
    if t.len() > 0 {
        assert(t[0] == s[bounds.0]);
        assert(t.last() == s[bounds.1 - 1]);
    }
    lemma_trimmed_keeps_tight_text(t);
}

/// Whether `pattern` stands in `s` at position `at`.
pub open spec fn occurs_at(s: Seq<char>, pattern: Seq<char>, at: int) -> bool {
    0 <= at && at + pattern.len() <= s.len() && s.subrange(at, at + pattern.len()) == pattern
}

/// Whether `pattern` stands anywhere in `s`.
pub open spec fn occurs(s: Seq<char>, pattern: Seq<char>) -> bool {
    exists|at: int| occurs_at(s, pattern, at)
}

/// `s` with every occurrence of the non-empty `pattern` replaced by `value`,
/// occurrences taken from left to right without overlap.
pub open spec fn replaced(s: Seq<char>, pattern: Seq<char>, value: Seq<char>) -> Seq<char>
    decreases s.len(),
{
    if pattern.len() == 0 || s.len() < pattern.len() {
        s
    } else if s.subrange(0, pattern.len() as int) == pattern {
        value + replaced(s.subrange(pattern.len() as int, s.len() as int), pattern, value)
    } else {
        seq![s[0]] + replaced(s.subrange(1, s.len() as int), pattern, value)
    }
}

/// Replacing a pattern in the pattern itself gives the value.
pub proof fn lemma_replaced_whole(pattern: Seq<char>, value: Seq<char>)
    requires
        pattern.len() > 0,
    ensures
        replaced(pattern, pattern, value) == value,
{
    let rest = pattern.subrange(pattern.len() as int, pattern.len() as int);
    assert(pattern.subrange(0, pattern.len() as int) =~= pattern);
    assert(rest.len() == 0);
    assert(replaced(rest, pattern, value) == rest);
    assert(value + rest =~= value);
}

/// Replacing a pattern that does not occur changes nothing.
pub proof fn lemma_replaced_absent(s: Seq<char>, pattern: Seq<char>, value: Seq<char>)
    requires
        !occurs(s, pattern),
    ensures
        replaced(s, pattern, value) == s,
    decreases s.len(),
{
    if pattern.len() == 0 || s.len() < pattern.len() {
    } else {
        assert(!occurs_at(s, pattern, 0));
        let tail = s.subrange(1, s.len() as int);
        assert(!occurs(tail, pattern)) by {
            if occurs(tail, pattern) {
                let at = choose|at: int| occurs_at(tail, pattern, at);
                assert(tail.subrange(at, at + pattern.len()) =~= s.subrange(
                    at + 1,
                    at + 1 + pattern.len(),
                ));
                assert(occurs_at(s, pattern, at + 1));
            }
        }
        lemma_replaced_absent(tail, pattern, value);
        assert(seq![s[0]] + tail =~= s);
    }
}

/// A text shorter than the pattern does not hold it.
pub proof fn lemma_short_text_lacks(s: Seq<char>, pattern: Seq<char>)
    requires
        s.len() < pattern.len(),
    ensures
        !occurs(s, pattern),
{
}

/// The characters of a text in order.
pub fn chars_of(s: &str) -> (r: Vec<char>)
    ensures
        r@ == s@,
{
    let mut r: Vec<char> = Vec::new();
    for c in it: s.chars()
        invariant
            it.seq() == s@,
            r@ == it.seq().take(it.index() as int),
    {
        r.push(c);
        assert(r@ =~= it.seq().take(it.index() + 1));
    }
    assert(r@ =~= s@);
    r
}

/// Calls `String::push`, which appends one character to the text.
#[verifier::external_body]
pub(crate) fn push_char(s: &mut String, c: char)
    ensures
        final(s)@ == old(s)@.push(c),
{
    s.push(c)
}

/// The text made of the characters in order.
pub fn text_of(chars: &Vec<char>) -> (r: String)
    ensures
        r@ == chars@,
{
    let mut r = String::new();
    let mut i: usize = 0;
    assert(r@ =~= chars@.take(0));
    while i < chars.len()
        invariant
            i <= chars@.len(),
            r@ == chars@.take(i as int),
        decreases chars.len() - i,
    {
        push_char(&mut r, chars[i]);
        assert(r@ =~= chars@.take(i + 1));
        i = i + 1;
    }
    assert(chars@.take(i as int) =~= chars@);
    r
}

/// Whether a character has the Unicode property `White_Space`.
pub fn is_blank(c: char) -> (r: bool)
    ensures
        r == is_whitespace(c),
{
    let n = c as u32;
    (0x09 <= n && n <= 0x0D) || n == 0x20 || n == 0x85 || n == 0xA0 || n == 0x1680 || (0x2000 <= n
        && n <= 0x200A) || n == 0x2028 || n == 0x2029 || n == 0x202F || n == 0x205F || n == 0x3000
}

/// The characters of `chars` from `from` up to `to`.
pub fn slice(chars: &Vec<char>, from: usize, to: usize) -> (r: Vec<char>)
    requires
        from <= to <= chars@.len(),
    ensures
        r@ == chars@.subrange(from as int, to as int),
{
    let mut r: Vec<char> = Vec::new();
    let mut i: usize = from;
    while i < to
        invariant
            from <= i <= to <= chars@.len(),
            r@ == chars@.subrange(from as int, i as int),
        decreases to - i,
    {
        r.push(chars[i]);
        assert(r@ =~= chars@.subrange(from as int, i + 1));
        i = i + 1;
    }
    r
}

/// Appends `more` to `out`.
pub fn extend(out: &mut Vec<char>, more: &Vec<char>)
    ensures
        final(out)@ == old(out)@ + more@,
{
    let mut i: usize = 0;
    assert(out@ =~= old(out)@ + more@.take(0));
    while i < more.len()
        invariant
            i <= more.len(),
            out@ == old(out)@ + more@.take(i as int),
        decreases more.len() - i,
    {
        out.push(more[i]);
        assert(out@ =~= old(out)@ + more@.take(i + 1));
        i = i + 1;
    }
    assert(more@.take(i as int) =~= more@);
}

/// The stretch of a text between its leading and its trailing whitespace is
/// its trimmed text.
pub proof fn lemma_trimmed_between(s: Seq<char>, a: int, b: int)
    requires
        0 <= a <= b <= s.len(),
        forall|i: int| 0 <= i < a ==> is_whitespace(s[i]),
        forall|i: int| b <= i < s.len() ==> is_whitespace(s[i]),
        a < s.len() ==> !is_whitespace(s[a]),
        a < b ==> !is_whitespace(s[b - 1]),
    ensures
        trimmed(s) == s.subrange(a, b),
{
    lemma_trim_start_shape(s);
    let lead = leading_whitespace(s) as int;
    if lead < a {
        assert(is_whitespace(s[lead]));
    }
    if a < lead {
        assert(is_whitespace(s[a]));
    }
    assert(lead == a);
    let rest = s.subrange(a, s.len() as int);
    lemma_trim_end_shape(rest);
    let end = s.len() - trailing_whitespace(rest);
    if end < b {
        assert(rest[b - 1 - a] == s[b - 1]);
        assert(is_whitespace(rest[b - 1 - a]));
    }
    if b < end {
        assert(rest[end - 1 - a] == s[end - 1]);
        assert(is_whitespace(s[end - 1]));
    }
    assert(end == b);
    assert(rest.subrange(0, rest.len() - trailing_whitespace(rest)) =~= s.subrange(a, b));
}

/// A copy of `s` without leading and trailing whitespace.
pub fn trim(s: &str) -> (r: String)
    ensures
        r@ == trimmed(s@),
{
    let chars = chars_of(s);
    let mut a: usize = 0;
    while a < chars.len() && is_blank(chars[a])
        invariant
            a <= chars@.len(),
            forall|i: int| 0 <= i < a ==> is_whitespace(chars@[i]),
        decreases chars.len() - a,
    {
        a = a + 1;
    }
    let mut b: usize = chars.len();
    while b > a && is_blank(chars[b - 1])
        invariant
            a <= b <= chars@.len(),
            forall|i: int| b <= i < chars@.len() ==> is_whitespace(chars@[i]),
        decreases b,
    {
        b = b - 1;
    }
    proof {
        lemma_trimmed_between(chars@, a as int, b as int);
    }
    text_of(&slice(&chars, a, b))
}

/// Whether `pattern` stands in `text` at position `at`.
pub fn stands_at(text: &Vec<char>, pattern: &Vec<char>, at: usize) -> (r: bool)
    requires
        at + pattern@.len() <= text@.len(),
    ensures
        r == (text@.subrange(at as int, at + pattern@.len()) == pattern@),
{
    let mut k: usize = 0;
    let limit = text.len();
    while k < pattern.len()
        invariant
            k <= pattern@.len(),
            limit == text@.len(),
            at + pattern@.len() <= limit,
            forall|j: int| 0 <= j < k ==> text@[at + j] == pattern@[j],
        decreases pattern.len() - k,
    {
        if text[at + k] != pattern[k] {
            assert(text@.subrange(at as int, at + pattern@.len())[k as int] != pattern@[k as int]);
            return false;
        }
        k = k + 1;
    }
    assert(text@.subrange(at as int, at + pattern@.len()) =~= pattern@);
    true
}

/// A copy of `s` with every occurrence of the non-empty `pattern` replaced
/// by `value`, occurrences taken from left to right without overlap.
pub fn replace(s: &str, pattern: &str, value: &str) -> (r: String)
    requires
        pattern@.len() > 0,
    ensures
        r@ == replaced(s@, pattern@, value@),
{
    let text = chars_of(s);
    let pat = chars_of(pattern);
    let val = chars_of(value);
    let mut out: Vec<char> = Vec::new();
    let mut i: usize = 0;
    assert(out@ + replaced(text@.skip(0), pat@, val@) =~= replaced(text@, pat@, val@)) by {
        assert(text@.skip(0) =~= text@);
    }
    while i < text.len()
        invariant
            i <= text@.len(),
            pat@.len() > 0,
            out@ + replaced(text@.skip(i as int), pat@, val@) == replaced(text@, pat@, val@),
        decreases text.len() - i,
    {
        let ghost rest = text@.skip(i as int);
        if pat.len() <= text.len() - i && stands_at(&text, &pat, i) {
            let ghost before = out@;
            extend(&mut out, &val);
            proof {
                assert(rest.subrange(0, pat@.len() as int) =~= text@.subrange(
                    i as int,
                    i + pat@.len(),
                ));
                assert(rest.subrange(pat@.len() as int, rest.len() as int) =~= text@.skip(
                    i + pat@.len(),
                ));
                assert(out@ + replaced(text@.skip(i + pat@.len()), pat@, val@) =~= before
                    + replaced(rest, pat@, val@));
            }
            i = i + pat.len();
        } else {
            let ghost before = out@;
            out.push(text[i]);
            proof {
                assert(rest.subrange(1, rest.len() as int) =~= text@.skip(i + 1));
                assert(rest[0] == text@[i as int]);
                if rest.len() >= pat@.len() {
                    assert(rest.subrange(0, pat@.len() as int) =~= text@.subrange(
                        i as int,
                        i + pat@.len(),
                    ));
                } else {
                    assert(replaced(rest, pat@, val@) == rest);
                    assert(replaced(text@.skip(i + 1), pat@, val@) == text@.skip(i + 1));
                    assert(rest =~= seq![rest[0]] + text@.skip(i + 1));
                }
                assert(out@ + replaced(text@.skip(i + 1), pat@, val@) =~= before + replaced(
                    rest,
                    pat@,
                    val@,
                ));
            }
            i = i + 1;
        }
    }
    assert(text@.skip(i as int).len() == 0);
    assert(out@ =~= out@ + replaced(text@.skip(i as int), pat@, val@));
    text_of(&out)
}

/// Calls `String::from_utf8`, which hands the bytes back as a string where
/// they are valid UTF-8 and fails otherwise.
#[verifier::external_body]
pub(crate) fn decode(bytes: Vec<u8>) -> (r: Option<String>)
    ensures
        r.is_some() == valid_utf8(bytes@),
        r.is_some() ==> r.unwrap()@ == decode_utf8(bytes@),
{
    match String::from_utf8(bytes) {
        Ok(s) => Some(s),
        Err(_) => None,
    }
}

/// What `String::from_utf8_lossy` makes of a sequence of bytes: the text, with
/// a replacement character for each invalid sequence.
pub uninterp spec fn lossy_text(bytes: Seq<u8>) -> Seq<char>;

/// Calls `String::from_utf8_lossy` and owns the result, which is the text
/// itself where the bytes are valid UTF-8.
#[verifier::external_body]
pub(crate) fn decode_lossy(bytes: &Vec<u8>) -> (r: String)
    ensures
        r@ == lossy_text(bytes@),
        valid_utf8(bytes@) ==> r@ == decode_utf8(bytes@),
{
    String::from_utf8_lossy(bytes).into_owned()
}

/// A copy of a list of strings.
pub fn copy_texts(v: &Vec<String>) -> (r: Vec<String>)
    ensures
        texts(r@) == texts(v@),
{
    let mut r: Vec<String> = Vec::new();
    let mut i: usize = 0;
    while i < v.len()
        invariant
            i <= v.len(),
            r@.len() == i,
            forall|j: int| 0 <= j < i ==> r@[j]@ == v@[j]@,
        decreases v.len() - i,
    {
        r.push(v[i].clone());
        i = i + 1;
    }
    assert(texts(r@) =~= texts(v@));
    r
}

/// A copy of an optional string.
pub fn copy_opt_text(o: &Option<String>) -> (r: Option<String>)
    ensures
        opt_text(r) == opt_text(*o),
{
    match o {
        Some(s) => Some(s.clone()),
        None => None,
    }
}

/// A copy of an optional list of strings.
pub fn copy_opt_texts(o: &Option<Vec<String>>) -> (r: Option<Vec<String>>)
    ensures
        opt_texts(r) == opt_texts(*o),
{
    match o {
        Some(v) => Some(copy_texts(v)),
        None => None,
    }
}

} // verus!
