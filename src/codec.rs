use vstd::prelude::*;
use vstd::utf8::encode_utf8;

verus! {

/// Why a path has no blob key.
#[derive(Debug, Clone, Copy, PartialEq, Eq, Structural)]
pub enum PathError {
    /// The path does not lie under the root folder.
    PathOutsideRoot,
}

/// The bytes that stand for themselves in a blob key: ASCII letters and
/// digits, `-`, `_`, `.`, `~` and `/`.
pub open spec fn is_safe_byte(b: u8) -> bool {
    (0x30 <= b <= 0x39) || (0x41 <= b <= 0x5a) || (0x61 <= b <= 0x7a) || b == 0x2d || b == 0x5f
        || b == 0x2e || b == 0x7e || b == 0x2f
}

/// The characters that may stand unescaped in a blob key.
pub open spec fn is_safe_char(c: char) -> bool {
    (c as u32) < 0x80 && is_safe_byte(c as u8)
}

/// The upper-case hexadecimal digit for `d` in `0..16`.
pub open spec fn hex_digit(d: u8) -> char {
    if d < 10 {
        (0x30 + d) as u8 as char
    } else {
        (0x41 + d - 10) as u8 as char
    }
}

/// How one byte of a key is written: itself when safe, else `%` and two
/// upper-case hexadecimal digits.
pub open spec fn escape_byte(b: u8) -> Seq<char> {
    if is_safe_byte(b) {
        seq![b as char]
    } else {
        seq!['%', hex_digit(b / 16), hex_digit(b % 16)]
    }
}

/// The percent-encoding of a byte string, byte by byte.
pub open spec fn percent_encoded(bytes: Seq<u8>) -> Seq<char>
    decreases bytes.len(),
{
    if bytes.len() == 0 {
        seq![]
    } else {
        percent_encoded(bytes.drop_last()) + escape_byte(bytes.last())
    }
}

/// `s` with each backslash turned into a forward slash.
pub open spec fn normalized(s: Seq<char>) -> Seq<char> {
    s.map_values(|c: char| if c == '\\' { '/' } else { c })
}

/// The blob key for a fragment of a relative path: separators normalized,
/// then the UTF-8 bytes percent-encoded.
pub open spec fn encoded_key(f: Seq<char>) -> Seq<char> {
    percent_encoded(encode_utf8(normalized(f)))
}

/// The characters that a percent-encoded key is made of: the safe ones
/// and `%`.
pub open spec fn is_key_char(c: char) -> bool {
    is_safe_char(c) || c == '%'
}

/// Every character of a percent-encoding is safe or `%`; in particular none
/// is a backslash.
pub proof fn lemma_percent_encoded_chars(bytes: Seq<u8>)
    ensures
        forall|i: int|
            0 <= i < percent_encoded(bytes).len() ==> is_key_char(
                #[trigger] percent_encoded(bytes)[i],
            ),
        !percent_encoded(bytes).contains('\\'),
    decreases bytes.len(),
{
    if bytes.len() > 0 {
        lemma_percent_encoded_chars(bytes.drop_last());
        let b = bytes.last();
        let e = escape_byte(b);
        assert forall|i: int| 0 <= i < e.len() implies is_key_char(#[trigger] e[i]) by {
            if is_safe_byte(b) {
                assert(e[i] == b as char);
            } else {
                let hi = b / 16;
                let lo = b % 16;
                assert(hi < 16 && lo < 16);
            }
        }
        let p = percent_encoded(bytes.drop_last());
        assert(percent_encoded(bytes) == p + e);
        assert forall|i: int| 0 <= i < (p + e).len() implies is_key_char(#[trigger] (p + e)[i]) by {
            if i >= p.len() {
                assert((p + e)[i] == e[i - p.len()]);
            }
        }
    }
    let q = percent_encoded(bytes);
    if q.contains('\\') {
        let k = choose|k: int| 0 <= k < q.len() && q[k] == '\\';
        assert(is_key_char(q[k]));
    }
}

/// Relies on `String::push`: appends one character.
#[verifier::external_body]
pub(crate) fn push_char(s: &mut String, c: char)
    ensures
        final(s)@ == old(s)@.push(c),
{
    s.push(c);
}

/// Relies on `url::percent_encoding::percent_encode_byte`: `%` followed by
/// the two upper-case hexadecimal digits of the byte.
#[verifier::external_body]
fn percent_escape(b: u8) -> (r: &'static str)
    ensures
        r@ == seq!['%', hex_digit(b / 16), hex_digit(b % 16)],
{
    url::percent_encoding::percent_encode_byte(b)
}

/// Whether `b` stands for itself in a blob key.
fn is_safe(b: u8) -> (r: bool)
    ensures
        r == is_safe_byte(b),
{
    (0x30 <= b && b <= 0x39) || (0x41 <= b && b <= 0x5a) || (0x61 <= b && b <= 0x7a) || b == 0x2d
        || b == 0x5f || b == 0x2e || b == 0x7e || b == 0x2f
}

/// The characters of `s`, one per element.
fn chars_of(s: &str) -> (r: Vec<char>)
    ensures
        r@ == s@,
{
    let mut r: Vec<char> = Vec::new();
    for c in it: s.chars()
        invariant
            r@ == it.seq().take(it.index() as int),
    {
        r.push(c);
    }
    r
}

/// Appends the percent-encoding of `bytes` to `out`.
fn push_encoded(out: &mut String, bytes: &[u8])
    ensures
        final(out)@ == old(out)@ + percent_encoded(bytes@),
{
    let mut i: usize = 0;
    while i < bytes.len()
        invariant
            i <= bytes@.len(),
            out@ == old(out)@ + percent_encoded(bytes@.take(i as int)),
        decreases bytes@.len() - i,
    {
        let b = bytes[i];
        let ghost before = out@;
        if is_safe(b) {
            push_char(out, b as char);
        } else {
            let esc = percent_escape(b);
            let esc_chars = chars_of(esc);
            push_char(out, esc_chars[0]);
            push_char(out, esc_chars[1]);
            push_char(out, esc_chars[2]);
        }
        assert(bytes@.take(i + 1).drop_last() == bytes@.take(i as int));
        assert(out@ == before + escape_byte(b));
        i = i + 1;
    }
    assert(bytes@.take(i as int) == bytes@);
}

/// The blob key for `chars` from index `start` on.
fn encode_chars_from(chars: &Vec<char>, start: usize) -> (r: String)
    requires
        start <= chars@.len(),
    ensures
        r@ == encoded_key(chars@.skip(start as int)),
{
    let ghost tail = chars@.skip(start as int);
    let mut norm = String::new();
    let mut i: usize = start;
    while i < chars.len()
        invariant
            start <= i <= chars@.len(),
            tail == chars@.skip(start as int),
            norm@ == normalized(tail.take(i - start)),
        decreases chars@.len() - i,
    {
        let c = chars[i];
        if c == '\\' {
            push_char(&mut norm, '/');
        } else {
            push_char(&mut norm, c);
        }
        assert(tail.take(i + 1 - start) == tail.take(i - start).push(c));
        assert(normalized(tail.take(i + 1 - start)) == normalized(tail.take(i - start)).push(
            if c == '\\' { '/' } else { c },
        ));
        i = i + 1;
    }
    assert(tail.take(i - start) == tail);
    let mut out = String::new();
    push_encoded(&mut out, norm.as_str().as_bytes());
    out
}

/// The percent-encoded blob key for a relative path fragment `f`:
/// backslashes become forward slashes, then every UTF-8 byte outside the
/// safe set is written as `%XX`.
pub fn encode_file_name(f: &str) -> (r: String)
    ensures
        r@ == encoded_key(f@),
        forall|i: int| 0 <= i < r@.len() ==> is_key_char(#[trigger] r@[i]),
        !r@.contains('\\'),
{
    proof {
        lemma_percent_encoded_chars(encode_utf8(normalized(f@)));
    }
    let chars = chars_of(f);
    assert(chars@.skip(0) == f@);
    encode_chars_from(&chars, 0)
}

/// Path separators, in either convention.
pub open spec fn is_separator(c: char) -> bool {
    c == '/' || c == '\\'
}

/// Whether `path` names the root folder itself or an entry below it: the
/// root is a prefix of the path that ends at a separator or at the end of
/// either.
pub open spec fn is_under_root(root: Seq<char>, path: Seq<char>) -> bool {
    &&& root.len() <= path.len()
    &&& path.take(root.len() as int) == root
    &&& (root.len() == 0 || root.len() == path.len() || is_separator(root.last()) || is_separator(
        path[root.len() as int],
    ))
}

/// `s` without its leading separators.
pub open spec fn skip_separators(s: Seq<char>) -> Seq<char>
    decreases s.len(),
{
    if s.len() > 0 && is_separator(s[0]) {
        skip_separators(s.drop_first())
    } else {
        s
    }
}

/// The part of `path` below `root`, without leading separators.
pub open spec fn relative_part(root: Seq<char>, path: Seq<char>) -> Seq<char> {
    skip_separators(path.skip(root.len() as int))
}

/// The blob key of `path` for the root folder `root`.
pub open spec fn blob_key(root: Seq<char>, path: Seq<char>) -> Result<Seq<char>, PathError> {
    if is_under_root(root, path) {
        Ok(encoded_key(relative_part(root, path)))
    } else {
        Err(PathError::PathOutsideRoot)
    }
}

/// The blob key of `path`: the root folder `root` stripped off, separators
/// normalized and the rest percent-encoded; `PathOutsideRoot` where the path
/// does not lie under the root.
pub fn blob_key_for(root: &str, path: &str) -> (r: Result<String, PathError>)
    ensures
        r is Ok <==> is_under_root(root@, path@),
        r is Ok ==> blob_key(root@, path@) == Ok::<Seq<char>, PathError>(r->Ok_0@),
        r is Err ==> r->Err_0 == PathError::PathOutsideRoot,
        r is Ok ==> forall|i: int|
            0 <= i < r->Ok_0@.len() ==> is_key_char(#[trigger] r->Ok_0@[i]),
        r is Ok ==> !r->Ok_0@.contains('\\'),
{
    proof {
        lemma_percent_encoded_chars(encode_utf8(normalized(relative_part(root@, path@))));
    }
    let rc = chars_of(root);
    let pc = chars_of(path);
    if rc.len() > pc.len() {
        return Err(PathError::PathOutsideRoot);
    }
    let mut i: usize = 0;
    while i < rc.len()
        invariant
            rc@ == root@,
            pc@ == path@,
            rc@.len() <= pc@.len(),
            i <= rc@.len(),
            pc@.take(i as int) == rc@.take(i as int),
        decreases rc@.len() - i,
    {
        if rc[i] != pc[i] {
            assert(pc@.take(rc@.len() as int)[i as int] != rc@[i as int]);
            return Err(PathError::PathOutsideRoot);
        }
        assert(pc@.take(i + 1) == pc@.take(i as int).push(pc@[i as int]));
        assert(rc@.take(i + 1) == rc@.take(i as int).push(rc@[i as int]));
        i = i + 1;
    }
    assert(rc@.take(i as int) == rc@);
    let n = rc.len();
    if !(n == 0 || n == pc.len() || rc[n - 1] == '/' || rc[n - 1] == '\\' || pc[n] == '/' || pc[n]
        == '\\') {
        return Err(PathError::PathOutsideRoot);
    }
    let mut j: usize = n;
    while j < pc.len() && (pc[j] == '/' || pc[j] == '\\')
        invariant
            pc@ == path@,
            n <= j <= pc@.len(),
            skip_separators(pc@.skip(n as int)) == skip_separators(pc@.skip(j as int)),
        decreases pc@.len() - j,
    {
        assert(pc@.skip(j as int).drop_first() == pc@.skip(j + 1));
        j = j + 1;
    }
    Ok(encode_chars_from(&pc, j))
}

} // verus!
