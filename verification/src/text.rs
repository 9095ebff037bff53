//! Byte-level text helpers: line splitting, substring search and slicing
//! of `&str` values at character boundaries.
use vstd::prelude::*;
use vstd::utf8::*;
use vstd::string::*;

verus! {

broadcast use vstd::utf8::group_utf8_lib;

/// The byte views of a sequence of string slices.
pub open spec fn byte_views(v: Seq<&str>) -> Seq<Seq<u8>> {
    v.map_values(|x: &str| x.spec_bytes())
}

/// Number of bytes before the first `\n` (the whole length when there is none).
pub open spec fn first_newline(b: Seq<u8>) -> nat
    decreases b.len(),
{
    if b.len() == 0 || b[0] == 10u8 {
        0
    } else {
        1 + first_newline(b.drop_first())
    }
}

/// Removes one trailing `\r`.
pub open spec fn strip_cr(line: Seq<u8>) -> Seq<u8> {
    if line.len() > 0 && line.last() == 13u8 {
        line.drop_last()
    } else {
        line
    }
}

/// The lines of a text: pieces separated by `\n`, a `\r` before a `\n`
/// removed, and no empty piece after a final `\n`.
pub open spec fn spec_lines(b: Seq<u8>) -> Seq<Seq<u8>>
    decreases b.len(),
{
    if b.len() == 0 {
        seq![]
    } else if first_newline(b) < b.len() {
        seq![strip_cr(b.take(first_newline(b) as int))] + spec_lines(
            b.skip(first_newline(b) + 1int),
        )
    } else {
        seq![b]
    }
}

/// `needle` occurs in `hay` at byte offset `i`.
pub open spec fn occurs_at(hay: Seq<u8>, needle: Seq<u8>, i: int) -> bool {
    0 <= i && i + needle.len() <= hay.len() && hay.subrange(i, i + needle.len()) == needle
}

/// `needle` occurs somewhere in `hay`.
pub open spec fn contains_bytes(hay: Seq<u8>, needle: Seq<u8>) -> bool {
    exists|i: int| occurs_at(hay, needle, i)
}

/// `hay` begins with `prefix`.
pub open spec fn starts_with_bytes(hay: Seq<u8>, prefix: Seq<u8>) -> bool {
    prefix.len() <= hay.len() && hay.take(prefix.len() as int) == prefix
}

/// `hay` ends with `suffix`.
pub open spec fn ends_with_bytes(hay: Seq<u8>, suffix: Seq<u8>) -> bool {
    suffix.len() <= hay.len() && hay.skip(hay.len() - suffix.len()) == suffix
}

pub proof fn lemma_str_valid(s: &str)
    ensures
        valid_utf8(s.spec_bytes()),
{
}

/// An ASCII byte of valid UTF-8 starts a character.
pub proof fn lemma_ascii_boundary(b: Seq<u8>, i: int)
    requires
        valid_utf8(b),
        0 <= i < b.len(),
        b[i] < 128,
    ensures
        is_char_boundary(b, i),
{
    is_char_boundary_iff_not_is_continuation_byte(b, i);
}

/// The byte after an ASCII byte of valid UTF-8 starts a character (or is the end).
pub proof fn lemma_boundary_after_ascii(b: Seq<u8>, i: int)
    requires
        valid_utf8(b),
        0 <= i < b.len(),
        b[i] < 128,
    ensures
        is_char_boundary(b, i + 1),
    decreases b.len(),
{
    lemma_ascii_boundary(b, i);
    if i == 0 {
        assert(length_of_first_scalar(b) == 1);
        let p = pop_first_scalar(b);
        assert(is_char_boundary(p, 0));
    } else {
        let l = length_of_first_scalar(b);
        let p = pop_first_scalar(b);
        assert(is_char_boundary(p, i - l));
        assert(p[i - l] == b[i]);
        if i - l >= 0 {
            lemma_boundary_after_ascii(p, i - l);
        }
        assert(is_char_boundary(p, i + 1 - l));
    }
}

proof fn lemma_first_newline(b: Seq<u8>, j: int)
    requires
        0 <= j <= b.len(),
        forall|k: int| 0 <= k < j ==> b[k] != 10u8,
        j == b.len() || b[j] == 10u8,
    ensures
        first_newline(b) == j,
    decreases j,
{
    if j > 0 {
        lemma_first_newline(b.drop_first(), j - 1);
    }
}

/// Splits `s` into lines as `str::lines` does.
pub fn lines(s: &str) -> (out: Vec<&str>)
    ensures
        byte_views(out@) == spec_lines(s.spec_bytes()),
{
    let mut out: Vec<&str> = Vec::new();
    let mut rest: &str = s;
    loop
        invariant
            byte_views(out@) + spec_lines(rest.spec_bytes()) == spec_lines(s.spec_bytes()),
        ensures
            byte_views(out@) + spec_lines(rest.spec_bytes()) == spec_lines(s.spec_bytes()),
            rest.spec_bytes().len() == 0,
        decreases rest.spec_bytes().len(),
    {
        let bytes = rest.as_bytes();
        let n = bytes.len();
        if n == 0 {
            break;
        }
        let mut j: usize = 0;
        while j < n && bytes[j] != 10u8
            invariant
                j <= n,
                n == bytes@.len(),
                bytes@ == rest.spec_bytes(),
                forall|k: int| 0 <= k < j ==> bytes@[k] != 10u8,
            decreases n - j,
        {
            j = j + 1;
        }
        let ghost rb = rest.spec_bytes();
        proof {
            lemma_first_newline(rb, j as int);
            lemma_str_valid(rest);
        }
        if j < n {
            proof {
                lemma_ascii_boundary(rb, j as int);
            }
            let (line, after) = rest.split_at(j);
            let line = strip_trailing_cr(line);
            proof {
                lemma_str_valid(after);
                assert(after.spec_bytes()[0] == 10u8);
                lemma_boundary_after_ascii(after.spec_bytes(), 0);
            }
            let (_nl, next) = after.split_at(1);
            assert(next.spec_bytes() =~= rb.skip(j + 1));
            assert(line.spec_bytes() == strip_cr(rb.take(j as int)));
            let ghost old_out = out@;
            out.push(line);
            assert(byte_views(out@) =~= byte_views(old_out) + seq![line.spec_bytes()]);
            rest = next;
        } else {
            proof {
                is_char_boundary_start_end_of_seq(rb);
            }
            let (all, empty) = rest.split_at(n);
            assert(all.spec_bytes() =~= rb);
            let ghost old_out = out@;
            out.push(all);
            assert(byte_views(out@) =~= byte_views(old_out) + seq![all.spec_bytes()]);
            assert(empty.spec_bytes() =~= Seq::<u8>::empty());
            rest = empty;
        }
    }
    assert(rest.spec_bytes().len() == 0);
    assert(spec_lines(rest.spec_bytes()) =~= Seq::<Seq<u8>>::empty());
    assert(byte_views(out@) + Seq::<Seq<u8>>::empty() =~= byte_views(out@));
    out
}

/// Removes one trailing `\r` from a line.
fn strip_trailing_cr(line: &str) -> (r: &str)
    ensures
        r.spec_bytes() == strip_cr(line.spec_bytes()),
{
    let b = line.as_bytes();
    let n = b.len();
    if n > 0 && b[n - 1] == 13u8 {
        proof {
            lemma_str_valid(line);
            lemma_ascii_boundary(line.spec_bytes(), n - 1);
        }
        let (head, _cr) = line.split_at(n - 1);
        assert(head.spec_bytes() =~= line.spec_bytes().drop_last());
        head
    } else {
        line
    }
}


/// A slice of `b` strictly inside the boundary at `to` keeps its boundaries.
pub proof fn lemma_boundary_in_prefix(b: Seq<u8>, from: int, to: int)
    requires
        valid_utf8(b),
        0 <= from <= to <= b.len(),
        is_char_boundary(b, from),
        is_char_boundary(b, to),
    ensures
        valid_utf8(b.take(to)),
        is_char_boundary(b.take(to), from),
{
    valid_utf8_split(b, to);
    assert(b.take(to) =~= b.subrange(0, to));
    is_char_boundary_start_end_of_seq(b.take(to));
    if from < to {
        is_char_boundary_iff_not_is_continuation_byte(b, from);
        is_char_boundary_iff_not_is_continuation_byte(b.take(to), from);
    }
}

/// The bytes `from..to` of `s`, both ends being character boundaries.
pub fn substr(s: &str, from: usize, to: usize) -> (r: &str)
    requires
        from <= to <= s.spec_bytes().len(),
        is_char_boundary(s.spec_bytes(), from as int),
        is_char_boundary(s.spec_bytes(), to as int),
    ensures
        r.spec_bytes() == s.spec_bytes().subrange(from as int, to as int),
{
    proof {
        lemma_str_valid(s);
        lemma_boundary_in_prefix(s.spec_bytes(), from as int, to as int);
    }
    let (head, _tail) = s.split_at(to);
    assert(head.spec_bytes() =~= s.spec_bytes().take(to as int));
    let (_skip, r) = head.split_at(from);
    assert(r.spec_bytes() =~= s.spec_bytes().subrange(from as int, to as int));
    r
}

/// An empty slice of `s`.
pub fn empty_of(s: &str) -> (r: &str)
    ensures
        r.spec_bytes() == Seq::<u8>::empty(),
        r@ == Seq::<char>::empty(),
{
    proof {
        lemma_str_valid(s);
        is_char_boundary_start_end_of_seq(s.spec_bytes());
    }
    let (r, _rest) = s.split_at(0);
    assert(r.spec_bytes() =~= Seq::<u8>::empty());
    proof {
        assert(decode_utf8(r.spec_bytes()) == r@);
    }
    r
}

/// Whether `needle` occurs in `hay` at byte offset `i`.
fn bytes_match_at(hay: &[u8], needle: &[u8], i: usize) -> (r: bool)
    requires
        i + needle@.len() <= hay@.len(),
    ensures
        r == occurs_at(hay@, needle@, i as int),
{
    let n = needle.len();
    let hl = hay.len();
    let mut j: usize = 0;
    while j < n
        invariant
            j <= n,
            n == needle@.len(),
            hl == hay@.len(),
            i + n <= hay@.len(),
            forall|k: int| 0 <= k < j ==> hay@[i + k] == needle@[k],
        decreases n - j,
    {
        if hay[i + j] != needle[j] {
            assert(hay@.subrange(i as int, i + n)[j as int] != needle@[j as int]);
            return false;
        }
        j = j + 1;
    }
    assert(hay@.subrange(i as int, i + n) =~= needle@);
    true
}

/// Whether `needle` occurs in the bytes of `hay` (`str::contains`).
pub fn contains(hay: &str, needle: &str) -> (r: bool)
    ensures
        r == contains_bytes(hay.spec_bytes(), needle.spec_bytes()),
{
    let h = hay.as_bytes();
    let n = needle.as_bytes();
    if n.len() > h.len() {
        return false;
    }
    let last = h.len() - n.len();
    let mut i: usize = 0;
    loop
        invariant
            i <= last,
            last == h@.len() - n@.len(),
            h@ == hay.spec_bytes(),
            n@ == needle.spec_bytes(),
            forall|k: int| 0 <= k < i ==> !occurs_at(h@, n@, k),
        decreases last - i,
    {
        if bytes_match_at(h, n, i) {
            return true;
        }
        if i == last {
            return false;
        }
        i = i + 1;
    }
}

/// Whether `hay` begins with `prefix` (`str::starts_with`).
pub fn starts_with(hay: &str, prefix: &str) -> (r: bool)
    ensures
        r == starts_with_bytes(hay.spec_bytes(), prefix.spec_bytes()),
{
    let h = hay.as_bytes();
    let p = prefix.as_bytes();
    if p.len() > h.len() {
        return false;
    }
    let r = bytes_match_at(h, p, 0);
    assert(h@.subrange(0, p@.len() as int) =~= h@.take(p@.len() as int));
    r
}

/// Whether `hay` ends with `suffix` (`str::ends_with`).
pub fn ends_with(hay: &str, suffix: &str) -> (r: bool)
    ensures
        r == ends_with_bytes(hay.spec_bytes(), suffix.spec_bytes()),
{
    let h = hay.as_bytes();
    let p = suffix.as_bytes();
    if p.len() > h.len() {
        return false;
    }
    let start = h.len() - p.len();
    let r = bytes_match_at(h, p, start);
    assert(h@.subrange(start as int, h@.len() as int) =~= h@.skip(start as int));
    r
}

/// Whether two strings hold the same characters.
pub fn str_eq(a: &str, b: &str) -> (r: bool)
    ensures
        r == (a@ == b@),
{
    let x = a.as_bytes();
    let y = b.as_bytes();
    if x.len() != y.len() {
        proof {
            if a@ == b@ {
                assert(a.spec_bytes() == b.spec_bytes());
            }
        }
        return false;
    }
    let r = bytes_match_at(x, y, 0);
    assert(x@.subrange(0, y@.len() as int) =~= x@);
    proof {
        if r {
            assert(decode_utf8(a.spec_bytes()) == a@);
            assert(decode_utf8(b.spec_bytes()) == b@);
        } else if a@ == b@ {
            assert(a.spec_bytes() == b.spec_bytes());
        }
    }
    r
}

/// Number of non-overlapping occurrences of a non-empty `needle` in `hay`
/// at or after offset `i`, scanning left to right (`str::matches(..).count()`).
pub open spec fn count_from(hay: Seq<u8>, needle: Seq<u8>, i: int) -> nat
    decreases hay.len() - i,
{
    if needle.len() == 0 || i < 0 || i + needle.len() > hay.len() {
        0
    } else if occurs_at(hay, needle, i) {
        1 + count_from(hay, needle, i + needle.len())
    } else {
        count_from(hay, needle, i + 1)
    }
}

proof fn lemma_count_from_bound(hay: Seq<u8>, needle: Seq<u8>, i: int)
    requires
        0 <= i <= hay.len(),
    ensures
        count_from(hay, needle, i) <= hay.len() - i,
    decreases hay.len() - i,
{
    if needle.len() == 0 || i + needle.len() > hay.len() {
    } else if occurs_at(hay, needle, i) {
        lemma_count_from_bound(hay, needle, i + needle.len());
    } else {
        lemma_count_from_bound(hay, needle, i + 1);
    }
}

/// Number of non-overlapping occurrences of a non-empty `needle` in `hay`.
pub fn count_occurrences(hay: &str, needle: &str) -> (r: usize)
    requires
        needle.spec_bytes().len() > 0,
    ensures
        r == count_from(hay.spec_bytes(), needle.spec_bytes(), 0),
{
    let h = hay.as_bytes();
    let n = needle.as_bytes();
    if n.len() > h.len() {
        return 0;
    }
    let mut i: usize = 0;
    let mut count: usize = 0;
    while i <= h.len() - n.len()
        invariant
            n@.len() > 0,
            n@.len() <= h@.len(),
            i <= h@.len(),
            h@ == hay.spec_bytes(),
            n@ == needle.spec_bytes(),
            count + count_from(h@, n@, i as int) == count_from(h@, n@, 0),
            count <= i,
        decreases h@.len() - i,
    {
        if bytes_match_at(h, n, i) {
            count = count + 1;
            i = i + n.len();
        } else {
            i = i + 1;
        }
    }
    count
}

/// Position of the `n`-th (from 0) `\n` at or after `start`, or the length.
pub open spec fn newline_index(b: Seq<u8>, start: int, n: nat) -> int
    decreases b.len() - start,
{
    if start < 0 || start >= b.len() {
        b.len() as int
    } else if b[start] == 10u8 {
        if n == 0 {
            start
        } else {
            newline_index(b, start + 1, (n - 1) as nat)
        }
    } else {
        newline_index(b, start + 1, n)
    }
}

/// Position of the `n`-th (from 0) `\n` counted back from the end of
/// `b.take(end)`, or 0.
pub open spec fn newline_index_rev(b: Seq<u8>, end: int, n: nat) -> int
    decreases end,
{
    if end <= 0 || end > b.len() {
        0
    } else if b[end - 1] == 10u8 {
        if n == 0 {
            end - 1
        } else {
            newline_index_rev(b, end - 1, (n - 1) as nat)
        }
    } else {
        newline_index_rev(b, end - 1, n)
    }
}

proof fn lemma_newline_index_facts(b: Seq<u8>, start: int, n: nat)
    requires
        0 <= start <= b.len(),
    ensures
        start <= newline_index(b, start, n) <= b.len(),
        newline_index(b, start, n) == b.len() || b[newline_index(b, start, n)] == 10u8,
    decreases b.len() - start,
{
    if start < b.len() {
        if b[start] == 10u8 {
            if n > 0 {
                lemma_newline_index_facts(b, start + 1, (n - 1) as nat);
            }
        } else {
            lemma_newline_index_facts(b, start + 1, n);
        }
    }
}

proof fn lemma_newline_index_rev_facts(b: Seq<u8>, end: int, n: nat)
    requires
        0 <= end <= b.len(),
    ensures
        0 <= newline_index_rev(b, end, n) <= end,
        newline_index_rev(b, end, n) == 0 || (newline_index_rev(b, end, n) < end
            && b[newline_index_rev(b, end, n)] == 10u8),
    decreases end,
{
    if end > 0 {
        if b[end - 1] == 10u8 {
            if n > 0 {
                lemma_newline_index_rev_facts(b, end - 1, (n - 1) as nat);
            }
        } else {
            lemma_newline_index_rev_facts(b, end - 1, n);
        }
    }
}

/// Byte index of the `n`-th newline of `s`, or its length.
pub fn find_newline(s: &str, n: usize) -> (r: usize)
    ensures
        r == newline_index(s.spec_bytes(), 0, n as nat),
        r <= s.spec_bytes().len(),
        r == s.spec_bytes().len() || s.spec_bytes()[r as int] == 10u8,
{
    let b = s.as_bytes();
    let len = b.len();
    let mut i: usize = 0;
    let mut k: usize = n;
    proof {
        lemma_newline_index_facts(b@, 0, n as nat);
    }
    while i < len
        invariant
            i <= len,
            len == b@.len(),
            b@ == s.spec_bytes(),
            newline_index(b@, i as int, k as nat) == newline_index(b@, 0, n as nat),
        decreases len - i,
    {
        if b[i] == 10u8 {
            if k == 0 {
                return i;
            }
            k = k - 1;
        }
        i = i + 1;
    }
    len
}

/// Byte index of the `n`-th newline of `s` counting back from position
/// `end`, or 0.
pub fn rfind_newline(s: &str, end: usize, n: usize) -> (r: usize)
    requires
        end <= s.spec_bytes().len(),
    ensures
        r == newline_index_rev(s.spec_bytes(), end as int, n as nat),
        r <= end,
        r == 0 || (r < end && s.spec_bytes()[r as int] == 10u8),
{
    let b = s.as_bytes();
    let mut i: usize = end;
    let mut k: usize = n;
    proof {
        lemma_newline_index_rev_facts(b@, end as int, n as nat);
    }
    while i > 0
        invariant
            i <= end,
            end <= b@.len(),
            b@ == s.spec_bytes(),
            newline_index_rev(b@, i as int, k as nat) == newline_index_rev(b@, end as int, n as nat),
        decreases i,
    {
        if b[i - 1] == 10u8 {
            if k == 0 {
                return i - 1;
            }
            k = k - 1;
        }
        i = i - 1;
    }
    0
}

/// End of the first `n` lines of `b`: the position of its `n`-th newline
/// (counting from 1), or its length where it has fewer; 0 for no lines.
pub open spec fn lines_end(b: Seq<u8>, n: nat) -> int {
    if n == 0 {
        0
    } else {
        newline_index(b, 0, (n - 1) as nat)
    }
}

/// Up to `n` lines from the start of `content`, without the newline that
/// ends the last of them.
pub fn take_n_lines(content: &str, n: usize) -> (r: &str)
    ensures
        r.spec_bytes() == content.spec_bytes().take(lines_end(content.spec_bytes(), n as nat)),
{
    if n == 0 {
        let r = empty_of(content);
        assert(r.spec_bytes() =~= content.spec_bytes().take(0));
        return r;
    }
    let end = find_newline(content, n - 1);
    proof {
        lemma_str_valid(content);
        is_char_boundary_start_end_of_seq(content.spec_bytes());
        if end < content.spec_bytes().len() {
            lemma_ascii_boundary(content.spec_bytes(), end as int);
        }
    }
    let r = substr(content, 0, end);
    assert(r.spec_bytes() =~= content.spec_bytes().take(end as int));
    r
}

/// Sum of the byte lengths of some lines.
pub open spec fn total_len(lines: Seq<Seq<u8>>) -> nat
    decreases lines.len(),
{
    if lines.len() == 0 {
        0
    } else {
        lines[0].len() + total_len(lines.drop_first())
    }
}

proof fn lemma_first_newline_bound(b: Seq<u8>)
    ensures
        first_newline(b) <= b.len(),
    decreases b.len(),
{
    if b.len() > 0 && b[0] != 10u8 {
        lemma_first_newline_bound(b.drop_first());
    }
}

/// The lines of a text hold no more bytes than the text.
pub proof fn lemma_lines_total_len(b: Seq<u8>)
    ensures
        total_len(spec_lines(b)) <= b.len(),
        spec_lines(b).len() <= b.len(),
    decreases b.len(),
{
    lemma_first_newline_bound(b);
    if b.len() > 0 && first_newline(b) < b.len() {
        let j = first_newline(b) as int;
        lemma_lines_total_len(b.skip(j + 1));
        let l = spec_lines(b);
        assert(l.drop_first() =~= spec_lines(b.skip(j + 1)));
        assert(l[0].len() <= j);
        assert(total_len(l) == l[0].len() + total_len(l.drop_first()));
    } else if b.len() > 0 {
        let l = spec_lines(b);
        assert(l.drop_first() =~= Seq::<Seq<u8>>::empty());
        assert(total_len(l.drop_first()) == 0);
        assert(total_len(l) == l[0].len() + total_len(l.drop_first()));
    }
}

/// Lowercase form of a string (Unicode rules of `str::to_lowercase`).
pub uninterp spec fn lowercase(s: Seq<char>) -> Seq<char>;

/// A string of ASCII characters only.
pub open spec fn ascii_only(s: Seq<char>) -> bool {
    forall|i: int| 0 <= i < s.len() ==> (#[trigger] s[i] as u32) < 128
}

/// An ASCII upper-case letter made lower case; any other character kept.
pub open spec fn ascii_lower_char(c: char) -> char {
    if 'A' <= c && c <= 'Z' {
        ((c as u32) + 32) as char
    } else {
        c
    }
}

/// Each ASCII upper-case letter of `s` made lower case.
pub open spec fn ascii_lower(s: Seq<char>) -> Seq<char> {
    s.map_values(|c: char| ascii_lower_char(c))
}

/// `str::to_lowercase`: the lowercase form of `s`, which the contract names
/// `lowercase` (it depends on `s` alone). For ASCII text it maps `A`-`Z` to
/// `a`-`z` and keeps every other character, as Unicode's lowercase mapping
/// does for ASCII.
#[verifier::external_body]
pub fn to_lowercase(s: &str) -> (r: String)
    ensures
        r@ == lowercase(s@),
        ascii_only(s@) ==> r@ == ascii_lower(s@),
{
    s.to_lowercase()
}

/// Whether a character is `"` or `'`.
pub open spec fn is_quote(c: char) -> bool {
    c == '"' || c == '\''
}

/// Number of leading quotes.
pub open spec fn leading_quotes(s: Seq<char>) -> nat
    decreases s.len(),
{
    if s.len() > 0 && is_quote(s[0]) {
        1 + leading_quotes(s.drop_first())
    } else {
        0
    }
}

/// Number of trailing quotes.
pub open spec fn trailing_quotes(s: Seq<char>) -> nat
    decreases s.len(),
{
    if s.len() > 0 && is_quote(s.last()) {
        1 + trailing_quotes(s.drop_last())
    } else {
        0
    }
}

/// `s` with quotes removed from both ends (`str::trim_matches(&['"', '\''])`).
pub open spec fn trim_quotes_spec(s: Seq<char>) -> Seq<char> {
    let front = s.skip(leading_quotes(s) as int);
    front.take(front.len() - trailing_quotes(front))
}

proof fn lemma_leading_quotes(s: Seq<char>, i: int)
    requires
        0 <= i <= s.len(),
        forall|k: int| 0 <= k < i ==> is_quote(s[k]),
        i == s.len() || !is_quote(s[i]),
    ensures
        leading_quotes(s) == i,
    decreases i,
{
    if i > 0 {
        lemma_leading_quotes(s.drop_first(), i - 1);
    }
}

proof fn lemma_trailing_quotes(s: Seq<char>, j: int)
    requires
        0 <= j <= s.len(),
        forall|k: int| j <= k < s.len() ==> is_quote(s[k]),
        j == 0 || !is_quote(s[j - 1]),
    ensures
        trailing_quotes(s) == s.len() - j,
    decreases s.len() - j,
{
    if j < s.len() {
        lemma_trailing_quotes(s.drop_last(), j);
    }
}

/// Removes quotes from both ends of `s`.
pub fn trim_quotes(s: &str) -> (r: &str)
    ensures
        r@ == trim_quotes_spec(s@),
{
    let n = s.unicode_len();
    let mut i: usize = 0;
    while i < n && (s.get_char(i) == '"' || s.get_char(i) == '\'')
        invariant
            i <= n,
            n == s@.len(),
            forall|k: int| 0 <= k < i ==> is_quote(s@[k]),
        decreases n - i,
    {
        i = i + 1;
    }
    let mut j: usize = n;
    while j > i && (s.get_char(j - 1) == '"' || s.get_char(j - 1) == '\'')
        invariant
            i <= j <= n,
            n == s@.len(),
            forall|k: int| j <= k < n ==> is_quote(s@[k]),
        decreases j,
    {
        j = j - 1;
    }
    proof {
        lemma_leading_quotes(s@, i as int);
        let front = s@.skip(i as int);
        lemma_trailing_quotes(front, j - i);
        assert(front.take(front.len() - trailing_quotes(front)) =~= s@.subrange(i as int, j as int));
    }
    s.substring_char(i, j)
}

/// Encoding a concatenation encodes each part.
pub proof fn lemma_encode_concat(a: Seq<char>, b: Seq<char>)
    ensures
        encode_utf8(a + b) == encode_utf8(a) + encode_utf8(b),
    decreases a.len(),
{
    if a.len() == 0 {
        assert(a + b =~= b);
        assert(encode_utf8(a) + encode_utf8(b) =~= encode_utf8(b));
    } else {
        lemma_encode_concat(a.drop_first(), b);
        assert((a + b).drop_first() =~= a.drop_first() + b);
        assert((a + b)[0] == a[0]);
        assert(encode_utf8(a + b) =~= encode_utf8(a) + encode_utf8(b));
    }
}

/// A string's characters are the decoding of its bytes.
pub proof fn lemma_view_is_decoded(s: &str)
    ensures
        s@ == decode_utf8(s.spec_bytes()),
{
}

/// Two string slices with the same bytes hold the same characters.
pub proof fn lemma_same_bytes_same_view(a: &str, b: &str)
    requires
        a.spec_bytes() == b.spec_bytes(),
    ensures
        a@ == b@,
{
    lemma_view_is_decoded(a);
    lemma_view_is_decoded(b);
}

/// The byte length of a string slice.
pub fn byte_len(s: &str) -> (n: usize)
    ensures
        n == s.spec_bytes().len(),
{
    s.as_bytes().len()
}

/// A non-empty string has non-empty bytes.
pub proof fn lemma_nonempty_bytes(s: &str)
    requires
        s@.len() > 0,
    ensures
        s.spec_bytes().len() > 0,
{
    let c = s@;
    assert(encode_utf8(c) == encode_scalar(c[0] as u32) + encode_utf8(c.drop_first()));
}

/// Every occurrence count is at most the length of the text.
pub proof fn lemma_count_bound(hay: Seq<u8>, needle: Seq<u8>)
    ensures
        count_from(hay, needle, 0) <= hay.len(),
{
    lemma_count_from_bound(hay, needle, 0);
}


/// Whether `c` has the Unicode `White_Space` property (`char::is_whitespace`).
pub open spec fn is_ws(c: char) -> bool {
    ('\u{9}' <= c && c <= '\u{d}') || c == ' ' || c == '\u{85}' || c == '\u{a0}' || c == '\u{1680}'
        || ('\u{2000}' <= c && c <= '\u{200a}') || c == '\u{2028}' || c == '\u{2029}'
        || c == '\u{202f}' || c == '\u{205f}' || c == '\u{3000}'
}

/// `char::is_whitespace`.
pub fn is_whitespace(c: char) -> (b: bool)
    ensures
        b == is_ws(c),
{
    ('\u{9}' <= c && c <= '\u{d}') || c == ' ' || c == '\u{85}' || c == '\u{a0}' || c == '\u{1680}'
        || ('\u{2000}' <= c && c <= '\u{200a}') || c == '\u{2028}' || c == '\u{2029}'
        || c == '\u{202f}' || c == '\u{205f}' || c == '\u{3000}'
}

/// The maximal runs of non-whitespace characters of `s`, in order
/// (`str::split_whitespace`).
pub open spec fn words(s: Seq<char>) -> Seq<Seq<char>>
    decreases s.len(),
{
    if s.len() == 0 {
        seq![]
    } else if is_ws(s.last()) {
        words(s.drop_last())
    } else if s.len() > 1 && !is_ws(s[s.len() - 2]) {
        let w = words(s.drop_last());
        w.update(w.len() - 1, w.last().push(s.last()))
    } else {
        words(s.drop_last()).push(seq![s.last()])
    }
}

/// The character views of some string slices.
pub open spec fn str_views(v: Seq<&str>) -> Seq<Seq<char>> {
    v.map_values(|x: &str| x@)
}

/// Splits `s` at whitespace, as `str::split_whitespace` does.
pub fn split_whitespace(s: &str) -> (out: Vec<&str>)
    ensures
        str_views(out@) == words(s@),
{
    let n = s.unicode_len();
    let mut out: Vec<&str> = Vec::new();
    let mut start: usize = 0;
    let mut in_word = false;
    let mut i: usize = 0;
    while i < n
        invariant
            i <= n,
            n == s@.len(),
            start <= i,
            in_word <==> (i > 0 && !is_ws(s@[i - 1])),
            in_word ==> start < i && words(s@.take(i as int)) == str_views(out@).push(s@.subrange(start as int, i as int)),
            !in_word ==> words(s@.take(i as int)) == str_views(out@),
        decreases n - i,
    {
        let c = s.get_char(i);
        let ghost t = s@.take(i + 1);
        assert(t.drop_last() =~= s@.take(i as int));
        assert(t.last() == c);
        if i > 0 {
            assert(t[t.len() - 2] == s@[i - 1]);
        }
        if is_whitespace(c) {
            if in_word {
                let w = s.substring_char(start, i);
                out.push(w);
                assert(str_views(out@) =~= words(s@.take(i as int)));
            }
            in_word = false;
        } else {
            if in_word {
                proof {
                    let w = words(s@.take(i as int));
                    assert(s@.subrange(start as int, i as int).push(c) =~= s@.subrange(start as int, i + 1));
                    assert(w.update(w.len() - 1, w.last().push(c)) =~= str_views(out@).push(
                        s@.subrange(start as int, i + 1),
                    ));
                    assert(words(t) == w.update(w.len() - 1, w.last().push(c)));
                }
            } else {
                start = i;
                assert(seq![c] =~= s@.subrange(start as int, i + 1));
                assert(words(t) == words(s@.take(i as int)).push(seq![c]));
                assert(words(t) =~= str_views(out@).push(s@.subrange(start as int, i + 1)));
            }
            in_word = true;
        }
        i = i + 1;
    }
    assert(s@.take(n as int) =~= s@);
    if in_word {
        let w = s.substring_char(start, n);
        out.push(w);
        assert(str_views(out@) =~= words(s@));
    }
    out
}

} // verus!
