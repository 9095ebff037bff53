//! File names and extensions of `/`-separated paths, as `std::path::Path`
//! computes them on Unix.
use vstd::prelude::*;
use vstd::utf8::*;
use vstd::string::*;
use crate::text::{lemma_ascii_boundary, lemma_boundary_after_ascii, lemma_str_valid, substr};

verus! {

broadcast use vstd::utf8::group_utf8_lib;

/// Start of the path piece ending at `end`: just after the last `/` before `end`.
pub open spec fn piece_start(b: Seq<u8>, end: int) -> int
    decreases end,
{
    if end <= 0 || end > b.len() {
        0
    } else if b[end - 1] == 47u8 {
        end
    } else {
        piece_start(b, end - 1)
    }
}

pub proof fn lemma_piece_start(b: Seq<u8>, end: int)
    ensures
        0 <= end ==> 0 <= piece_start(b, end) <= end,
        0 < end <= b.len() && b[end - 1] != 47u8 ==> piece_start(b, end) < end,
        0 < end <= b.len() ==> forall|k: int| piece_start(b, end) <= k < end ==> b[k] != 47u8,
        0 < end <= b.len() && piece_start(b, end) > 0 ==> b[piece_start(b, end) - 1] == 47u8,
    decreases end,
{
    if 0 < end <= b.len() && b[end - 1] != 47u8 {
        lemma_piece_start(b, end - 1);
    }
}

/// Byte range of the last piece of `b.take(end)` that is neither empty nor `.`.
pub open spec fn last_piece(b: Seq<u8>, end: int) -> Option<(int, int)>
    decreases end,
{
    if end <= 0 || end > b.len() {
        None
    } else if b[end - 1] == 47u8 {
        last_piece(b, end - 1)
    } else {
        let s = piece_start(b, end);
        if end - s == 1 && b[s] == 46u8 {
            proof {
                lemma_piece_start(b, end);
            }
            last_piece(b, s)
        } else {
            Some((s, end))
        }
    }
}

/// Byte range of the file name of a path (`Path::file_name`): its last
/// component, unless that is `..` or there is none.
pub open spec fn file_name_range(b: Seq<u8>) -> Option<(int, int)> {
    match last_piece(b, b.len() as int) {
        Some((s, e)) => if b.subrange(s, e) == seq![46u8, 46u8] {
            None
        } else {
            Some((s, e))
        },
        None => None,
    }
}

/// The file name bytes of a path.
pub open spec fn file_name_spec(b: Seq<u8>) -> Option<Seq<u8>> {
    match file_name_range(b) {
        Some((s, e)) => Some(b.subrange(s, e)),
        None => None,
    }
}

/// What a piece found by `last_piece` looks like.
pub open spec fn piece_facts(b: Seq<u8>, s: int, e: int) -> bool {
    &&& 0 <= s < e <= b.len()
    &&& (s == 0 || b[s - 1] == 47u8)
    &&& (e == b.len() || b[e] == 47u8 || b[e] == 46u8)
    &&& forall|k: int| s <= k < e ==> b[k] != 47u8
}

pub proof fn lemma_last_piece(b: Seq<u8>, end: int)
    requires
        0 <= end <= b.len(),
        end == b.len() || b[end] == 47u8 || b[end] == 46u8,
    ensures
        last_piece(b, end) matches Some((s, e)) ==> piece_facts(b, s, e) && e <= end,
    decreases end,
{
    if end > 0 {
        lemma_piece_start(b, end);
        if b[end - 1] == 47u8 {
            lemma_last_piece(b, end - 1);
        } else {
            let s = piece_start(b, end);
            if end - s == 1 && b[s] == 46u8 {
                lemma_last_piece(b, s);
            }
        }
    }
}

/// Start of the piece of `b` ending at `end`.
fn piece_start_exec(b: &[u8], end: usize) -> (r: usize)
    requires
        0 < end <= b@.len(),
    ensures
        r == piece_start(b@, end as int),
{
    let mut i = end;
    while i > 0 && b[i - 1] != 47u8
        invariant
            i <= end,
            end <= b@.len(),
            piece_start(b@, i as int) == piece_start(b@, end as int),
        decreases i,
    {
        i = i - 1;
    }
    i
}

/// Range of the last piece of `b.take(end)` that is neither empty nor `.`.
fn last_piece_exec(b: &[u8], end0: usize) -> (r: Option<(usize, usize)>)
    requires
        end0 <= b@.len(),
    ensures
        match r {
            Some((s, e)) => last_piece(b@, end0 as int) == Some((s as int, e as int)),
            None => last_piece(b@, end0 as int) is None,
        },
{
    let mut end = end0;
    while end > 0
        invariant
            end <= b@.len(),
            last_piece(b@, end as int) == last_piece(b@, end0 as int),
        decreases end,
    {
        if b[end - 1] == 47u8 {
            end = end - 1;
        } else {
            let s = piece_start_exec(b, end);
            proof {
                lemma_piece_start(b@, end as int);
            }
            if end - s == 1 && b[s] == 46u8 {
                end = s;
            } else {
                return Some((s, end));
            }
        }
    }
    None
}

/// Byte range of the file name of `path` (`Path::file_name`).
pub fn file_name_range_exec(path: &str) -> (r: Option<(usize, usize)>)
    ensures
        match r {
            Some((s, e)) => file_name_range(path.spec_bytes()) == Some((s as int, e as int)),
            None => file_name_range(path.spec_bytes()) is None,
        },
{
    let b = path.as_bytes();
    proof {
        lemma_last_piece(b@, b@.len() as int);
    }
    match last_piece_exec(b, b.len()) {
        Some((s, e)) => {
            if e - s == 2 && b[s] == 46u8 && b[s + 1] == 46u8 {
                assert(b@.subrange(s as int, e as int) =~= seq![46u8, 46u8]);
                None
            } else {
                proof {
                    if b@.subrange(s as int, e as int) == seq![46u8, 46u8] {
                        assert(b@.subrange(s as int, e as int).len() == 2);
                        assert(b@.subrange(s as int, e as int)[0] == b@[s as int]);
                        assert(b@.subrange(s as int, e as int)[1] == b@[s + 1]);
                    }
                }
                Some((s, e))
            }
        },
        None => None,
    }
}

/// The file name of a path (`Path::file_name`).
pub fn file_name(path: &str) -> (r: Option<&str>)
    ensures
        match r {
            Some(n) => file_name_spec(path.spec_bytes()) == Some(n.spec_bytes()),
            None => file_name_spec(path.spec_bytes()) is None,
        },
{
    match file_name_range_exec(path) {
        Some((s, e)) => {
            proof {
                let b = path.spec_bytes();
                lemma_str_valid(path);
                lemma_last_piece(b, b.len() as int);
                is_char_boundary_start_end_of_seq(b);
                if s > 0 {
                    lemma_boundary_after_ascii(b, s - 1);
                }
                if e < b.len() {
                    lemma_ascii_boundary(b, e as int);
                }
            }
            Some(substr(path, s, e))
        },
        None => None,
    }
}

/// Position of the last `.` in `n`.
pub open spec fn last_dot(n: Seq<u8>) -> Option<int>
    decreases n.len(),
{
    if n.len() == 0 {
        None
    } else if n.last() == 46u8 {
        Some(n.len() - 1)
    } else {
        last_dot(n.drop_last())
    }
}

proof fn lemma_last_dot(n: Seq<u8>)
    ensures
        last_dot(n) matches Some(d) ==> 0 <= d < n.len() && n[d] == 46u8 && forall|k: int|
            d < k < n.len() ==> n[k] != 46u8,
        last_dot(n) is None ==> forall|k: int| 0 <= k < n.len() ==> n[k] != 46u8,
    decreases n.len(),
{
    if n.len() > 0 && n.last() != 46u8 {
        let m = n.drop_last();
        lemma_last_dot(m);
        assert(forall|k: int| 0 <= k < m.len() ==> m[k] == n[k]);
    }
}

/// The extension of a file name (`Path::extension`): what follows its last
/// `.`, unless the name has no `.` past its first byte (or is `..`).
pub open spec fn extension_of_name(n: Seq<u8>) -> Option<Seq<u8>> {
    if n == seq![46u8, 46u8] {
        None
    } else {
        match last_dot(n) {
            Some(d) => if d > 0 {
                Some(n.skip(d + 1))
            } else {
                None
            },
            None => None,
        }
    }
}

/// The extension of a path (`Path::extension`).
pub open spec fn extension_spec(b: Seq<u8>) -> Option<Seq<u8>> {
    match file_name_spec(b) {
        Some(n) => extension_of_name(n),
        None => None,
    }
}

/// Position of the last `.` of `n`.
fn last_dot_exec(n: &[u8]) -> (r: Option<usize>)
    ensures
        match r {
            Some(d) => last_dot(n@) == Some(d as int),
            None => last_dot(n@) is None,
        },
{
    let mut i = n.len();
    assert(n@.take(i as int) =~= n@);
    while i > 0
        invariant
            i <= n@.len(),
            last_dot(n@.take(i as int)) == last_dot(n@),
        decreases i,
    {
        assert(n@.take(i as int).drop_last() =~= n@.take(i - 1));
        if n[i - 1] == 46u8 {
            return Some(i - 1);
        }
        i = i - 1;
    }
    None
}

/// The extension of a file name.
pub fn name_extension(name: &str) -> (r: Option<&str>)
    ensures
        match r {
            Some(x) => extension_of_name(name.spec_bytes()) == Some(x.spec_bytes()),
            None => extension_of_name(name.spec_bytes()) is None,
        },
{
    let b = name.as_bytes();
    assert(b@.take(b@.len() as int) =~= b@);
    if b.len() == 2 && b[0] == 46u8 && b[1] == 46u8 {
        assert(b@ =~= seq![46u8, 46u8]);
        return None;
    }
    proof {
        if b@ == seq![46u8, 46u8] {
            assert(b@[0] == 46u8 && b@[1] == 46u8);
        }
    }
    match last_dot_exec(b) {
        Some(d) => {
            if d > 0 {
                proof {
                    lemma_last_dot(b@);
                    lemma_str_valid(name);
                    is_char_boundary_start_end_of_seq(b@);
                    lemma_boundary_after_ascii(b@, d as int);
                }
                let x = substr(name, d + 1, b.len());
                assert(x.spec_bytes() =~= b@.skip(d + 1));
                Some(x)
            } else {
                None
            }
        },
        None => None,
    }
}

/// The extension of a path (`Path::extension`).
pub fn extension(path: &str) -> (r: Option<&str>)
    ensures
        match r {
            Some(x) => extension_spec(path.spec_bytes()) == Some(x.spec_bytes()),
            None => extension_spec(path.spec_bytes()) is None,
        },
{
    match file_name(path) {
        Some(n) => name_extension(n),
        None => None,
    }
}


/// Length of the stem of a file name (`Path::file_stem`): the bytes before
/// its last `.`, or all of it where it has no `.` past its first byte.
pub open spec fn stem_len(n: Seq<u8>) -> int {
    match last_dot(n) {
        Some(d) => if d > 0 {
            d
        } else {
            n.len() as int
        },
        None => n.len() as int,
    }
}

/// `.` and the extension, or nothing for an empty extension.
pub open spec fn dot_ext(ext: Seq<u8>) -> Seq<u8> {
    if ext.len() > 0 {
        ".".spec_bytes() + ext
    } else {
        seq![]
    }
}

/// The path with its file name's extension replaced (`Path::with_extension`):
/// cut after the file stem, then `.` and `ext` appended unless `ext` is
/// empty; unchanged without a file name.
pub open spec fn with_extension_spec(b: Seq<u8>, ext: Seq<u8>) -> Seq<u8> {
    match file_name_range(b) {
        Some((s, e)) => b.take(s + stem_len(b.subrange(s, e))) + dot_ext(ext),
        None => b,
    }
}

/// `Path::with_extension`.
pub fn with_extension(path: &str, ext: &str) -> (r: String)
    ensures
        encode_utf8(r@) == with_extension_spec(path.spec_bytes(), ext.spec_bytes()),
{
    let b = path.as_bytes();
    match file_name_range_exec(path) {
        Some((s, e)) => {
            proof {
                lemma_str_valid(path);
                lemma_last_piece(b@, b@.len() as int);
                is_char_boundary_start_end_of_seq(b@);
                if s > 0 {
                    lemma_boundary_after_ascii(b@, s - 1);
                }
                if e < b@.len() {
                    lemma_ascii_boundary(b@, e as int);
                }
            }
            let name = substr(path, s, e);
            let nb = name.as_bytes();
            let stem: usize = match last_dot_exec(nb) {
                Some(d) => if d > 0 {
                    d
                } else {
                    nb.len()
                },
                None => nb.len(),
            };
            proof {
                lemma_last_dot(nb@);
                if stem < nb@.len() {
                    assert(b@[s + stem] == nb@[stem as int]);
                    lemma_ascii_boundary(b@, s + stem);
                }
            }
            let head = substr(path, 0, s + stem);
            assert(head.spec_bytes() =~= b@.take(s + stem));
            let mut r = String::from_str(head);
            if ext.as_bytes().len() > 0 {
                r.append(".");
                r.append(ext);
                proof {
                    crate::text::lemma_encode_concat(head@, "."@);
                    crate::text::lemma_encode_concat(head@ + "."@, ext@);
                    assert(r@ == head@ + "."@ + ext@);
                    assert(encode_utf8(r@) =~= head.spec_bytes() + (".".spec_bytes() + ext.spec_bytes()));
                }
            } else {
                assert(encode_utf8(r@) =~= head.spec_bytes() + dot_ext(ext.spec_bytes()));
            }
            r
        },
        None => String::from_str(path),
    }
}

} // verus!
