//! Character classes, ASCII case folding and filename sanitization.
use vstd::prelude::*;

verus! {

/// ASCII letters and digits.
pub open spec fn is_ascii_alnum(c: char) -> bool {
    ('a' <= c && c <= 'z') || ('A' <= c && c <= 'Z') || ('0' <= c && c <= '9')
}

pub open spec fn is_ascii_upper(c: char) -> bool {
    'A' <= c && c <= 'Z'
}

/// ASCII upper-case letters are mapped to lower case; every other
/// character is kept.
pub open spec fn lower_char(c: char) -> char {
    if is_ascii_upper(c) {
        ((c as u32) + 32) as char
    } else {
        c
    }
}

/// Whether `char::is_alphanumeric` holds of `c` (Unicode Alphabetic or Numeric).
pub uninterp spec fn alnum_of(c: char) -> bool;

/// Relies on `char::is_alphanumeric`: the Unicode Alphabetic or Numeric
/// property, which on ASCII holds of the letters and digits alone.
#[verifier::external_body]
pub(crate) fn is_alphanumeric(c: char) -> (r: bool)
    ensures
        r == alnum_of(c),
        (c as u32) < 128 ==> r == is_ascii_alnum(c),
{
    c.is_alphanumeric()
}

/// Relies on `String::push`: appends one character.
#[verifier::external_body]
pub(crate) fn push_char(s: &mut String, c: char)
    ensures
        final(s)@ == old(s)@.push(c),
{
    s.push(c)
}

/// Whether `c` is an ASCII letter or digit.
pub fn is_ascii_alphanumeric(c: char) -> (r: bool)
    ensures
        r == is_ascii_alnum(c),
{
    ('a' <= c && c <= 'z') || ('A' <= c && c <= 'Z') || ('0' <= c && c <= '9')
}

/// ASCII case folding of one character.
pub fn to_ascii_lower(c: char) -> (r: char)
    ensures
        r == lower_char(c),
{
    if 'A' <= c && c <= 'Z' {
        let b: u8 = c as u8;
        (b + 32) as char
    } else {
        c
    }
}


/// Scan of a stem from left to right: the characters kept so far, and
/// whether a separator has been seen since the last kept character.
pub open spec fn scan_stem(s: Seq<char>) -> (Seq<char>, bool)
    decreases s.len(),
{
    if s.len() == 0 {
        (Seq::empty(), false)
    } else {
        let (out, pending) = scan_stem(s.drop_last());
        let c = s.last();
        if is_ascii_alnum(c) {
            if pending && out.len() > 0 {
                (out.push('-').push(lower_char(c)), false)
            } else {
                (out.push(lower_char(c)), false)
            }
        } else {
            (out, true)
        }
    }
}

/// The stem used when nothing alphanumeric is left.
pub open spec fn fallback_stem() -> Seq<char> {
    seq!['o', 'u', 't', 'p', 'u', 't']
}

/// A file stem with every run of characters other than ASCII letters and
/// digits turned into a single hyphen, hyphens at either end dropped, ASCII letters lower-cased,
/// and `output` in place of an empty result.
pub open spec fn sanitized(s: Seq<char>) -> Seq<char> {
    let out = scan_stem(s).0;
    if out.len() == 0 {
        fallback_stem()
    } else {
        out
    }
}

/// A character that a sanitized stem may hold.
pub open spec fn clean_char(c: char) -> bool {
    c == '-' || ('a' <= c && c <= 'z') || ('0' <= c && c <= '9')
}

/// The shape of a sanitized stem: clean characters, no hyphen at either
/// end, no two hyphens in a row.
pub open spec fn is_clean_stem(o: Seq<char>) -> bool {
    &&& forall|i: int| 0 <= i < o.len() ==> clean_char(#[trigger] o[i])
    &&& o.len() > 0 ==> o[0] != '-' && o.last() != '-'
    &&& forall|i: int| 0 <= i < o.len() - 1 ==> !(#[trigger] o[i] == '-' && o[i + 1] == '-')
}

/// Sanitizes a file stem (the file name without its extension) into a
/// name that is safe on any file system.
pub fn sanitize_stem(stem: &str) -> (r: String)
    ensures
        r@ == sanitized(stem@),
{
    let n = stem.unicode_len();
    let mut out = String::new();
    let mut pending = false;
    let mut i: usize = 0;
    while i < n
        invariant
            n == stem@.len(),
            i <= n,
            (out@, pending) == scan_stem(stem@.subrange(0, i as int)),
        decreases n - i,
    {
        let c = stem.get_char(i);
        proof {
            let p = stem@.subrange(0, i as int + 1);
            assert(p.drop_last() =~= stem@.subrange(0, i as int));
            assert(p.last() == c);
        }
        if is_ascii_alphanumeric(c) {
            if pending && out.unicode_len() > 0 {
                push_char(&mut out, '-');
            }
            push_char(&mut out, to_ascii_lower(c));
            pending = false;
        } else {
            pending = true;
        }
        i = i + 1;
    }
    assert(stem@.subrange(0, n as int) =~= stem@);
    if out.unicode_len() == 0 {
        let fallback = String::from_str("output");
        proof {
            reveal_strlit("output");
            assert(fallback@ =~= fallback_stem());
        }
        fallback
    } else {
        out
    }
}


/// Every character of `s` folded by [`lower_char`].
pub open spec fn lower_seq(s: Seq<char>) -> Seq<char> {
    s.map_values(|c: char| lower_char(c))
}

/// ASCII case folding of a string.
pub fn to_ascii_lowercase(s: &str) -> (r: String)
    ensures
        r@ == lower_seq(s@),
{
    let n = s.unicode_len();
    let mut out = String::new();
    let mut i: usize = 0;
    while i < n
        invariant
            n == s@.len(),
            i <= n,
            out@ == lower_seq(s@.subrange(0, i as int)),
        decreases n - i,
    {
        let c = s.get_char(i);
        push_char(&mut out, to_ascii_lower(c));
        assert(lower_seq(s@.subrange(0, i as int + 1)) =~= lower_seq(s@.subrange(0, i as int)).push(
            lower_char(c),
        ));
        i = i + 1;
    }
    assert(s@.subrange(0, n as int) =~= s@);
    out
}

/// Index of the last `.` in `s`, or -1 when there is none.
pub open spec fn last_dot(s: Seq<char>) -> int
    decreases s.len(),
{
    if s.len() == 0 {
        -1
    } else if s.last() == '.' {
        s.len() - 1
    } else {
        last_dot(s.drop_last())
    }
}

/// A file name split at its last dot into stem and extension. A name with
/// no dot, or whose only dot leads it (`.profile`), has no extension.
pub open spec fn split_ext(name: Seq<char>) -> Option<(Seq<char>, Seq<char>)> {
    let d = last_dot(name);
    if d <= 0 {
        None
    } else {
        Some((name.subrange(0, d), name.subrange(d + 1, name.len() as int)))
    }
}

/// The lower-cased extension of a file name, if it has one.
pub open spec fn ext_of(name: Seq<char>) -> Option<Seq<char>> {
    match split_ext(name) {
        None => None,
        Some((_, e)) => Some(lower_seq(e)),
    }
}

/// A file name with its stem sanitized and its extension kept.
pub open spec fn sanitized_file_name(name: Seq<char>) -> Seq<char> {
    match split_ext(name) {
        None => sanitized(name),
        Some((stem, e)) => sanitized(stem).push('.') + e,
    }
}

proof fn lemma_last_dot_range(s: Seq<char>)
    ensures
        -1 <= last_dot(s) < s.len(),
        last_dot(s) >= 0 ==> s[last_dot(s)] == '.',
    decreases s.len(),
{
    if s.len() > 0 && s.last() != '.' {
        lemma_last_dot_range(s.drop_last());
    }
}

/// Position of the last dot of a file name, or -1.
fn find_last_dot(name: &str) -> (r: Option<usize>)
    ensures
        match r {
            None => last_dot(name@) == -1,
            Some(d) => last_dot(name@) == d,
        },
{
    let n = name.unicode_len();
    let mut last: Option<usize> = None;
    let mut i: usize = 0;
    while i < n
        invariant
            n == name@.len(),
            i <= n,
            match last {
                None => last_dot(name@.subrange(0, i as int)) == -1,
                Some(d) => last_dot(name@.subrange(0, i as int)) == d,
            },
        decreases n - i,
    {
        assert(name@.subrange(0, i as int + 1).drop_last() =~= name@.subrange(0, i as int));
        if name.get_char(i) == '.' {
            last = Some(i);
        }
        i = i + 1;
    }
    assert(name@.subrange(0, n as int) =~= name@);
    last
}

/// Splits a file name into stem and extension at its last dot.
pub fn split_extension(name: &str) -> (r: Option<(String, String)>)
    ensures
        match r {
            None => split_ext(name@) is None,
            Some((st, e)) => split_ext(name@) == Some((st@, e@)),
        },
{
    proof {
        lemma_last_dot_range(name@);
    }
    let du = match find_last_dot(name) {
        None => return None,
        Some(d) => d,
    };
    if du == 0 {
        None
    } else {
        let n = name.unicode_len();
        let stem = name.substring_char(0, du);
        let e = name.substring_char(du + 1, n);
        Some((String::from_str(stem), String::from_str(e)))
    }
}

/// The lower-cased extension of a file name.
pub fn file_extension(name: &str) -> (r: Option<String>)
    ensures
        match r {
            None => ext_of(name@) is None,
            Some(e) => ext_of(name@) == Some(e@),
        },
{
    match split_extension(name) {
        None => None,
        Some((_, e)) => Some(to_ascii_lowercase(e.as_str())),
    }
}

/// Sanitizes the stem of a file name and keeps its extension:
/// `Design File.dst` becomes `design-file.dst`.
pub fn sanitize_filename(name: &str) -> (r: String)
    ensures
        r@ == sanitized_file_name(name@),
{
    match split_extension(name) {
        None => sanitize_stem(name),
        Some((stem, e)) => {
            let mut out = sanitize_stem(stem.as_str());
            push_char(&mut out, '.');
            out.append(e.as_str());
            out
        },
    }
}


proof fn lemma_lower_clean(c: char)
    requires
        is_ascii_alnum(c),
    ensures
        clean_char(lower_char(c)),
        lower_char(c) != '-',
        !is_ascii_upper(c) ==> lower_char(c) == c,
{
}

proof fn lemma_scan_clean(s: Seq<char>)
    ensures
        is_clean_stem(scan_stem(s).0),
    decreases s.len(),
{
    if s.len() > 0 {
        lemma_scan_clean(s.drop_last());
        let c = s.last();
        if is_ascii_alnum(c) {
            lemma_lower_clean(c);
        }
        let out = scan_stem(s).0;
        assert forall|i: int| 0 <= i < out.len() - 1 implies !(#[trigger] out[i] == '-' && out[i
            + 1] == '-') by {}
    }
}

proof fn lemma_scan_of_clean(o: Seq<char>, k: int)
    requires
        is_clean_stem(o),
        0 <= k <= o.len(),
    ensures
        k > 0 && o[k - 1] == '-' ==> scan_stem(o.subrange(0, k)) == (o.subrange(0, k - 1), true),
        !(k > 0 && o[k - 1] == '-') ==> scan_stem(o.subrange(0, k)) == (o.subrange(0, k), false),
    decreases k,
{
    if k > 0 {
        lemma_scan_of_clean(o, k - 1);
        let p = o.subrange(0, k);
        assert(p.drop_last() =~= o.subrange(0, k - 1));
        let c = o[k - 1];
        assert(clean_char(c));
        if c != '-' {
            assert(lower_char(c) == c);
            if k > 1 && o[k - 2] == '-' {
                assert(k - 2 > 0);
                assert(o.subrange(0, k - 2).push('-').push(c) =~= p);
            } else {
                assert(o.subrange(0, k - 1).push(c) =~= p);
            }
        }
    }
}

/// Sanitizing an already sanitized stem gives it back unchanged.
pub proof fn law_sanitize_idempotent(s: Seq<char>)
    ensures
        sanitized(sanitized(s)) == sanitized(s),
{
    let o = sanitized(s);
    lemma_scan_clean(s);
    if scan_stem(s).0.len() == 0 {
        assert(is_clean_stem(o));
    }
    lemma_scan_of_clean(o, o.len() as int);
    assert(o.subrange(0, o.len() as int) =~= o);
}

} // verus!
