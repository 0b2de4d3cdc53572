//! Machine records and name resolution: exact lookup on normalized names
//! and ranking of near matches by similarity score.
use vstd::prelude::*;
use crate::dispatch::{contains_string, holds};
use crate::text::{alnum_of, is_alphanumeric, lower_char, lower_seq, push_char, to_ascii_lower};

verus! {

/// An embroidery machine: its name, other names it goes by, the file
/// formats it reads, the folder on its USB stick that it imports from,
/// and free-form notes.
#[derive(Clone, Debug)]
pub struct Machine {
    pub name: String,
    pub synonyms: Vec<String>,
    pub formats: Vec<String>,
    pub usb_path: Option<String>,
    pub notes: Option<String>,
    pub design_size: Option<String>,
}

/// `None` for an absent or empty text.
pub open spec fn non_empty(s: Option<Seq<char>>) -> Option<Seq<char>> {
    match s {
        Some(t) => if t.len() > 0 {
            Some(t)
        } else {
            None
        },
        None => None,
    }
}

pub open spec fn opt_view(s: Option<String>) -> Option<Seq<char>> {
    match s {
        Some(t) => Some(t@),
        None => None,
    }
}

/// A name with everything but letters and digits removed and ASCII
/// letters lower-cased: `Brother-PE800` and `brother pe800` both become
/// `brotherpe800`.
pub open spec fn normalized(s: Seq<char>) -> Seq<char> {
    lower_seq(s.filter(|c: char| alnum_of(c)))
}

/// Whether a record answers to a normalized name, by its name or by one
/// of its synonyms.
pub open spec fn answers_to(m: Machine, q: Seq<char>) -> bool {
    answers_by_names(m.name@, m.synonyms@.map_values(|s: String| s@), q)
}

/// Whether a record with this name and these synonyms answers to the
/// normalized name `q`.
pub open spec fn answers_by_names(name: Seq<char>, synonyms: Seq<Seq<char>>, q: Seq<char>) -> bool {
    normalized(name) == q || exists|j: int|
        0 <= j < synonyms.len() && normalized(#[trigger] synonyms[j]) == q
}

fn opt_non_empty(s: Option<String>) -> (r: Option<String>)
    ensures
        opt_view(r) == non_empty(opt_view(s)),
{
    match s {
        Some(t) => if t.unicode_len() > 0 {
            Some(t)
        } else {
            None
        },
        None => None,
    }
}

impl Machine {
    /// A record; empty optional texts are taken as absent.
    pub fn new(
        name: String,
        synonyms: Vec<String>,
        formats: Vec<String>,
        usb_path: Option<String>,
        notes: Option<String>,
        design_size: Option<String>,
    ) -> (r: Machine)
        ensures
            r.name == name,
            r.synonyms == synonyms,
            r.formats == formats,
            opt_view(r.usb_path) == non_empty(opt_view(usb_path)),
            opt_view(r.notes) == non_empty(opt_view(notes)),
            opt_view(r.design_size) == non_empty(opt_view(design_size)),
    {
        Machine {
            name,
            synonyms,
            formats,
            usb_path: opt_non_empty(usb_path),
            notes: opt_non_empty(notes),
            design_size: opt_non_empty(design_size),
        }
    }

    /// The normalized form of a name, used on both sides of a comparison.
    pub fn normalize_name(s: &str) -> (r: String)
        ensures
            r@ == normalized(s@),
    {
        let n = s.unicode_len();
        let mut out = String::new();
        let mut i: usize = 0;
        while i < n
            invariant
                n == s@.len(),
                i <= n,
                out@ == normalized(s@.subrange(0, i as int)),
            decreases n - i,
        {
            let c = s.get_char(i);
            let ghost pre = s@.subrange(0, i as int);
            proof {
                reveal(Seq::filter);
                assert(s@.subrange(0, i as int + 1).drop_last() =~= pre);
            }
            if is_alphanumeric(c) {
                push_char(&mut out, to_ascii_lower(c));
                assert(normalized(s@.subrange(0, i as int + 1)) =~= out@);
            }
            i = i + 1;
        }
        assert(s@.subrange(0, n as int) =~= s@);
        out
    }

    /// The index of the first record of `catalog` that answers to `name`,
    /// by its name or a synonym, both sides normalized.
    pub fn find_in(catalog: &Vec<Machine>, name: &str) -> (r: Option<usize>)
        ensures
            match r {
                None => forall|i: int|
                    0 <= i < catalog.len() ==> !answers_to(#[trigger] catalog[i], normalized(name@)),
                Some(i) => i < catalog.len() && answers_to(catalog[i as int], normalized(name@))
                    && forall|k: int|
                    0 <= k < i ==> !answers_to(#[trigger] catalog[k], normalized(name@)),
            },
    {
        let q = Machine::normalize_name(name);
        let mut names: Vec<String> = Vec::new();
        let mut synonyms: Vec<Vec<String>> = Vec::new();
        let mut i: usize = 0;
        while i < catalog.len()
            invariant
                i <= catalog.len(),
                names.len() == i,
                synonyms.len() == i,
                forall|k: int|
                    0 <= k < i ==> (#[trigger] names[k])@ == normalized(catalog[k].name@),
                forall|k: int|
                    0 <= k < i ==> (#[trigger] synonyms[k]).len() == catalog[k].synonyms.len(),
                forall|k: int, j: int|
                    0 <= k < i && 0 <= j < catalog[k].synonyms.len() ==> (
                    #[trigger] synonyms[k][j])@ == normalized(catalog[k].synonyms[j]@),
            decreases catalog.len() - i,
        {
            let m = &catalog[i];
            names.push(Machine::normalize_name(m.name.as_str()));
            let mut syns: Vec<String> = Vec::new();
            let mut j: usize = 0;
            while j < m.synonyms.len()
                invariant
                    m == catalog[i as int],
                    j <= m.synonyms.len(),
                    syns.len() == j,
                    forall|x: int|
                        0 <= x < j ==> (#[trigger] syns[x])@ == normalized(m.synonyms[x]@),
                decreases m.synonyms.len() - j,
            {
                syns.push(Machine::normalize_name(m.synonyms[j].as_str()));
                j = j + 1;
            }
            synonyms.push(syns);
            i = i + 1;
        }
        let r = first_match(&names, &synonyms, &q);
        proof {
            assert forall|k: int| 0 <= k < catalog.len() implies answers_to(
                #[trigger] catalog[k],
                q@,
            ) == matches_at(names@, synonyms@, q@, k) by {
                let sv = catalog[k].synonyms@.map_values(|s: String| s@);
                if answers_to(catalog[k], q@) && normalized(catalog[k].name@) != q@ {
                    let j = choose|j: int| 0 <= j < sv.len() && normalized(#[trigger] sv[j]) == q@;
                    assert(synonyms[k][j]@ == q@);
                }
                if matches_at(names@, synonyms@, q@, k) && names[k]@ != q@ {
                    let j = choose|j: int|
                        0 <= j < synonyms[k].len() && (#[trigger] synonyms[k][j])@ == q@;
                    assert(normalized(sv[j]) == q@);
                }
            }
        }
        r
    }
}

/// Whether entry `k` of a normalized table answers to `q`: its name or
/// one of its synonyms equals `q`.
pub open spec fn matches_at(names: Seq<String>, synonyms: Seq<Vec<String>>, q: Seq<char>, k: int) -> bool {
    names[k]@ == q || exists|j: int| 0 <= j < synonyms[k].len() && (#[trigger] synonyms[k][j])@ == q
}

/// Given each record's normalized name (`names[k]`) and normalized
/// synonyms (`synonyms[k]`), the first record that answers to the
/// normalized query `q`.
pub fn first_match(names: &Vec<String>, synonyms: &Vec<Vec<String>>, q: &String) -> (r: Option<usize>)
    requires
        names.len() == synonyms.len(),
    ensures
        match r {
            None => forall|k: int| 0 <= k < names.len() ==> !matches_at(names@, synonyms@, q@, k),
            Some(i) => i < names.len() && matches_at(names@, synonyms@, q@, i as int) && forall|k: int|
                0 <= k < i ==> !matches_at(names@, synonyms@, q@, k),
        },
{
    let mut i: usize = 0;
    while i < names.len()
        invariant
            i <= names.len() == synonyms.len(),
            forall|k: int| 0 <= k < i ==> !matches_at(names@, synonyms@, q@, k),
        decreases names.len() - i,
    {
        if names[i] == *q {
            return Some(i);
        }
        let syns = &synonyms[i];
        let mut j: usize = 0;
        while j < syns.len()
            invariant
                i < names.len() == synonyms.len(),
                syns == synonyms[i as int],
                names[i as int]@ != q@,
                forall|k: int| 0 <= k < i ==> !matches_at(names@, synonyms@, q@, k),
                j <= syns.len(),
                forall|x: int| 0 <= x < j ==> (#[trigger] syns[x])@ != q@,
            decreases syns.len() - j,
        {
            if syns[j] == *q {
                assert(synonyms@[i as int][j as int]@ == q@);
                return Some(i);
            }
            j = j + 1;
        }
        i = i + 1;
    }
    None
}

/// Lookup depends on the normalized query alone: names that differ only
/// in case or punctuation find the same record.
pub proof fn law_lookup_ignores_case_and_punctuation(c: Seq<Machine>, a: Seq<char>, b: Seq<char>)
    requires
        normalized(a) == normalized(b),
    ensures
        forall|i: int| 0 <= i < c.len() ==> answers_to(#[trigger] c[i], normalized(a)) == answers_to(
            c[i],
            normalized(b),
        ),
{
}

/// The highest of a record's scores (its name's and its synonyms'), 0
/// when it has none.
pub open spec fn best_score(s: Seq<u32>) -> u32
    decreases s.len(),
{
    if s.len() == 0 {
        0
    } else {
        let b = best_score(s.drop_last());
        if s.last() > b {
            s.last()
        } else {
            b
        }
    }
}

/// `r` lists the records whose best score reaches `threshold`, each once,
/// highest score first and, among equal scores, in catalog order.
pub open spec fn is_ranking(scores: Seq<Seq<u32>>, threshold: u32, r: Seq<usize>) -> bool {
    &&& forall|k: int| 0 <= k < r.len() ==> #[trigger] r[k] < scores.len()
    &&& forall|i: int|
        0 <= i < scores.len() ==> (best_score(#[trigger] scores[i]) >= threshold <==> r.contains(
            i as usize,
        ))
    &&& forall|a: int, b: int|
        0 <= a < b < r.len() ==> ranks_before(scores, #[trigger] r[a], #[trigger] r[b])
}

pub open spec fn ranks_before(scores: Seq<Seq<u32>>, x: usize, y: usize) -> bool {
    best_score(scores[x as int]) > best_score(scores[y as int]) || (best_score(scores[x as int])
        == best_score(scores[y as int]) && x < y)
}

fn best_of(s: &Vec<u32>) -> (r: u32)
    ensures
        r == best_score(s@),
{
    let mut b: u32 = 0;
    let mut i: usize = 0;
    while i < s.len()
        invariant
            i <= s.len(),
            b == best_score(s@.subrange(0, i as int)),
        decreases s.len() - i,
    {
        assert(s@.subrange(0, i as int + 1).drop_last() =~= s@.subrange(0, i as int));
        if s[i] > b {
            b = s[i];
        }
        i = i + 1;
    }
    assert(s@.subrange(0, i as int) =~= s@);
    b
}

/// Ranks records by similarity to a query. `scores[i]` holds the
/// similarity scores of record `i`'s name and synonyms to the query; the
/// result lists the records whose best score is at least `threshold`,
/// best first, ties in catalog order.
pub fn rank_similar(scores: &Vec<Vec<u32>>, threshold: u32) -> (r: Vec<usize>)
    ensures
        is_ranking(scores@.map_values(|v: Vec<u32>| v@), threshold, r@),
{
    let ghost sv = scores@.map_values(|v: Vec<u32>| v@);
    let mut r: Vec<usize> = Vec::new();
    let mut i: usize = 0;
    while i < scores.len()
        invariant
            i <= scores.len(),
            sv == scores@.map_values(|v: Vec<u32>| v@),
            forall|k: int| 0 <= k < r.len() ==> #[trigger] r[k] < i,
            forall|j: int|
                0 <= j < i ==> (best_score(#[trigger] sv[j]) >= threshold <==> r@.contains(
                    j as usize,
                )),
            forall|a: int, b: int|
                0 <= a < b < r.len() ==> ranks_before(sv, #[trigger] r[a], #[trigger] r[b]),
        decreases scores.len() - i,
    {
        let bi = best_of(&scores[i]);
        assert(sv[i as int] == scores[i as int]@);
        if bi >= threshold {
            let mut pos: usize = 0;
            while pos < r.len() && best_of(&scores[r[pos]]) >= bi
                invariant
                    pos <= r.len(),
                    i < scores.len(),
                    sv == scores@.map_values(|v: Vec<u32>| v@),
                    forall|k: int| 0 <= k < r.len() ==> #[trigger] r[k] < i,
                    forall|k: int| 0 <= k < pos ==> best_score(sv[#[trigger] r[k] as int]) >= bi,
                decreases r.len() - pos,
            {
                pos = pos + 1;
            }
            proof {
                if pos < r.len() {
                    assert(best_score(sv[r[pos as int] as int]) < bi);
                }
            }
            let ghost old_r = r@;
            r.insert(pos, i);
            proof {
                assert forall|k: int| 0 <= k < r.len() implies #[trigger] r[k] < i + 1 by {
                    if k < pos {
                        assert(r[k] == old_r[k]);
                    } else if k > pos {
                        assert(r[k] == old_r[k - 1]);
                    }
                }
                assert forall|j: int|
                    0 <= j < i + 1 implies (best_score(#[trigger] sv[j]) >= threshold
                    <==> r@.contains(j as usize)) by {
                    if j < i {
                        if old_r.contains(j as usize) {
                            let k = choose|k: int| 0 <= k < old_r.len() && old_r[k] == j as usize;
                            if k < pos {
                                assert(r[k] == j as usize);
                            } else {
                                assert(r[k + 1] == j as usize);
                            }
                        }
                        if r@.contains(j as usize) {
                            let k = choose|k: int| 0 <= k < r.len() && r[k] == j as usize;
                            if k < pos {
                                assert(old_r[k] == j as usize);
                            } else if k > pos {
                                assert(old_r[k - 1] == j as usize);
                            }
                        }
                    } else {
                        assert(r[pos as int] == i);
                    }
                }
                assert forall|a: int, b: int|
                    0 <= a < b < r.len() implies ranks_before(sv, #[trigger] r[a], #[trigger] r[b]) by {
                    if b < pos {
                        assert(r[a] == old_r[a] && r[b] == old_r[b]);
                    } else if b == pos {
                        assert(r[a] == old_r[a]);
                    } else if a < pos {
                        assert(r[a] == old_r[a] && r[b] == old_r[b - 1]);
                    } else if a == pos {
                        assert(r[b] == old_r[b - 1]);
                        if b - 1 > pos {
                            assert(ranks_before(sv, old_r[pos as int], old_r[b - 1]));
                        }
                    } else {
                        assert(r[a] == old_r[a - 1] && r[b] == old_r[b - 1]);
                    }
                }
            }
        } else {
            assert(!r@.contains(i));
        }
        i = i + 1;
    }
    r
}

/// With a threshold that no record reaches, the ranking is empty.
pub proof fn law_no_match_above_threshold(scores: Seq<Seq<u32>>, threshold: u32, r: Seq<usize>)
    requires
        is_ranking(scores, threshold, r),
        forall|i: int| 0 <= i < scores.len() ==> best_score(#[trigger] scores[i]) < threshold,
    ensures
        r.len() == 0,
{
    if r.len() > 0 {
        let i = r[0] as int;
        assert(r.contains(i as usize));
        assert(best_score(scores[i]) < threshold);
    }
}

/// The positions of the records of `catalog` that read `format`, in
/// catalog order.
pub fn machines_for_format(catalog: &Vec<Machine>, format: &str) -> (r: Vec<usize>)
    ensures
        forall|k: int| 0 <= k < r.len() ==> #[trigger] r[k] < catalog.len(),
        forall|a: int, b: int| 0 <= a < b < r.len() ==> #[trigger] r[a] < #[trigger] r[b],
        forall|i: int|
            0 <= i < catalog.len() ==> (r@.contains(i as usize) <==> holds(
                (#[trigger] catalog[i]).formats@,
                format@,
            )),
{
    let mut r: Vec<usize> = Vec::new();
    let mut i: usize = 0;
    while i < catalog.len()
        invariant
            i <= catalog.len(),
            forall|k: int| 0 <= k < r.len() ==> #[trigger] r[k] < i,
            forall|a: int, b: int| 0 <= a < b < r.len() ==> #[trigger] r[a] < #[trigger] r[b],
            forall|j: int|
                0 <= j < i ==> (r@.contains(j as usize) <==> holds(
                    (#[trigger] catalog[j]).formats@,
                    format@,
                )),
        decreases catalog.len() - i,
    {
        let ghost before = r@;
        if contains_string(&catalog[i].formats, format) {
            r.push(i);
            proof {
                assert forall|j: int| 0 <= j < i implies (#[trigger] r@.contains(j as usize) <==> before.contains(j as usize)) by {
                    if before.contains(j as usize) {
                        let k = choose|k: int| 0 <= k < before.len() && before[k] == j as usize;
                        assert(r@[k] == j as usize);
                    }
                }
                assert(r@[r.len() - 1] == i);
            }
        } else {
            assert(!r@.contains(i));
        }
        i = i + 1;
    }
    r
}

} // verus!
