//! Decisions of the watch loop and of session setup: keyboard commands,
//! the formats a session accepts, the converter's location, machine-name
//! resolution and the choice of a volume to eject.
use vstd::prelude::*;
use crate::dispatch::{contains_string, holds, Inkscape};
use crate::machine::Machine;
use crate::text::{lower_seq, to_ascii_lowercase};

verus! {

/// What a key press asks of the watch loop.
#[derive(Clone, Copy, Debug, PartialEq, Eq, Structural)]
pub enum KeyCommand {
    Quit,
    Unmount,
    Continue,
}

/// `q`, or `c` with Control held, quits; `u` ejects a volume; any other
/// key is ignored.
pub fn handle_key_event(key: char, control: bool) -> (r: KeyCommand)
    ensures
        r == (if key == 'q' || (key == 'c' && control) {
            KeyCommand::Quit
        } else if key == 'u' {
            KeyCommand::Unmount
        } else {
            KeyCommand::Continue
        }),
{
    if key == 'q' || (key == 'c' && control) {
        KeyCommand::Quit
    } else if key == 'u' {
        KeyCommand::Unmount
    } else {
        KeyCommand::Continue
    }
}

/// Whether the loop may hand another file to the dispatch engine: not
/// once a stop has been requested.
pub fn may_dispatch(stop_requested: bool) -> (r: bool)
    ensures
        r == !stop_requested,
{
    !stop_requested
}

/// The format files are converted into when nothing else decides it.
pub const DEFAULT_FORMAT: &'static str = "dst";

/// The formats a session accepts and the format it converts into.
/// With a machine that lists formats, those are accepted and the preferred
/// format is the one asked for, else the machine's first; otherwise the
/// one format asked for, or the default, is both accepted and preferred.
/// The preferred format is lower-cased; `jef+` becomes `jef` when the
/// converter cannot write `jef+`.
pub fn resolve_formats(
    machine_formats: &Option<Vec<String>>,
    output_format: &Option<String>,
    converter_writes: &Vec<String>,
) -> (r: (Vec<String>, String))
    ensures
        ({
            let (accepted, preferred) = r;
            let asked = match machine_formats {
                Some(f) if f.len() > 0 => match output_format {
                    Some(o) => lower_seq(o@),
                    None => lower_seq(f[0]@),
                },
                _ => match output_format {
                    Some(o) => lower_seq(o@),
                    None => DEFAULT_FORMAT@,
                },
            };
            &&& match machine_formats {
                Some(f) if f.len() > 0 => accepted@ == f@,
                _ => accepted.len() == 1 && accepted[0]@ == asked,
            }
            &&& preferred@ == if asked == "jef+"@ && !holds(converter_writes@, asked) {
                "jef"@
            } else {
                asked
            }
        }),
{
    let (accepted, asked) = match machine_formats {
        Some(f) if f.len() > 0 => {
            let asked = match output_format {
                Some(o) => to_ascii_lowercase(o.as_str()),
                None => to_ascii_lowercase(f[0].as_str()),
            };
            let c = f.clone();
            assert(c@ =~= f@);
            (c, asked)
        },
        _ => {
            let asked = match output_format {
                Some(o) => to_ascii_lowercase(o.as_str()),
                None => String::from_str(DEFAULT_FORMAT),
            };
            let mut v: Vec<String> = Vec::new();
            v.push(asked.clone());
            (v, asked)
        },
    };
    let plus = String::from_str("jef+");
    let preferred = if asked == plus && !contains_string(converter_writes, asked.as_str()) {
        String::from_str("jef")
    } else {
        asked
    };
    (accepted, preferred)
}

/// The next step in resolving a machine name typed by the user.
#[derive(Clone, Debug, PartialEq, Eq)]
pub enum Resolution {
    /// The name matched record `i` exactly.
    Found(usize),
    /// One record came close: ask the user to confirm it.
    Confirm(usize),
    /// Several came close: let the user pick one of them, best first.
    Choose(Vec<usize>),
    /// Nothing matched.
    NotFound,
}

/// An exact match wins; otherwise the near matches (`similar`, best
/// first) decide: one is offered for confirmation, several for a choice.
pub fn resolution_step(exact: Option<usize>, similar: Vec<usize>) -> (r: Resolution)
    ensures
        match exact {
            Some(i) => r == Resolution::Found(i),
            None => if similar.len() == 0 {
                r == Resolution::NotFound
            } else if similar.len() == 1 {
                r == Resolution::Confirm(similar[0])
            } else {
                r is Choose && r->Choose_0@ == similar@
            },
        },
{
    match exact {
        Some(i) => Resolution::Found(i),
        None => if similar.len() == 0 {
            Resolution::NotFound
        } else if similar.len() == 1 {
            Resolution::Confirm(similar[0])
        } else {
            Resolution::Choose(similar)
        },
    }
}

/// The user's answer when asked which volume to eject.
#[derive(Clone, Copy, Debug, PartialEq, Eq, Structural)]
pub enum UnmountChoice {
    /// `q`: eject nothing.
    Cancel,
    /// The volume at this index of the list shown.
    Drive(usize),
    /// A number, but not of a listed volume.
    OutOfRange,
    /// Not a number.
    Invalid,
}

pub open spec fn is_ascii_space(c: char) -> bool {
    c == ' ' || c == '\t' || c == '\n' || c == '\r' || c == '\x0b' || c == '\x0c'
}

/// `s` without ASCII white space at either end.
pub open spec fn trimmed(s: Seq<char>) -> Seq<char>
    decreases s.len(),
{
    if s.len() > 0 && is_ascii_space(s[0]) {
        trimmed(s.drop_first())
    } else if s.len() > 0 && is_ascii_space(s.last()) {
        trimmed(s.drop_last())
    } else {
        s
    }
}

pub open spec fn all_digits(s: Seq<char>) -> bool {
    forall|i: int| 0 <= i < s.len() ==> '0' <= #[trigger] s[i] && s[i] <= '9'
}

/// The number written by the decimal digits `s`.
pub open spec fn decimal(s: Seq<char>) -> nat
    decreases s.len(),
{
    if s.len() == 0 {
        0
    } else {
        (10 * decimal(s.drop_last()) + ((s.last() as u32) - ('0' as u32))) as nat
    }
}

/// The digits of a number as `usize` parsing takes them: an optional `+`
/// and at least one digit.
pub open spec fn number_digits(t: Seq<char>) -> Option<Seq<char>> {
    let d = if t.len() > 0 && t[0] == '+' {
        t.drop_first()
    } else {
        t
    };
    if d.len() > 0 && all_digits(d) {
        Some(d)
    } else {
        None
    }
}

/// The choice written in `input` when `count` volumes were listed,
/// numbered from 1.
pub open spec fn unmount_choice_of(input: Seq<char>, count: nat) -> UnmountChoice {
    let t = trimmed(input);
    if t == seq!['q'] || t == seq!['Q'] {
        UnmountChoice::Cancel
    } else {
        match number_digits(t) {
            None => UnmountChoice::Invalid,
            Some(d) => if decimal(d) > usize::MAX {
                UnmountChoice::Invalid
            } else if 1 <= decimal(d) <= count {
                UnmountChoice::Drive((decimal(d) - 1) as usize)
            } else {
                UnmountChoice::OutOfRange
            },
        }
    }
}

fn trim_ascii(s: &Vec<char>) -> (r: Vec<char>)
    ensures
        r@ == trimmed(s@),
{
    let mut lo: usize = 0;
    let mut hi: usize = s.len();
    assert(s@.subrange(0, s.len() as int) =~= s@);
    while lo < hi && (s[lo] == ' ' || s[lo] == '\t' || s[lo] == '\n' || s[lo] == '\r' || s[lo] == '\x0b' || s[lo] == '\x0c')
        invariant
            lo <= hi == s.len(),
            trimmed(s@) == trimmed(s@.subrange(lo as int, hi as int)),
        decreases hi - lo,
    {
        assert(s@.subrange(lo as int, hi as int).drop_first() =~= s@.subrange(lo + 1, hi as int));
        lo = lo + 1;
    }
    while lo < hi && (s[hi - 1] == ' ' || s[hi - 1] == '\t' || s[hi - 1] == '\n' || s[hi - 1] == '\r' || s[hi - 1] == '\x0b' || s[hi - 1] == '\x0c')
        invariant
            lo <= hi <= s.len(),
            lo < hi ==> !is_ascii_space(s@[lo as int]),
            trimmed(s@) == trimmed(s@.subrange(lo as int, hi as int)),
        decreases hi - lo,
    {
        assert(s@.subrange(lo as int, hi as int).drop_last() =~= s@.subrange(lo as int, hi - 1));
        hi = hi - 1;
    }
    let mut r: Vec<char> = Vec::new();
    let mut k: usize = lo;
    while k < hi
        invariant
            lo <= k <= hi <= s.len(),
            r@ == s@.subrange(lo as int, k as int),
        decreases hi - k,
    {
        r.push(s[k]);
        assert(r@ =~= s@.subrange(lo as int, k + 1));
        k = k + 1;
    }
    r
}

/// Reads the user's answer to the eject prompt: `q` cancels, a number
/// from 1 to `count` picks that volume.
pub fn parse_unmount_choice(input: &str, count: usize) -> (r: UnmountChoice)
    ensures
        r == unmount_choice_of(input@, count as nat),
{
    let n = input.unicode_len();
    let mut cs: Vec<char> = Vec::new();
    let mut i: usize = 0;
    while i < n
        invariant
            n == input@.len(),
            i <= n,
            cs@ == input@.subrange(0, i as int),
        decreases n - i,
    {
        cs.push(input.get_char(i));
        assert(cs@ =~= input@.subrange(0, i as int + 1));
        i = i + 1;
    }
    assert(cs@ =~= input@);
    let t = trim_ascii(&cs);
    assert(trimmed(input@) == t@);
    if t.len() == 1 && (t[0] == 'q' || t[0] == 'Q') {
        assert(t@ =~= seq![t[0]]);
        return UnmountChoice::Cancel;
    }
    assert(!(t@ == seq!['q'] || t@ == seq!['Q']));
    let start: usize = if t.len() > 0 && t[0] == '+' { 1 } else { 0 };
    let ghost d = if t@.len() > 0 && t@[0] == '+' { t@.drop_first() } else { t@ };
    assert(d =~= t@.subrange(start as int, t.len() as int));
    if start >= t.len() {
        assert(number_digits(t@) is None);
        assert(unmount_choice_of(input@, count as nat) == UnmountChoice::Invalid);
        return UnmountChoice::Invalid;
    }
    let mut v: usize = 0;
    let mut k: usize = start;
    while k < t.len()
        invariant
            start <= k <= t.len(),
            start < t.len(),
            d == t@.subrange(start as int, t.len() as int),
            d == (if t@.len() > 0 && t@[0] == '+' { t@.drop_first() } else { t@ }),
            trimmed(input@) == t@,
            !(t@ == seq!['q'] || t@ == seq!['Q']),
            all_digits(t@.subrange(start as int, k as int)),
            v as nat == decimal(t@.subrange(start as int, k as int)),
        decreases t.len() - k,
    {
        let c = t[k];
        let ghost pre = t@.subrange(start as int, k as int);
        assert(t@.subrange(start as int, k + 1).drop_last() =~= pre);
        if !('0' <= c && c <= '9') {
            assert(!all_digits(d)) by {
                assert(d[k - start] == c);
            }
            return UnmountChoice::Invalid;
        }
        let digit: usize = ((c as u32) - ('0' as u32)) as usize;
        let ghost j = (k - start) as int;
        proof {
            assert(t@.subrange(start as int, k + 1) =~= d.subrange(0, j + 1));
            assert(t@.subrange(start as int, k as int) =~= d.subrange(0, j));
            assert(d.subrange(0, j + 1).drop_last() =~= d.subrange(0, j));
        }
        match v.checked_mul(10) {
            None => {
                proof {
                    assert(decimal(d.subrange(0, j + 1)) > usize::MAX);
                    if all_digits(d) {
                        lemma_decimal_prefix(d, j + 1);
                        assert(number_digits(t@) == Some(d));
                    } else {
                        assert(number_digits(t@) is None);
                    }
                }
                return UnmountChoice::Invalid;
            },
            Some(tv) => match tv.checked_add(digit) {
                None => {
                    proof {
                        assert(decimal(d.subrange(0, j + 1)) > usize::MAX);
                        if all_digits(d) {
                            lemma_decimal_prefix(d, j + 1);
                        }
                    }
                    return UnmountChoice::Invalid;
                },
                Some(nv) => {
                    v = nv;
                    proof {
                        assert forall|x: int| 0 <= x < k + 1 - start implies '0' <= #[trigger] t@.subrange(start as int, k + 1)[x] && t@.subrange(start as int, k + 1)[x] <= '9' by {
                            if x < k - start {
                                assert(t@.subrange(start as int, k + 1)[x] == t@.subrange(start as int, k as int)[x]);
                            }
                        }
                    }
                },
            },
        }
        k = k + 1;
    }
    assert(t@.subrange(start as int, k as int) =~= d);
    if 1 <= v && v <= count {
        UnmountChoice::Drive(v - 1)
    } else {
        UnmountChoice::OutOfRange
    }
}

/// A prefix of a run of digits never stands for a larger number.
proof fn lemma_decimal_prefix(d: Seq<char>, j: int)
    requires
        all_digits(d),
        0 <= j <= d.len(),
    ensures
        decimal(d.subrange(0, j)) <= decimal(d),
    decreases d.len(),
{
    if j == d.len() {
        assert(d.subrange(0, j) =~= d);
    } else {
        let e = d.drop_last();
        lemma_decimal_prefix(e, j);
        assert(e.subrange(0, j) =~= d.subrange(0, j));
    }
}

} // verus!
