//! USB volumes and the choice of the folder that designs are copied into.
use vstd::prelude::*;
use crate::text::push_char;

verus! {

/// A mounted removable volume.
#[derive(Clone, Debug)]
pub struct UsbDrive {
    pub mount_point: String,
    pub name: String,
}

/// `rel` under `base`, with one `/` between them; `base` itself for an
/// empty `rel`.
pub open spec fn joined(base: Seq<char>, rel: Seq<char>) -> Seq<char> {
    if rel.len() == 0 {
        base
    } else if base.len() > 0 && base.last() == '/' {
        base + rel
    } else {
        base.push('/') + rel
    }
}

/// Joins a relative path onto a directory.
pub fn join_path(base: &str, rel: &str) -> (r: String)
    ensures
        r@ == joined(base@, rel@),
{
    let mut out = String::from_str(base);
    let n = base.unicode_len();
    if rel.unicode_len() == 0 {
        return out;
    }
    if !(n > 0 && base.get_char(n - 1) == '/') {
        push_char(&mut out, '/');
    }
    out.append(rel);
    out
}

/// Where a copy goes, given the volumes found and, for each, whether the
/// target folder exists on it.
#[derive(Clone, Debug, PartialEq, Eq)]
pub enum TargetDecision {
    /// No removable volume is mounted.
    NoDrives,
    /// The folder exists on volume `drive`, the first such; `multiple` when
    /// other volumes have it too.
    Found { drive: usize, path: String, multiple: bool },
    /// No volume has the folder: the user may create it on the first one.
    OfferCreate { drive: usize, path: String },
}

/// Index of the first volume on which the folder exists.
fn first_with_dir(has_dir: &Vec<bool>) -> (r: Option<usize>)
    ensures
        match r {
            None => forall|k: int| 0 <= k < has_dir.len() ==> !has_dir[k],
            Some(i) => i < has_dir.len() && has_dir[i as int] && forall|k: int|
                0 <= k < i ==> !has_dir[k],
        },
{
    let mut i: usize = 0;
    while i < has_dir.len()
        invariant
            i <= has_dir.len(),
            forall|k: int| 0 <= k < i ==> !has_dir[k],
        decreases has_dir.len() - i,
    {
        if has_dir[i] {
            return Some(i);
        }
        i = i + 1;
    }
    None
}

/// The folder `relative` on the first volume that has it, if any.
pub fn find_usb_containing_path(drives: &Vec<UsbDrive>, has_dir: &Vec<bool>, relative: &str) -> (r:
    Option<String>)
    requires
        drives.len() == has_dir.len(),
    ensures
        match r {
            None => forall|k: int| 0 <= k < has_dir.len() ==> !has_dir[k],
            Some(p) => exists|i: int|
                0 <= i < drives.len() && has_dir[i] && (forall|k: int| 0 <= k < i ==> !has_dir[k])
                    && p@ == joined(drives[i].mount_point@, relative@),
        },
{
    match first_with_dir(has_dir) {
        None => None,
        Some(i) => Some(join_path(drives[i].mount_point.as_str(), relative)),
    }
}

/// The folder named `embf` on the first volume that has it, if any.
pub fn find_embf_directory(drives: &Vec<UsbDrive>, has_dir: &Vec<bool>) -> (r: Option<String>)
    requires
        drives.len() == has_dir.len(),
    ensures
        match r {
            None => forall|k: int| 0 <= k < has_dir.len() ==> !has_dir[k],
            Some(p) => exists|i: int|
                0 <= i < drives.len() && has_dir[i] && (forall|k: int| 0 <= k < i ==> !has_dir[k])
                    && p@ == joined(drives[i].mount_point@, seq!['e', 'm', 'b', 'f']),
        },
{
    let rel = "embf";
    proof {
        reveal_strlit("embf");
    }
    assert(rel@ =~= seq!['e', 'm', 'b', 'f']);
    find_usb_containing_path(drives, has_dir, rel)
}

/// Decides where copies go: the first volume that holds `relative`, or an
/// offer to create it on the first volume, or nowhere when none is mounted.
pub fn resolve_target(drives: &Vec<UsbDrive>, has_dir: &Vec<bool>, relative: &str) -> (r:
    TargetDecision)
    requires
        drives.len() == has_dir.len(),
    ensures
        drives.len() == 0 <==> r == TargetDecision::NoDrives,
        match r {
            TargetDecision::NoDrives => true,
            TargetDecision::Found { drive, path, multiple } => drive < drives.len()
                && has_dir[drive as int] && (forall|k: int| 0 <= k < drive ==> !has_dir[k])
                && path@ == joined(drives[drive as int].mount_point@, relative@)
                && (multiple <==> exists|k: int|
                drive < k < has_dir.len() && has_dir[k]),
            TargetDecision::OfferCreate { drive, path } => drive == 0 && drives.len() > 0
                && (forall|k: int| 0 <= k < has_dir.len() ==> !has_dir[k])
                && path@ == joined(drives[0].mount_point@, relative@),
        },
{
    if drives.len() == 0 {
        return TargetDecision::NoDrives;
    }
    match first_with_dir(has_dir) {
        None => TargetDecision::OfferCreate {
            drive: 0,
            path: join_path(drives[0].mount_point.as_str(), relative),
        },
        Some(i) => {
            let mut multiple = false;
            let mut k: usize = i + 1;
            while k < has_dir.len()
                invariant
                    i < k <= has_dir.len(),
                    multiple <==> exists|j: int| i < j < k && has_dir[j],
                decreases has_dir.len() - k,
            {
                if has_dir[k] {
                    multiple = true;
                }
                k = k + 1;
            }
            TargetDecision::Found {
                drive: i,
                path: join_path(drives[i].mount_point.as_str(), relative),
                multiple,
            }
        },
    }
}

} // verus!
