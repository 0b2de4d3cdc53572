//! The reference catalogs: embroidery file formats and machines.
use vstd::prelude::*;
use crate::machine::{answers_by_names, normalized, Machine};

verus! {

/// An embroidery file format.
#[derive(Clone, Debug)]
pub struct FileFormat {
    pub name: String,
    pub extension: String,
    pub manufacturer: String,
    pub notes: Option<String>,
}

fn format_entry(name: &str, extension: &str, manufacturer: &str, notes: Option<&str>) -> (r:
    FileFormat)
    ensures
        r.name@ == name@,
        r.extension@ == extension@,
{
    FileFormat {
        name: String::from_str(name),
        extension: String::from_str(extension),
        manufacturer: String::from_str(manufacturer),
        notes: match notes {
            Some(n) => Some(String::from_str(n)),
            None => None,
        },
    }
}

/// The extensions of the known formats, in catalog order.
pub open spec fn format_extensions() -> Seq<Seq<char>> {
    seq!["art"@, "csd"@, "dst"@, "exp"@, "fhe"@, "hus"@, "jef"@, "jef+"@, "jpx"@, "pcd"@, "pcm"@, "pcs"@, "pec"@, "pes"@, "psw"@, "sew"@, "vip"@, "vp3"@, "xxx"@, "zsk"@
    ]
}

/// The known embroidery formats.
pub fn file_formats() -> (r: Vec<FileFormat>)
    ensures
        r@.map_values(|f: FileFormat| f.extension@) == format_extensions(),
{
    let mut r: Vec<FileFormat> = Vec::new();
    r.push(format_entry("Bernina Embroidery Format", "art", "Bernina", None));
    r.push(format_entry("Singer Compatible Design", "csd", "Singer", Some("Used by older Singer EU/Poem/Huskygram machines")));
    r.push(format_entry("Tajima", "dst", "Tajima", Some("Industry standard format, widely supported by home and commercial machines")));
    r.push(format_entry("Melco Expanded", "exp", "Melco/Bravo", Some("Used by Bernina and Melco machines")));
    r.push(format_entry("Singer Futura", "fhe", "Singer", Some("Native format for Singer Futura machines")));
    r.push(format_entry("Husqvarna Viking", "hus", "Husqvarna/Viking", None));
    r.push(format_entry("Janome Embroidery Format", "jef", "Janome", None));
    r.push(format_entry("Extended Janome Embroidery Format", "jef+", "Janome", Some("Enhanced version of JEF for larger designs and more advanced edits")));
    r.push(format_entry("Janome Extended", "jpx", "Janome", Some("Janome proprietary format that includes stitch data and background images")));
    r.push(format_entry("Pfaff PCD", "pcd", "Pfaff", None));
    r.push(format_entry("Pfaff PCM", "pcm", "Pfaff", None));
    r.push(format_entry("Pfaff PCS", "pcs", "Pfaff", None));
    r.push(format_entry("Brother (subset of PES)", "pec", "Brother", None));
    r.push(format_entry("Brother Embroidery Format", "pes", "Brother", Some("Brother/Babylock format, popular for home machines")));
    r.push(format_entry("Singer Professional Sew Ware", "psw", "Singer", None));
    r.push(format_entry("Janome/Elna", "sew", "Janome/Elna", None));
    r.push(format_entry("Viking/Pfaff", "vip", "Viking/Pfaff", Some("Legacy format")));
    r.push(format_entry("Viking/Pfaff Phase 3", "vp3", "Viking/Pfaff", Some("Current format for Viking and Pfaff machines")));
    r.push(format_entry("Singer", "xxx", "Singer", None));
    r.push(format_entry("ZSK Embroidery", "zsk", "ZSK", None));
    assert(r@.map_values(|f: FileFormat| f.extension@) =~= format_extensions());
    r
}

impl FileFormat {
    /// The known format with extension `extension`, compared exactly.
    pub fn find_by_extension(extension: &str) -> (r: Option<FileFormat>)
        ensures
            match r {
                None => forall|i: int|
                    0 <= i < format_extensions().len() ==> #[trigger] format_extensions()[i] != extension@,
                Some(f) => f.extension@ == extension@ && known_format(extension@),
            },
    {
        let mut all = file_formats();
        let ghost exts = all@.map_values(|f: FileFormat| f.extension@);
        let target = String::from_str(extension);
        let mut i: usize = 0;
        while i < all.len()
            invariant
                i <= all.len(),
                target@ == extension@,
                exts == all@.map_values(|f: FileFormat| f.extension@),
                exts == format_extensions(),
                forall|k: int| 0 <= k < i ==> #[trigger] exts[k] != extension@,
            decreases all.len() - i,
        {
            if all[i].extension == target {
                assert(exts[i as int] == extension@);
                return Some(all.swap_remove(i));
            }
            assert(exts[i as int] == all[i as int].extension@);
            i = i + 1;
        }
        None
    }
}

pub(crate) fn strings(items: &[&str]) -> (r: Vec<String>)
    ensures
        r.len() == items@.len(),
        forall|k: int| 0 <= k < r.len() ==> (#[trigger] r[k])@ == items@[k]@,
{
    let mut r: Vec<String> = Vec::new();
    let mut i: usize = 0;
    while i < items.len()
        invariant
            i <= items.len(),
            r.len() == i,
            forall|k: int| 0 <= k < i ==> (#[trigger] r[k])@ == items@[k]@,
        decreases items.len() - i,
    {
        r.push(String::from_str(items[i]));
        i = i + 1;
    }
    r
}

fn machine_entry(
    name: &str,
    synonyms: &[&str],
    formats: &[&str],
    usb_path: &str,
    notes: &str,
    design_size: &str,
) -> (r: Machine)
    ensures
        r.name@ == name@,
        r.synonyms.len() == synonyms@.len(),
        forall|k: int| 0 <= k < r.synonyms.len() ==> (#[trigger] r.synonyms[k])@ == synonyms@[k]@,
        r.formats.len() == formats@.len(),
        forall|k: int| 0 <= k < r.formats.len() ==> (#[trigger] r.formats[k])@ == formats@[k]@,
{
    Machine::new(
        String::from_str(name),
        strings(synonyms),
        strings(formats),
        Some(String::from_str(usb_path)),
        Some(String::from_str(notes)),
        Some(String::from_str(design_size)),
    )
}

/// The names of the known machines, in catalog order.
pub open spec fn machine_names() -> Seq<Seq<char>> {
    seq!["Brother PE800"@, "Brother PE535"@, "Brother SE1900"@, "Brother Innov-is NQ1700E"@, "Baby Lock Alliance"@, "Janome Memory Craft 500E"@, "Janome Memory Craft 400E"@, "Bernina 570 QE"@, "Husqvarna Viking Designer Epic 2"@, "Pfaff Creative Icon"@, "Singer Futura XL-400"@, "Tajima TMEZ"@
    ]
}

/// The synonyms of each known machine, in catalog order.
pub open spec fn machine_synonyms() -> Seq<Seq<Seq<char>>> {
    seq![seq!["PE800"@, "Brother PE-800 Embroidery Machine"@], seq!["PE535"@], seq!["SE1900"@], seq!["NQ1700E"@], Seq::empty(), seq!["MC500E"@], seq!["MC400E"@], seq!["B570"@], seq!["Designer Epic 2"@], seq!["Creative Icon"@], seq!["XL-400"@], Seq::empty()
    ]
}

/// The formats each known machine reads, in catalog order.
pub open spec fn machine_formats() -> Seq<Seq<Seq<char>>> {
    seq![
        seq!["pes"@, "dst"@],
        seq!["pes"@, "dst"@],
        seq!["pes"@, "dst"@],
        seq!["pes"@, "dst"@],
        seq!["pes"@, "dst"@],
        seq!["jef"@, "jef+"@],
        seq!["jef"@],
        seq!["exp"@, "art"@],
        seq!["vp3"@],
        seq!["vp3"@, "pcs"@],
        seq!["xxx"@],
        seq!["dst"@]
    ]
}

/// The known machines.
pub fn machines() -> (r: Vec<Machine>)
    ensures
        r.len() == machine_names().len(),
        forall|i: int| 0 <= i < r.len() ==> (#[trigger] r[i]).name@ == machine_names()[i],
        forall|i: int|
            0 <= i < r.len() ==> (#[trigger] r[i]).synonyms@.map_values(|s: String| s@)
                == machine_synonyms()[i],
        forall|i: int|
            0 <= i < r.len() ==> (#[trigger] r[i]).formats@.map_values(|s: String| s@)
                == machine_formats()[i],
{
    let mut r: Vec<Machine> = Vec::new();
    let e = machine_entry("Brother PE800", &["PE800", "Brother PE-800 Embroidery Machine"], &["pes", "dst"], "", "5x7 embroidery-only machine", "130 x 180 mm");
    assert(e.synonyms@.map_values(|s: String| s@) =~= seq!["PE800"@, "Brother PE-800 Embroidery Machine"@]);
    assert(e.formats@.map_values(|s: String| s@) =~= seq!["pes"@, "dst"@]);
    r.push(e);
    let e = machine_entry("Brother PE535", &["PE535"], &["pes", "dst"], "", "", "100 x 100 mm");
    assert(e.synonyms@.map_values(|s: String| s@) =~= seq!["PE535"@]);
    assert(e.formats@.map_values(|s: String| s@) =~= seq!["pes"@, "dst"@]);
    r.push(e);
    let e = machine_entry("Brother SE1900", &["SE1900"], &["pes", "dst"], "", "Sewing and embroidery combination", "130 x 180 mm");
    assert(e.synonyms@.map_values(|s: String| s@) =~= seq!["SE1900"@]);
    assert(e.formats@.map_values(|s: String| s@) =~= seq!["pes"@, "dst"@]);
    r.push(e);
    let e = machine_entry("Brother Innov-is NQ1700E", &["NQ1700E"], &["pes", "dst"], "", "", "160 x 260 mm");
    assert(e.synonyms@.map_values(|s: String| s@) =~= seq!["NQ1700E"@]);
    assert(e.formats@.map_values(|s: String| s@) =~= seq!["pes"@, "dst"@]);
    r.push(e);
    let e = machine_entry("Baby Lock Alliance", &[], &["pes", "dst"], "", "", "240 x 360 mm");
    assert(e.synonyms@.map_values(|s: String| s@) =~= Seq::<Seq<char>>::empty());
    assert(e.formats@.map_values(|s: String| s@) =~= seq!["pes"@, "dst"@]);
    r.push(e);
    let e = machine_entry("Janome Memory Craft 500E", &["MC500E"], &["jef", "jef+"], "EMB/Embf", "", "200 x 280 mm");
    assert(e.synonyms@.map_values(|s: String| s@) =~= seq!["MC500E"@]);
    assert(e.formats@.map_values(|s: String| s@) =~= seq!["jef"@, "jef+"@]);
    r.push(e);
    let e = machine_entry("Janome Memory Craft 400E", &["MC400E"], &["jef"], "EMB/Embf", "", "200 x 200 mm");
    assert(e.synonyms@.map_values(|s: String| s@) =~= seq!["MC400E"@]);
    assert(e.formats@.map_values(|s: String| s@) =~= seq!["jef"@]);
    r.push(e);
    let e = machine_entry("Bernina 570 QE", &["B570"], &["exp", "art"], "", "Reads EXP from USB; ART needs Bernina software", "");
    assert(e.synonyms@.map_values(|s: String| s@) =~= seq!["B570"@]);
    assert(e.formats@.map_values(|s: String| s@) =~= seq!["exp"@, "art"@]);
    r.push(e);
    let e = machine_entry("Husqvarna Viking Designer Epic 2", &["Designer Epic 2"], &["vp3"], "", "", "360 x 350 mm");
    assert(e.synonyms@.map_values(|s: String| s@) =~= seq!["Designer Epic 2"@]);
    assert(e.formats@.map_values(|s: String| s@) =~= seq!["vp3"@]);
    r.push(e);
    let e = machine_entry("Pfaff Creative Icon", &["Creative Icon"], &["vp3", "pcs"], "", "", "240 x 260 mm");
    assert(e.synonyms@.map_values(|s: String| s@) =~= seq!["Creative Icon"@]);
    assert(e.formats@.map_values(|s: String| s@) =~= seq!["vp3"@, "pcs"@]);
    r.push(e);
    let e = machine_entry("Singer Futura XL-400", &["XL-400"], &["xxx"], "", "", "250 x 150 mm");
    assert(e.synonyms@.map_values(|s: String| s@) =~= seq!["XL-400"@]);
    assert(e.formats@.map_values(|s: String| s@) =~= seq!["xxx"@]);
    r.push(e);
    let e = machine_entry("Tajima TMEZ", &[], &["dst"], "", "Industrial multi-head machine", "");
    assert(e.synonyms@.map_values(|s: String| s@) =~= Seq::<Seq<char>>::empty());
    assert(e.formats@.map_values(|s: String| s@) =~= seq!["dst"@]);
    r.push(e);
    r
}

impl Machine {
    /// The known machine that answers to `name`, by its name or a synonym,
    /// ignoring case and punctuation; the first one if several do.
    pub fn find_by_name(name: &str) -> (r: Option<Machine>)
        ensures
            match r {
                None => forall|i: int|
                    0 <= i < machine_names().len() ==> !answers_by_names(
                        #[trigger] machine_names()[i],
                        machine_synonyms()[i],
                        normalized(name@),
                    ),
                Some(m) => exists|i: int|
                    0 <= i < machine_names().len() && m.name@ == #[trigger] machine_names()[i]
                        && answers_by_names(
                        machine_names()[i],
                        machine_synonyms()[i],
                        normalized(name@),
                    ) && forall|k: int|
                        0 <= k < i ==> !answers_by_names(
                            #[trigger] machine_names()[k],
                            machine_synonyms()[k],
                            normalized(name@),
                        ),
            },
    {
        let mut all = machines();
        match Machine::find_in(&all, name) {
            None => {
                assert forall|i: int| 0 <= i < machine_names().len() implies !answers_by_names(
                    #[trigger] machine_names()[i],
                    machine_synonyms()[i],
                    normalized(name@),
                ) by {
                    assert(all[i].name@ == machine_names()[i]);
                }
                None
            },
            Some(i) => {
                assert(all[i as int].name@ == machine_names()[i as int]);
                assert forall|k: int| 0 <= k < i implies !answers_by_names(
                    #[trigger] machine_names()[k],
                    machine_synonyms()[k],
                    normalized(name@),
                ) by {
                    assert(all[k].name@ == machine_names()[k]);
                }
                Some(all.swap_remove(i))
            },
        }
    }
}

/// The position of column `name` among a table's `headers`, the first if
/// it appears twice.
pub fn get_column_index(headers: &Vec<String>, name: &str) -> (r: Option<usize>)
    ensures
        match r {
            None => forall|k: int| 0 <= k < headers.len() ==> (#[trigger] headers[k])@ != name@,
            Some(i) => i < headers.len() && headers[i as int]@ == name@ && forall|k: int|
                0 <= k < i ==> (#[trigger] headers[k])@ != name@,
        },
{
    let target = String::from_str(name);
    let mut i: usize = 0;
    while i < headers.len()
        invariant
            i <= headers.len(),
            target@ == name@,
            forall|k: int| 0 <= k < i ==> (#[trigger] headers[k])@ != name@,
        decreases headers.len() - i,
    {
        if headers[i] == target {
            return Some(i);
        }
        i = i + 1;
    }
    None
}

/// Whether `e` is the extension of a known format.
pub open spec fn known_format(e: Seq<char>) -> bool {
    format_extensions().contains(e)
}

/// A machine as shown to the user, with its formats resolved against the
/// format catalog.
#[derive(Clone, Debug)]
pub struct MachineInfo {
    pub name: String,
    pub formats: Vec<FileFormat>,
    pub usb_path: Option<String>,
    pub notes: Option<String>,
    pub design_size: Option<String>,
}

impl MachineInfo {
    /// A record whose formats are looked up by extension; extensions that
    /// the catalog does not know are left out.
    pub fn new(
        name: String,
        formats: Vec<&str>,
        usb_path: Option<String>,
        notes: Option<String>,
        design_size: Option<String>,
    ) -> (r: MachineInfo)
        ensures
            r.name == name,
            r.formats@.map_values(|f: FileFormat| f.extension@) == formats@.map_values(
                |s: &str| s@,
            ).filter(|e: Seq<char>| known_format(e)),
            r.usb_path == usb_path,
            r.notes == notes,
            r.design_size == design_size,
    {
        let ghost fs = formats@.map_values(|s: &str| s@);
        let mut found: Vec<FileFormat> = Vec::new();
        let mut i: usize = 0;
        while i < formats.len()
            invariant
                i <= formats.len(),
                fs == formats@.map_values(|s: &str| s@),
                found@.map_values(|f: FileFormat| f.extension@) == fs.subrange(0, i as int).filter(
                    |e: Seq<char>| known_format(e),
                ),
            decreases formats.len() - i,
        {
            proof {
                reveal(Seq::filter);
                assert(fs.subrange(0, i as int + 1).drop_last() =~= fs.subrange(0, i as int));
            }
            let ghost before = found@;
            match FileFormat::find_by_extension(formats[i]) {
                Some(f) => {
                    found.push(f);
                    assert(found@.map_values(|f: FileFormat| f.extension@) =~= before.map_values(
                        |f: FileFormat| f.extension@,
                    ).push(fs[i as int]));
                },
                None => {
                    assert(!known_format(fs[i as int])) by {
                        if known_format(fs[i as int]) {
                            let k = choose|k: int|
                                0 <= k < format_extensions().len() && format_extensions()[k]
                                    == fs[i as int];
                            assert(format_extensions()[k] != formats@[i as int]@);
                        }
                    }
                },
            }
            i = i + 1;
        }
        assert(fs.subrange(0, i as int) =~= fs);
        MachineInfo { name, formats: found, usb_path, notes, design_size }
    }
}

/// The known machine whose name is exactly `name`, as shown to the user.
pub fn get_machine_info(name: &str) -> (r: Option<MachineInfo>)
    ensures
        match r {
            None => forall|i: int|
                0 <= i < machine_names().len() ==> #[trigger] machine_names()[i] != name@,
            Some(info) => info.name@ == name@ && exists|i: int|
                0 <= i < machine_names().len() && #[trigger] machine_names()[i] == name@,
        },
{
    let all = machines();
    let target = String::from_str(name);
    let mut i: usize = 0;
    while i < all.len()
        invariant
            i <= all.len(),
            target@ == name@,
            all.len() == machine_names().len(),
            forall|k: int| 0 <= k < all.len() ==> (#[trigger] all[k]).name@ == machine_names()[k],
            forall|k: int| 0 <= k < i ==> #[trigger] machine_names()[k] != name@,
        decreases all.len() - i,
    {
        let m = &all[i];
        if m.name == target {
            assert(machine_names()[i as int] == name@);
            let mut fs: Vec<&str> = Vec::new();
            let mut j: usize = 0;
            while j < m.formats.len()
                decreases m.formats.len() - j,
            {
                fs.push(m.formats[j].as_str());
                j = j + 1;
            }
            let n = String::from_str(name);
            return Some(MachineInfo::new(n, fs, m.usb_path.clone(), m.notes.clone(), m.design_size.clone()));
        }
        assert(all[i as int].name@ == machine_names()[i as int]);
        i = i + 1;
    }
    None
}

} // verus!
