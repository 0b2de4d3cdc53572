use std::collections::HashMap;

use stitch_sync::catalog::{file_formats, get_column_index, machines, FileFormat};
use stitch_sync::machine::{rank_similar, Machine};

fn unique_normalized_machine_names() {
    let mut name_groups: HashMap<String, Vec<String>> = HashMap::new();
    machines().iter().for_each(|m| {
        let normalized_name: String = m
            .name
            .chars()
            .filter(|c| c.is_alphanumeric())
            .collect::<String>()
            .to_lowercase();
        name_groups
            .entry(normalized_name)
            .or_default()
            .push(m.name.clone());
    });
    let duplicates: Vec<_> = name_groups
        .into_values()
        .filter(|names| names.len() > 1)
        .collect();
    assert!(
        duplicates.is_empty(),
        "Found equivalent machine names: {:?}",
        duplicates
    );
}

#[test]
fn machines_test_unique_machine_names() {
    unique_normalized_machine_names();
}

#[test]
fn machine_test_unique_machine_names() {
    unique_normalized_machine_names();
}

#[test]
fn machines_test_get_machine_info() {
    assert!(Machine::find_by_name("Brother PE800").is_some());
    assert!(Machine::find_by_name("Nonexistent Machine").is_none());
}

#[test]
fn machine_test_get_machine_info() {
    assert!(Machine::find_by_name("Brother PE800").is_some());
    assert!(Machine::find_by_name("Nonexistent Machine").is_none());
}

#[test]
fn test_get_machine_info_case_insensitive() {
    assert!(Machine::find_by_name("brother pe800").is_some());
    assert!(Machine::find_by_name("BROTHER PE800").is_some());
    assert!(Machine::find_by_name("Brother-PE800").is_some());
    assert!(Machine::find_by_name("Brother PE 800").is_some());
}

#[test]
fn test_unique_extensions() {
    let formats = file_formats();
    let mut ext_counts: HashMap<&str, usize> = HashMap::new();
    formats.iter().for_each(|f| {
        *ext_counts.entry(f.extension.as_str()).or_insert(0) += 1;
    });
    let duplicates: Vec<_> = ext_counts
        .iter()
        .filter(|(_, &count)| count > 1)
        .map(|(ext, _)| ext)
        .collect();
    assert!(
        duplicates.is_empty(),
        "Found duplicate file extensions: {:?}",
        duplicates
    );
}

#[test]
fn test_unique_names() {
    let formats = file_formats();
    let mut name_counts: HashMap<&str, usize> = HashMap::new();
    formats.iter().for_each(|f| {
        *name_counts.entry(f.name.as_str()).or_insert(0) += 1;
    });
    let duplicates: Vec<_> = name_counts
        .iter()
        .filter(|(_, &count)| count > 1)
        .map(|(name, _)| name)
        .collect();
    assert!(
        duplicates.is_empty(),
        "Found duplicate file format names: {:?}",
        duplicates
    );
}

#[test]
fn test_find_by_extension() {
    assert!(FileFormat::find_by_extension("dst").is_some());
    assert!(FileFormat::find_by_extension("nonexistent").is_none());
}

#[test]
fn find_by_extension_returns_the_matching_format() {
    let f = FileFormat::find_by_extension("pes").unwrap();
    assert_eq!(f.extension, "pes");
    assert_eq!(f.manufacturer, "Brother");
}

#[test]
fn all_spellings_resolve_to_the_same_record() {
    let reference = Machine::find_by_name("Brother PE800").unwrap();
    for q in ["brother pe800", "BROTHER PE800", "Brother-PE800"] {
        let m = Machine::find_by_name(q).unwrap();
        assert_eq!(m.name, reference.name);
    }
    assert_eq!(reference.name, "Brother PE800");
}

#[test]
fn synonyms_resolve_to_their_record() {
    let m = Machine::find_by_name("mc-500e").unwrap();
    assert_eq!(m.name, "Janome Memory Craft 500E");
    assert_eq!(m.usb_path.as_deref(), Some("EMB/Embf"));
}

#[test]
fn find_in_returns_first_match() {
    let catalog = vec![
        Machine::new("Alpha One".to_string(), vec![], vec!["dst".to_string()], None, None, None),
        Machine::new("Beta".to_string(), vec!["alpha-one".to_string()], vec![], None, None, None),
    ];
    assert_eq!(Machine::find_in(&catalog, "ALPHA ONE"), Some(0));
    assert_eq!(Machine::find_in(&catalog, "beta"), Some(1));
    assert_eq!(Machine::find_in(&catalog, "gamma"), None);
}

#[test]
fn normalize_name_strips_punctuation_and_case() {
    assert_eq!(Machine::normalize_name("Brother-PE 800!"), "brotherpe800");
    assert_eq!(Machine::normalize_name("---"), "");
}

#[test]
fn new_drops_empty_optional_texts() {
    let m = Machine::new(
        "X".to_string(),
        vec![],
        vec![],
        Some(String::new()),
        Some("note".to_string()),
        None,
    );
    assert_eq!(m.usb_path, None);
    assert_eq!(m.notes.as_deref(), Some("note"));
    assert_eq!(m.design_size, None);
}

#[test]
fn column_index_finds_first_header() {
    let headers = vec!["Machine Name".to_string(), "File Formats".to_string(), "File Formats".to_string()];
    assert_eq!(get_column_index(&headers, "File Formats"), Some(1));
    assert_eq!(get_column_index(&headers, "USB Path"), None);
}

fn find_similar_names(name: &str, threshold: f64) -> Vec<Machine> {
    let catalog = machines();
    let q = Machine::normalize_name(name);
    let scores: Vec<Vec<u32>> = catalog
        .iter()
        .map(|m| {
            std::iter::once(&m.name)
                .chain(m.synonyms.iter())
                .map(|s| (strsim::jaro_winkler(&q, &Machine::normalize_name(s)) * 1_000_000.0).round() as u32)
                .collect()
        })
        .collect();
    let threshold = (threshold * 1_000_000.0).round() as u32;
    rank_similar(&scores, threshold).into_iter().map(|i| catalog[i].clone()).collect()
}

#[test]
fn test_find_similar_names() {
    let results = find_similar_names("Brother PE800", 0.9);
    assert!(!results.is_empty());
    assert_eq!(results[0].name, "Brother PE800");

    let results = find_similar_names("Brother PE 80", 0.8);
    assert!(!results.is_empty());
    assert!(results.iter().any(|m| m.name == "Brother PE800"));

    let results = find_similar_names("XYZ123", 0.9);
    assert!(results.is_empty());

    let results = find_similar_names("PE800", 0.7);
    assert!(!results.is_empty());
    assert!(results.iter().any(|m| m.name == "Brother PE800"));

    let pe800 = Machine::find_by_name("Brother PE800").unwrap();
    if !pe800.synonyms.is_empty() {
        let results = find_similar_names(&pe800.synonyms[0], 0.8);
        assert!(!results.is_empty());
        assert!(results.iter().any(|m| m.name == "Brother PE800"));
    }
}
