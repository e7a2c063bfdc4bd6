use schedule_pdf::files::{
    is_json_name, list_json_files, list_model_names, model_data_filename, model_name_of,
    sort_files_by_name, FileInfo,
};

fn fi(name: &str) -> FileInfo {
    FileInfo { name: name.to_string(), path: format!("/data/{name}"), size: 42 }
}

#[test]
fn json_names_are_recognised_by_suffix() {
    assert!(is_json_name("events.json"));
    assert!(is_json_name("a.json"));
    // The stem before the last dot may itself be a dot, as for any
    // path whose extension is taken after the last dot ...
    assert!(is_json_name("..json"));
    // ... but a bare ".json" is a dotfile with no extension.
    assert!(!is_json_name(".json"));
    assert!(!is_json_name("events.jsonx"));
    assert!(!is_json_name("json"));
    assert!(!is_json_name(""));
    assert!(!is_json_name("events.JSON"));
}

#[test]
fn model_names_strip_the_data_suffix() {
    assert_eq!(model_name_of("events-data.json"), Some("events".to_string()));
    assert_eq!(model_name_of("contacts-data.json"), Some("contacts".to_string()));
    assert_eq!(model_name_of("-data.json"), Some("".to_string()));
    assert_eq!(model_name_of("events.json"), None);
    assert_eq!(model_name_of("data.json"), None);
    assert_eq!(model_name_of(""), None);
}

#[test]
fn model_filenames_round_trip() {
    let name = model_data_filename("events");
    assert_eq!(name, "events-data.json");
    assert_eq!(model_name_of(&name), Some("events".to_string()));
}

#[test]
fn listing_filters_and_sorts_by_name() {
    let entries = vec![
        fi("zeta.json"),
        fi("readme.txt"),
        fi("alpha.json"),
        fi("notes.json"),
        fi("photo.png"),
    ];
    let out = list_json_files(entries);
    let names: Vec<&str> = out.iter().map(|f| f.name.as_str()).collect();
    assert_eq!(names, vec!["alpha.json", "notes.json", "zeta.json"]);
    assert_eq!(out[0].path, "/data/alpha.json");
    assert_eq!(out[0].size, 42);
}

#[test]
fn sorting_keeps_duplicate_names() {
    let entries = vec![fi("b.json"), fi("a.json"), fi("b.json")];
    let out = sort_files_by_name(&entries);
    let names: Vec<&str> = out.iter().map(|f| f.name.as_str()).collect();
    assert_eq!(names, vec!["a.json", "b.json", "b.json"]);
}

#[test]
fn model_listing_sorts_alphabetically() {
    let names = vec![
        "zoo-data.json".to_string(),
        "events.json".to_string(),
        "alpha-data.json".to_string(),
        "mid-data.json".to_string(),
    ];
    let out = list_model_names(&names);
    assert_eq!(out, vec!["alpha", "mid", "zoo"]);
}
