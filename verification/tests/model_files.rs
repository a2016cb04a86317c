use sdcpp::model_files::{is_model_name, sdcpp_list_model_files, DiskEntry};

fn entry(name: &str, path: &str, is_file: bool, size: Option<u64>) -> DiskEntry {
    DiskEntry { name: name.to_string(), path: path.to_string(), is_file, size }
}

#[test]
fn models_are_listed_by_name() {
    let entries = vec![
        entry("b.gguf", "/m/b.gguf", true, Some(20)),
        entry("notes.txt", "/m/notes.txt", true, Some(1)),
        entry("é.GGUF", "/m/e", true, None),
        entry("dir.gguf", "/m/dir.gguf", false, Some(3)),
        entry("a.SafeTensors", "/m/a", true, Some(18446744073709551615)),
        entry("B.gguf", "/m/B", true, Some(0)),
    ];
    let files = sdcpp_list_model_files(&entries);
    let names: Vec<&str> = files.iter().map(|f| f.name.as_str()).collect();
    assert_eq!(names, vec!["B.gguf", "a.SafeTensors", "b.gguf", "é.GGUF"]);
    let sizes: Vec<&str> = files.iter().map(|f| f.size_bytes.as_str()).collect();
    assert_eq!(sizes, vec!["0", "18446744073709551615", "20", "0"]);
    assert_eq!(files[1].path, "/m/a");
}

#[test]
fn files_of_one_name_keep_their_order() {
    let entries = vec![
        entry("x.gguf", "1", true, None),
        entry("a.gguf", "2", true, None),
        entry("x.gguf", "3", true, None),
        entry("x.gguf", "4", true, None),
    ];
    let paths: Vec<String> = sdcpp_list_model_files(&entries).into_iter().map(|f| f.path).collect();
    assert_eq!(paths, vec!["2", "1", "3", "4"]);
    assert!(sdcpp_list_model_files(&vec![]).is_empty());
}

#[test]
fn model_names_have_two_endings() {
    assert!(is_model_name("x.gguf"));
    assert!(is_model_name(".safetensors"));
    assert!(!is_model_name("x.gguf.part"));
    assert!(!is_model_name("X.GGUF"));
}
