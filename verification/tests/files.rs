use soksak_sidecar_speech_sherpa::files::{
    file_stem, has_extension, lex_le_bytes, opt_path, pick_model_file, select_style_files, sort_names, style_name,
    style_names,
};

fn names(a: &[&str]) -> Vec<Vec<u8>> {
    a.iter().map(|s| s.as_bytes().to_vec()).collect()
}

#[test]
fn extensions_follow_std_paths() {
    for n in ["model.onnx", ".onnx", "a.b.onnx", "onnx", "model.onnx.bak", "..", "x.", "MODEL.ONNX"] {
        let std_ext = std::path::Path::new(n).extension().map(|e| e == "onnx").unwrap_or(false);
        assert_eq!(has_extension(n.as_bytes(), b"onnx"), std_ext, "{}", n);
    }
}

#[test]
fn stems_follow_std_paths() {
    for n in ["f2.json", ".json", "a.b.json", "plain", "x.", "..."] {
        let std_stem = std::path::Path::new(n).file_stem().unwrap().to_str().unwrap().as_bytes().to_vec();
        assert_eq!(file_stem(n.as_bytes()), std_stem, "{}", n);
    }
    assert_eq!(file_stem(b".."), b"..".to_vec());
}

#[test]
fn byte_order_puts_prefixes_first() {
    assert!(lex_le_bytes(b"a", b"ab"));
    assert!(!lex_le_bytes(b"ab", b"a"));
    assert!(lex_le_bytes(b"B", b"a"));
    assert!(lex_le_bytes(b"", b""));
}

#[test]
fn sorting_names() {
    let sorted = sort_names(names(&["m2.json", "F1.json", "m10.json", "a", "m2.json"]));
    assert_eq!(sorted, names(&["F1.json", "a", "m10.json", "m2.json", "m2.json"]));
}

#[test]
fn sorting_matches_path_order() {
    let list = ["zeta.onnx", "alpha.onnx", "Alpha.onnx", "alpha.onnx.1", "al.onnx"];
    let mut paths: Vec<std::path::PathBuf> = list.iter().map(|n| std::path::Path::new("/dir").join(n)).collect();
    paths.sort();
    let expected: Vec<Vec<u8>> =
        paths.iter().map(|p| p.file_name().unwrap().to_str().unwrap().as_bytes().to_vec()).collect();
    assert_eq!(sort_names(names(&list)), expected);
}

#[test]
fn the_first_onnx_file_is_the_model() {
    assert_eq!(pick_model_file(&names(&["tokens.txt", "z.onnx", "b.onnx", ".onnx", "a.onnx.txt"])), Some(b"b.onnx".to_vec()));
    assert_eq!(pick_model_file(&names(&["tokens.txt", ".onnx", "lexicon.txt"])), None);
    assert_eq!(pick_model_file(&names(&[])), None);
}

#[test]
fn style_files_are_sorted_json_files() {
    let picked = select_style_files(&names(&["M2.json", "F1.json", "readme.md", "F10.json", ".json", "x.json.bak"]));
    assert_eq!(picked, names(&["F1.json", "F10.json", "M2.json"]));
    assert!(select_style_files(&names(&["a.txt"])).is_empty());
}

#[test]
fn style_names_are_stems() {
    assert_eq!(style_name(b"F1.json"), "F1");
    assert_eq!(style_name(b"a.b.json"), "a.b");
    assert_eq!(style_name(&[0xff, 0xfe, b'.', b'j', b's', b'o', b'n']), "style");
    assert_eq!(style_name("여성.json".as_bytes()), "여성");
}

#[test]
fn optional_paths() {
    assert_eq!(opt_path("/m/tokens.txt".to_string(), true), "/m/tokens.txt");
    assert_eq!(opt_path("/m/lexicon.txt".to_string(), false), "");
}

#[test]
fn style_names_follow_the_files() {
    let files = select_style_files(&names(&["M1.json", "F1.json", "notes.txt"]));
    assert_eq!(style_names(&files), vec!["F1".to_string(), "M1".to_string()]);
    let odd = vec![vec![0xffu8, b'.', b'j', b's', b'o', b'n'], b"a.json".to_vec()];
    assert_eq!(style_names(&odd), vec!["style".to_string(), "a".to_string()]);
    assert!(style_names(&Vec::new()).is_empty());
}
