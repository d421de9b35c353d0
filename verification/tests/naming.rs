use patchit::{json_name_for, replace_extension_with_json};

#[test]
fn json_name_for_a_stem() {
    assert_eq!(json_name_for(Some("gimp".to_string())), "gimp.json");
    assert_eq!(json_name_for(Some("archive.tar".to_string())), "archive.tar.json");
}

#[test]
fn json_name_for_no_stem() {
    assert_eq!(json_name_for(None), ".json");
    assert_eq!(json_name_for(Some(String::new())), ".json");
}

#[test]
fn replace_extension_with_json_cuts_the_last_extension() {
    assert_eq!(replace_extension_with_json("gimp.exe"), "gimp.json");
    assert_eq!(replace_extension_with_json("MyApplication"), "MyApplication.json");
    assert_eq!(replace_extension_with_json("archive.tar.gz"), "archive.tar.json");
}

#[test]
fn replace_extension_with_json_drops_the_directories() {
    assert_eq!(replace_extension_with_json("builds/v2/gimp.exe"), "gimp.json");
    assert_eq!(replace_extension_with_json("/gimp.exe"), "gimp.json");
    assert_eq!(replace_extension_with_json("builds/gimp/"), "gimp.json");
}

#[test]
fn replace_extension_with_json_keeps_a_leading_dot() {
    assert_eq!(replace_extension_with_json(".profile"), ".profile.json");
}

#[test]
fn replace_extension_with_json_of_a_name_without_stem() {
    assert_eq!(replace_extension_with_json(""), ".json");
    assert_eq!(replace_extension_with_json(".."), ".json");
    assert_eq!(replace_extension_with_json("/"), ".json");
}

#[test]
fn replace_extension_with_json_cuts_a_bare_name_at_its_last_dot() {
    assert_eq!(replace_extension_with_json("a.b.c"), "a.b.json");
    assert_eq!(replace_extension_with_json("noext"), "noext.json");
    assert_eq!(replace_extension_with_json("trailing."), "trailing.json");
    assert_eq!(replace_extension_with_json("x"), "x.json");
    assert_eq!(replace_extension_with_json("é.txt"), "é.json");
    assert_eq!(replace_extension_with_json("two words.old"), "two words.json");
}

#[test]
fn replace_extension_with_json_of_names_made_of_dots() {
    assert_eq!(replace_extension_with_json("..."), "...json");
    assert_eq!(replace_extension_with_json("..a"), "..json");
    assert_eq!(replace_extension_with_json(".a.b"), ".a.json");
    assert_eq!(replace_extension_with_json("."), ".json");
}

#[test]
fn replace_extension_with_json_is_never_without_a_stem_for_a_bare_name() {
    for name in ["gimp.exe", ".profile", "a", "a.", "..x", "MyApplication.old"] {
        let json = replace_extension_with_json(name);
        assert!(json.ends_with(".json"));
        assert!(json.len() > ".json".len());
        assert!(name.starts_with(&json[..json.len() - ".json".len()]));
    }
}
