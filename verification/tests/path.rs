use assetman::path::AssetInnerPath;

fn inner(text: &str) -> AssetInnerPath {
    AssetInnerPath::from(text.to_owned())
}

fn parent_text(text: &str) -> Option<String> {
    inner(text).parent().map(|p| p.as_str().to_owned())
}

#[test]
fn root_is_the_empty_path() {
    assert_eq!(AssetInnerPath::root().as_str(), "");
    assert!(AssetInnerPath::root().is_root());
    assert!(!inner("a").is_root());
}

#[test]
fn from_keeps_the_text() {
    assert_eq!(inner("a/b.txt").as_str(), "a/b.txt");
    assert_eq!(inner("").as_str(), "");
}

#[test]
fn relative_appends_names() {
    let root = AssetInnerPath::root();
    assert_eq!(root.relative("a").as_str(), "a");
    assert_eq!(root.relative("a/b.txt").as_str(), "a/b.txt");
    assert_eq!(inner("a").relative("b/c").as_str(), "a/b/c");
    assert_eq!(inner("models").relative("box/Box0.bin").as_str(), "models/box/Box0.bin");
}

#[test]
fn relative_current_is_identity() {
    for text in ["", "a", "a/b", "a.b/c", "a/b/"] {
        assert_eq!(inner(text).relative(".").as_str(), text);
    }
    assert_eq!(inner("a").relative("./b/./c").as_str(), "a/b/c");
}

#[test]
fn relative_name_then_up_is_identity() {
    for text in ["", "a", "a/b", "x/y/z"] {
        assert_eq!(inner(text).relative("a").relative("..").as_str(), text);
        assert_eq!(inner(text).relative("a/..").as_str(), text);
    }
}

#[test]
fn relative_up_truncates_and_stays_at_root() {
    assert_eq!(inner("a/b/c").relative("..").as_str(), "a/b");
    assert_eq!(inner("a/b/c").relative("../..").as_str(), "a");
    assert_eq!(inner("a").relative("..").as_str(), "");
    assert_eq!(inner("").relative("..").as_str(), "");
    assert_eq!(inner("a").relative("../../..").as_str(), "");
    assert_eq!(inner("a/b").relative("../c").as_str(), "a/c");
}

#[test]
fn relative_home_resets_to_root() {
    assert_eq!(inner("a/b").relative("~").as_str(), "");
    assert_eq!(inner("").relative("a/b/~/c").as_str(), "c");
    for text in ["", "a", "a/b/c"] {
        assert_eq!(
            inner(text).relative("~/x").as_str(),
            AssetInnerPath::root().relative("x").as_str()
        );
        assert_eq!(inner(text).relative("~/x").as_str(), "x");
    }
}

#[test]
fn relative_keeps_segments_verbatim() {
    assert_eq!(inner("a").relative("b c%20d").as_str(), "a/b c%20d");
    assert_eq!(inner("a").relative("...").as_str(), "a/...");
    assert_eq!(inner("a").relative(".b").as_str(), "a/.b");
    assert_eq!(inner("a").relative("~b").as_str(), "a/~b");
    assert_eq!(inner("").relative("é/ü").as_str(), "é/ü");
}

#[test]
fn relative_appends_empty_segments_as_they_stand() {
    assert_eq!(inner("").relative("").as_str(), "");
    assert_eq!(inner("a").relative("").as_str(), "a/");
    assert_eq!(inner("a").relative("b//c").as_str(), "a/b//c");
    assert_eq!(inner("").relative("/b").as_str(), "b");
    assert_eq!(inner("a").relative("b/").as_str(), "a/b/");
}

#[test]
fn parent_of_root_is_none() {
    assert!(AssetInnerPath::root().parent().is_none());
    assert_eq!(parent_text(""), None);
}

#[test]
fn parent_cuts_the_last_segment() {
    assert_eq!(parent_text("a"), Some("".to_owned()));
    assert_eq!(parent_text("a/b"), Some("a".to_owned()));
    assert_eq!(parent_text("a/b/c.txt"), Some("a/b".to_owned()));
    assert_eq!(parent_text("a/b/"), Some("a/b".to_owned()));
}

#[test]
fn parent_of_relative_is_the_path() {
    for text in ["a", "a/b", "x/y/z"] {
        let child = inner(text).relative("x");
        assert_eq!(child.parent().unwrap().as_str(), text);
    }
    let child = AssetInnerPath::root().relative("x");
    assert_eq!(child.parent().unwrap().as_str(), "");
}

#[test]
fn extension_is_none_without_dot() {
    assert_eq!(inner("").extension(), None);
    assert_eq!(inner("a").extension(), None);
    assert_eq!(inner("a/b/c").extension(), None);
}

#[test]
fn extension_follows_the_last_dot() {
    assert_eq!(inner("a.txt").extension(), Some("txt"));
    assert_eq!(inner("a/b.tar.gz").extension(), Some("gz"));
    assert_eq!(inner("a.").extension(), Some(""));
    assert_eq!(inner(".hidden").extension(), Some("hidden"));
    assert_eq!(inner("box.glb").extension(), Some("glb"));
}

#[test]
fn extension_scans_the_whole_path() {
    assert_eq!(inner("a.b/c").extension(), Some("b/c"));
    assert_eq!(inner("v1.2/models/box").extension(), Some("2/models/box"));
}

#[test]
fn equality_compares_texts() {
    assert!(inner("a/b") == inner("a").relative("b"));
    assert!(inner("a/b") != inner("a/c"));
    assert!(inner("a").clone() == inner("a"));
}
