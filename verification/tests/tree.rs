use bargo::error::{ErrorKind, ProcessError};
use bargo::tree::{copy_and_template_folder, EntryAction};

#[test]
fn directories_are_walked() {
    assert_eq!(copy_and_template_folder("/in/a/dir", "dir", true), Ok(EntryAction::Descend));
    assert_eq!(copy_and_template_folder("/in/a/noext", "noext", true), Ok(EntryAction::Descend));
    assert_eq!(copy_and_template_folder("/in/a/x.tera", "x.tera", true), Ok(EntryAction::Descend));
}

#[test]
fn template_fragments_are_rendered_without_the_suffix() {
    assert_eq!(
        copy_and_template_folder("/in/a/values.yaml.tera", "values.yaml.tera", false),
        Ok(EntryAction::Render { output_name: "values.yaml".to_string() })
    );
    assert_eq!(
        copy_and_template_folder("x", "a.tera", false),
        Ok(EntryAction::Render { output_name: "a".to_string() })
    );
    assert_eq!(
        copy_and_template_folder("x", "\u{e9}.tera", false),
        Ok(EntryAction::Render { output_name: "\u{e9}".to_string() })
    );
}

#[test]
fn other_files_are_copied() {
    for name in ["values.yaml", "a.tera.bak", "a.ter", "a.teras", "a.TERA", "a.", "a.b.c", ".a.b"] {
        assert_eq!(copy_and_template_folder("p", name, false), Ok(EntryAction::Copy), "{}", name);
    }
}

#[test]
fn files_without_extension_are_refused() {
    for name in ["Makefile", ".gitignore", ".tera", "", "..", "."] {
        let e = copy_and_template_folder("/in/shop/api/f", name, false).unwrap_err();
        assert_eq!(e, ProcessError::LayoutError { path: "/in/shop/api/f".to_string() }, "{}", name);
        assert_eq!(e.kind(), ErrorKind::Layout);
    }
}

#[test]
fn classification_agrees_with_the_standard_library() {
    for name in ["a.tera", "a", ".a", "a.b", "a.", "..", ".a.tera", "a.b.tera", "tera", "x.tera.tera"] {
        let path = std::path::Path::new(name);
        let got = copy_and_template_folder(name, name, false);
        match path.extension() {
            None => assert!(got.is_err(), "{}", name),
            Some(ext) if ext == "tera" => {
                let mut to = std::path::PathBuf::from(name);
                to.set_extension("");
                assert_eq!(got, Ok(EntryAction::Render { output_name: to.display().to_string() }), "{}", name);
            }
            Some(_) => assert_eq!(got, Ok(EntryAction::Copy), "{}", name),
        }
    }
}
