use compiler_tools::intern::TableTags;
use compiler_tools::files::Filenames;
use std::path::Path;

#[test]
fn test_eq() {
    let path_a = Path::new("./Cargo.toml");
    let path_b = Path::new("./Cargo.toml");
    let mut filenames = Filenames::new(&mut TableTags::new());
    let a = filenames.filename(path_a.to_str().expect("Expected some"));
    let b = filenames.filename(path_b.to_str().expect("Expected some"));

    assert_eq!(a, b)
}

#[test]
fn test_ne() {
    let path_a = Path::new("./src/symbol.rs");
    let path_b = Path::new("./src/files.rs");
    let mut filenames = Filenames::new(&mut TableTags::new());
    let a = filenames.filename(path_a.to_str().expect("Expected some"));
    let b = filenames.filename(path_b.to_str().expect("Expected some"));

    assert_ne!(a, b)
}

#[test]
fn test_eq_path() {
    let path = Path::new("./Cargo.toml");
    let mut filenames = Filenames::new(&mut TableTags::new());
    let fname = filenames.filename(path.to_str().expect("Expected some"));

    assert_eq!(fname.to_str(), "./Cargo.toml");
    assert_eq!("./Cargo.toml", fname.to_str())
}

#[test]
fn test_ne_path() {
    let path = Path::new("./Cargo.toml");
    let mut filenames = Filenames::new(&mut TableTags::new());
    let fname = filenames.filename(path.to_str().expect("Expected some"));

    assert_ne!(fname.to_str(), "./src/files.rs");
    assert_ne!("./src/files.rs", fname.to_str())
}


#[test]
fn test_ord_path() {
    let path = Path::new("./src/symbol.rs");
    let mut filenames = Filenames::new(&mut TableTags::new());
    let fname = filenames.filename(path.to_str().expect("Expected some"));

    assert!(fname.to_str() > "./src/files.rs");
    assert!("./src/files.rs" < fname.to_str())
}
