use easyjs::jsarg::JSArgType;
use easyjs::utils::hash::{generate_hash, get_js_name, hash_string_checked, random_hash};
use easyjs::utils::sanitize::{get_filename_without_extension, sanitize_path};

#[test]
fn sanitize_replaces_separators_and_drops_the_extension() {
    assert_eq!(sanitize_path("std/math.ej"), "std_math");
    assert_eq!(sanitize_path("a\\b/c.d.ej"), "a_b_c.d");
    assert_eq!(sanitize_path("noext"), "noext");
    assert_eq!(sanitize_path(""), "");
}

#[test]
fn sanitized_paths_hold_no_separator() {
    for p in ["a/b/c.ej", "x\\y", "/root/", "plain"] {
        let s = sanitize_path(p);
        assert!(!s.contains('/') && !s.contains('\\'), "{}", s);
    }
}

#[test]
fn filename_without_extension() {
    assert_eq!(get_filename_without_extension("dir/sub/file.ej"), "file");
    assert_eq!(get_filename_without_extension("dir\\file.tar.gz"), "file.tar");
    assert_eq!(get_filename_without_extension("file"), "file");
    assert_eq!(get_filename_without_extension("dir/"), "");
    assert_eq!(get_filename_without_extension(".hidden"), "");
}

#[test]
fn generated_hash_is_hexadecimal_and_stable() {
    let a = generate_hash("hello");
    let b = generate_hash("hello");
    assert_eq!(a, b);
    assert!(!a.is_empty());
    assert!(a.chars().all(|c| c.is_ascii_hexdigit() && !c.is_ascii_uppercase()));
}

#[test]
fn hash_string_shape() {
    let r = hash_string_checked("name");
    match r {
        Some(s) => {
            assert!(s.starts_with("hashsed_n"));
            assert_eq!(s.len(), "hashsed_n".len() + 4);
            assert!(s["hashsed_n".len()..].chars().all(|c| c.is_ascii_digit()));
        }
        None => panic!("a hash of four digits or more was expected"),
    }
    assert_eq!(hash_string_checked(""), None);
    assert_eq!(hash_string_checked("é"), None);
}

#[test]
fn random_hash_shape() {
    let r = random_hash(6);
    assert_eq!(r.chars().count(), 7);
    assert!(r.starts_with('_'));
    assert!(r[1..].chars().all(|c| c.is_ascii_alphanumeric()));
}

#[test]
fn js_names() {
    assert_eq!(get_js_name("visible".to_string(), true), "visible");
    let hidden = get_js_name("hidden".to_string(), false);
    assert_eq!(hidden.len(), 5);
    assert!(hidden.starts_with('_'));
    assert!(hidden[1..].chars().all(|c| c.is_ascii_alphanumeric()));
}

#[test]
fn js_arg_type_numbers() {
    assert_eq!(JSArgType::Int.c_val(), 0);
    assert_eq!(JSArgType::String.c_val(), 2);
    assert_eq!(JSArgType::Undefined.c_val(), 9);
    assert_eq!(JSArgType::FloatArray.c_val(), 18);
}
