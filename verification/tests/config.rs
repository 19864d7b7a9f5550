use wordlens::config::{allowed_origins, generate_url, AllowedOrigins};

#[test]
fn generate_url_appends_path() {
    assert_eq!(generate_url("http://127.0.0.1:11434"), "http://127.0.0.1:11434/api/generate");
}

#[test]
fn star_allows_any_origin() {
    assert!(matches!(allowed_origins(" * "), AllowedOrigins::Any));
    assert!(matches!(allowed_origins("*"), AllowedOrigins::Any));
}

#[test]
fn origins_are_split_and_trimmed() {
    match allowed_origins("http://localhost:3000, https://a.example ,,") {
        AllowedOrigins::List(v) => {
            assert_eq!(v, vec!["http://localhost:3000", "https://a.example", "", ""]);
        }
        AllowedOrigins::Any => panic!("expected a list"),
    }
    match allowed_origins("") {
        AllowedOrigins::List(v) => assert_eq!(v, vec![""]),
        AllowedOrigins::Any => panic!("expected a list"),
    }
    match allowed_origins("*,http://x") {
        AllowedOrigins::List(v) => assert_eq!(v, vec!["*", "http://x"]),
        AllowedOrigins::Any => panic!("expected a list"),
    }
}
