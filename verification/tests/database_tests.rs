use semantic_image_browser::sql::{escape_sql_string, path_equals_predicate, path_like_predicate};

#[test]
fn test_escape_sql_string_basic() {
    assert_eq!(
        escape_sql_string("normal_path.jpg").unwrap(),
        "normal_path.jpg"
    );
}

#[test]
fn test_escape_sql_string_single_quote() {
    assert_eq!(
        escape_sql_string("image's_file.jpg").unwrap(),
        "image''s_file.jpg"
    );
}

#[test]
fn test_escape_sql_string_backslash() {
    assert_eq!(
        escape_sql_string(r"C:\Users\test.jpg").unwrap(),
        r"C:\\Users\\test.jpg"
    );
}

#[test]
fn test_escape_sql_string_both() {
    assert_eq!(
        escape_sql_string(r"C:\User's\test.jpg").unwrap(),
        r"C:\\User''s\\test.jpg"
    );
}

#[test]
fn test_escape_sql_string_sql_injection_attempt() {
    // Try to inject SQL: ' OR '1'='1
    assert_eq!(
        escape_sql_string("test' OR '1'='1.jpg").unwrap(),
        "test'' OR ''1''=''1.jpg"
    );
}

#[test]
fn test_escape_sql_string_null_byte() {
    // Null bytes should be rejected
    assert!(escape_sql_string("test\0.jpg").is_err());
}

#[test]
fn test_escape_sql_string_unicode() {
    // Unicode should pass through unchanged
    assert_eq!(
        escape_sql_string("图片_文件.jpg").unwrap(),
        "图片_文件.jpg"
    );
}

#[test]
fn null_byte_error_message() {
    assert_eq!(escape_sql_string("a\0b").unwrap_err(), "Path contains null byte");
}

#[test]
fn empty_value_escapes_to_empty() {
    assert_eq!(escape_sql_string("").unwrap(), "");
}

#[test]
fn delete_predicate_quotes_the_escaped_path() {
    assert_eq!(path_equals_predicate("it's.png").unwrap(), "path = 'it''s.png'");
    assert!(path_equals_predicate("x\0").is_err());
}

#[test]
fn like_predicate_wraps_in_percent_signs() {
    assert_eq!(path_like_predicate(r"a\b").unwrap(), r"path LIKE '%a\\b%' ");
}

/// Reads a single-quoted literal body where `''` is a quote and `\` escapes the
/// next character; `None` if the literal would close early.
fn read_literal(t: &str) -> Option<String> {
    let cs: Vec<char> = t.chars().collect();
    let mut out = String::new();
    let mut i = 0;
    while i < cs.len() {
        if cs[i] == '\'' {
            if i + 1 < cs.len() && cs[i + 1] == '\'' {
                out.push('\'');
                i += 2;
            } else {
                return None;
            }
        } else if cs[i] == '\\' {
            if i + 1 < cs.len() {
                out.push(cs[i + 1]);
                i += 2;
            } else {
                return None;
            }
        } else {
            out.push(cs[i]);
            i += 1;
        }
    }
    Some(out)
}

#[test]
fn escaped_values_read_back_unchanged() {
    for s in ["plain", "a'b", "''", r"\'", r"x\\'y'", "' OR 1=1 --", r"end\"] {
        let e = escape_sql_string(s).unwrap();
        assert_eq!(read_literal(&e).as_deref(), Some(s));
    }
}
