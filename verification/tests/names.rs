//! Texts and names.
use lc_bench::metadata_sweep;
use lc_bench::naming::{
    collapse_separators, dynamodb_table_name, endpoint_port, path_join, resource_dir, run_dir,
    s3_bucket_name, sanitize_dns_part, sanitize_dynamodb_part, sanitize_id, sanitize_path_part,
    unique_resource_id,
};
use lc_bench::text::{
    after_first, after_last, before, contains, decimal, decimal_i64, decimal_padded, decimal_u128,
    hexadecimal, is_blank, join, lower, number, number_usize, split, starts_with, strip_prefix,
    strip_suffix, tail_ascii, text_before, trim, truncate_ascii, NumberError,
};

#[test]
fn texts_are_cut_and_searched() {
    assert_eq!(trim(" \t a b \u{3000}\n"), "a b");
    assert!(is_blank(" \u{a0}\n") && !is_blank(" x "));
    assert_eq!(lower("ÀBc"), "Àbc");
    assert!(contains("abcde", "cd") && !contains("abc", "d") && contains("a", ""));
    assert!(starts_with("blob.put", "blob.") && !starts_with("blo", "blob."));
    assert_eq!(strip_prefix("tcp://x", "tcp://").as_deref(), Some("x"));
    assert_eq!(strip_prefix("x", "tcp://"), None);
    assert_eq!(strip_suffix("64mib", "mib").as_deref(), Some("64"));
    assert_eq!(before("a/b/c", '/'), "a");
    assert_eq!(before("abc", '/'), "abc");
    assert_eq!(after_first("a-b-c", '-').as_deref(), Some("b-c"));
    assert_eq!(after_last("a://b://c", "://").as_deref(), Some("c"));
    assert_eq!(split("a,,b", ','), vec!["a", "", "b"]);
    assert_eq!(join(&vec!["a".to_string(), "b".to_string()], "; "), "a; b");
    assert_eq!(truncate_ascii("abcdef", 4), "abcd");
    assert_eq!(tail_ascii("abcdef", 4), "cdef");
    assert!(text_before("a-000002", "a-000010") && !text_before("b", "ab"));
}

#[test]
fn numbers_print_and_read() {
    assert_eq!(decimal(0), "0");
    assert_eq!(decimal(u64::MAX), u64::MAX.to_string());
    assert_eq!(decimal_u128(u128::MAX), u128::MAX.to_string());
    assert_eq!(decimal_i64(i64::MIN), i64::MIN.to_string());
    assert_eq!(decimal_padded(42, 6), "000042");
    assert_eq!(decimal_padded(1_234_567, 6), "1234567");
    assert_eq!(hexadecimal(0xdead_beef), "deadbeef");
    assert_eq!(number("255", 255), Ok(255));
    assert_eq!(number("256", 255), Err(NumberError::TooLarge));
    assert_eq!(number("", 255), Err(NumberError::Empty));
    assert_eq!(number("2x", 255), Err(NumberError::InvalidDigit));
    assert_eq!(number_usize("+12"), Ok(12));
    for text in ["", "x", "99999999999999999999999"] {
        let ours = number(text, u64::MAX).unwrap_err().text();
        assert_eq!(ours, text.parse::<u64>().unwrap_err().to_string());
    }
}

#[test]
fn paths_are_joined_as_the_system_does() {
    for (a, b) in [("a", "b"), ("a/", "b"), ("", "b"), ("a", "/b"), ("/", "b")] {
        let expected = std::path::Path::new(a).join(b);
        assert_eq!(path_join(a, b), expected.to_str().unwrap());
    }
    assert_eq!(sanitize_path_part("a b/c.d-e_f"), "a_b_c.d-e_f");
    assert_eq!(run_dir("w", "r 1"), "w/runs/r_1");
    assert_eq!(resource_dir("w", "r", "x"), "w/runs/r/x");
}

#[test]
fn parts_of_names_are_cleaned() {
    assert_eq!(collapse_separators("--a--b-c--", '-'), "a-b-c");
    assert_eq!(collapse_separators("ab---cd", '-'), "ab-cd");
    assert_eq!(collapse_separators("a-b-c", '-'), "a-b-c");
    assert_eq!(collapse_separators("---", '-'), "");
    assert_eq!(collapse_separators("__a-_-b__c_", '_'), "a-_-b_c");
    assert_eq!(sanitize_dns_part("  My_Run__1 "), "my-run-1");
    assert_eq!(sanitize_dynamodb_part("a b..c"), "a-b..c");
    assert_eq!(sanitize_id("a.b c"), "a-b-c");
}

#[test]
fn buckets_and_tables_have_sound_names() {
    assert_eq!(s3_bucket_name("My Bucket", "r1"), "my-bucket-r1");
    assert_eq!(s3_bucket_name("!!", "r1"), "lcbench-r1");
    let long = s3_bucket_name(&"p".repeat(100), &"r".repeat(20));
    assert_eq!(long.len(), 63);
    assert!(long.ends_with(&format!("-{}", "r".repeat(20))));
    assert_eq!(dynamodb_table_name("meta", "r1"), "meta-r1");
    assert_eq!(dynamodb_table_name("", "r"), "lcbench-r");
    assert_eq!(dynamodb_table_name(&"p".repeat(300), "r").len(), 255);
    assert_eq!(metadata_sweep::dynamodb_table_name("..a b", "-"), "a-b-lcbench");
    assert_eq!(
        metadata_sweep::dynamodb_table_name(&"p".repeat(300), &"q".repeat(300)).len(),
        255
    );
}

#[test]
fn resource_ids_are_short() {
    let id = unique_resource_id("A Very Long Run Identifier", "instance-number-one", 0xab, 0x1234);
    assert_eq!(id, "a-very-long-run--instance-ab1234");
    let id = unique_resource_id("r", "i", u32::MAX, u64::MAX as u128);
    assert_eq!(id, "r-i-ffffffffffffffff");
}

#[test]
fn endpoints_name_a_port() {
    assert_eq!(endpoint_port("http://a:18080"), Some(18080));
    assert_eq!(endpoint_port(" a:1/path:2 "), Some(1));
    assert_eq!(endpoint_port("http://a"), None);
    assert_eq!(endpoint_port("a:99999"), None);
}
