use tiphia_core::pagination::{optional_u64, parse_u64, NumberError, OptionalNumber, Page, PaginationQuery};

#[test]
fn page_and_size_have_defaults_and_bounds() {
    let q = PaginationQuery::default();
    assert_eq!(q.page(), 1);
    assert_eq!(q.per_page(), 20);
    let q = PaginationQuery { page: Some(0), per_page: Some(0) };
    assert_eq!(q.page(), 1);
    assert_eq!(q.per_page(), 1);
    let q = PaginationQuery { page: Some(7), per_page: Some(500) };
    assert_eq!(q.page(), 7);
    assert_eq!(q.per_page(), 100);
    let q = PaginationQuery { page: None, per_page: Some(42) };
    assert_eq!(q.per_page(), 42);
}

#[test]
fn numbers_parse_like_str_parse() {
    assert_eq!(parse_u64("42"), Ok(42));
    assert_eq!(parse_u64("+7"), Ok(7));
    assert_eq!(parse_u64("18446744073709551615"), Ok(u64::MAX));
    assert_eq!(parse_u64("18446744073709551616"), Err(NumberError::TooLarge));
    assert_eq!(parse_u64(""), Err(NumberError::Invalid));
    assert_eq!(parse_u64("+"), Err(NumberError::Invalid));
    assert_eq!(parse_u64(" 1"), Err(NumberError::Invalid));
    assert_eq!(parse_u64("-1"), Err(NumberError::Invalid));
    assert_eq!(parse_u64("1a"), Err(NumberError::Invalid));
}

#[test]
fn query_values_become_optional_numbers() {
    assert_eq!(optional_u64(Some(OptionalNumber::Number(3))), Ok(Some(3)));
    assert_eq!(optional_u64(Some(OptionalNumber::Text("12".to_owned()))), Ok(Some(12)));
    assert_eq!(optional_u64(Some(OptionalNumber::Text("  ".to_owned()))), Ok(None));
    assert_eq!(optional_u64(Some(OptionalNumber::Text("abc".to_owned()))), Err(NumberError::Invalid));
    assert_eq!(optional_u64(Some(OptionalNumber::Empty)), Ok(None));
    assert_eq!(optional_u64(None), Ok(None));
}

#[test]
fn page_keeps_data_and_counters() {
    let p = Page::new(vec!["a", "b"], 2, 2, 5, 3);
    assert_eq!(p.data, vec!["a", "b"]);
    assert_eq!(p.meta.page, 2);
    assert_eq!(p.meta.per_page, 2);
    assert_eq!(p.meta.total, 5);
    assert_eq!(p.meta.total_pages, 3);
}
