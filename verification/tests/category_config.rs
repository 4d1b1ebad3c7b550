use generate_assets::category::{load_category, wrap_order, Category, CategoryError};

#[test]
fn no_file_gives_the_defaults() {
    assert_eq!(load_category(None), Ok(Category { order: None, sort_order_reversed: false }));
}

#[test]
fn empty_file_gives_the_defaults() {
    assert_eq!(load_category(Some("")), Ok(Category { order: None, sort_order_reversed: false }));
}

#[test]
fn order_and_direction_are_read() {
    assert_eq!(
        load_category(Some("order = 2\nsort_order_reversed = true\n")),
        Ok(Category { order: Some(2), sort_order_reversed: true })
    );
}

#[test]
fn values_of_another_type_are_passed_over() {
    assert_eq!(
        load_category(Some("order = \"2\"\nsort_order_reversed = 1\nextra = 3\n")),
        Ok(Category { order: None, sort_order_reversed: false })
    );
}

#[test]
fn negative_order_wraps_round() {
    assert_eq!(
        load_category(Some("order = -1\n")),
        Ok(Category { order: Some(usize::MAX), sort_order_reversed: false })
    );
}

#[test]
fn malformed_file_is_an_error() {
    assert_eq!(load_category(Some("order = ")), Err(CategoryError::Syntax));
}

#[test]
fn orders_wrap_as_a_cast_does() {
    assert_eq!(wrap_order(0), 0);
    assert_eq!(wrap_order(99999), 99999);
    assert_eq!(wrap_order(i64::MAX), i64::MAX as usize);
    assert_eq!(wrap_order(-1), usize::MAX);
    assert_eq!(wrap_order(-2), usize::MAX - 1);
    assert_eq!(wrap_order(i64::MIN), i64::MIN as usize);
    assert_eq!(wrap_order(-123456789), -123456789i64 as usize);
}
