use hello::PoolCreationError;

#[test]
fn an_error_shows_its_name_and_its_message() {
    let e = PoolCreationError::new(String::from("no room"));
    assert_eq!(e.message(), "no room");
    assert_eq!(e.to_string(), "PoolCreationError: no room");
}

#[test]
fn the_error_for_size_zero_has_its_fixed_message() {
    let e = PoolCreationError::zero_size();
    assert_eq!(e.message(), "size must be greater than zero");
    assert_eq!(e.to_string(), "PoolCreationError: size must be greater than zero");
}

#[test]
fn an_error_can_be_printed_for_debugging() {
    let e = PoolCreationError::zero_size();
    assert_eq!(
        format!("{:?}", e),
        "PoolCreationError { message: \"size must be greater than zero\" }"
    );
}
