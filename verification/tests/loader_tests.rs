use fetch_cache::cache::FetchError;
use fetch_cache::loader::{combine_documents, LoadError, LoaderState};

#[test]
fn combine_both_ok_gives_the_pair() {
    let r = combine_documents::<i32, i32>(Ok(1), Ok(2));
    assert_eq!(r.unwrap(), (1, 2));
}

#[test]
fn first_fetch_fails_second_succeeds_is_one_combined_failure() {
    // No partial success: the load as a whole is reported failed.
    let r = combine_documents::<i32, i32>(Err(FetchError::Network), Ok(2));
    assert_eq!(r.unwrap_err(), LoadError::BuildsFailed(FetchError::Network));
}

#[test]
fn second_fetch_fails_first_succeeds_is_one_combined_failure() {
    let r = combine_documents::<i32, i32>(Ok(1), Err(FetchError::Decode));
    assert_eq!(r.unwrap_err(), LoadError::CalculationsFailed(FetchError::Decode));
}

#[test]
fn both_fetches_fail_names_both() {
    let r = combine_documents::<i32, i32>(
        Err(FetchError::Network),
        Err(FetchError::Decode),
    );
    assert_eq!(
        r.unwrap_err(),
        LoadError::BothFailed(FetchError::Network, FetchError::Decode)
    );
}

#[test]
fn loader_delivers_its_result_exactly_once() {
    let mut s: LoaderState<i32, i32> = LoaderState::new();
    assert!(!s.loading);
    s.start_load();
    assert!(s.loading);
    assert!(s.on_result(Ok((1, 2))));
    assert!(!s.loading);
    assert_eq!(s.documents, Some((1, 2)));
    assert!(s.error.is_none());
    // a second delivery is not consumed and changes nothing
    assert!(!s.on_result(Ok((3, 4))));
    assert_eq!(s.documents, Some((1, 2)));
}

#[test]
fn loader_failure_keeps_old_documents_and_shows_error() {
    let mut s: LoaderState<i32, i32> = LoaderState::new();
    s.start_load();
    assert!(s.on_result(Ok((1, 2))));
    // a retry that fails keeps what was shown and records the error
    s.start_load();
    assert!(s.error.is_none());
    assert!(s.on_result(Err(LoadError::BuildsFailed(FetchError::Network))));
    assert_eq!(s.documents, Some((1, 2)));
    assert_eq!(s.error, Some(LoadError::BuildsFailed(FetchError::Network)));
    // a retry that succeeds clears the error again
    s.start_load();
    assert!(s.on_result(Ok((5, 6))));
    assert!(s.error.is_none());
    assert_eq!(s.documents, Some((5, 6)));
}

#[test]
fn stale_result_after_reset_is_discarded() {
    let mut s: LoaderState<i32, i32> = LoaderState::new();
    s.start_load();
    s.reset();
    assert!(!s.on_result(Ok((1, 2))));
    assert!(s.documents.is_none());
    assert!(s.error.is_none());
    assert!(!s.loading);
}
