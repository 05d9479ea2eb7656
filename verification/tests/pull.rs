use std::io;
use std::task::Poll;

use tokio_incoming::pull::{next_item, Accepted, Pulled};

#[test]
fn pending_accept_suspends_the_pull() {
    let accepted: Accepted<u32, u16, String> = Poll::Pending;
    assert_eq!(next_item(accepted), Poll::Pending);
}

#[test]
fn accepted_connection_is_yielded_without_its_address() {
    let accepted: Accepted<&str, u16, String> = Poll::Ready(Ok(("conn-a", 4711)));
    let item: Pulled<&str, String> = next_item(accepted);
    assert_eq!(item, Poll::Ready(Some(Ok("conn-a"))));
}

#[test]
fn same_connection_from_two_peers_gives_the_same_element() {
    let here: Accepted<u32, &str, String> = Poll::Ready(Ok((7, "10.0.0.1:5000")));
    let there: Accepted<u32, &str, String> = Poll::Ready(Ok((7, "10.0.0.2:6000")));
    assert_eq!(next_item(here), next_item(there));
}

#[test]
fn failed_accept_is_yielded_as_an_element() {
    let accepted: Accepted<u32, u16, String> = Poll::Ready(Err("too many open files".to_string()));
    assert_eq!(
        next_item(accepted),
        Poll::Ready(Some(Err("too many open files".to_string())))
    );
}

#[test]
fn io_failure_keeps_its_kind_and_message() {
    let failure = io::Error::new(io::ErrorKind::ConnectionAborted, "aborted before accept");
    let accepted: Accepted<u32, u16, io::Error> = Poll::Ready(Err(failure));
    match next_item(accepted) {
        Poll::Ready(Some(Err(e))) => {
            assert_eq!(e.kind(), io::ErrorKind::ConnectionAborted);
            assert_eq!(e.to_string(), "aborted before accept");
        }
        _ => panic!("the failure was not yielded as an element"),
    }
}

#[test]
fn os_failure_keeps_its_code() {
    let accepted: Accepted<u32, u16, io::Error> = Poll::Ready(Err(io::Error::from_raw_os_error(24)));
    match next_item(accepted) {
        Poll::Ready(Some(Err(e))) => assert_eq!(e.raw_os_error(), Some(24)),
        _ => panic!("the failure was not yielded as an element"),
    }
}

#[test]
fn no_report_ends_the_sequence() {
    let reports: Vec<Accepted<u32, u16, String>> = vec![
        Poll::Pending,
        Poll::Ready(Ok((0, 0))),
        Poll::Ready(Ok((u32::MAX, u16::MAX))),
        Poll::Ready(Err(String::new())),
        Poll::Ready(Err("broken listener".to_string())),
    ];
    for report in reports {
        assert_ne!(next_item(report), Poll::Ready(None));
    }
}

#[test]
fn connection_is_moved_not_copied() {
    let accepted: Accepted<Vec<u8>, (), ()> = Poll::Ready(Ok((vec![1, 2, 3], ())));
    assert_eq!(next_item(accepted), Poll::Ready(Some(Ok(vec![1, 2, 3]))));
}
