use csv_rs::dcu::{classify_exchange, ExchangeSession, NodeEvent};
use csv_rs::error::Error;
use csv_rs::guest::PAGE_SIZE;

fn page_with_anonce(anonce: u32) -> Vec<u8> {
    let mut page = vec![0u8; PAGE_SIZE];
    page[188..192].copy_from_slice(&anonce.to_le_bytes());
    page
}

#[test]
fn both_return_words_must_be_clean() {
    // a zero OS return with a non-zero firmware error is still a failure
    let mut session = ExchangeSession::new();
    assert_eq!(
        session
            .on_node(classify_exchange(0, 0x42, page_with_anonce(5)))
            .unwrap_err(),
        Error::ExchangeFailure
    );
    assert_eq!(
        session
            .on_node(classify_exchange(-1, 0, page_with_anonce(6)))
            .unwrap_err(),
        Error::ExchangeFailure
    );
    session.on_node(classify_exchange(0, 0, page_with_anonce(7))).unwrap();
    session.close();
    let reports = session.finish().unwrap();
    assert_eq!(reports.len(), 1);
    assert_eq!(reports[0].report.anonce, 7);
}

#[test]
fn one_failed_node_does_not_abort_the_request() {
    // three topology nodes: one unreachable, one healthy, one returning a
    // truncated buffer — the healthy node's report must come through
    let mut session = ExchangeSession::new();
    assert_eq!(
        session.on_node(NodeEvent::Skipped(Error::ExchangeFailure)).unwrap_err(),
        Error::ExchangeFailure
    );
    session.on_node(NodeEvent::Response(page_with_anonce(77))).unwrap();
    assert_eq!(
        session.on_node(NodeEvent::Response(vec![0u8; 10])).unwrap_err(),
        Error::MalformedResponse
    );
    session.close();
    let reports = session.finish().unwrap();
    assert_eq!(reports.len(), 1);
    assert_eq!(reports[0].report.anonce, 77);
}

#[test]
fn all_failed_nodes_give_all_nodes_failed() {
    let mut session = ExchangeSession::new();
    let _ = session.on_node(NodeEvent::Skipped(Error::IOFailure));
    let _ = session.on_node(NodeEvent::Skipped(Error::ParseFailure));
    let _ = session.on_node(NodeEvent::Skipped(Error::ExchangeFailure));
    session.close();
    assert_eq!(session.finish().unwrap_err(), Error::AllNodesFailed);
}

#[test]
fn a_session_with_no_nodes_fails() {
    let mut session = ExchangeSession::new();
    session.close();
    assert_eq!(session.finish().unwrap_err(), Error::AllNodesFailed);
}

#[test]
fn every_accepted_response_is_surfaced_in_order() {
    let mut session = ExchangeSession::new();
    session.on_node(NodeEvent::Response(page_with_anonce(1))).unwrap();
    let _ = session.on_node(NodeEvent::Skipped(Error::ExchangeFailure));
    session.on_node(NodeEvent::Response(page_with_anonce(2))).unwrap();
    session.close();
    let reports = session.finish().unwrap();
    assert_eq!(reports.len(), 2);
    assert_eq!(reports[0].report.anonce, 1);
    assert_eq!(reports[1].report.anonce, 2);
}
