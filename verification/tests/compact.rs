use veil::error::Error;
use veil::network::compact::{
    frames, session, CompactClient, CompactService, Exchange, ExchangeStep, Message, ProviderError,
    Reply, Request, SessionAction, SessionEvent, MAX_RESPONSE_BYTES,
};

const MAX_SIZE: usize = 5000;
const RANGE_RESPONSE: u16 = 30;
const TREE_RESPONSE: u16 = 31;
const STREAM_END: u16 = 40;

fn request(payload: Vec<u8>) -> Request {
    CompactClient::request(Message::GetTransactionRequest, payload, 1, MAX_SIZE).unwrap()
}

#[test]
fn requests_are_bounded() {
    let refused = |size: usize, limit: usize| {
        CompactClient::request(Message::GetTransactionRequest, vec![0; size], limit, MAX_SIZE).err()
    };
    assert_eq!(refused(0, 0), Some(Error::ResponseLimit));
    assert_eq!(refused(0, 1001), Some(Error::ResponseLimit));
    assert_eq!(refused(0, 1000), None);
    assert_eq!(refused(MAX_SIZE, 1), None);
    assert_eq!(refused(MAX_SIZE + 1, 1), Some(Error::RequestTooLarge));
    assert_eq!(refused(MAX_SIZE + 1, 0), Some(Error::ResponseLimit));
}

#[test]
fn unary_requests_have_one_response() {
    assert_eq!(CompactClient::unary(vec![vec![1, 2]]), Ok(vec![1, 2]));
    assert_eq!(CompactClient::unary(vec![]), Err(Error::ResponseCount));
    assert_eq!(
        CompactClient::unary(vec![vec![], vec![]]),
        Err(Error::ResponseCount)
    );
}

fn shape(size: usize) -> Vec<(usize, u16)> {
    frames(&request(vec![7; size]), 9, 1, 12)
        .iter()
        .map(|frame| (frame.payload.len(), frame.flags))
        .collect()
}

#[test]
fn frames_are_full_but_for_the_last() {
    assert_eq!(shape(0), vec![(0, 0)]);
    assert_eq!(shape(3), vec![(3, 0)]);
    assert_eq!(shape(4), vec![(4, 0)]);
    assert_eq!(shape(5), vec![(4, 1), (1, 0)]);
    assert_eq!(shape(8), vec![(4, 1), (4, 0)]);
    assert_eq!(shape(9), vec![(4, 1), (4, 1), (1, 0)]);
}

#[test]
fn frames_join_to_the_payload() {
    let payload: Vec<u8> = (0..=255).collect();
    let parts = frames(&request(payload.clone()), 9, 1, 21);
    let joined: Vec<u8> = parts.iter().flat_map(|frame| frame.payload.clone()).collect();
    assert_eq!(joined, payload);
    assert!(parts.iter().all(|frame| frame.message_type == 9));
}

fn message(message_type: u16, size: usize) -> Reply {
    Reply::Message {
        message_type,
        name: format!("Message{message_type}"),
        payload: vec![0; size],
    }
}

fn more(exchange: Exchange, reply: Reply) -> Exchange {
    match exchange.receive(reply) {
        Ok(ExchangeStep::More { exchange }) => exchange,
        _ => panic!("more is to be received"),
    }
}

fn streaming(limit: usize) -> Exchange {
    let expected = Some(RANGE_RESPONSE);
    Exchange::new(Message::GetBlockRangeRequest, limit, expected, STREAM_END).unwrap()
}

#[test]
fn a_stream_ends_with_its_terminator() {
    let exchange = more(streaming(2), message(RANGE_RESPONSE, 3));
    let exchange = more(exchange, message(RANGE_RESPONSE, 4));
    match exchange.receive(message(STREAM_END, 0)) {
        Ok(ExchangeStep::Done { responses }) => {
            assert_eq!(responses, vec![vec![0; 3], vec![0; 4]])
        }
        _ => panic!("the stream has ended"),
    }
}

fn single(limit: usize) -> Exchange {
    let expected = Some(TREE_RESPONSE);
    Exchange::new(Message::GetTreeStateRequest, limit, expected, STREAM_END).unwrap()
}

#[test]
fn a_single_response_ends_the_exchange() {
    match single(1).receive(message(TREE_RESPONSE, 3)) {
        Ok(ExchangeStep::Done { responses }) => assert_eq!(responses, vec![vec![0; 3]]),
        _ => panic!("one response is enough"),
    }
}

#[test]
fn too_much_is_refused() {
    let exchange = more(streaming(1), message(RANGE_RESPONSE, 1));
    assert_eq!(
        exchange.receive(message(RANGE_RESPONSE, 1)).err(),
        Some(Error::ResponseBounds)
    );
    let exchange = more(
        streaming(2),
        message(RANGE_RESPONSE, MAX_RESPONSE_BYTES),
    );
    assert_eq!(
        exchange.receive(message(RANGE_RESPONSE, 1)).err(),
        Some(Error::ResponseBounds)
    );
}

#[test]
fn an_exchange_without_room_takes_no_response() {
    assert_eq!(
        single(0).receive(message(TREE_RESPONSE, 0)).err(),
        Some(Error::ResponseBounds)
    );
    assert!(matches!(
        streaming(0).receive(message(STREAM_END, 0)),
        Ok(ExchangeStep::Done { responses }) if responses.is_empty()
    ));
}

#[test]
fn every_range_request_streams() {
    for kind in [
        Message::GetBlockRangeRequest,
        Message::GetBlockRangeNullifiersRequest,
        Message::GetSubtreeRootsRequest,
    ] {
        let exchange = Exchange::new(kind, 2, Some(RANGE_RESPONSE), STREAM_END).unwrap();
        more(exchange, message(RANGE_RESPONSE, 1));
    }
    for kind in [
        Message::GetLatestBlockRequest,
        Message::GetTreeStateRequest,
        Message::GetTransactionRequest,
    ] {
        let exchange = Exchange::new(kind, 2, Some(RANGE_RESPONSE), STREAM_END).unwrap();
        let step = exchange.receive(message(RANGE_RESPONSE, 1));
        assert!(matches!(step, Ok(ExchangeStep::Done { .. })));
    }
}

#[test]
fn wrong_messages_are_refused() {
    assert_eq!(
        Exchange::new(Message::GetTreeStateRequest, 1, None, STREAM_END).err(),
        Some(Error::RequestKind)
    );
    assert_eq!(
        streaming(1).receive(message(STREAM_END, 1)).err(),
        Some(Error::StreamTerminator)
    );
    let error = streaming(1).receive(message(TREE_RESPONSE, 0)).err().unwrap();
    assert_eq!(error.message(), "unexpected ztreamer response Message31");
    let error = single(1).receive(message(STREAM_END, 0)).err().unwrap();
    assert_eq!(error.message(), "unexpected ztreamer response Message40");
}

#[test]
fn an_error_status_ends_the_exchange() {
    let status = ProviderError {
        code: -7,
        message: "gone".to_string(),
    };
    let error = streaming(1).receive(Reply::Status { status }).err().unwrap();
    assert_eq!(error.message(), "ztreamer error -7: gone");
}

#[test]
fn one_provider_is_had_at_a_time() {
    let mut service = CompactService::new();
    assert!(!service.owns_connection_for_peer(&[1], 1));
    assert!(service.add_peer(vec![1], 1));
    assert!(!service.add_peer(vec![2], 2));
    assert!(service.owns_connection_for_peer(&[1], 1));
    assert!(!service.remove_peer(&[1], 2));
    assert!(!service.remove_peer(&[2], 1));
    assert!(service.owns_connection_for_peer(&[1], 1));
    assert!(service.remove_peer(&[1], 1));
    assert!(service.add_peer(vec![2], 2));
    assert!(service.owns_connection_for_peer(&[2], 2));
}

#[test]
fn a_failed_exchange_gives_the_connection_up() {
    let exchanged = |failed| session(SessionEvent::Exchanged { failed });
    assert!(matches!(session(SessionEvent::Requested), SessionAction::Exchange));
    assert!(matches!(exchanged(false), SessionAction::Await));
    assert!(matches!(exchanged(true), SessionAction::Cancel));
    assert!(matches!(session(SessionEvent::Cancelled), SessionAction::End));
    assert!(matches!(session(SessionEvent::Closed), SessionAction::End));
}
