use download_relay::correlation::{CorrelationTable, Polled, RouteError, Routed};
use download_relay::download::{
    callback_address, download, download_among, download_with, link_lost, offline_response,
    response, streaming_response, DownloadError, UploadCommand,
};
use download_relay::registry::Registry;
use std::cell::RefCell;

struct Link {
    sent: RefCell<Vec<UploadCommand>>,
}

fn link() -> Link {
    Link { sent: RefCell::new(Vec::new()) }
}

#[test]
fn callback_address_embeds_the_ticket() {
    assert_eq!(callback_address("http://relay", 17), "http://relay/upload/17");
    assert_eq!(callback_address("", 0), "/upload/0");
    assert_eq!(
        callback_address("https://a.example:8080", u64::MAX),
        "https://a.example:8080/upload/18446744073709551615"
    );
}

#[test]
fn download_from_a_connected_agent_streams_what_is_pushed() {
    let mut servers = Registry::new();
    servers.register(42, link());
    let mut requests = CorrelationTable::new();

    let started =
        download(&servers, &mut requests, "http://relay", 42, "f1".to_string()).unwrap();
    started.link.sent.borrow_mut().push(started.command);
    let ticket = started.ticket;

    let sent = servers.get(42).unwrap().sent.borrow();
    assert_eq!(sent.len(), 1);
    assert_eq!(sent[0].file_id, "f1");
    assert_eq!(sent[0].callback_address, format!("http://relay/upload/{}", ticket));

    assert_eq!(requests.len(), 1);
    assert!(requests.contains(ticket));
    assert_eq!(requests.next_chunk(ticket), Polled::Pending);
    assert_eq!(requests.route(ticket, b"ab".to_vec()), Ok(Routed::Accepted));
    assert_eq!(requests.route(ticket, b"cd".to_vec()), Ok(Routed::Accepted));
    requests.complete(ticket);
    assert_eq!(requests.next_chunk(ticket), Polled::Chunk(b"ab".to_vec()));
    assert_eq!(requests.next_chunk(ticket), Polled::Chunk(b"cd".to_vec()));
    assert_eq!(requests.next_chunk(ticket), Polled::End);
    assert_eq!(requests.len(), 0);
    assert_eq!(requests.route(ticket, b"ef".to_vec()), Err(RouteError::UnknownTicket));
}

#[test]
fn download_from_an_agent_that_is_not_connected_is_refused() {
    let mut servers = Registry::new();
    servers.register(42, link());
    let mut requests = CorrelationTable::new();
    requests.open_with(1);

    let outcome = download(&servers, &mut requests, "http://relay", 7, "f1".to_string());
    assert_eq!(outcome.err(), Some(DownloadError::AgentOffline));
    assert_eq!(requests.len(), 1);
    assert!(requests.contains(1));
    assert!(servers.get(42).unwrap().sent.borrow().is_empty());
}

#[test]
fn download_with_opens_the_given_ticket() {
    let mut servers = Registry::new();
    servers.register(42, "link");
    let mut requests = CorrelationTable::new();
    let started =
        download_with(&servers, &mut requests, "http://relay", 42, "f1".to_string(), 1234)
            .unwrap();
    assert_eq!(started.ticket, 1234);
    assert_eq!(*started.link, "link");
    assert_eq!(
        started.command,
        UploadCommand {
            file_id: "f1".to_string(),
            callback_address: "http://relay/upload/1234".to_string(),
        }
    );
    assert!(requests.contains(1234));
    assert_eq!(requests.pending(1234), Some(0));
}

#[test]
fn download_with_refuses_a_ticket_in_use() {
    let mut servers = Registry::new();
    servers.register(42, "link");
    let mut requests = CorrelationTable::new();
    requests.open_with(1234);
    requests.route(1234, vec![1]).unwrap();
    let outcome =
        download_with(&servers, &mut requests, "http://relay", 42, "f1".to_string(), 1234);
    assert_eq!(outcome.err(), Some(DownloadError::NoFreeTicket));
    assert_eq!(requests.pending(1234), Some(1));
    assert_eq!(requests.len(), 1);
}

#[test]
fn download_with_checks_the_agent_before_the_ticket() {
    let servers: Registry<&str> = Registry::new();
    let mut requests = CorrelationTable::new();
    requests.open_with(1234);
    let outcome =
        download_with(&servers, &mut requests, "http://relay", 7, "f1".to_string(), 1234);
    assert_eq!(outcome.err(), Some(DownloadError::AgentOffline));
    let outcome = download_with(&servers, &mut requests, "http://relay", 7, "f1".to_string(), 5);
    assert_eq!(outcome.err(), Some(DownloadError::AgentOffline));
    assert!(!requests.contains(5));
    assert_eq!(requests.len(), 1);
}

#[test]
fn two_downloads_in_flight_have_distinct_tickets() {
    let mut servers = Registry::new();
    servers.register(1, "a");
    servers.register(2, "b");
    let mut requests = CorrelationTable::new();
    let first = download(&servers, &mut requests, "u", 1, "f".to_string()).unwrap().ticket;
    let second = download(&servers, &mut requests, "u", 1, "f".to_string()).unwrap().ticket;
    let third = download(&servers, &mut requests, "u", 2, "g".to_string()).unwrap().ticket;
    assert_ne!(first, second);
    assert_ne!(first, third);
    assert_ne!(second, third);
    assert_eq!(requests.len(), 3);
}

#[test]
fn an_abandoned_download_leaves_no_entry() {
    let mut servers = Registry::new();
    servers.register(42, "link");
    let mut requests = CorrelationTable::new();
    let ticket = download(&servers, &mut requests, "u", 42, "f".to_string()).unwrap().ticket;
    requests.route(ticket, vec![1]).unwrap();
    requests.close(ticket);
    assert_eq!(requests.len(), 0);
    assert_eq!(requests.route(ticket, vec![2]), Err(RouteError::UnknownTicket));
    assert_eq!(requests.len(), 0);
}

#[test]
fn the_streaming_response_is_200_text_html() {
    let head = streaming_response();
    assert_eq!(head.status, 200);
    assert_eq!(head.content_type, "text/html");
    assert_eq!(head.body, None);
}

#[test]
fn the_offline_response_is_404_with_a_fixed_body() {
    let head = offline_response();
    assert_eq!(head.status, 404);
    assert_eq!(head.content_type, "text/html");
    assert_eq!(
        head.body.as_deref(),
        Some("requested resource not found, the server may not be connected")
    );
}

#[test]
fn download_among_passes_over_tickets_in_use() {
    let mut servers = Registry::new();
    servers.register(42, "link");
    let mut requests = CorrelationTable::new();
    requests.open_with(10);
    requests.open_with(11);
    let started = download_among(
        &servers,
        &mut requests,
        "http://relay",
        42,
        "f1".to_string(),
        &vec![10, 11, 12, 13],
    )
    .unwrap();
    assert_eq!(started.ticket, 12);
    assert_eq!(started.command.callback_address, "http://relay/upload/12");
    assert_eq!(started.command.file_id, "f1");
    assert_eq!(requests.len(), 3);
    assert!(!requests.contains(13));
}

#[test]
fn download_among_fails_when_every_candidate_is_in_use() {
    let mut servers = Registry::new();
    servers.register(42, "link");
    let mut requests = CorrelationTable::new();
    requests.open_with(10);
    let outcome =
        download_among(&servers, &mut requests, "u", 42, "f1".to_string(), &vec![10, 10]);
    assert_eq!(outcome.err(), Some(DownloadError::NoFreeTicket));
    assert_eq!(requests.len(), 1);
    let outcome = download_among(&servers, &mut requests, "u", 7, "f1".to_string(), &vec![5]);
    assert_eq!(outcome.err(), Some(DownloadError::AgentOffline));
    assert_eq!(requests.len(), 1);
}

#[test]
fn every_outcome_has_its_response() {
    let mut servers = Registry::new();
    servers.register(42, "link");
    let mut requests = CorrelationTable::new();
    let started = download(&servers, &mut requests, "u", 42, "f1".to_string());
    assert_eq!(response(&started), streaming_response());
    let offline = download(&servers, &mut requests, "u", 7, "f1".to_string());
    assert_eq!(response(&offline), offline_response());
    assert_eq!(DownloadError::AgentOffline.response(), offline_response());
    let failed = DownloadError::NoFreeTicket.response();
    assert_eq!(failed.status, 500);
    assert_eq!(failed.content_type, "text/html");
    assert_eq!(failed.body.as_deref(), Some("no download ticket is free"));
}

#[test]
fn a_lost_link_closes_the_ticket_and_answers_as_offline() {
    let mut servers = Registry::new();
    servers.register(42, "link");
    let mut requests = CorrelationTable::new();
    requests.open_with(1);
    let ticket = download(&servers, &mut requests, "u", 42, "f1".to_string()).unwrap().ticket;
    assert_eq!(requests.len(), 2);
    let head = link_lost(&mut requests, ticket);
    assert_eq!(head, offline_response());
    assert!(!requests.contains(ticket));
    assert!(requests.contains(1));
    assert_eq!(requests.len(), 1);
}
