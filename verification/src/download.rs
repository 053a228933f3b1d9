//! One download: is the agent there, which ticket carries the transfer, and
//! what is the agent told.

use crate::correlation::{closed, draw_candidates, first_free, CorrelationTable, Ticket};
use crate::registry::{Registry, ServerId};
use crate::sink::SinkView;
use crate::text::{decimal, lemma_decimal_injective, push_decimal};
use vstd::prelude::*;

verus! {

/// The token that names a file on the agent that holds it. Only the agent
/// knows what it means.
pub type FileId = String;

/// The order sent to an agent: upload the file `file_id` to `callback_address`.
#[derive(Debug, PartialEq, Eq)]
pub struct UploadCommand {
    pub file_id: FileId,
    pub callback_address: String,
}

/// A download that has been set up: its ticket is open in the table, and
/// `command` is to be sent over `link`.
#[derive(Debug)]
pub struct Download<'a, L> {
    pub ticket: Ticket,
    pub link: &'a L,
    pub command: UploadCommand,
}

/// Why no download was set up.
#[derive(Debug, Clone, Copy, PartialEq, Eq)]
pub enum DownloadError {
    /// The agent is not connected.
    AgentOffline,
    /// Every ticket that was tried is already in use.
    NoFreeTicket,
}

/// The status line, content type and fixed body, if any, of an HTTP answer.
#[derive(Debug, PartialEq, Eq)]
pub struct ResponseHead {
    pub status: u16,
    pub content_type: String,
    pub body: Option<String>,
}

/// The address to which an agent uploads the bytes of `ticket`: the base
/// address, `/upload/`, and the ticket in decimal notation.
pub open spec fn spec_callback_address(base_url: Seq<char>, ticket: Ticket) -> Seq<char> {
    base_url + "/upload/"@ + decimal(ticket as nat)
}

/// Whether `started` is the download that `download` sets up for these
/// arguments on ticket `started.ticket`.
pub open spec fn sets_up<L>(
    started: Download<L>,
    servers: Map<ServerId, L>,
    base_url: Seq<char>,
    server_id: ServerId,
    file_id: FileId,
) -> bool {
    &&& servers.contains_key(server_id)
    &&& *started.link == servers[server_id]
    &&& started.command.file_id == file_id
    &&& started.command.callback_address@ == spec_callback_address(base_url, started.ticket)
}

/// Builds the address to which an agent uploads the bytes of `ticket`.
pub fn callback_address(base_url: &str, ticket: Ticket) -> (address: String)
    ensures
        address@ == spec_callback_address(base_url@, ticket),
{
    let mut address = String::from_str(base_url);
    address.append("/upload/");
    push_decimal(&mut address, ticket);
    address
}

fn announce<'a, L>(link: &'a L, base_url: &str, file_id: FileId, ticket: Ticket) -> (started:
    Download<'a, L>)
    ensures
        started.ticket == ticket,
        *started.link == *link,
        started.command.file_id == file_id,
        started.command.callback_address@ == spec_callback_address(base_url@, ticket),
{
    let command = UploadCommand { file_id, callback_address: callback_address(base_url, ticket) };
    Download { ticket, link, command }
}

/// Sets up a download on the ticket `candidate`.
///
/// An agent that is not connected gives `AgentOffline`, and a candidate that is
/// already open gives `NoFreeTicket`; in both cases the table is untouched.
/// Otherwise `candidate` is opened with a fresh sink and the result holds the
/// agent's link and the command to send over it.
pub fn download_with<'a, L>(
    servers: &'a Registry<L>,
    requests: &mut CorrelationTable,
    base_url: &str,
    server_id: ServerId,
    file_id: FileId,
    candidate: Ticket,
) -> (outcome: Result<Download<'a, L>, DownloadError>)
    ensures
        match outcome {
            Ok(started) => {
                &&& !old(requests)@.contains_key(candidate)
                &&& started.ticket == candidate
                &&& sets_up(started, servers@, base_url@, server_id, file_id)
                &&& final(requests)@ == old(requests)@.insert(candidate, SinkView::fresh())
            },
            Err(DownloadError::AgentOffline) => {
                &&& !servers@.contains_key(server_id)
                &&& final(requests)@ == old(requests)@
            },
            Err(DownloadError::NoFreeTicket) => {
                &&& servers@.contains_key(server_id)
                &&& old(requests)@.contains_key(candidate)
                &&& final(requests)@ == old(requests)@
            },
        },
{
    match servers.get(server_id) {
        None => Err(DownloadError::AgentOffline),
        Some(link) => {
            if requests.open_with(candidate) {
                Ok(announce(link, base_url, file_id, candidate))
            } else {
                Err(DownloadError::NoFreeTicket)
            }
        },
    }
}

/// Sets up a download on the first of `candidates` that is not in use.
///
/// An agent that is not connected gives `AgentOffline`. For a connected agent
/// the candidates are tried in their order: those that collide with an open
/// ticket are passed over, and the first that does not is opened with a fresh
/// sink; the result holds the agent's link and the command to send over it.
/// `NoFreeTicket` says that every candidate collided. Both errors leave the
/// table untouched.
pub fn download_among<'a, L>(
    servers: &'a Registry<L>,
    requests: &mut CorrelationTable,
    base_url: &str,
    server_id: ServerId,
    file_id: FileId,
    candidates: &Vec<Ticket>,
) -> (outcome: Result<Download<'a, L>, DownloadError>)
    ensures
        match outcome {
            Ok(started) => {
                &&& !old(requests)@.contains_key(started.ticket)
                &&& sets_up(started, servers@, base_url@, server_id, file_id)
                &&& final(requests)@ == old(requests)@.insert(started.ticket, SinkView::fresh())
                &&& first_free(old(requests)@, candidates@) == Some(started.ticket)
            },
            Err(DownloadError::AgentOffline) => {
                &&& !servers@.contains_key(server_id)
                &&& final(requests)@ == old(requests)@
            },
            Err(DownloadError::NoFreeTicket) => {
                &&& servers@.contains_key(server_id)
                &&& final(requests)@ == old(requests)@
                &&& first_free(old(requests)@, candidates@) is None
            },
        },
{
    match servers.get(server_id) {
        None => Err(DownloadError::AgentOffline),
        Some(link) => {
            match requests.open_among(candidates) {
                None => Err(DownloadError::NoFreeTicket),
                Some(ticket) => Ok(announce(link, base_url, file_id, ticket)),
            }
        },
    }
}

/// Sets up the download of `file_id` from the agent `server_id`.
///
/// The registry is borrowed for the whole call, so the agent cannot leave
/// between the check and the use of its link. An agent that is not connected
/// gives `AgentOffline`; no ticket is drawn and the table is untouched.
/// Otherwise `OPEN_ATTEMPTS` candidate tickets are drawn at random and the
/// download is set up on the first that is not in use, as `download_among`
/// says. `NoFreeTicket` says that every draw collided with an open ticket;
/// the table is then as it was. With no download in flight nothing can
/// collide, and a connected agent gets its download.
pub fn download<'a, L>(
    servers: &'a Registry<L>,
    requests: &mut CorrelationTable,
    base_url: &str,
    server_id: ServerId,
    file_id: FileId,
) -> (outcome: Result<Download<'a, L>, DownloadError>)
    ensures
        match outcome {
            Ok(started) => {
                &&& !old(requests)@.contains_key(started.ticket)
                &&& sets_up(started, servers@, base_url@, server_id, file_id)
                &&& final(requests)@ == old(requests)@.insert(started.ticket, SinkView::fresh())
            },
            Err(DownloadError::AgentOffline) => {
                &&& !servers@.contains_key(server_id)
                &&& final(requests)@ == old(requests)@
            },
            Err(DownloadError::NoFreeTicket) => {
                &&& servers@.contains_key(server_id)
                &&& final(requests)@ == old(requests)@
            },
        },
        servers@.contains_key(server_id) && old(requests)@ == Map::<Ticket, SinkView>::empty()
            ==> outcome is Ok,
{
    if !servers.is_online(server_id) {
        return Err(DownloadError::AgentOffline);
    }
    let candidates = draw_candidates();
    let outcome = download_among(servers, requests, base_url, server_id, file_id, &candidates);
    outcome
}

/// Whether `head` announces a body that is streamed: `200`, `text/html`, no
/// fixed body.
pub open spec fn is_streaming_head(head: ResponseHead) -> bool {
    &&& head.status == 200
    &&& head.content_type@ == "text/html"@
    &&& head.body is None
}

/// Whether `head` is the answer for an agent that is not connected: `404`,
/// `text/html`, and the fixed explanation.
pub open spec fn is_offline_head(head: ResponseHead) -> bool {
    &&& head.status == 404
    &&& head.content_type@ == "text/html"@
    &&& head.body matches Some(body) && body@
        == "requested resource not found, the server may not be connected"@
}

/// Whether `head` is the answer for a download that found no free ticket:
/// `500`, `text/html`, and the fixed explanation.
pub open spec fn is_failed_head(head: ResponseHead) -> bool {
    &&& head.status == 500
    &&& head.content_type@ == "text/html"@
    &&& head.body matches Some(body) && body@ == "no download ticket is free"@
}

/// The head of the answer to a download that was set up: `200`, `text/html`,
/// and a body that is streamed as the chunks arrive.
pub fn streaming_response() -> (head: ResponseHead)
    ensures
        is_streaming_head(head),
{
    ResponseHead { status: 200, content_type: String::from_str("text/html"), body: None }
}

/// The answer to a request for an agent that is not connected: `404`,
/// `text/html`, and a fixed explanation.
pub fn offline_response() -> (head: ResponseHead)
    ensures
        is_offline_head(head),
{
    ResponseHead {
        status: 404,
        content_type: String::from_str("text/html"),
        body: Some(
            String::from_str("requested resource not found, the server may not be connected"),
        ),
    }
}

impl DownloadError {
    /// The answer that the HTTP caller gets for this error: the `404` of an
    /// agent that is not connected, or the `500` of a relay that found no free
    /// ticket.
    pub fn response(&self) -> (head: ResponseHead)
        ensures
            match self {
                DownloadError::AgentOffline => is_offline_head(head),
                DownloadError::NoFreeTicket => is_failed_head(head),
            },
    {
        match self {
            DownloadError::AgentOffline => offline_response(),
            DownloadError::NoFreeTicket => ResponseHead {
                status: 500,
                content_type: String::from_str("text/html"),
                body: Some(String::from_str("no download ticket is free")),
            },
        }
    }
}

/// The head with which the HTTP caller is answered for `outcome`: the
/// streaming head for a download that was set up, and otherwise the answer of
/// the error.
pub fn response<L>(outcome: &Result<Download<'_, L>, DownloadError>) -> (head: ResponseHead)
    ensures
        match outcome {
            Ok(_) => is_streaming_head(head),
            Err(DownloadError::AgentOffline) => is_offline_head(head),
            Err(DownloadError::NoFreeTicket) => is_failed_head(head),
        },
{
    match outcome {
        Ok(_) => streaming_response(),
        Err(error) => error.response(),
    }
}

/// Ends a download whose command could not be sent: the link was closed after
/// the download had been set up, so the agent is gone. The ticket is closed,
/// and the HTTP caller gets the answer for an agent that is not connected.
pub fn link_lost(requests: &mut CorrelationTable, ticket: Ticket) -> (head: ResponseHead)
    ensures
        final(requests)@ == closed(old(requests)@, ticket),
        is_offline_head(head),
{
    requests.close(ticket);
    offline_response()
}

/// The callback address names its ticket: under one base address, two
/// tickets with the same callback address are the same ticket. An upload that
/// arrives at an address can therefore belong to one download only.
pub proof fn lemma_callback_address_names_ticket(
    base_url: Seq<char>,
    first: Ticket,
    second: Ticket,
)
    requires
        spec_callback_address(base_url, first) == spec_callback_address(base_url, second),
    ensures
        first == second,
{
    let front = base_url + "/upload/"@;
    let a = front + decimal(first as nat);
    let b = front + decimal(second as nat);
    assert(decimal(first as nat) =~= a.subrange(front.len() as int, a.len() as int));
    assert(decimal(second as nat) =~= b.subrange(front.len() as int, b.len() as int));
    lemma_decimal_injective(first as nat, second as nat);
}

} // verus!
