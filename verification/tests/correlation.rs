use std::task::Waker;

use bukrs::future::{handle_inbound, BukrsFuture, PendingTable};
use bukrs::net::Packet;
use bukrs::packets::BukrsResAPI;

fn response(n: u32) -> Packet {
    Packet::ResAPI(BukrsResAPI { api_id: n })
}

#[test]
fn claiming_ids_is_exclusive_and_never_zero() {
    let mut table = PendingTable::new();
    assert!(!table.claim_payload_id(0));
    assert!(table.claim_payload_id(7));
    assert!(table.contains(7));
    assert!(!table.claim_payload_id(7));
    assert!(table.claim_payload_id(8));
}

#[test]
fn response_waiting_before_first_poll_is_not_lost() {
    let mut table = PendingTable::new();
    assert!(table.claim_payload_id(5));
    // the response lands before the caller ever polled: no handle stored,
    // nothing to wake, the data simply waits in the cell
    let woken = table.resolve(5, response(41));
    assert!(woken.is_none());
    let got = table.poll(5, Waker::noop().clone());
    assert_eq!(got, Some(response(41)));
    // the first observing poll consumed the entry
    assert!(!table.contains(5));
}

#[test]
fn poll_before_response_stores_the_handle() {
    let mut table = PendingTable::new();
    assert!(table.claim_payload_id(5));
    assert_eq!(table.poll(5, Waker::noop().clone()), None);
    assert!(table.contains(5));
    // now the response arrives and the stored handle comes back to be woken
    let woken = table.resolve(5, response(1));
    assert!(woken.is_some());
    assert_eq!(table.poll(5, Waker::noop().clone()), Some(response(1)));
}

#[test]
fn two_concurrent_calls_resolve_only_to_their_own_responses() {
    let mut table = PendingTable::new();
    assert!(table.claim_payload_id(1));
    assert!(table.claim_payload_id(2));
    // the responses arrive in the opposite order of the calls
    handle_inbound(&mut table, Some(2), response(102));
    handle_inbound(&mut table, Some(1), response(101));
    assert_eq!(table.poll(1, Waker::noop().clone()), Some(response(101)));
    assert_eq!(table.poll(2, Waker::noop().clone()), Some(response(102)));
}

#[test]
fn at_most_one_response_is_attached() {
    let mut table = PendingTable::new();
    assert!(table.claim_payload_id(3));
    assert!(table.resolve(3, response(1)).is_none());
    // a duplicate response for the same id changes nothing and wakes nobody
    assert!(table.resolve(3, response(2)).is_none());
    assert_eq!(table.poll(3, Waker::noop().clone()), Some(response(1)));
}

#[test]
fn responses_for_unknown_ids_are_ignored() {
    let mut table = PendingTable::new();
    assert!(handle_inbound(&mut table, Some(9), response(1)).is_none());
    assert!(!table.contains(9));
    // an uncorrelated frame touches no entry either
    assert!(table.claim_payload_id(4));
    assert!(handle_inbound(&mut table, None, response(1)).is_none());
    assert!(table.contains(4));
}

#[test]
fn cancel_removes_an_abandoned_call() {
    let mut table = PendingTable::new();
    assert!(table.claim_payload_id(6));
    table.cancel(6);
    assert!(!table.contains(6));
    // its id can be claimed again afterwards
    assert!(table.claim_payload_id(6));
}

#[test]
fn cells_start_pending() {
    let mut cell = BukrsFuture::new(12);
    assert_eq!(cell.payload_id, 12);
    assert!(cell.data.is_none());
    assert!(cell.waker.is_none());
    cell.set_waker(Waker::noop().clone());
    assert!(cell.waker.is_some());
    cell.set_data(response(3));
    assert_eq!(cell.data, Some(response(3)));
}
