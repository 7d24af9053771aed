use std::collections::BTreeMap;

use file_sharer::address::IpAddress;
use file_sharer::batch::BatchAction;
use file_sharer::crypto::TransferCrypto;
use file_sharer::devices::DeviceInfo;
use file_sharer::files::PublishedFile;
use file_sharer::history::TransferDirection;
use file_sharer::http::{
    error_body_text, header_value, upload_refusal, RequestHead, Response, UploadHead,
};
use file_sharer::incoming::{Incoming, IncomingAction, IncomingEvent};
use file_sharer::outgoing::{FileFacts, Outgoing, OutgoingAction, OutgoingEvent};
use file_sharer::receiving::{read_request, server_error, Receiving, Refusal, UploadRequest};
use file_sharer::sending::{send_name, SendError, Sending};
use file_sharer::service::{start_sending, NetworkService};
use file_sharer::transfer::{authenticates, FileMac, TransferPhase};
use vstd::hash_map::StringHashMap;

fn counting(from: u8) -> [u8; 16] {
    let mut content = [0u8; 16];
    for (index, byte) in content.iter_mut().enumerate() {
        *byte = from.wrapping_add(index as u8);
    }
    content
}

fn service(host: &str, from: u8) -> NetworkService {
    NetworkService::new(
        None,
        Some(host.to_string()),
        None,
        None,
        "linux",
        Ok(counting(from)),
        0,
    )
    .ok()
    .unwrap()
}

fn target(receiver: &NetworkService) -> DeviceInfo {
    let identity = receiver.identity();
    DeviceInfo {
        id: identity.id,
        name: "local receiver".to_string(),
        platform: "test".to_string(),
        address: "127.0.0.1".to_string(),
        port: 4000,
        last_seen_ms: 0,
        crypto_public_key: identity.crypto_public_key,
    }
}

fn read_head(text: &str) -> RequestHead {
    let mut head = RequestHead::new();
    for line in text.split_inclusive('\n') {
        head.read_line(line);
    }
    if !head.is_complete() {
        head.read_line("");
    }
    head
}

fn head_with(lines: &[&str]) -> RequestHead {
    read_head(&format!("POST /upload HTTP/1.1\r\n{}\r\n\r\n", lines.join("\r\n")))
}

fn refusal(head: &RequestHead) -> (u16, String, String) {
    match read_request(head, "own", 1) {
        Err(Refusal::Answer(response)) => (response.status, response.reason, response.body),
        Err(Refusal::Abort(reason)) => (0, reason, String::new()),
        Ok(_) => (1, String::new(), String::new()),
    }
}

const FULL: [&str; 6] = [
    "X-File-Sharer-Protocol: file-sharer.v2",
    "X-Crypto-Mode: dh-sha256-stream-v1",
    "Content-Length: 5",
    "X-Crypto-Sender-Public: P",
    "X-Crypto-Nonce: N",
    "X-Crypto-Mac: M",
];

/// What came of a transfer: the error or the file name of the receipt, the content that was saved,
/// the answer, and what was told on the two sides.
struct Outcome {
    result: Result<String, String>,
    saved: Vec<u8>,
    saved_name: String,
    answer: String,
    sent: Vec<(TransferPhase, u64, Option<String>)>,
    received: Vec<(TransferPhase, u64, Option<String>)>,
    kept: bool,
    removed: bool,
}

/// Whether there is a file of a name: there is one unless a 2 occurs in it.
fn all_but_second(name: &str) -> bool {
    !name.contains('2')
}

/// Sends a content through the two ends of a transfer. `meddle` may change what is on the way.
fn transfer(
    sender: &NetworkService,
    receiver: &NetworkService,
    file_name: &str,
    content: &[u8],
    read_size: usize,
    meddle: impl Fn(&mut Vec<u8>),
) -> Outcome {
    transfer_among(sender, receiver, file_name, content, read_size, meddle, all_but_second)
}

/// The same, among files whose names are `taken`.
fn transfer_among(
    sender: &NetworkService,
    receiver: &NetworkService,
    file_name: &str,
    content: &[u8],
    read_size: usize,
    meddle: impl Fn(&mut Vec<u8>),
    taken: fn(&str) -> bool,
) -> Outcome {
    let mut outcome = Outcome {
        result: Err("unfinished".to_string()),
        saved: Vec::new(),
        saved_name: String::new(),
        answer: String::new(),
        sent: Vec::new(),
        received: Vec::new(),
        kept: false,
        removed: false,
    };
    let mut wire: Vec<u8> = Vec::new();
    let mut outgoing = Outgoing::new(target(receiver), "/tmp/file".to_string());
    let mut event = OutgoingEvent::Facts(Ok(FileFacts {
        is_file: true,
        length: content.len() as u64,
        name: Some(file_name.to_string()),
    }));
    let mut scanned = 0;
    let mut read = 0;
    loop {
        let (next, action) = sender.send_file(outgoing, event, 77);
        outgoing = next;
        event = match action {
            OutgoingAction::Open | OutgoingAction::Connect | OutgoingAction::Limit => {
                OutgoingEvent::Done(Ok(()))
            }
            OutgoingAction::ReadAddress(text) => {
                assert_eq!(text, "127.0.0.1:4000");
                OutgoingEvent::Done(Ok(()))
            }
            OutgoingAction::Draw => OutgoingEvent::Drawn(Ok(counting(100)), Ok(counting(200))),
            OutgoingAction::Reopen(told) => {
                outcome.sent.push((told.phase, told.bytes_transferred, told.error));
                OutgoingEvent::Done(Ok(()))
            }
            OutgoingAction::Scan => {
                let end = content.len().min(scanned + read_size);
                let part = content[scanned..end].to_vec();
                scanned = end;
                OutgoingEvent::Content(Ok(part))
            }
            OutgoingAction::Greet(head) => {
                wire.extend_from_slice(head.as_bytes());
                OutgoingEvent::Done(Ok(()))
            }
            OutgoingAction::Read(told) => {
                if let Some(told) = told {
                    outcome.sent.push((told.phase, told.bytes_transferred, told.error));
                }
                let end = content.len().min(read + read_size);
                let part = content[read..end].to_vec();
                read = end;
                OutgoingEvent::Content(Ok(part))
            }
            OutgoingAction::Write(bytes) => {
                wire.extend_from_slice(&bytes);
                OutgoingEvent::Done(Ok(()))
            }
            OutgoingAction::ReadAnswer => {
                meddle(&mut wire);
                receive(receiver, &wire, &mut outcome, taken);
                OutgoingEvent::Answer(outcome.answer.clone())
            }
            OutgoingAction::Fail(before, told, error) => {
                for told in before.into_iter().chain(told) {
                    outcome.sent.push((told.phase, told.bytes_transferred, told.error));
                }
                outcome.result = Err(error.message());
                return outcome;
            }
            OutgoingAction::Finish(kept, told, receipt) => {
                assert_eq!(kept.bytes, content.len() as u64);
                assert!(kept.saved_path.is_none());
                outcome.sent.push((told.phase, told.bytes_transferred, told.error));
                outcome.result = Ok(receipt.file_name);
                return outcome;
            }
            OutgoingAction::Nothing => unreachable!(),
        };
    }
}

/// Receives what is on the wire.
fn receive(
    receiver: &NetworkService,
    wire: &[u8],
    outcome: &mut Outcome,
    taken: fn(&str) -> bool,
) {
    let mut at = 0;
    let mut incoming = Incoming::new();
    let mut action = IncomingAction::ReadLine;
    loop {
        let event = match action {
            IncomingAction::ReadLine => {
                let end = match wire[at..].iter().position(|byte| *byte == b'\n') {
                    Some(place) => at + place + 1,
                    None => wire.len(),
                };
                let line = String::from_utf8(wire[at..end].to_vec()).unwrap();
                at = end;
                IncomingEvent::Line(Ok(line))
            }
            IncomingAction::Prepare => IncomingEvent::Prepared(Ok(())),
            IncomingAction::LookFor(name) => IncomingEvent::Exists(taken(&name)),
            IncomingAction::Create(told, name) => {
                outcome.received.push((told.phase, told.bytes_transferred, told.error));
                outcome.saved_name = name;
                IncomingEvent::Created(Ok(()))
            }
            IncomingAction::Read(told, size) => {
                if let Some(told) = told {
                    outcome.received.push((told.phase, told.bytes_transferred, told.error));
                }
                assert!(size > 0 && size <= 65536);
                if at + size > wire.len() {
                    IncomingEvent::Content(Err("early end".to_string()))
                } else {
                    let part = wire[at..at + size].to_vec();
                    at += size;
                    IncomingEvent::Content(Ok(part))
                }
            }
            IncomingAction::Write(bytes) => {
                outcome.saved.extend_from_slice(&bytes);
                IncomingEvent::Written(Ok(()))
            }
            IncomingAction::Flush(told) => {
                if let Some(told) = told {
                    outcome.received.push((told.phase, told.bytes_transferred, told.error));
                }
                IncomingEvent::Flushed(Ok(()))
            }
            IncomingAction::Publish => IncomingEvent::Published(None, "/in/\"a\"".to_string()),
            IncomingAction::Answer(response) => {
                outcome.answer = response.text();
                return;
            }
            IncomingAction::Discard(before, told, response) => {
                for told in before.into_iter().chain(Some(told)) {
                    outcome.received.push((told.phase, told.bytes_transferred, told.error));
                }
                outcome.removed = true;
                outcome.answer = response.text();
                return;
            }
            IncomingAction::Keep(kept, told, response) => {
                assert!(kept.direction == TransferDirection::Received);
                assert_eq!(kept.saved_path, Some("/in/\"a\"".to_string()));
                outcome.received.push((told.phase, told.bytes_transferred, told.error));
                outcome.kept = true;
                outcome.answer = response.text();
                return;
            }
            IncomingAction::Abort(reason) => {
                outcome.answer = format!("aborted: {reason}");
                return;
            }
            IncomingAction::Nothing => unreachable!(),
        };
        let (next, todo) = receiver.handle_upload(incoming, event, 88);
        incoming = next;
        action = todo;
    }
}

#[test]
fn file_goes_from_sender_to_receiver() {
    let sender = service("sender", 1);
    let receiver = service("receiver", 0);
    let outcome = transfer(
        &sender,
        &receiver,
        "甘**-开发.docx",
        b"hello from mac sender",
        8,
        |_| (),
    );
    assert_eq!(outcome.result, Ok("甘**-开发.docx".to_string()));
    assert_eq!(outcome.saved, b"hello from mac sender");
    assert_eq!(outcome.saved_name, "甘__-开发 (2).docx");
    assert!(outcome.kept);
    assert!(outcome.answer.starts_with("HTTP/1.1 200 OK\r\n"));
    assert!(outcome.answer.ends_with("\r\n\r\n{\"ok\":true,\"file\":\"/in/\\\"a\\\"\"}"));
    let sent: Vec<u64> = outcome.sent.iter().map(|told| told.1).collect();
    assert_eq!(sent, [0, 8, 16, 21, 21]);
    assert!(outcome.sent[4].0 == TransferPhase::Finished);
    let received: Vec<u64> = outcome.received.iter().map(|told| told.1).collect();
    assert_eq!(received, [0, 21, 21]);
    assert!(outcome.received[0].0 == TransferPhase::Started);
    assert!(outcome.received[1].0 == TransferPhase::Progress);
    assert!(outcome.received[2].0 == TransferPhase::Finished);
}

#[test]
fn file_keeps_its_name_where_it_is_free() {
    let sender = service("sender", 1);
    let receiver = service("receiver", 0);
    let outcome = transfer_among(
        &sender,
        &receiver,
        "甘**-开发.docx",
        b"hello from mac sender",
        64,
        |_| (),
        |_| false,
    );
    assert_eq!(outcome.result, Ok("甘**-开发.docx".to_string()));
    assert_eq!(outcome.saved, b"hello from mac sender");
    assert_eq!(outcome.saved_name, "甘__-开发.docx");
    assert!(outcome.kept);
    let outside = transfer_among(&sender, &receiver, "../../x", b"x", 64, |_| (), |_| false);
    assert_eq!(outside.saved_name, "_.._x");
    assert!(outside.kept);
}

/// Receives what is on the wire into a directory, and counts the files that are created.
fn receive_into(
    receiver: &mut NetworkService,
    wire: &[u8],
    directory: &mut BTreeMap<String, Vec<u8>>,
) -> usize {
    let mut at = 0;
    let mut count = 0;
    let mut created = String::new();
    let mut incoming = Incoming::new();
    let mut action = IncomingAction::ReadLine;
    loop {
        let event = match action {
            IncomingAction::ReadLine => {
                let end = wire[at..].iter().position(|byte| *byte == b'\n').unwrap();
                let line = String::from_utf8(wire[at..at + end + 1].to_vec()).unwrap();
                at += end + 1;
                IncomingEvent::Line(Ok(line))
            }
            IncomingAction::Prepare => IncomingEvent::Prepared(Ok(())),
            IncomingAction::LookFor(name) => IncomingEvent::Exists(directory.contains_key(&name)),
            IncomingAction::Create(_, name) => {
                directory.insert(name.clone(), Vec::new());
                created = name;
                count += 1;
                IncomingEvent::Created(Ok(()))
            }
            IncomingAction::Read(_, size) => {
                at += size;
                IncomingEvent::Content(Ok(wire[at - size..at].to_vec()))
            }
            IncomingAction::Write(bytes) => {
                directory.get_mut(&created).unwrap().extend(bytes);
                IncomingEvent::Written(Ok(()))
            }
            IncomingAction::Flush(_) => IncomingEvent::Flushed(Ok(())),
            IncomingAction::Publish => IncomingEvent::Published(None, created.clone()),
            IncomingAction::Discard(_, _, _) => {
                directory.remove(&created);
                return count;
            }
            IncomingAction::Answer(_)
            | IncomingAction::Keep(_, _, _)
            | IncomingAction::Abort(_) => return count,
            IncomingAction::Nothing => unreachable!(),
        };
        let (next, todo) = receiver.receive_next(incoming, event, 88);
        incoming = next;
        action = todo;
    }
}

#[test]
fn other_files_are_left_alone() {
    let sender = service("sender", 1);
    let mut receiver = service("receiver", 0);
    let mut wire = Vec::new();
    transfer_wire(&sender, &receiver, b"content", &mut wire);
    let before = BTreeMap::from([
        ("2.txt".to_string(), b"first".to_vec()),
        ("other".to_string(), b"second".to_vec()),
    ]);

    let mut directory = before.clone();
    assert_eq!(receive_into(&mut receiver, &wire, &mut directory), 1);
    let kept = receiver.transfer_history();
    assert_eq!(kept.len(), 1);
    assert!(kept[0].direction == TransferDirection::Received);
    assert_eq!(kept[0].file_name, "2.txt");
    assert_eq!(kept[0].peer_name, sender.identity().name);
    assert_eq!(kept[0].saved_path, Some("2 (1).txt".to_string()));
    assert_eq!((kept[0].bytes, kept[0].timestamp_ms), (7, 88));
    assert_eq!(directory.remove("2 (1).txt"), Some(b"content".to_vec()));
    assert_eq!(directory, before);

    let last = wire.len() - 1;
    wire[last] ^= 1;
    assert_eq!(receive_into(&mut receiver, &wire, &mut directory), 1);
    assert_eq!(directory, before);
    assert_eq!(receive_into(&mut receiver, b"GET / HTTP/1.1\r\n\r\n", &mut directory), 0);
    assert_eq!(directory, before);
    assert_eq!(receiver.transfer_history().len(), 1);
}

#[test]
fn large_and_empty_files_go_through() {
    let sender = service("sender", 1);
    let receiver = service("receiver", 0);
    let content: Vec<u8> = (0..200_000u32).map(|number| (number % 253) as u8).collect();
    let large = transfer(&sender, &receiver, "2.bin", &content, 50_001, |_| ());
    assert_eq!(large.result, Ok("2.bin".to_string()));
    assert_eq!(large.saved, content);
    assert_eq!(large.saved_name, "2.bin");
    let received: Vec<u64> = large.received.iter().map(|told| told.1).collect();
    assert_eq!(received, [0, 65536, 131072, 196608, 200000, 200000]);
    let empty = transfer(&sender, &receiver, "2.txt", b"", 10, |_| ());
    assert_eq!(empty.result, Ok("2.txt".to_string()));
    assert!(empty.kept);
    assert!(empty.saved.is_empty());
}

#[test]
fn nothing_goes_over_the_wire_in_clear() {
    let sender = service("sender", 1);
    let receiver = service("receiver", 0);
    let outcome = transfer(&sender, &receiver, "2.txt", &[b'x'; 500], 100, |wire| {
        assert!(!wire.windows(8).any(|part| part == [b'x'; 8]));
    });
    assert!(outcome.kept);
}

#[test]
fn changed_content_is_discarded() {
    let sender = service("sender", 1);
    let receiver = service("receiver", 0);
    let outcome = transfer(&sender, &receiver, "2.txt", b"content", 100, |wire| {
        let last = wire.len() - 1;
        wire[last] ^= 1;
    });
    assert_eq!(
        outcome.result,
        Err("接收端拒绝：HTTP/1.1 400 Bad Request".to_string())
    );
    assert!(outcome.removed && !outcome.kept);
    assert!(outcome.answer.ends_with("{\"ok\":false,\"error\":\"crypto verification failed\"}"));
    let told = outcome.received.last().unwrap();
    assert!(told.0 == TransferPhase::Failed);
    assert_eq!(told.2, Some("加密校验失败".to_string()));
    let told = outcome.sent.last().unwrap();
    assert_eq!(told.2, Some("接收端拒绝：HTTP/1.1 400 Bad Request".to_string()));
}

#[test]
fn changed_names_are_noticed() {
    let sender = service("sender", 1);
    let receiver = service("receiver", 0);
    let outcome = transfer(&sender, &receiver, "name2.txt", b"content", 100, |wire| {
        let place = wire.windows(9).position(|part| part == b"name2.txt").unwrap();
        wire[place] = b'f';
    });
    assert!(outcome.removed);
    let nameless = transfer(&sender, &receiver, "...", b"content", 100, |_| ());
    assert!(nameless.removed);
    assert_eq!(nameless.saved_name, "shared-file (2)");
}

#[test]
fn wrong_receiver_cannot_read() {
    let sender = service("sender", 1);
    let receiver = service("receiver", 0);
    let other = service("other", 50);
    let outcome = transfer(&sender, &receiver, "2.txt", b"content", 100, |_| ());
    assert!(outcome.kept);
    let mut wire = Vec::new();
    transfer_wire(&sender, &receiver, b"content", &mut wire);
    let mut stolen = Outcome {
        result: Err(String::new()),
        saved: Vec::new(),
        saved_name: String::new(),
        answer: String::new(),
        sent: Vec::new(),
        received: Vec::new(),
        kept: false,
        removed: false,
    };
    receive(&other, &wire, &mut stolen, all_but_second);
    assert!(stolen.removed);
    assert_ne!(stolen.saved, b"content");
}

fn transfer_wire(
    sender: &NetworkService,
    receiver: &NetworkService,
    content: &[u8],
    wire: &mut Vec<u8>,
) {
    let copy = std::cell::RefCell::new(Vec::new());
    transfer(sender, receiver, "2.txt", content, 100, |seen| {
        *copy.borrow_mut() = seen.clone();
    });
    *wire = copy.into_inner();
}

#[test]
fn cancelled_receiving_is_discarded() {
    let sender = service("sender", 1);
    let mut receiver = service("receiver", 0);
    let mut wire = Vec::new();
    transfer_wire(&sender, &receiver, b"content", &mut wire);
    let text = String::from_utf8_lossy(&wire).to_string();
    let id = text.lines().find_map(|line| line.strip_prefix("X-Transfer-Id: ")).unwrap();
    receiver.cancel_transfer(id.to_string());
    let outcome = transfer(&sender, &receiver, "2.txt", b"content", 100, |_| ());
    assert!(outcome.removed);
    assert!(outcome.answer.starts_with("HTTP/1.1 499 Client Closed Request\r\n"));
    assert!(outcome.answer.ends_with("{\"ok\":false,\"error\":\"cancelled\"}"));
    assert_eq!(outcome.received.last().unwrap().2, Some("传输已取消".to_string()));
    let empty = transfer(&sender, &receiver, "2.txt", b"", 100, |_| ());
    assert!(empty.kept);
}

#[test]
fn cancelled_sending_fails() {
    let mut sender = service("sender", 1);
    let receiver = service("receiver", 0);
    let mut wire = Vec::new();
    transfer_wire(&sender, &receiver, b"content", &mut wire);
    let text = String::from_utf8_lossy(&wire).to_string();
    let id = text.lines().find_map(|line| line.strip_prefix("X-Transfer-Id: ")).unwrap();
    sender.cancel_transfer(id.to_string());
    let outcome = transfer(&sender, &receiver, "2.txt", b"content", 100, |_| ());
    assert_eq!(outcome.result, Err("计算加密校验失败：传输已取消".to_string()));
    let told = outcome.sent.last().unwrap();
    assert!(told.0 == TransferPhase::Failed);
    assert_eq!(told.2, Some("计算加密校验失败：传输已取消".to_string()));
}

fn fails(outgoing: Outgoing, event: OutgoingEvent) -> String {
    match service("s", 1).send_file(outgoing, event, 5).1 {
        OutgoingAction::Fail(None, None, error) => error.message(),
        OutgoingAction::Fail(None, Some(told), error) => {
            assert_eq!(told.error, Some(error.message()));
            error.message()
        }
        _ => "no failure".to_string(),
    }
}

fn goes_on(outgoing: Outgoing, event: OutgoingEvent) -> Outgoing {
    service("s", 1).send_file(outgoing, event, 5).0
}

/// The sending of a file after so many steps that went well.
fn after(steps: usize) -> Outgoing {
    let mut outgoing = Outgoing::new(target(&service("receiver", 0)), "/tmp/file".to_string());
    let events = [
        OutgoingEvent::Facts(Ok(FileFacts {
            is_file: true,
            length: 3,
            name: Some("file".to_string()),
        })),
        OutgoingEvent::Done(Ok(())),
        OutgoingEvent::Done(Ok(())),
        OutgoingEvent::Done(Ok(())),
        OutgoingEvent::Done(Ok(())),
        OutgoingEvent::Drawn(Ok(counting(1)), Ok(counting(2))),
        OutgoingEvent::Done(Ok(())),
        OutgoingEvent::Content(Ok(b"abc".to_vec())),
        OutgoingEvent::Content(Ok(Vec::new())),
        OutgoingEvent::Done(Ok(())),
        OutgoingEvent::Content(Ok(b"abc".to_vec())),
        OutgoingEvent::Done(Ok(())),
        OutgoingEvent::Content(Ok(Vec::new())),
    ];
    for event in events.into_iter().take(steps) {
        outgoing = goes_on(outgoing, event);
    }
    outgoing
}

#[test]
fn every_failure_of_sending_is_told() {
    let wrong = || "x".to_string();
    let done = || OutgoingEvent::Done(Err(wrong()));
    assert_eq!(fails(after(0), OutgoingEvent::Facts(Err(wrong()))), "读取文件失败：x");
    let directory = FileFacts { is_file: false, length: 0, name: None };
    assert_eq!(
        fails(after(0), OutgoingEvent::Facts(Ok(directory))),
        "只支持发送文件：/tmp/file"
    );
    let nameless = FileFacts { is_file: true, length: 0, name: None };
    assert_eq!(fails(after(0), OutgoingEvent::Facts(Ok(nameless))), "文件名无效");
    assert_eq!(fails(after(1), done()), "打开文件失败：x");
    assert_eq!(fails(after(2), done()), "目标地址无效：x");
    assert_eq!(fails(after(3), done()), "连接目标失败：x");
    assert_eq!(fails(after(4), done()), "设置发送超时失败：x");
    assert_eq!(
        fails(after(5), OutgoingEvent::Drawn(Err(wrong()), Ok(counting(1)))),
        "创建加密会话失败：x"
    );
    assert_eq!(fails(after(6), done()), "计算加密校验失败：x");
    assert_eq!(fails(after(7), OutgoingEvent::Content(Err(wrong()))), "计算加密校验失败：x");
    assert_eq!(fails(after(9), done()), "写入请求头失败：x");
    assert_eq!(fails(after(10), OutgoingEvent::Content(Err(wrong()))), "读取文件失败：x");
    assert_eq!(fails(after(11), done()), "发送文件失败：x");
    assert_eq!(fails(after(13), OutgoingEvent::Answer(String::new())), "接收端拒绝：无响应");
    assert_eq!(fails(after(13), OutgoingEvent::Answer("HTTP/1.1 200 OK".to_string())), "no failure");
}

#[test]
fn unexpected_events_change_nothing() {
    let sender = service("s", 1);
    let (same, action) = sender.send_file(after(1), OutgoingEvent::Answer(String::new()), 5);
    assert!(matches!(action, OutgoingAction::Nothing));
    assert!(matches!(same, Outgoing::Opening(_)));
    let (head, action) = sender.handle_upload(Incoming::new(), IncomingEvent::Exists(true), 5);
    assert!(matches!(action, IncomingAction::Nothing));
    assert!(matches!(head, Incoming::Head(_)));
    let (closed, action) = sender.handle_upload(
        Incoming::new(),
        IncomingEvent::Line(Err("broken".to_string())),
        5,
    );
    assert!(matches!(action, IncomingAction::Abort(reason) if reason == "broken"));
    assert!(matches!(closed, Incoming::Closed));
}

/// Sends files whose content is the last part of their path. Gives what came of it and the paths
/// that were looked at. There is no file at a path that ends in "missing", and one that ends in
/// "refused" is refused.
fn send_all(
    sender: &mut NetworkService,
    paths: &[&str],
) -> (Result<Vec<(String, String, u64)>, String>, Vec<String>) {
    let list: Vec<String> = paths.iter().map(|path| path.to_string()).collect();
    let address = Ok(IpAddress::V4([127, 0, 0, 1]));
    let started = start_sending(target(&service("receiver", 0)), address, list);
    let (mut batch, mut action) = started.ok().unwrap();
    let mut looked_at: Vec<String> = Vec::new();
    let mut content: Vec<u8> = Vec::new();
    let mut scanned = false;
    let mut read = false;
    let mut finished = 0;
    loop {
        let event = match action {
            BatchAction::Find(told, path) => {
                if let Some(told) = told {
                    assert!(told.phase == TransferPhase::Finished);
                    finished += 1;
                }
                assert_eq!(finished, looked_at.len());
                assert_eq!(sender.transfer_history().len(), looked_at.len());
                let name = path.rsplit('/').next().unwrap().to_string();
                looked_at.push(path);
                content = name.as_bytes().to_vec();
                scanned = false;
                read = false;
                OutgoingEvent::Facts(if name == "missing" {
                    Err("gone".to_string())
                } else {
                    Ok(FileFacts {
                        is_file: true,
                        length: content.len() as u64,
                        name: Some(name),
                    })
                })
            }
            BatchAction::Work(OutgoingAction::Draw) => {
                OutgoingEvent::Drawn(Ok(counting(100)), Ok(counting(200)))
            }
            BatchAction::Work(OutgoingAction::Scan) => {
                let part = if scanned { Vec::new() } else { content.clone() };
                scanned = true;
                OutgoingEvent::Content(Ok(part))
            }
            BatchAction::Work(OutgoingAction::Read(_)) => {
                let part = if read { Vec::new() } else { content.clone() };
                read = true;
                OutgoingEvent::Content(Ok(part))
            }
            BatchAction::Work(OutgoingAction::ReadAnswer) => {
                OutgoingEvent::Answer(if content == b"refused" {
                    "HTTP/1.1 500 No".to_string()
                } else {
                    "HTTP/1.1 200 OK".to_string()
                })
            }
            BatchAction::Work(OutgoingAction::Nothing) => unreachable!(),
            BatchAction::Work(_) => OutgoingEvent::Done(Ok(())),
            BatchAction::Finish(told, receipts) => {
                assert!(told.phase == TransferPhase::Finished);
                let list = receipts
                    .into_iter()
                    .map(|receipt| (receipt.file_name, receipt.target_name, receipt.bytes))
                    .collect();
                return (Ok(list), looked_at);
            }
            BatchAction::Fail(_, _, error) => {
                let again = OutgoingEvent::Facts(Err("late".to_string()));
                let (_, after) = sender.send_next(batch, again, 9);
                assert!(matches!(after, BatchAction::Work(OutgoingAction::Nothing)));
                return (Err(error.message()), looked_at);
            }
        };
        let (next, todo) = sender.send_next(batch, event, 9);
        batch = next;
        action = todo;
    }
}

fn remembered(sender: &NetworkService) -> Vec<(String, u64)> {
    let mut list = Vec::new();
    for event in sender.transfer_history() {
        assert!(event.direction == TransferDirection::Sent);
        assert_eq!(event.peer_name, "local receiver");
        assert_eq!(event.timestamp_ms, 9);
        list.push((event.file_name, event.bytes));
    }
    list
}

#[test]
fn files_are_sent_one_after_another() {
    let mut sender = service("sender", 1);
    let (result, looked_at) = send_all(&mut sender, &["/a/one", "/a/three", "/b/one"]);
    let receipt = |name: &str, bytes: u64| (name.to_string(), "local receiver".to_string(), bytes);
    assert_eq!(
        result,
        Ok(vec![receipt("one", 3), receipt("three", 5), receipt("one", 3)])
    );
    assert_eq!(looked_at, ["/a/one", "/a/three", "/b/one"]);
    let mut kept = remembered(&sender);
    kept.sort();
    assert_eq!(
        kept,
        [("one".to_string(), 3), ("one".to_string(), 3), ("three".to_string(), 5)]
    );
    let refused = |address: Result<IpAddress, String>, paths: &[&str]| {
        let list = paths.iter().map(|path| path.to_string()).collect();
        start_sending(target(&service("receiver", 0)), address, list).err().unwrap().message()
    };
    assert_eq!(refused(Ok(IpAddress::V4([127, 0, 0, 1])), &[]), "没有可发送的文件");
    assert_eq!(refused(Err("bad".to_string()), &["/a"]), "目标地址无效：bad");
    assert_eq!(
        refused(Ok(IpAddress::V4([8, 8, 8, 8])), &["/a"]),
        "目标设备不在局域网地址范围内"
    );
    let (result, looked_at) = send_all(&mut service("sender", 1), &["/a/alone"]);
    assert_eq!(result, Ok(vec![receipt("alone", 5)]));
    assert_eq!(looked_at, ["/a/alone"]);
}

#[test]
fn failure_ends_the_sending_of_files() {
    let mut sender = service("sender", 1);
    let (result, looked_at) = send_all(&mut sender, &["/a/one", "/a/missing", "/a/three"]);
    assert_eq!(result, Err("读取文件失败：gone".to_string()));
    assert_eq!(looked_at, ["/a/one", "/a/missing"]);
    assert_eq!(remembered(&sender), [("one".to_string(), 3)]);

    let mut sender = service("sender", 1);
    let (result, looked_at) = send_all(&mut sender, &["/a/refused", "/a/one"]);
    assert_eq!(result, Err("接收端拒绝：HTTP/1.1 500 No".to_string()));
    assert_eq!(looked_at, ["/a/refused"]);
    assert!(remembered(&sender).is_empty());
}

#[test]
fn errors_have_messages() {
    let cause = || "why".to_string();
    for (error, message) in [
        (SendError::NoFiles, "没有可发送的文件"),
        (SendError::NoTarget, "缺少目标设备"),
        (SendError::TargetOffline, "目标设备不在线"),
        (SendError::TargetOutside, "目标设备不在局域网地址范围内"),
        (SendError::ReadFailed(cause()), "读取文件失败：why"),
        (SendError::NotAFile(cause()), "只支持发送文件：why"),
        (SendError::NameInvalid, "文件名无效"),
        (SendError::OpenFailed(cause()), "打开文件失败：why"),
        (SendError::AddressInvalid(cause()), "目标地址无效：why"),
        (SendError::ConnectFailed(cause()), "连接目标失败：why"),
        (SendError::TimeoutFailed(cause()), "设置发送超时失败：why"),
        (SendError::SessionFailed(cause()), "创建加密会话失败：why"),
        (SendError::MacFailed(cause()), "计算加密校验失败：why"),
        (SendError::HeadFailed(cause()), "写入请求头失败：why"),
        (SendError::ContentFailed(cause()), "发送文件失败：why"),
        (SendError::Cancelled, "传输已取消"),
        (SendError::Refused(cause()), "why"),
    ] {
        assert_eq!(error.message(), message);
    }
    assert!(send_name(Some("n".to_string())).is_ok());
    assert_eq!(send_name(None).err().unwrap().message(), "文件名无效");
}

#[test]
fn failures_of_receiving_are_answered() {
    let sender = service("sender", 1);
    let receiver = service("receiver", 0);
    let mut wire = Vec::new();
    transfer_wire(&sender, &receiver, b"content", &mut wire);
    let at = |events: Vec<IncomingEvent>| {
        let mut incoming = Incoming::new();
        let text = String::from_utf8_lossy(&wire).to_string();
        let mut action = IncomingAction::ReadLine;
        for line in text.split_inclusive('\n') {
            let (next, todo) =
                receiver.handle_upload(incoming, IncomingEvent::Line(Ok(line.to_string())), 1);
            incoming = next;
            action = todo;
            if matches!(action, IncomingAction::Prepare) {
                break;
            }
        }
        for event in events {
            let (next, todo) = receiver.handle_upload(incoming, event, 1);
            incoming = next;
            action = todo;
        }
        match action {
            IncomingAction::Answer(response) => format!("{} {}", response.status, response.body),
            IncomingAction::Abort(reason) => reason,
            IncomingAction::LookFor(name) => name,
            IncomingAction::Write(bytes) => String::from_utf8(bytes).unwrap(),
            _ => "other".to_string(),
        }
    };
    let error = "500 {\"ok\":false,\"error\":\"full \\\"disk\\\"\"}";
    let full = || "full \"disk\"".to_string();
    assert_eq!(at(vec![IncomingEvent::Prepared(Err(full()))]), error);
    assert_eq!(at(vec![IncomingEvent::Prepared(Ok(()))]), "2.txt");
    assert_eq!(
        at(vec![IncomingEvent::Prepared(Ok(())), IncomingEvent::Exists(true)]),
        "2 (1).txt"
    );
    let mut taken = vec![IncomingEvent::Prepared(Ok(()))];
    for _ in 0..9999 {
        taken.push(IncomingEvent::Exists(true));
    }
    assert_eq!(at(taken), "2 (9999).txt");
    let mut taken = vec![IncomingEvent::Prepared(Ok(()))];
    for _ in 0..10000 {
        taken.push(IncomingEvent::Exists(true));
    }
    assert_eq!(at(taken), "500 {\"ok\":false,\"error\":\"too many duplicate file names\"}");
    let begun = || vec![IncomingEvent::Prepared(Ok(())), IncomingEvent::Exists(false)];
    let with = |more: Vec<IncomingEvent>| {
        let mut events = begun();
        events.extend(more);
        at(events)
    };
    assert_eq!(with(vec![IncomingEvent::Created(Err(full()))]), error);
    let created = || IncomingEvent::Created(Ok(()));
    assert_eq!(
        with(vec![created(), IncomingEvent::Content(Err("gone".to_string()))]),
        "gone"
    );
    assert_eq!(
        with(vec![created(), IncomingEvent::Content(Ok(vec![0; 8]))]),
        "content too long"
    );
    let secret = wire[wire.len() - 7..].to_vec();
    assert_eq!(
        with(vec![created(), IncomingEvent::Content(Ok(secret.clone()))]),
        "content"
    );
    assert_eq!(
        with(vec![
            created(),
            IncomingEvent::Content(Ok(secret.clone())),
            IncomingEvent::Written(Err(full()))
        ]),
        error
    );
    assert_eq!(
        with(vec![
            created(),
            IncomingEvent::Content(Ok(secret)),
            IncomingEvent::Written(Ok(())),
            IncomingEvent::Flushed(Err(full()))
        ]),
        error
    );
}

#[test]
fn published_files_are_remembered_where_they_are() {
    let crypto = TransferCrypto::from_keys([1; 32], [2; 32], counting(3));
    let request = || UploadRequest {
        transfer_id: "id".to_string(),
        file_name: "f".to_string(),
        sender_name: "s".to_string(),
        content_length: 0,
        sender_public: String::new(),
        nonce: String::new(),
        mac: String::new(),
    };
    assert!(request().fits());
    let code = FileMac::new(&crypto, "id", "f", "s", 0).finalize();
    let file = Receiving::over(request(), Ok(code), Ok(crypto.clone())).ok().unwrap();
    assert_eq!(file.wanted(), 0);
    let saved = file.verify().ok().unwrap().saved(
        "/p",
        Some(PublishedFile { uri: "content://media/1".to_string() }),
        9,
    );
    assert_eq!(saved.event.saved_path, Some("content://media/1".to_string()));
    assert_eq!(saved.event.timestamp_ms, 9);
    assert_eq!(saved.response.body, "{\"ok\":true,\"file\":\"/p\"}");
    let wrong = Receiving::over(request(), Ok([0; 32]), Ok(crypto.clone())).ok().unwrap();
    assert!(wrong.verify().is_err());
    let refused = Receiving::over(request(), Err("bad".to_string()), Ok(crypto)).err().unwrap();
    assert_eq!((refused.status, refused.body.as_str()), (400, "{}"));
    let refused = Receiving::over(request(), Ok(code), Err("why\"".to_string())).err().unwrap();
    assert_eq!(refused.body, "{\"ok\":false,\"error\":\"why\\\"\"}");
}

#[test]
fn sessions_that_fail_are_told() {
    let sender = service("s", 1);
    let failed = Sending::over(
        Err("why".to_string()),
        &sender.identity(),
        &target(&sender),
        "f".to_string(),
        0,
        0,
    );
    assert_eq!(failed.err().unwrap().message(), "创建加密会话失败：why");
}

#[test]
fn file_code_has_an_exact_value() {
    let keys = file_sharer::crypto::KeyPair::generate(Ok(counting(0))).unwrap();
    let session = keys
        .create_sender_session(&keys.public_header(), Ok(counting(100)), Ok(counting(200)))
        .unwrap();
    let content = b"hello from mac sender";
    let mut mac = FileMac::new(
        &session.crypto,
        "0123456789abcdef",
        "甘__-开发.docx",
        "box's linux",
        content.len() as u64,
    );
    mac.update(&content[..5]);
    mac.update(&content[5..]);
    assert_eq!(mac.header(), "58BQ0xN9nTf6bna3UmI1qDlCL6FBPYXGr27rPpzsi7c=");
}

#[test]
fn authentication_has_a_limit() {
    assert!(authenticates("a", "b", "c", 1 << 60));
    assert!(!authenticates("a", "b", "c", 1 << 61));
    assert!(authenticates("a", "b", "c", (1 << 61) - 90));
    assert!(!authenticates("a", "b", "c", (1 << 61) - 89));
}

#[test]
fn head_has_its_lines() {
    let head = UploadHead {
        address: "10.0.0.1:45892".to_string(),
        length: 12,
        sender_id: "abc".to_string(),
        sender_name: "my phone".to_string(),
        file_name: "报告.txt".to_string(),
        transfer_id: "t1".to_string(),
        sender_public: "PUB=".to_string(),
        nonce: "NON=".to_string(),
        mac: "MAC=".to_string(),
    };
    assert_eq!(
        head.text(),
        "POST /upload HTTP/1.1\r\n\
         Host: 10.0.0.1:45892\r\n\
         Content-Length: 12\r\n\
         X-File-Sharer-Protocol: file-sharer.v2\r\n\
         X-Sender-Id: abc\r\n\
         X-Sender-Name: my%20phone\r\n\
         X-File-Name: %E6%8A%A5%E5%91%8A.txt\r\n\
         X-Transfer-Id: t1\r\n\
         X-Crypto-Mode: dh-sha256-stream-v1\r\n\
         X-Crypto-Sender-Public: PUB=\r\n\
         X-Crypto-Nonce: NON=\r\n\
         X-Crypto-Mac: MAC=\r\n\
         Connection: close\r\n\r\n"
    );
    let read = read_request(&read_head(&head.text()), "own", 3).ok().unwrap();
    assert_eq!(read.transfer_id, "t1");
    assert_eq!(read.file_name, "报告.txt");
    assert_eq!(read.sender_name, "my phone");
    assert_eq!(read.content_length, 12);
    assert_eq!(read.sender_public, "PUB=");
    assert_eq!(read.nonce, "NON=");
    assert_eq!(read.mac, "MAC=");
}

#[test]
fn heads_are_read_line_by_line() {
    let head = read_head("GET / HTTP/1.1 \r\nA: 1\r\nno colon\r\n b : x:y \na: 2\n\nC: 3\n");
    assert!(head.is_complete());
    assert!(head.asks("GET / HTTP/1.1"));
    assert!(!head.asks("GET / HTTP/1.1 "));
    assert_eq!(head.header("a"), Some("2".to_string()));
    assert_eq!(head.header("b"), Some("x:y".to_string()));
    assert_eq!(head.header("c"), None);
    assert_eq!(head.header("A"), None);
    let mut map: StringHashMap<String> = StringHashMap::new();
    map.insert("k".to_string(), "v".to_string());
    assert_eq!(header_value(&map, "k"), Some("v".to_string()));
    assert_eq!(header_value(&map, "l"), None);
}

#[test]
fn requests_are_refused_for_what_they_lack() {
    let bad = (400, "Bad Request".to_string(), "{}".to_string());
    assert_eq!(
        refusal(&read_head("OPTIONS /upload HTTP/1.1\r\n\r\n")),
        (204, "No Content".to_string(), "{}".to_string())
    );
    for line in ["GET /upload HTTP/1.1\r\n\r\n", "POST /uploads HTTP/1.1\r\n\r\n", "", "\r\n"] {
        assert_eq!(
            refusal(&read_head(line)),
            (404, "Not Found".to_string(), "{}".to_string())
        );
    }
    assert_eq!(refusal(&head_with(&[])), bad);
    assert_eq!(refusal(&head_with(&["X-File-Sharer-Protocol: file-sharer.v1"])), bad);
    assert_eq!(refusal(&head_with(&FULL[..1])), bad);
    assert_eq!(
        refusal(&head_with(&FULL[..2])),
        (0, "missing content-length".to_string(), String::new())
    );
    let length = |value: &str| {
        let line = format!("Content-Length: {value}");
        refusal(&head_with(&[FULL[0], FULL[1], &line]))
    };
    assert_eq!(length("-1").0, 0);
    assert_eq!(length("x").0, 0);
    assert_eq!(length("99999999999999999999").0, 0);
    assert_eq!(length("5"), bad);
    assert_eq!(refusal(&head_with(&FULL[..3])), bad);
    assert_eq!(refusal(&head_with(&FULL[..4])), bad);
    assert_eq!(refusal(&head_with(&FULL[..5])), bad);
    assert_eq!(refusal(&head_with(&FULL)).0, 1);
}

#[test]
fn missing_names_are_filled_in() {
    let bare = read_request(&head_with(&FULL), "own", 7).ok().unwrap();
    assert_eq!(bare.file_name, "shared-file");
    assert_eq!(bare.sender_name, "Unknown device");
    assert_eq!(
        bare.transfer_id,
        file_sharer::identity::transfer_id("remote", "own", "shared-file", 7)
    );
    let mut lines = FULL.to_vec();
    lines.extend(["X-File-Name: ...", "X-Sender-Name: %20", "X-Transfer-Id: %GG"]);
    let blank = read_request(&head_with(&lines), "own", 7).ok().unwrap();
    assert_eq!(blank.file_name, "shared-file");
    assert_eq!(blank.sender_name, "Unknown device");
    assert_eq!(blank.transfer_id, bare.transfer_id);
    let mut lines = FULL.to_vec();
    lines.extend(["X-File-Name: ..%2Fa", "X-Sender-Name: %20x ", "X-Transfer-Id: t"]);
    let given = read_request(&head_with(&lines), "own", 7).ok().unwrap();
    assert_eq!(given.file_name, "_a");
    assert_eq!(given.sender_name, " x");
    assert_eq!(given.transfer_id, "t");
}

#[test]
fn responses_have_their_lines() {
    assert_eq!(
        Response::new(404, "Not Found", "{\"é\":1}").text(),
        "HTTP/1.1 404 Not Found\r\n\
         Access-Control-Allow-Origin: *\r\n\
         Access-Control-Allow-Methods: POST, OPTIONS\r\n\
         Access-Control-Allow-Headers: Content-Type, X-File-Sharer-Protocol, X-Sender-Id, X-Sender-Name, X-File-Name, X-Transfer-Id, X-Crypto-Mode, X-Crypto-Sender-Public, X-Crypto-Nonce, X-Crypto-Mac\r\n\
         Content-Type: application/json; charset=utf-8\r\n\
         Content-Length: 8\r\n\
         Connection: close\r\n\r\n{\"é\":1}"
    );
    assert_eq!(error_body_text("a\"b"), "{\"ok\":false,\"error\":\"a\\\"b\"}");
    let error = server_error("x");
    assert_eq!(error.status, 500);
    assert_eq!(error.reason, "Internal Server Error");
}

#[test]
fn answers_are_accepted_or_told() {
    assert_eq!(upload_refusal("HTTP/1.1 200 OK\r\n"), None);
    assert_eq!(upload_refusal("HTTP/1.1 2000"), None);
    let told = |answer: &str| upload_refusal(answer).unwrap();
    assert_eq!(told(""), "接收端拒绝：无响应");
    assert_eq!(told("HTTP/1.1 400 Bad\r\nx"), "接收端拒绝：HTTP/1.1 400 Bad");
    assert_eq!(told("HTTP/1.1 400 Bad\nx"), "接收端拒绝：HTTP/1.1 400 Bad");
    assert_eq!(told("HTTP/1.1 400 Bad\r"), "接收端拒绝：HTTP/1.1 400 Bad\r");
    assert_eq!(told("\nx"), "接收端拒绝：");
    assert_eq!(told("\r\nx"), "接收端拒绝：");
}
