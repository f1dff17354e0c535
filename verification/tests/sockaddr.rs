//! Addresses, completions and slots.
use veloq_driver::completion::{
    completion_record, io_result_to_event_res, CompletionEvent, CompletionSidecar, CompletionSink,
    CompletionToken,
};
use veloq_driver::nonzero::NonZeroU32;
use veloq_driver::slots::{OpRegistry, SlotState};
use veloq_driver::sockaddr::{
    decode_addr, encode_addr, order_of_one, read_u16_ne, read_u32_ne, write_u16_ne, write_u32_ne, AddrError,
    ByteOrder, SocketAddr, SocketAddrV4, SocketAddrV6,
};
use veloq_driver::text::{contains_text, decimal_string, same_text};

const AF_INET6: u16 = 10;

#[test]
fn encoding_and_decoding_in_both_orders() {
    let mut ip: [u8; 16] = [0; 16];
    for (i, b) in ip.iter_mut().enumerate() {
        *b = i as u8;
    }
    let addrs = [
        SocketAddr::V4(SocketAddrV4 {
            ip: [255, 1, 0, 9],
            port: 65535,
        }),
        SocketAddr::V6(SocketAddrV6 {
            ip,
            port: 1,
            flowinfo: 0x0102_0304,
            scope_id: 0xffff_0001,
        }),
    ];
    for order in [ByteOrder::Little, ByteOrder::Big] {
        for addr in addrs {
            let (storage, len) = encode_addr(order, AF_INET6, addr);
            assert_eq!(storage.bytes.len(), 128);
            assert!(storage.bytes[len..].iter().all(|b| *b == 0));
            assert_eq!(decode_addr(order, AF_INET6, &storage.bytes[..len]), Ok(addr));
        }
    }
    let (storage, len) = encode_addr(ByteOrder::Big, AF_INET6, addrs[1]);
    assert_eq!(len, 28);
    assert_eq!(&storage.bytes[..8], &[0, 10, 0, 1, 1, 2, 3, 4]);
    assert_eq!(storage.family(ByteOrder::Big), 10);
}

#[test]
fn addresses_that_cannot_be_read() {
    let decode = |buf: &[u8]| decode_addr(ByteOrder::Little, AF_INET6, buf);
    assert_eq!(decode(&[]), Err(AddrError::InvalidLength));
    assert_eq!(decode(&[2]), Err(AddrError::InvalidLength));
    assert_eq!(decode(&[2, 0, 1]), Err(AddrError::InvalidIpv4Length));
    assert_eq!(decode(&[10, 0, 1]), Err(AddrError::InvalidIpv6Length));
    assert_eq!(decode(&[1, 0, 1]), Err(AddrError::UnsupportedFamily));
    assert_eq!(decode(&[0, 2, 0, 0]), Err(AddrError::UnsupportedFamily));
}

#[test]
fn numbers_in_both_orders() {
    let mut bytes: Vec<u8> = vec![0; 8];
    write_u16_ne(ByteOrder::Big, &mut bytes, 1, 0x1234);
    write_u32_ne(ByteOrder::Little, &mut bytes, 3, 0x0102_0304);
    assert_eq!(bytes, vec![0, 0x12, 0x34, 4, 3, 2, 1, 0]);
    assert_eq!(read_u16_ne(ByteOrder::Big, &bytes, 1), 0x1234);
    assert_eq!(read_u16_ne(ByteOrder::Little, &bytes, 1), 0x3412);
    assert_eq!(read_u32_ne(ByteOrder::Little, &bytes, 3), 0x0102_0304);
}

#[test]
fn the_order_shows_in_the_bytes_of_one() {
    assert_eq!(order_of_one([1, 0]), ByteOrder::Little);
    assert_eq!(order_of_one([0, 1]), ByteOrder::Big);
}

fn sidecar(user_data: usize, generation: u32, res: i32) -> CompletionSidecar<&'static str> {
    CompletionSidecar {
        user_data,
        generation,
        res,
        flags: 2,
        payload: Some("payload"),
        detail: Some(Ok(3)),
        peer: None,
    }
}

#[test]
fn completions_come_in_order_and_records_once() {
    let mut sink: CompletionSink<&'static str> = CompletionSink::new(2);
    sink.push_completion_event(sidecar(1, 7, 10));
    sink.push_completion_event(sidecar(0, 8, 11));
    let mut out: Vec<CompletionEvent> = Vec::new();
    assert_eq!(sink.drain_completions(&mut out), 2);
    assert_eq!((out[0].res, out[1].res), (10, 11));
    assert_eq!(sink.drain_completions(&mut out), 0);
    assert_eq!(out.len(), 2);
    let token = |user_data: usize, generation: u32| CompletionToken {
        user_data,
        generation,
    };
    assert!(sink.take_record(token(1, 6)).is_none());
    assert!(sink.take_record(token(9, 6)).is_none());
    let record = sink.take_record(token(1, 7)).unwrap();
    assert_eq!(record.payload, Some("payload"));
    assert_eq!(record.event, out[0]);
    assert!(sink.take_record(token(1, 7)).is_none());
}

#[test]
fn results_as_event_numbers() {
    assert_eq!(io_result_to_event_res(&Ok(5)), 5);
    assert_eq!(io_result_to_event_res(&Ok(usize::MAX)), i32::MAX);
    assert_eq!(io_result_to_event_res(&Err(Some(22))), -22);
    let record = completion_record(sidecar(3, 4, -9));
    assert_eq!(record.event.res, -9);
    assert_eq!(record.event.flags, 2);
    assert_eq!(record.detail, Some(Ok(3)));
}

#[test]
fn slots_are_used_again_under_a_new_generation() {
    let mut r: OpRegistry<u8, u8, u8> = OpRegistry::new(2, 0);
    assert_eq!(r.len(), 2);
    let (a, g) = r.insert(5).unwrap();
    let (b, _) = r.insert(6).unwrap();
    assert_ne!(a, b);
    assert!(r.insert(7).is_err());
    assert_eq!(r.state(a), Some(SlotState::Reserved));
    r.set_op(a, 9);
    r.set_payload(a, 8);
    r.set_detail(a, Err(4));
    assert_eq!(r.take_data(a), (Some(8), Some(Err(4))));
    assert_eq!(r.take_op(a), Some(9));
    assert_eq!(r.take_op(a), None);
    r.remove(a);
    assert!(!r.contains(a));
    assert_eq!(r.state(a), None);
    assert_eq!(r.state(99), None);
    assert_eq!(r.insert(1).unwrap(), (a, g + 1));
}

#[test]
fn texts() {
    assert_eq!(decimal_string(0), "0");
    assert_eq!(decimal_string(i32::MIN), "-2147483648");
    assert_eq!(decimal_string(i32::MAX), "2147483647");
    assert!(same_text("abc", "abc"));
    assert!(!same_text("abc", "abd"));
    let chars = |s: &str| s.chars().collect::<Vec<char>>();
    assert!(contains_text(&chars("xabcx"), &chars("abc")));
    assert!(!contains_text(&chars("ab"), &chars("abc")));
    assert!(NonZeroU32::new(0).is_none());
    assert_eq!(NonZeroU32::new(3).unwrap().get(), 3);
}
