//! The receive pool of a datagram socket, with a system that is played by the test.
use veloq_driver::completion::CompletionEvent;
use veloq_driver::iocp::buffer::IocpBuffer;
use veloq_driver::iocp::config::IocpHandle;
use veloq_driver::iocp::error::RioError;
use veloq_driver::iocp::op::{IoFd, IocpOp, IocpOpState};
use veloq_driver::iocp::rio::contexts::{RequestContexts, RioCompletionKind};
use veloq_driver::iocp::rio::kernel::{RioBufferId, RioResult};
use veloq_driver::iocp::rio::keys::ActorKey;
use veloq_driver::iocp::rio::pool::{
    Answer, UdpPoolManager, UdpPoolState, UdpWaiter, UdpWaiterKind, UDP_RECV_POOL_CHUNK_SIZE,
    UDP_RECV_POOL_QUEUE_CAP, UDP_RECV_POOL_SLAB_CHUNKS,
};
use veloq_driver::iocp::rio::pool_delivery::{copy_data_to_recv_op, parse_rio_address};
use veloq_driver::iocp::rio::pool_steps::{PoolAsk, PoolStep};
use veloq_driver::iocp::rio::tokens::TokenRegistry;
use veloq_driver::iocp::table::{Delivery, OpTable};
use veloq_driver::slots::SlotState;
use veloq_driver::sockaddr::{ByteOrder, SocketAddr, SocketAddrV4};
use veloq_driver::uring::op::PoolKind;

struct Net {
    pool: UdpPoolManager,
    contexts: RequestContexts,
    table: OpTable<u32>,
    /// The requests under way.
    requests: Vec<u64>,
    next_id: u64,
    refuse_receives: bool,
}

fn peer(port: u16) -> SocketAddr {
    SocketAddr::V4(SocketAddrV4 {
        ip: [127, 0, 0, 1],
        port,
    })
}

impl Net {
    fn new() -> Net {
        Net {
            pool: UdpPoolManager::new(),
            contexts: RequestContexts::new(),
            table: OpTable::new(8),
            requests: Vec::new(),
            next_id: 10,
            refuse_receives: false,
        }
    }

    /// Answers what the pool asks for until it is done.
    fn run(&mut self, first: PoolStep) -> PoolStep {
        let mut step = first;
        loop {
            step = match step {
                PoolStep::Next { task } => self.pool.advance(
                    task,
                    ActorKey::default(),
                    &mut self.contexts,
                    &mut self.table,
                ),
                PoolStep::Ask { ask, task } => {
                    self.next_id += 1;
                    let mut answer = Answer {
                        value: self.next_id,
                        error: 0,
                    };
                    match ask {
                        PoolAsk::AllocateSlab { len } | PoolAsk::RegisterSlab { len, .. } => {
                            assert_eq!(
                                len,
                                UDP_RECV_POOL_CHUNK_SIZE * UDP_RECV_POOL_SLAB_CHUNKS as usize
                            );
                        }
                        PoolAsk::RegisterAddr { len } => assert_eq!(len, 128),
                        PoolAsk::Receive { context, .. } => {
                            if self.refuse_receives {
                                answer = Answer {
                                    value: 0,
                                    error: 10055,
                                };
                            } else {
                                self.requests.push(context);
                            }
                        }
                    }
                    self.pool
                        .answer(task, answer, ActorKey::default(), &mut self.contexts)
                }
                done => return done,
            };
        }
    }

    fn wait(&mut self, w: UdpWaiter) -> PoolStep {
        let first = self.pool.try_submit_recv(w, 0);
        self.run(first)
    }

    /// An operation under way that waits for a datagram.
    fn waiter(&mut self, kind: UdpWaiterKind) -> UdpWaiter {
        let (user_data, generation) = self.table.ops.insert(IocpOpState::new(0)).unwrap();
        let fd = IoFd::Raw {
            handle: IocpHandle::Socket {
                handle: 3,
                generation: 1,
            },
        };
        let buf = IocpBuffer {
            ptr: 0x1000,
            capacity: 100,
            len: 100,
            pool_kind: PoolKind::Heap,
            chunk_id: 0,
            offset: 0,
            cookie: 1,
        };
        let op = match kind {
            UdpWaiterKind::Recv => IocpOp::UdpRecv {
                fd,
                buf,
                buf_offset: 40,
            },
            UdpWaiterKind::Stream => IocpOp::UdpRecvStream { fd, buf: None },
        };
        self.table.ops.set_op(user_data, op);
        self.table.set_platform(user_data, IocpOpState::new(generation));
        self.table.ops.set_state(user_data, SlotState::InFlightWaiting);
        UdpWaiter {
            user_data,
            generation,
            kind,
        }
    }

    /// A datagram arrives for the oldest request.
    fn arrives(&mut self, status: i32, len: u32, port: u16) -> Option<PoolStep> {
        let context = self.requests.remove(0);
        let token = match self.contexts.decode_req_ctx(context) {
            Some(RioCompletionKind::Pool { generation, .. }) => generation,
            other => panic!("{other:?}"),
        };
        let res = RioResult {
            status,
            bytes_transferred: len,
            request_context: context,
        };
        let first = self
            .pool
            .handle_completion(&mut self.table, token, &res, peer(port))?;
        Some(self.run(first))
    }

    fn events(&mut self) -> Vec<CompletionEvent> {
        let mut out: Vec<CompletionEvent> = Vec::new();
        self.table.completions.drain_completions(&mut out);
        out
    }
}

#[test]
fn the_first_operation_sets_the_pool_up() {
    let mut net = Net::new();
    assert_eq!(net.pool.udp_pool_debug_stats(), None);
    assert_eq!(net.pool.pool.state, UdpPoolState::Uninitialized);
    assert!(net.pool.pool.slab.is_none());
    assert_eq!((net.pool.pool.target_credits, net.pool.pool.idle_hits), (0, 0));
    assert_eq!(net.pool.registry.next_ctx, 1);
    assert!(net.pool.registry.map.is_empty());
    assert!(net.pool.mailbox.queue.is_empty() && net.pool.mailbox.waiters.is_empty());
    let w = net.waiter(UdpWaiterKind::Recv);
    assert!(matches!(net.wait(w), PoolStep::Done { .. }));
    assert_eq!(net.pool.pool.state, UdpPoolState::Running);
    // Four requests to start with, and one more for the operation that waits.
    assert_eq!(net.requests.len(), 5);
    let stats = net.pool.udp_pool_debug_stats().unwrap();
    assert_eq!((stats.min_credits, stats.max_credits), (2, 16));
    assert_eq!((stats.target_credits, stats.waiters_len), (5, 1));
}

#[test]
fn datagrams_go_to_the_operation_that_waits() {
    let mut net = Net::new();
    let w = net.waiter(UdpWaiterKind::Recv);
    net.wait(w);
    let before = net.requests.len();
    assert!(matches!(net.arrives(0, 500, 7), Some(PoolStep::Done { .. })));
    // The request is made again.
    assert_eq!(net.requests.len(), before);
    let events = net.events();
    assert_eq!(events.len(), 1);
    assert_eq!((events[0].token.user_data, events[0].res), (w.user_data, 60));
    match net.table.take_deliveries().as_slice() {
        [Delivery::Copy { start, copied, user_data, .. }] => {
            assert_eq!((*start, *copied, *user_data), (40, 60, w.user_data));
        }
        other => panic!("{other:?}"),
    }
    assert!(net.table.take_deliveries().is_empty());
}

#[test]
fn datagrams_wait_for_operations() {
    let mut net = Net::new();
    let w = net.waiter(UdpWaiterKind::Stream);
    net.wait(w);
    net.arrives(0, 20, 1);
    net.arrives(0, 30, 2);
    net.arrives(0, 31, 3);
    let events = net.events();
    assert_eq!(events.len(), 1);
    assert_eq!(events[0].res, 20);
    match net.table.take_deliveries().as_slice() {
        [Delivery::Hand { len, peer: from, chunk, .. }] => {
            assert_eq!((*len, *from), (20, peer(1)));
            let chunk: u32 = *chunk;
            assert!(net.pool.recycle_chunk(chunk));
            assert!(!net.pool.recycle_chunk(chunk));
        }
        other => panic!("{other:?}"),
    }
    // The next operation is served at once, with the oldest datagram.
    let second = net.waiter(UdpWaiterKind::Stream);
    match net.wait(second) {
        PoolStep::Done { task } => {
            let packet = task.served.unwrap();
            assert_eq!((packet.len, packet.peer), (30, peer(2)));
        }
        other => panic!("{other:?}"),
    }
    assert_eq!(net.pool.mailbox.queue.len(), 1);
}

#[test]
fn operations_that_are_gone_are_passed_over() {
    let mut net = Net::new();
    let gone = net.waiter(UdpWaiterKind::Stream);
    net.wait(gone);
    let here = net.waiter(UdpWaiterKind::Stream);
    net.wait(here);
    net.table.free_op(gone.user_data);
    net.arrives(0, 12, 9);
    let events = net.events();
    assert_eq!(events.len(), 1);
    assert_eq!((events[0].token.user_data, events[0].res), (here.user_data, 12));
    assert!(net.pool.mailbox.queue.is_empty());
    assert!(net.pool.mailbox.waiters.is_empty());
}

#[test]
fn failed_requests_carry_no_datagram() {
    let mut net = Net::new();
    let w = net.waiter(UdpWaiterKind::Stream);
    net.wait(w);
    let before = net.requests.len();
    net.arrives(10054, 0, 1);
    assert!(net.events().is_empty());
    assert!(net.pool.mailbox.queue.is_empty());
    assert!(net.requests.len() >= before);
}

#[test]
fn only_so_many_datagrams_wait() {
    let mut net = Net::new();
    let w = net.waiter(UdpWaiterKind::Stream);
    net.wait(w);
    net.arrives(0, 1, 1);
    let total = UDP_RECV_POOL_QUEUE_CAP + 3;
    for k in 0..total {
        net.arrives(0, 10 + k as u32, 2);
    }
    assert_eq!(net.pool.mailbox.queue.len(), UDP_RECV_POOL_QUEUE_CAP);
    assert_eq!(net.pool.mailbox.queue[0].len, 13);
}

#[test]
fn cancelled_operations_leave_the_line() {
    let mut net = Net::new();
    let w = net.waiter(UdpWaiterKind::Stream);
    net.wait(w);
    let first = net.pool.cancel_waiter(w.user_data, w.generation + 1);
    net.run(first);
    assert_eq!(net.pool.mailbox.waiters.len(), 1);
    let first = net.pool.cancel_waiter(w.user_data, w.generation);
    net.run(first);
    assert!(net.pool.mailbox.waiters.is_empty());
}

#[test]
fn refused_requests_are_reported() {
    let mut net = Net::new();
    net.refuse_receives = true;
    let w = net.waiter(UdpWaiterKind::Stream);
    match net.wait(w) {
        PoolStep::Failed { failure, .. } => {
            assert_eq!(failure.error, RioError::Datapath);
            assert_eq!(failure.code, Some(10055));
        }
        other => panic!("{other:?}"),
    }
}

#[test]
fn pools_drain_before_they_close() {
    let mut net = Net::new();
    let w = net.waiter(UdpWaiterKind::Stream);
    net.wait(w);
    let requests = net.requests.len();
    net.pool.shutdown_pool();
    assert_eq!(net.pool.pool.state, UdpPoolState::Draining);
    net.pool.handle_drain_comp();
    assert_eq!(net.pool.cleanup_drained_pool(), None);
    while !net.requests.is_empty() {
        net.arrives(0, 5, 1);
        net.pool.handle_drain_comp();
    }
    assert!(net.pool.mailbox.queue.is_empty());
    assert_eq!(net.pool.pool.state, UdpPoolState::Closed);
    // Every address buffer and the slab are given back.
    let ids = net.pool.cleanup_drained_pool().unwrap();
    assert_eq!(ids.len(), requests + 1);
    assert!(!ids.contains(&RioBufferId::invalid()));
    // A closed pool serves nobody.
    let late = net.waiter(UdpWaiterKind::Stream);
    assert!(matches!(net.wait(late), PoolStep::Failed { .. }));
}

#[test]
fn forgotten_requests_are_ignored() {
    let mut net = Net::new();
    let w = net.waiter(UdpWaiterKind::Stream);
    net.wait(w);
    net.pool.forget_requests();
    assert!(net.arrives(0, 5, 1).is_none());
    assert!(net.events().is_empty());
}

#[test]
fn bytes_are_copied_into_the_buffer() {
    let mut buf: Vec<u8> = vec![0; 6];
    assert_eq!(copy_data_to_recv_op(&mut buf, 2, &[1, 2, 3]), 3);
    assert_eq!(buf, vec![0, 0, 1, 2, 3, 0]);
    assert_eq!(copy_data_to_recv_op(&mut buf, 4, &[7, 8, 9]), 2);
    assert_eq!(buf, vec![0, 0, 1, 2, 7, 8]);
    assert_eq!(copy_data_to_recv_op(&mut buf, 60, &[7]), 0);
}

#[test]
fn unreadable_peers_are_unspecified() {
    let unspecified = SocketAddr::V4(SocketAddrV4 {
        ip: [0; 4],
        port: 0,
    });
    assert_eq!(parse_rio_address(ByteOrder::Little, &[]), unspecified);
    let mut name: Vec<u8> = vec![2, 0, 0x10, 0x92, 127, 0, 0, 1];
    name.resize(16, 0);
    assert_eq!(parse_rio_address(ByteOrder::Little, &name), peer(4242));
}

#[test]
fn tokens_are_not_used_twice() {
    let mut net = Net::new();
    let w = net.waiter(UdpWaiterKind::Stream);
    net.wait(w);
    let key = *net.pool.registry.map.values().next().unwrap();
    let mut t = TokenRegistry::new();
    let a = t.take(key);
    let b = t.take(key);
    assert_ne!(a, b);
    assert_eq!(t.ack_pool_done(a), Some(key));
    assert_eq!(t.ack_pool_done(a), None);
    t.reclaim(b);
    assert_eq!(t.ack_pool_done(b), None);
    let c = t.take(key);
    t.forget();
    assert_eq!(t.ack_pool_done(c), None);
}
