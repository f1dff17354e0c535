//! Socket generations across threads: what holds of any calls, on any threads, in any
//! order.
use vstd::prelude::*;
use super::config::{generation_of, IocpHandle, SocketGenerations, ThreadTags};
use super::files::{HandlesModel, RegisterFd, RegistrarModel};

verus! {

/// A call that a thread makes.
pub enum ThreadCall {
    /// `SocketGenerations::current_thread_tag`.
    Tag { thread: int },
    /// `SocketGenerations::alloc_socket_generation`, by itself or for a new socket.
    Generation { thread: int },
}

impl ThreadCall {
    /// The thread that makes the call.
    pub open spec fn thread(self) -> int {
        match self {
            ThreadCall::Tag { thread } => thread,
            ThreadCall::Generation { thread } => thread,
        }
    }
}

/// The counter of tags that all threads share, and what each thread keeps for itself.
#[verifier::ext_equal]
pub struct ThreadsModel {
    pub tags: ThreadTags,
    pub threads: Map<int, SocketGenerations>,
}

impl ThreadsModel {
    /// No thread has made a call.
    pub open spec fn start() -> ThreadsModel {
        ThreadsModel { tags: ThreadTags { next: 1 }, threads: Map::empty() }
    }

    /// What a thread keeps for itself.
    pub open spec fn of(self, thread: int) -> SocketGenerations {
        if self.threads.contains_key(thread) {
            self.threads[thread]
        } else {
            SocketGenerations::fresh()
        }
    }

    /// After one more call.
    pub open spec fn after(self, call: ThreadCall) -> ThreadsModel {
        let own = self.of(call.thread());
        ThreadsModel {
            tags: own.tags_left(self.tags),
            threads: self.threads.insert(
                call.thread(),
                match call {
                    ThreadCall::Tag { .. } => SocketGenerations {
                        tag: own.tag_with(self.tags),
                        ..own
                    },
                    ThreadCall::Generation { .. } => own.after_generation(self.tags),
                },
            ),
        }
    }

    /// After some calls from the start.
    pub open spec fn run(calls: Seq<ThreadCall>) -> ThreadsModel
        decreases calls.len(),
    {
        if calls.len() == 0 {
            ThreadsModel::start()
        } else {
            ThreadsModel::run(calls.drop_last()).after(calls.last())
        }
    }
}

/// The threads that make the calls.
pub open spec fn threads_in(calls: Seq<ThreadCall>) -> Set<int>
    decreases calls.len(),
{
    if calls.len() == 0 {
        Set::empty()
    } else {
        threads_in(calls.drop_last()).insert(calls.last().thread())
    }
}

/// How many generations the thread takes.
pub open spec fn taken(calls: Seq<ThreadCall>, thread: int) -> nat
    decreases calls.len(),
{
    if calls.len() == 0 {
        0
    } else {
        let front = taken(calls.drop_last(), thread);
        if calls.last() == (ThreadCall::Generation { thread }) {
            front + 1
        } else {
            front
        }
    }
}

/// The tag of the thread that makes call number `i`, as that call sees it.
pub open spec fn tag_at(calls: Seq<ThreadCall>, i: int) -> u32 {
    let s = ThreadsModel::run(calls.take(i));
    s.of(calls[i].thread()).tag_with(s.tags)
}

/// The generation that call number `i` takes.
pub open spec fn generation_at(calls: Seq<ThreadCall>, i: int) -> u64 {
    let s = ThreadsModel::run(calls.take(i));
    s.of(calls[i].thread()).next_generation(s.tags)
}

/// The threads have tags, not 0 and each its own; the counter of tags is past them all;
/// each thread's counter is one past the generations that it took.
proof fn tags_are_their_own(calls: Seq<ThreadCall>)
    requires
        threads_in(calls).len() <= u32::MAX,
    ensures
        ({
            let s = ThreadsModel::run(calls);
            let n = threads_in(calls).len();
            &&& s.threads.dom() == threads_in(calls)
            &&& threads_in(calls).finite()
            &&& s.tags.next == (if n == u32::MAX {
                0
            } else {
                n + 1
            })
            &&& forall|t: int| #[trigger] s.threads.contains_key(t) ==> 1 <= s.threads[t].tag <= n
            &&& forall|t: int, u: int| #[trigger]
                s.threads.contains_key(t) && #[trigger] s.threads.contains_key(u) && t != u
                    ==> s.threads[t].tag != s.threads[u].tag
            &&& forall|t: int|
                taken(calls, t) < u32::MAX ==> (#[trigger] s.of(t)).counter == taken(calls, t) + 1
        }),
    decreases calls.len(),
{
    threads_are_finite(calls);
    if calls.len() > 0 {
        let front = calls.drop_last();
        threads_are_finite(front);
        tags_are_their_own(front);
        let was = ThreadsModel::run(front);
        let s = ThreadsModel::run(calls);
        let t = calls.last().thread();
        assert(s.threads.dom() =~= threads_in(calls));
        if was.threads.contains_key(t) {
            assert(threads_in(calls) =~= threads_in(front));
        }
        assert forall|u: int| taken(calls, u) < u32::MAX implies (#[trigger] s.of(u)).counter
            == taken(calls, u) + 1 by {
            assert(was.of(u).counter == taken(front, u) + 1);
        }
    } else {
        assert(ThreadsModel::run(calls).threads.dom() =~= threads_in(calls));
    }
}

proof fn threads_are_finite(calls: Seq<ThreadCall>)
    ensures
        threads_in(calls).finite(),
        calls.len() > 0 ==> threads_in(calls.drop_last()).len() <= threads_in(calls).len(),
    decreases calls.len(),
{
    if calls.len() > 0 {
        threads_are_finite(calls.drop_last());
    }
}

/// A thread keeps the tag that one of its calls saw, whatever calls follow.
proof fn tags_stay(calls: Seq<ThreadCall>, i: int)
    requires
        0 <= i < calls.len(),
        threads_in(calls).len() <= u32::MAX,
    ensures
        tag_at(calls, i) != 0,
        ThreadsModel::run(calls).threads.contains_key(calls[i].thread()),
        ThreadsModel::run(calls).threads[calls[i].thread()].tag == tag_at(calls, i),
    decreases calls.len(),
{
    let front = calls.drop_last();
    threads_are_finite(calls);
    tags_are_their_own(front);
    if i < calls.len() - 1 {
        tags_stay(front, i);
        assert(front.take(i) =~= calls.take(i));
        assert(front[i] == calls[i]);
    } else {
        assert(calls.take(i) =~= front);
    }
}

/// The tag of a thread is not 0. Its later calls see the same tag, and no other thread
/// has it, as long as there are tags for all threads.
pub proof fn threads_keep_their_own_tags(calls: Seq<ThreadCall>, i: int, j: int)
    requires
        0 <= i < calls.len(),
        0 <= j < calls.len(),
        threads_in(calls).len() <= u32::MAX,
    ensures
        tag_at(calls, i) != 0,
        tag_at(calls, i) == tag_at(calls, j) <==> calls[i].thread() == calls[j].thread(),
{
    tags_are_their_own(calls);
    tags_stay(calls, i);
    tags_stay(calls, j);
}

/// The upper half of a generation is the tag of its thread. Neither half is 0.
pub proof fn generations_name_their_threads(calls: Seq<ThreadCall>, i: int)
    requires
        0 <= i < calls.len(),
        calls[i] is Generation,
        threads_in(calls).len() <= u32::MAX,
        taken(calls, calls[i].thread()) <= u32::MAX,
    ensures
        generation_at(calls, i) / 0x1_0000_0000 == tag_at(calls, i),
        tag_at(calls, i) != 0,
        generation_at(calls, i) % 0x1_0000_0000 != 0,
{
    tags_stay(calls, i);
    counters_count(calls, i);
}

/// The lower half of a generation is the number of the generations that the thread has
/// taken, with this one.
proof fn counters_count(calls: Seq<ThreadCall>, i: int)
    requires
        0 <= i < calls.len(),
        calls[i] is Generation,
        threads_in(calls).len() <= u32::MAX,
        taken(calls, calls[i].thread()) <= u32::MAX,
    ensures
        taken(calls.take(i), calls[i].thread()) < u32::MAX,
        generation_at(calls, i) == generation_of(
            tag_at(calls, i),
            (taken(calls.take(i), calls[i].thread()) + 1) as u32,
        ),
{
    let front = calls.take(i);
    let t = calls[i].thread();
    counts_grow(calls, i, t);
    counts_grow(calls, i + 1, t);
    let one = calls.take(i + 1);
    assert(one.drop_last() =~= front);
    assert(one.last() == calls[i]);
    prefixes_have_fewer_threads(calls, i);
    tags_are_their_own(front);
    let s = ThreadsModel::run(front);
    assert(s.of(t).counter == taken(front, t) + 1);
}

proof fn counts_grow(calls: Seq<ThreadCall>, i: int, thread: int)
    requires
        0 <= i <= calls.len(),
    ensures
        taken(calls.take(i), thread) <= taken(calls, thread),
    decreases calls.len(),
{
    if i == calls.len() {
        assert(calls.take(i) =~= calls);
    } else {
        counts_grow(calls.drop_last(), i, thread);
        assert(calls.drop_last().take(i) =~= calls.take(i));
    }
}

proof fn prefixes_have_fewer_threads(calls: Seq<ThreadCall>, i: int)
    requires
        0 <= i <= calls.len(),
    ensures
        threads_in(calls.take(i)).len() <= threads_in(calls).len(),
    decreases calls.len(),
{
    threads_are_finite(calls);
    if i == calls.len() {
        assert(calls.take(i) =~= calls);
    } else {
        prefixes_have_fewer_threads(calls.drop_last(), i);
        assert(calls.drop_last().take(i) =~= calls.take(i));
    }
}

/// No two calls, on whatever threads, take the same generation, as long as there are
/// tags for all threads and counters for all generations of each.
pub proof fn generations_differ(calls: Seq<ThreadCall>, i: int, j: int)
    requires
        0 <= i < j < calls.len(),
        calls[i] is Generation,
        calls[j] is Generation,
        threads_in(calls).len() <= u32::MAX,
        taken(calls, calls[i].thread()) <= u32::MAX,
        taken(calls, calls[j].thread()) <= u32::MAX,
    ensures
        generation_at(calls, i) != generation_at(calls, j),
{
    threads_keep_their_own_tags(calls, i, j);
    counters_count(calls, i);
    counters_count(calls, j);
    if calls[i].thread() == calls[j].thread() {
        let t = calls[i].thread();
        let upto = calls.take(j);
        let one = upto.take(i + 1);
        counts_grow(upto, i + 1, t);
        assert(one.drop_last() =~= calls.take(i));
        assert(one.last() == calls[i]);
    }
}

/// The calls that a thread makes while it registers `files`, with whatever driver: one
/// for each socket that was tagged as a file.
pub open spec fn registration_calls(files: Seq<RegisterFd>, thread: int) -> Seq<ThreadCall>
    decreases files.len(),
{
    if files.len() == 0 {
        Seq::empty()
    } else {
        let front = registration_calls(files.drop_last(), thread);
        if files.last().mistagged() {
            front.push(ThreadCall::Generation { thread })
        } else {
            front
        }
    }
}

/// What a thread has for a registration after some calls: the handles of the driver, its
/// own generations, and the tags that all threads share.
pub open spec fn registrar_after(
    calls: Seq<ThreadCall>,
    thread: int,
    handles: HandlesModel,
) -> RegistrarModel {
    let s = ThreadsModel::run(calls);
    RegistrarModel { handles, generations: s.of(thread), tags: s.tags }
}

/// Registering files is making calls: it leaves the generations of the thread and the
/// tags as its calls do.
pub proof fn registrations_are_calls(
    calls: Seq<ThreadCall>,
    thread: int,
    handles: HandlesModel,
    files: Seq<RegisterFd>,
)
    ensures
        ({
            let left = registrar_after(calls, thread, handles).with_handles(files);
            left == registrar_after(
                calls + registration_calls(files, thread),
                thread,
                left.handles,
            )
        }),
    decreases files.len(),
{
    if files.len() == 0 {
        assert(calls + registration_calls(files, thread) =~= calls);
    } else {
        let front = files.drop_last();
        registrations_are_calls(calls, thread, handles, front);
        if files.last().mistagged() {
            let all = calls + registration_calls(files, thread);
            assert(all.drop_last() =~= calls + registration_calls(front, thread));
        }
    }
}

/// The place, among the calls of a registration, of the call that file number `j` makes.
proof fn registered_by(files: Seq<RegisterFd>, thread: int, j: int)
    requires
        0 <= j < files.len(),
        files[j].mistagged(),
    ensures
        ({
            let all = registration_calls(files, thread);
            let n = registration_calls(files.take(j), thread).len() as int;
            &&& n < all.len()
            &&& all.take(n) == registration_calls(files.take(j), thread)
            &&& all[n] == (ThreadCall::Generation { thread })
        }),
    decreases files.len(),
{
    let front = files.drop_last();
    let all = registration_calls(files, thread);
    let n = registration_calls(files.take(j), thread).len() as int;
    if j < files.len() - 1 {
        registered_by(front, thread, j);
        assert(front.take(j) =~= files.take(j));
        assert(all.take(n) =~= registration_calls(front, thread).take(n));
    } else {
        assert(files.take(j) =~= front);
        assert(all.take(n) =~= registration_calls(front, thread));
    }
}

/// A socket that was tagged as a file is kept under the generation that its call takes.
pub proof fn registered_sockets_take_generations(
    calls: Seq<ThreadCall>,
    thread: int,
    handles: HandlesModel,
    files: Seq<RegisterFd>,
    j: int,
    rest: Seq<ThreadCall>,
)
    requires
        0 <= j < files.len(),
        files[j].mistagged(),
    ensures
        ({
            let all = calls + registration_calls(files, thread) + rest;
            let at = calls.len() + registration_calls(files.take(j), thread).len();
            &&& at < calls.len() + registration_calls(files, thread).len()
            &&& all[at as int] == (ThreadCall::Generation { thread })
            &&& registrar_after(calls, thread, handles).entry_in(files, j).raw_spec()
                == (IocpHandle::Socket {
                handle: files[j].handle.handle_spec(),
                generation: generation_at(all, at as int),
            })
        }),
{
    let all = calls + registration_calls(files, thread) + rest;
    let at = calls.len() + registration_calls(files.take(j), thread).len();
    registered_by(files, thread, j);
    registrations_are_calls(calls, thread, handles, files.take(j));
    assert(all.take(at as int) =~= calls + registration_calls(files.take(j), thread));
}

/// A socket that was tagged as a file is kept under a generation that no other call
/// takes: neither an earlier or later one, nor another of the same registration, nor one
/// of a registration with another driver, on whatever thread, as long as there are tags
/// for all threads and counters for all generations of each.
pub proof fn registered_generations_differ(
    calls: Seq<ThreadCall>,
    thread: int,
    handles: HandlesModel,
    files: Seq<RegisterFd>,
    j: int,
    rest: Seq<ThreadCall>,
    i: int,
)
    requires
        0 <= j < files.len(),
        files[j].mistagged(),
        ({
            let all = calls + registration_calls(files, thread) + rest;
            &&& 0 <= i < all.len()
            &&& i != calls.len() + registration_calls(files.take(j), thread).len()
            &&& all[i] is Generation
            &&& threads_in(all).len() <= u32::MAX
            &&& taken(all, all[i].thread()) <= u32::MAX
            &&& taken(all, thread) <= u32::MAX
        }),
    ensures
        ({
            let all = calls + registration_calls(files, thread) + rest;
            let e = registrar_after(calls, thread, handles).entry_in(files, j);
            e.raw_spec() matches IocpHandle::Socket { generation, .. } && generation
                != generation_at(all, i)
        }),
{
    let all = calls + registration_calls(files, thread) + rest;
    let at = (calls.len() + registration_calls(files.take(j), thread).len()) as int;
    registered_sockets_take_generations(calls, thread, handles, files, j, rest);
    if i < at {
        generations_differ(all, i, at);
    } else {
        generations_differ(all, at, i);
    }
}

} // verus!
