//! Random numbers, hashing, the clock-and-process seed, and messages.
use vstd::prelude::*;
use vstd::string::StringSliceAdditionalSpecFns;

use crate::types::{
    message_view, reb_messages_max_N, reb_simulation, store_message, REB_MESSAGE_TYPE,
};

verus! {

/// Largest value that `rand_r` can return, the largest `i32`.
pub const REB_RAND_MAX: i32 = 2147483647;

/// One step of the linear congruential generator behind `rand_r`:
/// `seed * 1103515245 + 12345` modulo 2^32.
pub open spec fn lcg_next(seed: u32) -> u32 {
    ((seed * 1103515245 + 12345) % 0x1_0000_0000) as u32
}

/// The 31-bit value that `rand_r` composes from the three seeds it visits:
/// 11 bits of the first, then 10 bits of the second and of the third.
pub open spec fn rand_r_value(seed: u32) -> int {
    let n1 = lcg_next(seed);
    let n2 = lcg_next(n1);
    let n3 = lcg_next(n2);
    ((n1 / 65536) % 2048) * 1048576 + ((n2 / 65536) % 1024) * 1024 + (n3 / 65536) % 1024
}

/// The seed that `rand_r` leaves behind: three generator steps further.
pub open spec fn rand_r_seed(seed: u32) -> u32 {
    lcg_next(lcg_next(lcg_next(seed)))
}

fn lcg_step(next: u32) -> (res: u32)
    ensures
        res == lcg_next(next),
{
    let m = next.wrapping_mul(1103515245);
    let res = m.wrapping_add(12345);
    assert(res == lcg_next(next)) by {
        vstd::arithmetic::div_mod::lemma_add_mod_noop(
            next * 1103515245,
            12345,
            0x1_0000_0000,
        );
        vstd::arithmetic::div_mod::lemma_mod_twice(next * 1103515245, 0x1_0000_0000);
    }
    res
}

/// glibc's reentrant `rand_r`: three rounds of the 1103515245/12345
/// generator, composing an 11-bit and two 10-bit slices of the upper
/// halves into a 31-bit result. Every step is wrapping 32-bit arithmetic.
pub fn rand_r(seed: &mut u32) -> (result: i32)
    ensures
        result == rand_r_value(*old(seed)),
        *final(seed) == rand_r_seed(*old(seed)),
        0 <= result <= REB_RAND_MAX,
{
    let mut next: u32 = *seed;
    let mut result: i32;

    next = lcg_step(next);
    let a: u32 = (next / 65536) % 2048;
    result = a as i32;

    next = lcg_step(next);
    let b: u32 = (next / 65536) % 1024;
    assert((a as i32) << 10u32 == a * 1024 && ((a * 1024) as i32) ^ (b as i32) == a * 1024 + b)
        by (bit_vector)
        requires
            a < 2048u32,
            b < 1024u32,
    ;
    result = result << 10u32;
    result = result ^ (b as i32);

    next = lcg_step(next);
    let c: u32 = (next / 65536) % 1024;
    let ab: i32 = result;
    assert(ab << 10u32 == ab * 1024 && ((ab * 1024) as i32) ^ (c as i32) == ab * 1024 + c)
        by (bit_vector)
        requires
            0i32 <= ab < 2097152i32,
            c < 1024u32,
    ;
    result = result << 10u32;
    result = result ^ (c as i32);

    *seed = next;

    result
}

/// The seed drawn from the clock and the process: the microseconds of the
/// current second plus the process id, modulo 2^32. The caller reads the
/// clock and the process id.
pub fn reb_tools_rand_seed_from(usec: u32, pid: u32) -> (seed: u32)
    ensures
        seed == (usec + pid) % 0x1_0000_0000,
{
    usec.wrapping_add(pid)
}

/// Whether two simulations can be added or subtracted particle by
/// particle: 0 when they hold the same number of particles, -1 otherwise.
pub fn reb_simulation_particle_counts_match(r: &reb_simulation, r2: &reb_simulation) -> (res: i32)
    ensures
        res == (if r.N == r2.N {
            0i32
        } else {
            -1i32
        }),
{
    if r.N != r2.N {
        -1
    } else {
        0
    }
}

/// The djb2 hash of a byte sequence: start from 5381, and for each byte
/// `c` in turn, `hash = hash * 33 + c`, modulo 2^32.
pub open spec fn djb2(bytes: Seq<u8>) -> u32
    decreases bytes.len(),
{
    if bytes.len() == 0 {
        5381
    } else {
        ((djb2(bytes.drop_last()) * 33 + bytes.last()) % 0x1_0000_0000) as u32
    }
}

fn djb2_step(hash: u32, c: u8) -> (res: u32)
    ensures
        res == ((hash * 33 + c) % 0x1_0000_0000) as u32,
{
    let shifted = hash.wrapping_shl(5);
    assert(hash << 5u32 == ((hash * 32) % 0x1_0000_0000) as u32) by (bit_vector);
    let s1 = shifted.wrapping_add(hash);
    let res = s1.wrapping_add(c as u32);
    assert(res == ((hash * 33 + c) % 0x1_0000_0000) as u32) by {
        vstd::arithmetic::div_mod::lemma_add_mod_noop(hash * 32, hash as int, 0x1_0000_0000);
        vstd::arithmetic::div_mod::lemma_mod_twice(hash * 32, 0x1_0000_0000);
        vstd::arithmetic::div_mod::lemma_add_mod_noop(hash * 33, c as int, 0x1_0000_0000);
        vstd::arithmetic::div_mod::lemma_mod_twice(hash * 33, 0x1_0000_0000);
        vstd::arithmetic::div_mod::lemma_mod_twice(hash * 33 + c, 0x1_0000_0000);
        vstd::arithmetic::div_mod::lemma_add_mod_noop(s1 as int, c as int, 0x1_0000_0000);
    }
    res
}

/// The djb2 hash of a string's UTF-8 bytes, with wrapping 32-bit
/// arithmetic.
pub fn reb_hash(s: &str) -> (hash: u32)
    ensures
        hash == djb2(s.spec_bytes()),
{
    let bytes: &[u8] = s.as_bytes();
    let mut hash: u32 = 5381;
    let mut i: usize = 0;
    while i < bytes.len()
        invariant
            bytes@ == s.spec_bytes(),
            i <= bytes@.len(),
            hash == djb2(bytes@.subrange(0, i as int)),
        decreases bytes@.len() - i,
    {
        assert(bytes@.subrange(0, i + 1).drop_last() =~= bytes@.subrange(0, i as int));
        hash = djb2_step(hash, bytes[i]);
        i = i + 1;
    }
    assert(bytes@.subrange(0, bytes@.len() as int) =~= bytes@);
    hash
}

/// Reports a message about a simulation. A simulation that keeps its
/// messages (`save_messages != 0`) stores it, dropping its oldest message
/// when `reb_messages_max_N` are stored already; otherwise the message is
/// queued for standard error.
pub fn reb_message(r: &mut reb_simulation, msg_type: REB_MESSAGE_TYPE, msg: &str)
    ensures
        old(r).reported(final(r), msg_type, msg@),
        old(r).same_but_messages(final(r)),
        old(r).save_messages == 0 ==> {
            &&& final(r).pending() == old(r).pending() + seq![(msg_type, msg@)]
            &&& final(r).log() == old(r).log()
        },
        old(r).save_messages != 0 ==> {
            &&& final(r).pending() == old(r).pending()
            &&& old(r).log().len() <= reb_messages_max_N ==> final(r).log() == newest_messages(
                old(r).log() + seq![(msg_type, msg@)],
            )
        },
{
    proof {
        lemma_reported_message(&*r, msg_type, msg@);
    }
    let text: String = msg.to_owned();
    let ghost pre_log = r.messages@;
    let ghost pre_pending = r.stderr_queue@;
    if r.save_messages == 0 {
        r.stderr_queue.push((msg_type, text));
        assert(message_view(r.stderr_queue@) =~= message_view(pre_pending).push((msg_type, msg@)));
    } else {
        if r.messages.len() == reb_messages_max_N {
            r.messages.remove(0);
            assert(message_view(r.messages@) =~= message_view(pre_log).drop_first());
        }
        let ghost mid_log = r.messages@;
        r.messages.push((msg_type, text));
        assert(message_view(r.messages@) =~= message_view(mid_log).push((msg_type, msg@)));
    }
}

/// The newest `reb_messages_max_N` messages of `s`, oldest first.
pub open spec fn newest_messages(s: Seq<(REB_MESSAGE_TYPE, Seq<char>)>) -> Seq<(REB_MESSAGE_TYPE, Seq<char>)> {
    if s.len() <= reb_messages_max_N {
        s
    } else {
        s.subrange(s.len() - reb_messages_max_N, s.len() as int)
    }
}

/// The log after storing the messages `ms` in turn.
pub open spec fn store_messages(
    log: Seq<(REB_MESSAGE_TYPE, Seq<char>)>,
    ms: Seq<(REB_MESSAGE_TYPE, Seq<char>)>,
) -> Seq<(REB_MESSAGE_TYPE, Seq<char>)>
    decreases ms.len(),
{
    if ms.len() == 0 {
        log
    } else {
        store_message(store_messages(log, ms.drop_last()), ms.last())
    }
}

/// Law: a simulation that keeps its messages holds the newest
/// `reb_messages_max_N` of all the messages it was given, oldest first.
pub proof fn lemma_message_log_keeps_newest(
    log: Seq<(REB_MESSAGE_TYPE, Seq<char>)>,
    ms: Seq<(REB_MESSAGE_TYPE, Seq<char>)>,
)
    requires
        log.len() <= reb_messages_max_N,
    ensures
        store_messages(log, ms) == newest_messages(log + ms),
        store_messages(log, ms).len() <= reb_messages_max_N,
    decreases ms.len(),
{
    if ms.len() > 0 {
        lemma_message_log_keeps_newest(log, ms.drop_last());
        let x = log + ms.drop_last();
        let m = ms.last();
        assert(log + ms =~= x.push(m));
        if x.len() < reb_messages_max_N {
            assert(store_message(newest_messages(x), m) =~= newest_messages(x.push(m)));
        } else {
            let l: int = x.len() as int;
            assert(newest_messages(x).drop_first().push(m) =~= x.push(m).subrange(
                l + 1 - reb_messages_max_N,
                l + 1,
            ));
        }
    }
}

/// Law: reporting a message never loses a message waiting for standard
/// error: a simulation that does not keep its messages queues the new one
/// after all queued ones, for any queue length, and leaves its log alone.
/// One that keeps them, with at most `reb_messages_max_N` stored, holds the
/// newest `reb_messages_max_N` of its old log followed by the new message,
/// and leaves the queue alone.
pub proof fn lemma_reported_message(pre: &reb_simulation, t: REB_MESSAGE_TYPE, text: Seq<char>)
    ensures
        forall|post: reb_simulation|
            #![trigger pre.reported(&post, t, text)]
            pre.reported(&post, t, text) && pre.save_messages == 0 ==> {
                &&& post.pending() == pre.pending() + seq![(t, text)]
                &&& post.log() == pre.log()
            },
        forall|post: reb_simulation|
            #![trigger pre.reported(&post, t, text)]
            pre.reported(&post, t, text) && pre.save_messages != 0 && pre.log().len()
                <= reb_messages_max_N ==> {
                &&& post.pending() == pre.pending()
                &&& post.log() == newest_messages(pre.log() + seq![(t, text)])
                &&& post.log().len() <= reb_messages_max_N
                &&& post.log().last() == (t, text)
            },
{
    assert(pre.pending() + seq![(t, text)] =~= pre.pending().push((t, text)));
    if pre.log().len() <= reb_messages_max_N {
        lemma_message_log_keeps_newest(pre.log(), seq![(t, text)]);
        assert(seq![(t, text)].drop_last() =~= Seq::<(REB_MESSAGE_TYPE, Seq<char>)>::empty());
        assert(store_messages(pre.log(), seq![(t, text)]) == store_message(pre.log(), (t, text)));
    }
}

/// Reports a warning (see `reb_message`).
pub fn reb_simulation_warning(r: &mut reb_simulation, msg: &str)
    ensures
        old(r).reported(final(r), REB_MESSAGE_TYPE::WARNING, msg@),
        old(r).same_but_messages(final(r)),
{
    reb_message(r, REB_MESSAGE_TYPE::WARNING, msg);
}

/// Reports an error (see `reb_message`).
pub fn reb_simulation_error(r: &mut reb_simulation, msg: &str)
    ensures
        old(r).reported(final(r), REB_MESSAGE_TYPE::ERROR, msg@),
        old(r).same_but_messages(final(r)),
{
    reb_message(r, REB_MESSAGE_TYPE::ERROR, msg);
}

/// Reports an informational message (see `reb_message`).
pub fn reb_simulation_info(r: &mut reb_simulation, msg: &str)
    ensures
        old(r).reported(final(r), REB_MESSAGE_TYPE::INFO, msg@),
        old(r).same_but_messages(final(r)),
{
    reb_message(r, REB_MESSAGE_TYPE::INFO, msg);
}

} // verus!
