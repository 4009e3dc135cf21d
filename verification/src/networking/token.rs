//! Bandwidth tokens: what a socket asks for and is given, the per-socket usage
//! history, and the dispenser's bookkeeping of the tokens it has to give.
use vstd::prelude::*;
use std::sync::mpsc::{Receiver, Sender};

verus! {

/// The sending half of a standard channel.
#[verifier::external_type_specification]
#[verifier::external_body]
#[verifier::reject_recursive_types(T)]
pub struct ExSender<T>(Sender<T>);

/// The receiving half of a standard channel.
#[verifier::external_type_specification]
#[verifier::external_body]
#[verifier::reject_recursive_types(T)]
pub struct ExReceiver<T>(Receiver<T>);

/// What goes between the dispenser and a socket: tokens given, tokens left
/// unused, tokens asked for.
#[derive(Debug, Clone, Copy, PartialEq, Eq, Structural)]
pub enum Token {
    Provision(u64),
    Unused(u64),
    Request(u64),
}

/// How heavily a socket uses its tokens.
#[derive(Debug, Clone, Copy, PartialEq, Eq, Structural)]
pub enum Category {
    Turtle,
    Rabbit,
    Cheetah,
}

/// A socket that is fed tokens, with the record of what it left unused.
pub struct TokenEater {
    pub cat: Category,
    pub send: Sender<Token>,
    pub recv: Receiver<Token>,
    pub history: [u64; 64],
    pub iter: u8,
}

/// The history after a shift: a zero in front, the oldest entry dropped.
pub open spec fn shifted(h: Seq<u64>) -> Seq<u64> {
    seq![0u64] + h.take(63)
}

impl TokenEater {
    /// A new socket's record: middle category, empty history.
    pub fn new(send: Sender<Token>, recv: Receiver<Token>) -> (r: Self)
        ensures
            r.cat == Category::Rabbit,
            r.history@ == Seq::new(64, |i: int| 0u64),
            r.iter == 0,
    {
        let r = TokenEater { cat: Category::Rabbit, send, recv, history: [0; 64], iter: 0 };
        assert(r.history@ =~= Seq::new(64, |i: int| 0u64));
        r
    }

    /// Adds `value` unused tokens to the current entry of the history.
    pub fn add_to_pending(&mut self, value: u64)
        requires
            old(self).history[0] + value <= u64::MAX,
        ensures
            final(self).history@ == old(self).history@.update(0, (old(self).history[0] + value) as u64),
            final(self).iter == old(self).iter,
            final(self).cat == old(self).cat,
    {
        self.history[0] = self.history[0] + value;
    }

    /// Counts one more round; every eighth round the history moves one entry on.
    pub fn shift_history(&mut self)
        requires
            old(self).iter < 255,
        ensures
            old(self).iter + 1 >= 8 ==> final(self).iter == 0 && final(self).history@ == shifted(
                old(self).history@,
            ),
            old(self).iter + 1 < 8 ==> final(self).iter == old(self).iter + 1 && final(self).history@ == old(self).history@,
            final(self).cat == old(self).cat,
    {
        self.iter = self.iter + 1;
        if self.iter >= 8 {
            self.iter = 0;
            let ghost start = self.history@;
            let ghost cat = self.cat;
            let mut prev: u64 = 0;
            let mut i: usize = 0;
            while i < 64
                invariant
                    i <= 64,
                    start.len() == 64,
                    self.history@.len() == 64,
                    forall|j: int| 0 <= j < i ==> self.history@[j] == shifted(start)[j],
                    forall|j: int| i <= j < 64 ==> self.history@[j] == start[j],
                    i > 0 ==> prev == start[i - 1],
                    i == 0 ==> prev == 0,
                    self.iter == 0,
                    self.cat == cat,
                decreases 64 - i,
            {
                let cur = self.history[i];
                self.history[i] = prev;
                prev = cur;
                i = i + 1;
            }
            assert(self.history@ =~= shifted(start));
        }
    }
}

/// The dispenser's token accounts.
pub struct TokenAccounts {
    /// The size of the network card's buffer.
    pub max_buffer: u64,
    /// Tokens that can still be taken from the buffer.
    pub from_buffer: u64,
    /// Tokens gathered as time passed.
    pub from_time: u64,
    /// Tokens added each millisecond.
    pub per_msec: u64,
    /// Tokens given to a socket when it first comes.
    pub token_size: u64,
    /// Milliseconds counted since tokens were last shared out.
    pub iteration: u8,
}

impl TokenAccounts {
    /// Accounts for a buffer of `max_buffer_size_bytes` bytes and a bandwidth of
    /// `bandwith_bytes_sec` bytes a second: a full buffer, a second's worth of
    /// tokens, a 1024th of the bandwidth each millisecond, and a 64th of it for a
    /// new socket.
    pub fn new(max_buffer_size_bytes: u64, bandwith_bytes_sec: u64) -> (r: Self)
        ensures
            r.max_buffer == max_buffer_size_bytes,
            r.from_buffer == max_buffer_size_bytes,
            r.from_time == bandwith_bytes_sec,
            r.per_msec == bandwith_bytes_sec / 1024,
            r.token_size == bandwith_bytes_sec / 64,
            r.iteration == 0,
    {
        assert(bandwith_bytes_sec >> 10u64 == bandwith_bytes_sec / 1024) by (bit_vector);
        assert(bandwith_bytes_sec >> 6u64 == bandwith_bytes_sec / 64) by (bit_vector);
        TokenAccounts {
            max_buffer: max_buffer_size_bytes,
            from_buffer: max_buffer_size_bytes,
            from_time: bandwith_bytes_sec,
            per_msec: bandwith_bytes_sec >> 10,
            token_size: bandwith_bytes_sec >> 6,
            iteration: 0,
        }
    }

    /// Starts a pass of the dispenser's loop: tells whether tokens are to be shared
    /// out in this pass, which is so once 128 milliseconds were counted, and then
    /// starts counting anew.
    pub fn start_pass(&mut self) -> (r: bool)
        ensures
            r == (old(self).iteration >= 128),
            r ==> final(self).iteration == 0,
            !r ==> final(self).iteration == old(self).iteration,
            final(self).from_buffer == old(self).from_buffer,
            final(self).from_time == old(self).from_time,
            final(self).max_buffer == old(self).max_buffer,
            final(self).per_msec == old(self).per_msec,
            final(self).token_size == old(self).token_size,
    {
        if self.iteration >= 128 {
            self.iteration = 0;
            true
        } else {
            false
        }
    }

    /// A millisecond passed: counts it, and adds a millisecond's tokens to the
    /// buffer where it is not full, else to the tokens gathered from time.
    pub fn tick(&mut self)
        requires
            old(self).iteration < 255,
            old(self).from_buffer < old(self).max_buffer ==> old(self).from_buffer + old(self).per_msec <= u64::MAX,
            old(self).from_buffer >= old(self).max_buffer ==> old(self).from_time + old(self).per_msec <= u64::MAX,
        ensures
            final(self).iteration == old(self).iteration + 1,
            old(self).from_buffer < old(self).max_buffer ==> final(self).from_buffer == old(self).from_buffer + old(self).per_msec && final(self).from_time == old(self).from_time,
            old(self).from_buffer >= old(self).max_buffer ==> final(self).from_time == old(self).from_time + old(self).per_msec && final(self).from_buffer == old(self).from_buffer,
            final(self).from_time + final(self).from_buffer == old(self).from_time + old(self).from_buffer + old(self).per_msec,
            final(self).max_buffer == old(self).max_buffer,
            final(self).per_msec == old(self).per_msec,
            final(self).token_size == old(self).token_size,
    {
        self.iteration = self.iteration + 1;
        if self.from_buffer < self.max_buffer {
            self.from_buffer = self.from_buffer + self.per_msec;
            if self.from_buffer > self.max_buffer {
                let tokens_left = self.from_buffer - self.max_buffer;
                self.from_buffer = self.max_buffer;
                self.from_buffer = self.from_buffer + tokens_left;
            }
        } else {
            self.from_time = self.from_time + self.per_msec;
        }
    }

    /// Answers a socket's request for `req_size` tokens: takes them from the tokens
    /// gathered from time where there are enough; else takes all of those and the
    /// rest from the buffer, where the buffer holds enough. Gives how many tokens to
    /// provide, or `None` where the buffer did not hold enough; the tokens gathered
    /// from time are spent in that case too.
    pub fn serve_request(&mut self, req_size: u64) -> (r: Option<u64>)
        ensures
            old(self).from_time >= req_size ==> r == Some(req_size) && final(self).from_time == old(self).from_time - req_size && final(self).from_buffer == old(self).from_buffer,
            old(self).from_time < req_size && old(self).from_buffer >= req_size - old(self).from_time ==> r == Some(req_size) && final(self).from_time == 0 && final(self).from_buffer == old(self).from_buffer - (req_size - old(self).from_time),
            old(self).from_time < req_size && old(self).from_buffer < req_size - old(self).from_time ==> r is None && final(self).from_time == 0 && final(self).from_buffer
                == old(self).from_buffer,
            final(self).max_buffer == old(self).max_buffer,
            final(self).per_msec == old(self).per_msec,
            final(self).token_size == old(self).token_size,
            final(self).iteration == old(self).iteration,
    {
        if self.from_time >= req_size {
            self.from_time = self.from_time - req_size;
            Some(req_size)
        } else {
            let mut missing_tokens = req_size - self.from_time;
            self.from_time = 0;
            if self.from_buffer >= missing_tokens {
                self.from_buffer = self.from_buffer - missing_tokens;
                missing_tokens = 0;
                Some(req_size - missing_tokens)
            } else {
                None
            }
        }
    }

    /// The tokens each of `eaters` sockets gets when tokens are shared out: an
    /// equal part of those gathered from time, or all of them where there is no
    /// socket.
    pub fn share_per_eater(&self, eaters: u64) -> (r: u64)
        ensures
            eaters > 0 ==> r == self.from_time / eaters,
            eaters == 0 ==> r == self.from_time,
    {
        if eaters > 0 {
            self.from_time / eaters
        } else {
            self.from_time
        }
    }

    /// Spends `amount` of the tokens gathered from time, once they were given out.
    pub fn spend(&mut self, amount: u64)
        requires
            old(self).from_time >= amount,
        ensures
            final(self).from_time == old(self).from_time - amount,
            final(self).from_buffer == old(self).from_buffer,
            final(self).max_buffer == old(self).max_buffer,
            final(self).per_msec == old(self).per_msec,
            final(self).token_size == old(self).token_size,
            final(self).iteration == old(self).iteration,
    {
        self.from_time = self.from_time - amount;
    }

    /// What gnomes are told of the bandwidth left: the tokens gathered from time,
    /// times eight, in 64 bits.
    pub fn bandwidth_report(&self) -> (r: u64)
        ensures
            r == (self.from_time * 8) % 0x1_0000_0000_0000_0000,
    {
        let t = self.from_time;
        assert(t << 3u64 == (t * 8) % 0x1_0000_0000_0000_0000) by (bit_vector);
        t << 3
    }
}

/// Sharing out the tokens gathered from time gives no socket more than its part:
/// the parts of all sockets together fit in what was gathered.
pub proof fn lemma_shares_fit(from_time: u64, eaters: u64)
    requires
        eaters > 0,
    ensures
        (from_time / eaters) * eaters <= from_time,
{
    vstd::arithmetic::div_mod::lemma_fundamental_div_mod(from_time as int, eaters as int);
    assert((from_time / eaters) * eaters <= from_time) by (nonlinear_arith)
        requires
            eaters > 0,
            from_time == eaters * (from_time / eaters) + from_time % eaters,
            from_time % eaters >= 0,
    ;
}

} // verus!
