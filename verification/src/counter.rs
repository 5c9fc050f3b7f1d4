//! Scenario A: the shared visit counter behind the TCP counter server.
//!
//! The server owns a single non-negative integer protected by a lock; each
//! accepted connection increments it exactly once and writes a greeting that
//! carries the post-increment value. The critical section — increment plus
//! message formatting — is exactly the code in this module; the unverified
//! shell only wraps it in `lock`/`unlock` and performs the socket write.

use vstd::prelude::*;

verus! {

/// The character for a single decimal digit.
pub open spec fn spec_digit_char(d: nat) -> char {
    if d == 0 {
        '0'
    } else if d == 1 {
        '1'
    } else if d == 2 {
        '2'
    } else if d == 3 {
        '3'
    } else if d == 4 {
        '4'
    } else if d == 5 {
        '5'
    } else if d == 6 {
        '6'
    } else if d == 7 {
        '7'
    } else if d == 8 {
        '8'
    } else {
        '9'
    }
}

/// The usual decimal rendering of `n`, most significant digit first,
/// without leading zeros (except for `n == 0` itself).
pub open spec fn spec_decimal(n: nat) -> Seq<char>
    decreases n,
{
    if n < 10 {
        seq![spec_digit_char(n)]
    } else {
        spec_decimal(n / 10) + seq![spec_digit_char(n % 10)]
    }
}

fn digit_str(d: u64) -> (r: &'static str)
    requires
        d < 10,
    ensures
        r@ == seq![spec_digit_char(d as nat)],
{
    let r: &'static str = if d == 0 {
        "0"
    } else if d == 1 {
        "1"
    } else if d == 2 {
        "2"
    } else if d == 3 {
        "3"
    } else if d == 4 {
        "4"
    } else if d == 5 {
        "5"
    } else if d == 6 {
        "6"
    } else if d == 7 {
        "7"
    } else if d == 8 {
        "8"
    } else {
        "9"
    };
    proof {
        reveal_strlit("0");
        reveal_strlit("1");
        reveal_strlit("2");
        reveal_strlit("3");
        reveal_strlit("4");
        reveal_strlit("5");
        reveal_strlit("6");
        reveal_strlit("7");
        reveal_strlit("8");
        reveal_strlit("9");
        assert(r@ =~= seq![spec_digit_char(d as nat)]);
    }
    r
}

/// Render `n` in decimal.
pub fn u64_to_decimal(n: u64) -> (r: String)
    ensures
        r@ == spec_decimal(n as nat),
    decreases n,
{
    if n < 10 {
        String::from_str(digit_str(n))
    } else {
        let mut s = u64_to_decimal(n / 10);
        s.append(digit_str(n % 10));
        s
    }
}

/// The greeting written back to the `n`-th visitor.
pub open spec fn spec_visit_message(n: nat) -> Seq<char> {
    "당신은 "@ + spec_decimal(n) + "번째 방문자입니다!\n"@
}

/// Format the greeting for the `n`-th visitor.
pub fn visit_message(n: u64) -> (r: String)
    ensures
        r@ == spec_visit_message(n as nat),
{
    let mut s = String::from_str("당신은 ");
    s.append(u64_to_decimal(n).as_str());
    s.append("번째 방문자입니다!\n");
    s
}

/// The shared visit counter. `observed` records, in acceptance order, the
/// value handed to each connection so far; it exists only for specification.
pub struct VisitCounter {
    count: u64,
    observed: Ghost<Seq<u64>>,
}

impl VisitCounter {
    /// The current counter value.
    pub closed spec fn count(self) -> u64 {
        self.count
    }

    /// The values handed out to connections, in acceptance order.
    pub closed spec fn observed(self) -> Seq<u64> {
        self.observed@
    }

    /// Each completed connection was handed the next integer, so the
    /// counter always equals the number of completed connections.
    pub open spec fn wf(self) -> bool {
        &&& self.count() == self.observed().len()
        &&& forall|i: int|
            0 <= i < self.observed().len() ==> self.observed()[i] == i + 1
    }

    /// A fresh counter, before any connection was accepted.
    pub fn new() -> (c: VisitCounter)
        ensures
            c.wf(),
            c.count() == 0,
            c.observed() == Seq::<u64>::empty(),
    {
        VisitCounter { count: 0, observed: Ghost(Seq::empty()) }
    }

    /// The current counter value, for the shell to guard the increment.
    pub fn count_value(&self) -> (n: u64)
        ensures
            n == self.count(),
    {
        self.count
    }

    /// The in-lock increment: assign the next visit number to a connection.
    pub fn record_visit(&mut self) -> (n: u64)
        requires
            old(self).wf(),
            old(self).count() < u64::MAX,
        ensures
            final(self).wf(),
            n == old(self).count() + 1,
            final(self).count() == n,
            final(self).observed() == old(self).observed().push(n),
    {
        self.count = self.count + 1;
        let n = self.count;
        proof {
            self.observed@ = self.observed@.push(n);
        }
        n
    }

    /// The whole critical section of a connection handler: increment the
    /// counter and format the greeting carrying the post-increment value.
    pub fn visit_and_format(&mut self) -> (r: (u64, String))
        requires
            old(self).wf(),
            old(self).count() < u64::MAX,
        ensures
            final(self).wf(),
            r.0 == old(self).count() + 1,
            final(self).count() == r.0,
            final(self).observed() == old(self).observed().push(r.0),
            r.1@ == spec_visit_message(r.0 as nat),
    {
        let n = self.record_visit();
        let msg = visit_message(n);
        (n, msg)
    }
}

/// Law: of any two connections counted in order, the earlier one observes
/// the strictly smaller counter value.
pub proof fn lemma_visit_values_strictly_increase(c: VisitCounter, i: int, j: int)
    requires
        c.wf(),
        0 <= i < j < c.observed().len(),
    ensures
        c.observed()[i] < c.observed()[j],
{
}

/// Law: after `k` completed connections the counter equals `k`.
pub proof fn lemma_count_equals_completed_visits(c: VisitCounter)
    requires
        c.wf(),
    ensures
        c.count() == c.observed().len(),
{
}

} // verus!
