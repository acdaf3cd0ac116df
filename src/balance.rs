//! Round-robin placement of new actors over the local node and its peers.
use vstd::prelude::*;
use vstd::arithmetic::div_mod::lemma_fundamental_div_mod;
use vstd::arithmetic::div_mod::lemma_fundamental_div_mod_converse;

verus! {

/// The slot that follows `slot` among `slots` slots.
pub open spec fn next_slot(slot: nat, slots: nat) -> nat {
    (slot + 1) % slots
}

/// The slot handed out by the `i`-th placement (counted from zero) of a fresh balancer.
pub open spec fn slot_of_placement(slots: nat, i: nat) -> nat
    decreases i,
{
    if i == 0 {
        0
    } else {
        next_slot(slot_of_placement(slots, (i - 1) as nat), slots)
    }
}

/// How many of the first `k` placements of a fresh balancer land on `slot`.
pub open spec fn placements_on(slots: nat, k: nat, slot: nat) -> nat
    decreases k,
{
    if k == 0 {
        0
    } else {
        placements_on(slots, (k - 1) as nat, slot) + if slot_of_placement(slots, (k - 1) as nat)
            == slot {
            1nat
        } else {
            0nat
        }
    }
}

/// Round-robin counter over the placement slots: slot 0 is the local node,
/// slot `k > 0` the `k - 1`-th peer in configured order.
#[derive(Debug)]
pub struct LoadBalancer {
    counter: usize,
    num_machines: usize,
}

impl LoadBalancer {
    /// The slot the next placement receives.
    pub closed spec fn current(&self) -> nat {
        self.counter as nat
    }

    /// The number of slots.
    pub closed spec fn slots(&self) -> nat {
        self.num_machines as nat
    }

    pub closed spec fn wf(&self) -> bool {
        self.counter < self.num_machines
    }

    /// A balancer over `num_machines` slots whose first placement is local.
    pub fn new(num_machines: usize) -> (r: LoadBalancer)
        requires
            num_machines >= 1,
        ensures
            r.wf(),
            r.slots() == num_machines,
            r.current() == 0,
    {
        LoadBalancer { counter: 0, num_machines }
    }

    /// The number of slots.
    pub fn num_machines(&self) -> (r: usize)
        ensures
            r == self.slots(),
    {
        self.num_machines
    }

    /// Hands out the current slot and advances to the next one, modulo the number of slots.
    pub fn next_machine_no(&mut self) -> (r: usize)
        requires
            old(self).wf(),
        ensures
            final(self).wf(),
            r == old(self).current(),
            r < old(self).slots(),
            final(self).slots() == old(self).slots(),
            final(self).current() == next_slot(old(self).current(), old(self).slots()),
    {
        let res = self.counter;
        if self.counter + 1 < self.num_machines {
            self.counter = self.counter + 1;
        } else {
            self.counter = 0;
        }
        proof {
            let n = self.num_machines as int;
            if res + 1 < n {
                lemma_fundamental_div_mod_converse(res + 1, n, 0, res + 1);
            } else {
                lemma_fundamental_div_mod_converse(res + 1, n, 1, 0);
            }
        }
        res
    }
}

proof fn lemma_slot_of_placement(slots: nat, i: nat)
    requires
        slots >= 1,
    ensures
        slot_of_placement(slots, i) == i % slots,
    decreases i,
{
    let n = slots as int;
    if i == 0 {
        lemma_fundamental_div_mod_converse(0, n, 0, 0);
    } else {
        let p = (i - 1) as nat;
        lemma_slot_of_placement(slots, p);
        lemma_fundamental_div_mod(p as int, n);
        let q = p as int / n;
        let r = p as int % n;
        if r + 1 < n {
            lemma_fundamental_div_mod_converse(r + 1, n, 0, r + 1);
            assert(i == q * n + (r + 1)) by (nonlinear_arith)
                requires
                    p == n * q + r,
                    i == p + 1,
            ;
            lemma_fundamental_div_mod_converse(i as int, n, q, r + 1);
        } else {
            lemma_fundamental_div_mod_converse(r + 1, n, 1, 0);
            assert(i == (q + 1) * n + 0) by (nonlinear_arith)
                requires
                    p == n * q + r,
                    i == p + 1,
                    r + 1 == n,
            ;
            lemma_fundamental_div_mod_converse(i as int, n, q + 1, 0);
        }
    }
}

proof fn lemma_placements_on(slots: nat, k: nat, slot: nat)
    requires
        slots >= 1,
        slot < slots,
    ensures
        placements_on(slots, k, slot) == k / slots + if slot < k % slots {
            1nat
        } else {
            0nat
        },
    decreases k,
{
    let n = slots as int;
    if k == 0 {
        lemma_fundamental_div_mod_converse(0, n, 0, 0);
    } else {
        let p = (k - 1) as nat;
        lemma_placements_on(slots, p, slot);
        lemma_slot_of_placement(slots, p);
        lemma_fundamental_div_mod(p as int, n);
        let q = p as int / n;
        let r = p as int % n;
        if r + 1 < n {
            assert(k == q * n + (r + 1)) by (nonlinear_arith)
                requires
                    p == n * q + r,
                    k == p + 1,
            ;
            lemma_fundamental_div_mod_converse(k as int, n, q, r + 1);
        } else {
            assert(k == (q + 1) * n + 0) by (nonlinear_arith)
                requires
                    p == n * q + r,
                    k == p + 1,
                    r + 1 == n,
            ;
            lemma_fundamental_div_mod_converse(k as int, n, q + 1, 0);
        }
    }
}

/// Spread of round-robin placement: of the first `k` placements of a fresh
/// balancer over `slots` slots, every slot receives either the floor or the
/// ceiling of `k / slots`.
pub proof fn placement_is_balanced(slots: nat, k: nat, slot: nat)
    requires
        slots >= 1,
        slot < slots,
    ensures
        placements_on(slots, k, slot) == k / slots || placements_on(slots, k, slot) == (k + slots
            - 1) as nat / slots,
{
    let n = slots as int;
    lemma_placements_on(slots, k, slot);
    lemma_fundamental_div_mod(k as int, n);
    let q = k as int / n;
    let r = k as int % n;
    if slot < r {
        assert(k + n - 1 == (q + 1) * n + (r - 1)) by (nonlinear_arith)
            requires
                k == n * q + r,
        ;
        lemma_fundamental_div_mod_converse(k + n - 1, n, q + 1, r - 1);
    }
}

} // verus!
