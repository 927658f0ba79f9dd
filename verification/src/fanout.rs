//! The number of peers that receive a full block when it is gossiped.

use vstd::prelude::*;

verus! {

/// `root` is the largest number whose square does not exceed `n`.
pub open spec fn is_floor_sqrt(n: nat, root: nat) -> bool {
    let r = root as int;
    r * r <= n && n < (r + 1) * (r + 1)
}

/// The integer square root of `n`, rounded down.
pub open spec fn sqrt_floor(n: nat) -> nat
    decreases n,
{
    if n == 0 {
        0
    } else {
        let below = sqrt_floor((n - 1) as nat);
        let above = below as int + 1;
        if above * above <= n {
            above as nat
        } else {
            below
        }
    }
}

/// The number of peers that get the full block among `peers` active ones:
/// the square root of their number, rounded down, and one more.
pub open spec fn fan_out_spec(peers: nat) -> nat {
    sqrt_floor(peers) + 1
}

/// `sqrt_floor` is the rounded-down square root.
pub proof fn lemma_sqrt_floor(n: nat)
    ensures
        is_floor_sqrt(n, sqrt_floor(n)),
    decreases n,
{
    if n > 0 {
        lemma_sqrt_floor((n - 1) as nat);
        let below = sqrt_floor((n - 1) as nat);
        let above = below as int + 1;
        if above * above <= n {
            assert(n < (above + 1) * (above + 1)) by (nonlinear_arith)
                requires
                    n - 1 < above * above,
                    above >= 1,
            ;
        }
    }
}

/// Only one number is the rounded-down square root of `n`.
pub proof fn lemma_floor_sqrt_unique(n: nat, a: nat, b: nat)
    requires
        is_floor_sqrt(n, a),
        is_floor_sqrt(n, b),
    ensures
        a == b,
{
    if a < b {
        assert((a + 1) * (a + 1) <= b * b) by (nonlinear_arith)
            requires
                a + 1 <= b,
        ;
    }
    if b < a {
        assert((b + 1) * (b + 1) <= a * a) by (nonlinear_arith)
            requires
                b + 1 <= a,
        ;
    }
}

/// The integer square root of `n`, rounded down.
pub fn floor_sqrt(n: usize) -> (root: usize)
    ensures
        root == sqrt_floor(n as nat),
        is_floor_sqrt(n as nat, root as nat),
        root <= n,
        n >= 2 ==> root < n,
{
    let mut root: usize = 0;
    loop
        invariant
            root * root <= n,
            root <= n,
        ensures
            n < (root + 1) * (root + 1),
        decreases n - root,
    {
        let next: u128 = root as u128 + 1;
        proof {
            assert(root < 0x1_0000_0000) by (nonlinear_arith)
                requires
                    root * root <= n,
                    n < 0x1_0000_0000_0000_0000,
            ;
            assert(next * next <= 0x1_0000_0000_0000_0000) by (nonlinear_arith)
                requires
                    0 <= next <= 0x1_0000_0000,
            ;
        }
        if next * next > n as u128 {
            break ;
        }
        proof {
            assert(root + 1 <= n) by (nonlinear_arith)
                requires
                    (root + 1) * (root + 1) <= n,
            ;
        }
        root += 1;
    }
    proof {
        lemma_sqrt_floor(n as nat);
        lemma_floor_sqrt_unique(n as nat, root as nat, sqrt_floor(n as nat));
        if n >= 2 && root == n {
            assert(false) by (nonlinear_arith)
                requires
                    n >= 2,
                    root == n,
                    n < (root + 1) * (root + 1),
                    root * root <= n,
            ;
        }
    }
    root
}

/// The number of peers that get the full block among `peers` active ones.
pub fn fan_out(peers: usize) -> (count: usize)
    ensures
        count == fan_out_spec(peers as nat),
        count >= 1,
{
    let root = floor_sqrt(peers);
    if root == usize::MAX {
        // Only a root below two can equal its own square's bound.
        proof {
            assert(false) by (nonlinear_arith)
                requires
                    root * root <= peers,
                    peers <= usize::MAX,
                    root == usize::MAX,
                    usize::MAX >= 0xFFFF_FFFF,
            ;
        }
    }
    root + 1
}

} // verus!
