//! The controller side of the cluster: the node registry that assigns
//! identities to runners as they join, and the round-robin dispatcher that
//! picks a runner for each incoming request.
//!
//! The registry and the connection pool share one lifetime: a node is in the
//! pool exactly as long as the embedding holds a live connection for it, and
//! the embedding keys its connections by the node identifiers handed out
//! here. All methods take the controller by exclusive reference; the
//! embedding serializes concurrent calls through one lock around the whole
//! value, which is what the contracts' call orderings model.

use vstd::prelude::*;

verus! {

use crate::protocol::RegisterResponse;

/// One registered runner: the identity the registry assigned and the
/// address the runner announced. The live connection belonging to this node
/// is held by the embedding, keyed by `id`.
#[derive(Debug)]
pub struct RunnerNode {
    pub id: i32,
    pub host: String,
    pub port: String,
}

impl Clone for RunnerNode {
    fn clone(&self) -> (r: RunnerNode)
        ensures
            r == *self,
    {
        RunnerNode { id: self.id, host: self.host.clone(), port: self.port.clone() }
    }
}

/// Why a dispatch request could not be served.
#[derive(Clone, Copy, Debug, PartialEq, Eq, Structural)]
pub enum DispatchError {
    /// No runner has registered yet. Retryable: the pool only grows.
    EmptyPool,
}

/// The registry and dispatcher state: a strictly increasing identity
/// counter, the pool of registered runners in registration order, and the
/// rotation cursor (the pool index served last).
pub struct RunnerController {
    runner_counter: i32,
    clients: Vec<RunnerNode>,
    last_controller: usize,
}

impl RunnerController {
    /// The next identity to hand out; also the number of identities handed
    /// out so far.
    pub closed spec fn counter(&self) -> int {
        self.runner_counter as int
    }

    /// The registered runners, in registration order.
    pub closed spec fn pool(&self) -> Seq<RunnerNode> {
        self.clients@
    }

    /// The pool index served last.
    pub closed spec fn cursor(&self) -> int {
        self.last_controller as int
    }

    /// The identities of the pooled runners, in registration order.
    pub open spec fn pool_ids(&self) -> Seq<int> {
        self.pool().map_values(|n: RunnerNode| n.id as int)
    }

    /// What every operation preserves: the cursor stays inside the pool
    /// (and at zero while the pool is empty), and identities grow strictly
    /// along the pool, all below the counter — so no identity is ever
    /// reused.
    pub open spec fn wf(&self) -> bool {
        &&& 0 <= self.counter() <= i32::MAX
        &&& (if self.pool().len() == 0 {
            self.cursor() == 0
        } else {
            self.cursor() < self.pool().len()
        })
        &&& (forall|i: int, j: int|
            0 <= i < j < self.pool().len() ==> self.pool()[i].id < self.pool()[j].id)
        &&& (forall|i: int| 0 <= i < self.pool().len() ==> self.pool()[i].id < self.counter())
    }

    /// How many runners are pooled.
    pub fn client_count(&self) -> (n: usize)
        ensures
            n as int == self.pool().len(),
    {
        self.clients.len()
    }

    /// The identity the next registration will receive; callers use it to
    /// see that the identity space is not exhausted.
    pub fn id_counter(&self) -> (c: i32)
        ensures
            c as int == self.counter(),
    {
        self.runner_counter
    }

    /// Returns the next client identity and advances the counter, so that
    /// no two calls ever return the same identity.
    pub fn next_client_id(&mut self) -> (id: i32)
        requires
            old(self).counter() < i32::MAX,
        ensures
            id as int == old(self).counter(),
            final(self).counter() == old(self).counter() + 1,
            final(self).pool() == old(self).pool(),
            final(self).cursor() == old(self).cursor(),
    {
        let current_id = self.runner_counter;
        self.runner_counter = self.runner_counter + 1;
        current_id
    }

    /// Fetches the next client round-robin style: one past the cursor,
    /// wrapping at the end of the pool. Fails — retryably — while the pool
    /// is empty, and never selects an index outside the pool, however the
    /// pool has grown since the last call.
    pub fn rr_next_client(&mut self) -> (r: Result<RunnerNode, DispatchError>)
        requires
            old(self).wf(),
        ensures
            final(self).wf(),
            final(self).counter() == old(self).counter(),
            final(self).pool() == old(self).pool(),
            r is Err <==> old(self).pool().len() == 0,
            old(self).pool().len() == 0 ==> r == Err::<RunnerNode, DispatchError>(
                DispatchError::EmptyPool,
            ) && final(self).cursor() == old(self).cursor(),
            old(self).pool().len() > 0 ==> {
                &&& final(self).cursor() == (old(self).cursor() + 1) % (
                old(self).pool().len() as int)
                &&& 0 <= final(self).cursor() < old(self).pool().len()
                &&& r == Ok::<RunnerNode, DispatchError>(old(self).pool()[final(self).cursor()])
            },
    {
        let num_clients = self.clients.len();
        if num_clients == 0 {
            return Err(DispatchError::EmptyPool);
        }
        let next_client_index = (self.last_controller + 1) % num_clients;
        self.last_controller = next_client_index;
        Ok(self.clients[next_client_index].clone())
    }

    /// Adds a new client to the pool, returns the new client's identity.
    /// The identity is the counter value at the call, so consecutive
    /// registrations receive consecutive, pairwise distinct identities.
    pub fn add_client(&mut self, host: String, port: String) -> (id: i32)
        requires
            old(self).wf(),
            old(self).counter() < i32::MAX,
        ensures
            final(self).wf(),
            id as int == old(self).counter(),
            final(self).counter() == old(self).counter() + 1,
            final(self).cursor() == old(self).cursor(),
            final(self).pool() =~= old(self).pool().push(
                (RunnerNode { id, host, port }),
            ),
            final(self).pool_ids() =~= old(self).pool_ids().push(old(self).counter()),
    {
        let id = self.next_client_id();
        let node = RunnerNode { id, host, port };
        self.clients.push(node);
        id
    }
}

/// Why a registration attempt was rejected.
#[derive(Clone, Copy, Debug, PartialEq, Eq, Structural)]
pub enum RegisterError {
    /// Dialling the announced address failed; the registry is unchanged and
    /// no identity was consumed. The runner should retry with backoff.
    ConnectFailed,
}

/// The registration endpoint: what the controller does when a runner
/// announces itself. The network-facing shell around it dials the announced
/// address back and reports here whether that connection attempt succeeded;
/// only a reachable runner joins the pool.
pub struct RunnerControllerService {
    pub controller: RunnerController,
}

impl RunnerControllerService {
    /// Registers one runner. When the dial-back failed, the registration
    /// fails and the registry is untouched — no partial state, no identity
    /// consumed. When it succeeded, the node joins the pool and the fresh
    /// identity goes back to the caller; a subsequent dispatch may now
    /// select this runner.
    pub fn register(&mut self, host: String, port: String, connected: bool) -> (r: Result<
        RegisterResponse,
        RegisterError,
    >)
        requires
            old(self).controller.wf(),
            old(self).controller.counter() < i32::MAX,
        ensures
            final(self).controller.wf(),
            !connected ==> r == Err::<RegisterResponse, RegisterError>(
                RegisterError::ConnectFailed,
            ) && *final(self) == *old(self),
            connected ==> {
                &&& r == Ok::<RegisterResponse, RegisterError>(
                    (RegisterResponse { nodeid: old(self).controller.counter() as i32 }),
                )
                &&& final(self).controller.counter() == old(self).controller.counter() + 1
                &&& final(self).controller.pool() =~= old(self).controller.pool().push(
                    (RunnerNode {
                        id: old(self).controller.counter() as i32,
                        host,
                        port,
                    }),
                )
                &&& final(self).controller.cursor() == old(self).controller.cursor()
            },
    {
        if !connected {
            return Err(RegisterError::ConnectFailed);
        }
        let next_id = self.controller.add_client(host, port);
        Ok(RegisterResponse { nodeid: next_id })
    }
}

impl Default for RunnerController {
    /// A fresh controller: no runners, counter at zero, cursor at rest.
    fn default() -> (c: RunnerController)
        ensures
            c.counter() == 0,
            c.pool() =~= Seq::<RunnerNode>::empty(),
            c.cursor() == 0,
            c.wf(),
    {
        RunnerController { runner_counter: 0, clients: Vec::new(), last_controller: 0 }
    }
}

// ---------------------------------------------------------------------------
// Laws of the registry and the dispatcher.
// ---------------------------------------------------------------------------
/// The identities a run of `n` consecutive registrations hands out when the
/// counter starts at `c0`: by `add_client`'s contract the j-th call
/// (counted from 0) returns the counter value `c0 + j` and leaves the
/// counter one higher.
pub open spec fn registration_ids(c0: int, n: nat) -> Seq<int> {
    Seq::new(n, |j: int| c0 + j)
}

/// One more registration extends the run by the identity `add_client`
/// returns at that point: its contract hands back the counter — then
/// `c0 + n` — and advances it, which is exactly this step.
pub proof fn lemma_registration_ids_step(c0: int, n: nat)
    ensures
        registration_ids(c0, n + 1) =~= registration_ids(c0, n).push(c0 + n),
{
}

/// Uniqueness: the identities returned by any run of `n` registrations are
/// pairwise distinct, and from a fresh controller they are exactly
/// `{0, …, n−1}`. Concurrent registrations are serialized by the lock the
/// embedding wraps the controller in, so every schedule of `n` calls is
/// such a run.
pub proof fn lemma_registration_ids_unique(c0: int, n: nat)
    ensures
        forall|i: int, j: int|
            0 <= i < j < n ==> registration_ids(c0, n)[i] != registration_ids(c0, n)[j],
        c0 == 0 ==> registration_ids(c0, n).to_set() =~= Set::new(|x: int| 0 <= x < n),
{
    if c0 == 0 {
        assert forall|x: int| 0 <= x < n implies registration_ids(0, n).to_set().contains(x) by {
            assert(registration_ids(0, n)[x] == x);
        }
    }
}

/// Both runners of two interleaved registrations end up in the pool, each
/// under its own identity: in a well-formed registry no two pool slots
/// share an identity.
pub proof fn lemma_pool_ids_distinct(c: &RunnerController)
    requires
        c.wf(),
    ensures
        forall|i: int, j: int|
            0 <= i < j < c.pool().len() ==> c.pool_ids()[i] != c.pool_ids()[j],
{
    assert forall|i: int, j: int|
        0 <= i < j < c.pool().len() implies c.pool_ids()[i] != c.pool_ids()[j] by {
        assert(c.pool()[i].id < c.pool()[j].id);
    }
}

/// One operation on the shared pool-and-cursor state, as interleavings of
/// the two endpoints see it: a registration appends one pool slot, a
/// dispatch advances the cursor (and leaves an empty pool untouched).
pub enum PoolOp {
    Register,
    Dispatch,
}

/// The (pool length, cursor) pair after one operation — the transitions
/// that `add_client` and `rr_next_client` promise in their contracts.
pub open spec fn apply_pool_op(len: nat, cursor: int, op: PoolOp) -> (nat, int) {
    match op {
        PoolOp::Register => ((len + 1) as nat, cursor),
        PoolOp::Dispatch => if len == 0 {
            (len, cursor)
        } else {
            (len, (cursor + 1) % (len as int))
        },
    }
}

/// The state after a whole interleaving of operations.
pub open spec fn pool_state_after(len: nat, cursor: int, ops: Seq<PoolOp>) -> (nat, int)
    decreases ops.len(),
{
    if ops.len() == 0 {
        (len, cursor)
    } else {
        let prev = pool_state_after(len, cursor, ops.drop_last());
        apply_pool_op(prev.0, prev.1, ops.last())
    }
}

/// The cursor is at rest while the pool is empty and strictly inside the
/// pool once it is not.
pub open spec fn pool_cursor_inv(len: nat, cursor: int) -> bool {
    if len == 0 {
        cursor == 0
    } else {
        0 <= cursor < len
    }
}

/// No out-of-range selection under growth: after any interleaving of
/// registrations and dispatches the cursor invariant still holds, so the
/// index the next dispatch selects — one past the cursor, wrapping at the
/// length current at that moment — is always inside the pool.
pub proof fn lemma_no_out_of_range_selection(len: nat, cursor: int, ops: Seq<PoolOp>)
    requires
        pool_cursor_inv(len, cursor),
    ensures
        pool_cursor_inv(pool_state_after(len, cursor, ops).0, pool_state_after(len, cursor, ops).1),
        pool_state_after(len, cursor, ops).0 > 0 ==> 0 <= (pool_state_after(len, cursor, ops).1 + 1)
            % (pool_state_after(len, cursor, ops).0 as int) < pool_state_after(len, cursor, ops).0,
    decreases ops.len(),
{
    if ops.len() > 0 {
        lemma_no_out_of_range_selection(len, cursor, ops.drop_last());
    }
}

/// The pool index a run of consecutive dispatches selects on its `j`-th
/// call (counted from 1), starting from cursor `c0` over a fixed pool of
/// `k` runners.
pub open spec fn rr_selection(c0: int, k: int, j: int) -> int {
    (c0 + j) % k
}

/// `rr_next_client` walks exactly this trajectory: each selection is one
/// past the previous one, wrapping at the pool length, which is the step
/// its contract states for the cursor.
pub proof fn lemma_rr_selection_step(c0: int, k: int, j: int)
    requires
        0 < k,
    ensures
        rr_selection(c0, k, j) == (rr_selection(c0, k, j - 1) + 1) % k,
{
    vstd::arithmetic::div_mod::lemma_add_mod_noop_right(1, c0 + j - 1, k);
    if k > 1 {
        vstd::arithmetic::div_mod::lemma_small_mod(1nat, k as nat);
    } else {
        vstd::arithmetic::div_mod::lemma_mod_division_less_than_divisor(rr_selection(c0, k, j), k);
        vstd::arithmetic::div_mod::lemma_mod_division_less_than_divisor(
            (rr_selection(c0, k, j - 1) + 1) % k,
            k,
        );
    }
}

/// How many of the first `n` selections of such a run fall on pool slot
/// `i`.
pub open spec fn rr_hits(c0: int, k: int, n: nat, i: int) -> int
    decreases n,
{
    if n == 0 {
        0
    } else {
        rr_hits(c0, k, (n - 1) as nat, i) + (if rr_selection(c0, k, n as int) == i {
            1int
        } else {
            0int
        })
    }
}

/// The position (in 1..=k) of the first call of the run that lands on slot
/// `i`.
pub open spec fn rr_first_hit(c0: int, k: int, i: int) -> int {
    (i - c0 - 1) % k + 1
}

/// Shifting by `c` and reducing modulo `k` is injective on `[0, k)`.
proof fn lemma_mod_shift_injective(c: int, k: int, a: int, b: int)
    requires
        0 < k,
        0 <= a < k,
        0 <= b < k,
        (c + a) % k == (c + b) % k,
    ensures
        a == b,
{
    vstd::arithmetic::div_mod::lemma_fundamental_div_mod(c + a, k);
    vstd::arithmetic::div_mod::lemma_fundamental_div_mod(c + b, k);
    assert(a == b) by (nonlinear_arith)
        requires
            0 < k,
            0 <= a < k,
            0 <= b < k,
            c + a == k * ((c + a) / k) + ((c + a) % k),
            c + b == k * ((c + b) / k) + ((c + b) % k),
            (c + a) % k == (c + b) % k,
    ;
}

/// How division and remainder by `k` change when the dividend drops by
/// one: the remainder steps down, or wraps from 0 to `k - 1` as the
/// quotient steps down.
proof fn lemma_div_mod_step(n: int, k: int)
    requires
        0 < k,
        1 <= n,
    ensures
        n % k == 0 ==> (n - 1) % k == k - 1 && (n - 1) / k == n / k - 1,
        n % k != 0 ==> (n - 1) % k == n % k - 1 && (n - 1) / k == n / k,
{
    vstd::arithmetic::div_mod::lemma_fundamental_div_mod(n, k);
    vstd::arithmetic::div_mod::lemma_mod_division_less_than_divisor(n, k);
    if n % k == 0 {
        assert(n - 1 == (n / k - 1) * k + (k - 1)) by (nonlinear_arith)
            requires
                n == k * (n / k) + n % k,
                n % k == 0,
        ;
        vstd::arithmetic::div_mod::lemma_fundamental_div_mod_converse_mod(
            n - 1,
            k,
            n / k - 1,
            k - 1,
        );
        vstd::arithmetic::div_mod::lemma_fundamental_div_mod_converse_div(
            n - 1,
            k,
            n / k - 1,
            k - 1,
        );
    } else {
        assert(n - 1 == (n / k) * k + (n % k - 1)) by (nonlinear_arith)
            requires
                n == k * (n / k) + n % k,
        ;
        vstd::arithmetic::div_mod::lemma_fundamental_div_mod_converse_mod(
            n - 1,
            k,
            n / k,
            n % k - 1,
        );
        vstd::arithmetic::div_mod::lemma_fundamental_div_mod_converse_div(
            n - 1,
            k,
            n / k,
            n % k - 1,
        );
    }
}

/// A dispatch lands on slot `i` exactly when its position in the run,
/// reduced modulo `k`, equals the position of the first hit on `i`
/// (likewise reduced).
proof fn lemma_rr_hit_condition(c0: int, k: int, j: int, i: int)
    requires
        0 < k,
        0 <= i < k,
        1 <= j,
    ensures
        rr_selection(c0, k, j) == i <==> j % k == rr_first_hit(c0, k, i) % k,
{
    let p = rr_first_hit(c0, k, i);
    vstd::arithmetic::div_mod::lemma_mod_division_less_than_divisor(i - c0 - 1, k);
    // i is where the p-th call of the run lands:
    vstd::arithmetic::div_mod::lemma_add_mod_noop_right(c0 + 1, i - c0 - 1, k);
    vstd::arithmetic::div_mod::lemma_small_mod(i as nat, k as nat);
    assert(rr_selection(c0, k, p) == i);
    // reduce both call positions modulo k under the shift by c0:
    vstd::arithmetic::div_mod::lemma_add_mod_noop_right(c0, j, k);
    vstd::arithmetic::div_mod::lemma_add_mod_noop_right(c0, p, k);
    vstd::arithmetic::div_mod::lemma_mod_division_less_than_divisor(j, k);
    vstd::arithmetic::div_mod::lemma_mod_division_less_than_divisor(p, k);
    if rr_selection(c0, k, j) == i {
        lemma_mod_shift_injective(c0, k, j % k, p % k);
    }
}

/// The exact hit count of a run: slot `i` is hit once per completed cycle
/// of `k` calls, plus once more when the leftover part of the run has
/// reached `i`'s position in the rotation.
proof fn lemma_rr_hits_exact(c0: int, k: int, n: nat, i: int)
    requires
        0 < k,
        0 <= i < k,
    ensures
        rr_hits(c0, k, n, i) == n as int / k + (if rr_first_hit(c0, k, i) <= n as int % k {
            1int
        } else {
            0int
        }),
    decreases n,
{
    let p = rr_first_hit(c0, k, i);
    vstd::arithmetic::div_mod::lemma_mod_division_less_than_divisor(i - c0 - 1, k);
    if n == 0 {
        vstd::arithmetic::div_mod::lemma_small_mod(0nat, k as nat);
        vstd::arithmetic::div_mod::lemma_div_of0(k);
    } else {
        let ni = n as int;
        lemma_rr_hits_exact(c0, k, (n - 1) as nat, i);
        lemma_rr_hit_condition(c0, k, ni, i);
        lemma_div_mod_step(ni, k);
        vstd::arithmetic::div_mod::lemma_mod_division_less_than_divisor(ni, k);
        // p % k is p itself except at the wrap position p == k:
        if p == k {
            vstd::arithmetic::div_mod::lemma_mod_self_0(k);
        } else {
            vstd::arithmetic::div_mod::lemma_small_mod(p as nat, k as nat);
        }
        if ni % k == 0 {
            vstd::arithmetic::div_mod::lemma_small_mod((k - 1) as nat, k as nat);
        } else {
            vstd::arithmetic::div_mod::lemma_small_mod((ni % k) as nat, k as nat);
        }
    }
}

/// Round-robin fairness: over a fixed pool of `k` runners and with no
/// intervening registration, any `n` consecutive dispatches land on every
/// slot either ⌊n/k⌋ or ⌈n/k⌉ times — and exactly n/k times when k
/// divides n.
pub proof fn lemma_round_robin_fair(c0: int, k: int, n: nat, i: int)
    requires
        0 < k,
        0 <= i < k,
    ensures
        rr_hits(c0, k, n, i) == n as int / k || rr_hits(c0, k, n, i) == n as int / k + 1,
        n as int % k == 0 ==> rr_hits(c0, k, n, i) == n as int / k,
{
    lemma_rr_hits_exact(c0, k, n, i);
    vstd::arithmetic::div_mod::lemma_mod_division_less_than_divisor(i - c0 - 1, k);
}

} // verus!
