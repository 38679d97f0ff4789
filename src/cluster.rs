//! The decisions that stand up a simulated cluster: how many nodes, which one
//! leads first, who each node addresses, and when a worker stops.
use vstd::prelude::*;

verus! {

pub open spec fn is_digit(c: char) -> bool {
    '0' <= c && c <= '9'
}

/// The value of a run of decimal digits, most significant first.
pub open spec fn digits_value(s: Seq<char>) -> int
    decreases s.len(),
{
    if s.len() == 0 {
        0
    } else {
        digits_value(s.drop_last()) * 10 + (s.last() as int - '0' as int)
    }
}

/// `s` without one leading `+`, if it has one.
pub open spec fn unsigned_part(s: Seq<char>) -> Seq<char> {
    if s.len() > 0 && s[0] == '+' {
        s.drop_first()
    } else {
        s
    }
}

/// The `u64` that `s` spells in decimal: an optional `+`, then one or more
/// ASCII digits whose value fits.
pub open spec fn decimal_u64(s: Seq<char>) -> Option<u64> {
    let d = unsigned_part(s);
    if d.len() > 0 && (forall|i: int| 0 <= i < d.len() ==> is_digit(#[trigger] d[i]))
        && digits_value(d) <= u64::MAX {
        Some(digits_value(d) as u64)
    } else {
        None
    }
}

/// The node count that the argument `s` asks for: its value when it spells a
/// positive `u64`, else 1 (also for negative numerals and for zero).
pub open spec fn node_count_of(s: Seq<char>) -> u64 {
    match decimal_u64(s) {
        Some(v) => if v >= 1 {
            v
        } else {
            1
        },
        None => 1,
    }
}

/// Relies on `<u64 as FromStr>::from_str`: it accepts an optional `+` and
/// then ASCII digits, and fails on anything else or on overflow.
#[verifier::external_body]
fn parse_u64(s: &str) -> (r: Option<u64>)
    ensures
        r == decimal_u64(s@),
{
    s.parse::<u64>().ok()
}

/// The node count from the program's arguments (`args[1]`): anything that
/// is not a positive number gives 1.
pub fn parse_arguments(args: &Vec<String>) -> (r: u64)
    requires
        args@.len() >= 2,
    ensures
        r == node_count_of(args@[1]@),
        r >= 1,
{
    match parse_u64(args[1].as_str()) {
        Some(v) => if v >= 1 {
            v
        } else {
            1
        },
        None => 1,
    }
}

/// Relies on rand's `Rng::gen_range` over `thread_rng()`: a value in
/// `[low, high)`; it panics when `low >= high`.
#[verifier::external_body]
fn draw_in_range(low: u64, high: u64) -> (r: u64)
    requires
        low < high,
    ensures
        low <= r < high,
{
    rand::Rng::gen_range(&mut rand::thread_rng(), low, high)
}

/// Picks the initial leader among the ids `1..=n`, at random.
pub fn pick_leader(n: u64) -> (r: u64)
    requires
        n >= 1,
    ensures
        1 <= r <= n,
{
    draw_in_range(0, n) + 1
}

/// The ids `1..=n`.
pub open spec fn id_seq(n: u64) -> Seq<u64> {
    Seq::new(n as nat, |i: int| (i + 1) as u64)
}

/// The ids of a cluster of `n` nodes, `1..=n` in order.
pub fn cluster_ids(n: u64) -> (r: Vec<u64>)
    ensures
        r@ == id_seq(n),
{
    let mut r: Vec<u64> = Vec::new();
    let mut i: u64 = 0;
    while i < n
        invariant
            i <= n,
            r@ == id_seq(i),
        decreases n - i,
    {
        r.push(i + 1);
        assert(r@ =~= id_seq((i + 1) as u64));
        i = i + 1;
    }
    r
}

/// Holds of every id but `id`.
pub open spec fn differs_from(id: u64) -> spec_fn(u64) -> bool {
    |x: u64| x != id
}

/// Every id of `directory` but `id`, in order.
pub open spec fn peers_spec(id: u64, directory: Seq<u64>) -> Seq<u64> {
    directory.filter(differs_from(id))
}

/// The peers of node `id`: every id of the directory but its own.
pub fn peer_ids(id: u64, directory: &Vec<u64>) -> (r: Vec<u64>)
    ensures
        r@ == peers_spec(id, directory@),
{
    let mut r: Vec<u64> = Vec::new();
    let mut i: usize = 0;
    while i < directory.len()
        invariant
            i <= directory@.len(),
            r@ == peers_spec(id, directory@.subrange(0, i as int)),
        decreases directory@.len() - i,
    {
        let x = directory[i];
        proof {
            directory@.subrange(0, i as int).lemma_filter_push(x, differs_from(id));
            assert(directory@.subrange(0, i as int).push(x) =~= directory@.subrange(0, i + 1));
        }
        if x != id {
            r.push(x);
        }
        i = i + 1;
    }
    assert(directory@.subrange(0, directory@.len() as int) =~= directory@);
    r
}

/// In a cluster of `n` nodes, node `id` can address every other node and
/// not itself.
pub proof fn lemma_peers_reach_all(id: u64, n: u64)
    ensures
        forall|p: u64|
            1 <= p <= n && p != id ==> #[trigger] peers_spec(id, id_seq(n)).contains(p),
        !peers_spec(id, id_seq(n)).contains(id),
{
    broadcast use vstd::seq_lib::group_filter_ensures;

    assert forall|p: u64| 1 <= p <= n && p != id implies #[trigger] peers_spec(id, id_seq(n)).contains(
        p,
    ) by {
        assert(id_seq(n)[p - 1] == p);
    }
}

/// How one node starts: its id, whether it runs the consensus state machine
/// from the start, and the peers it knows of.
#[derive(Debug)]
pub struct NodeSetup {
    pub id: u64,
    pub is_leader: bool,
    pub peers: Vec<u64>,
}

impl NodeSetup {
    /// The setup of node `id` given the ids of the whole directory.
    pub fn new(is_leader: bool, id: u64, directory: &Vec<u64>) -> (r: NodeSetup)
        ensures
            r.id == id,
            r.is_leader == is_leader,
            r.peers@ == peers_spec(id, directory@),
    {
        NodeSetup { id, is_leader, peers: peer_ids(id, directory) }
    }
}

/// The setups of a cluster of `n` nodes with ids `1..=n`, where only node
/// `leader` starts as leader and each node knows every other one.
pub fn plan_cluster(n: u64, leader: u64) -> (r: Vec<NodeSetup>)
    ensures
        r@.len() == n,
        forall|i: int|
            0 <= i < n ==> {
                &&& (#[trigger] r@[i]).id == i + 1
                &&& r@[i].is_leader == (i + 1 == leader)
                &&& r@[i].peers@ == peers_spec((i + 1) as u64, id_seq(n))
            },
        forall|i: int, p: u64|
            0 <= i < n && 1 <= p <= n ==> (#[trigger] r@[i].peers@.contains(p) <==> p != i + 1),
        1 <= leader <= n ==> r@[leader - 1].is_leader,
        forall|i: int, j: int|
            0 <= i < n && 0 <= j < n && (#[trigger] r@[i]).is_leader && (#[trigger] r@[j]).is_leader
                ==> i == j,
{
    let ids = cluster_ids(n);
    let mut r: Vec<NodeSetup> = Vec::new();
    let mut i: u64 = 0;
    while i < n
        invariant
            i <= n,
            ids@ == id_seq(n),
            r@.len() == i,
            forall|k: int|
                0 <= k < i ==> {
                    &&& (#[trigger] r@[k]).id == k + 1
                    &&& r@[k].is_leader == (k + 1 == leader)
                    &&& r@[k].peers@ == peers_spec((k + 1) as u64, id_seq(n))
                },
        decreases n - i,
    {
        let id = i + 1;
        r.push(NodeSetup::new(id == leader, id, &ids));
        i = i + 1;
    }
    assert forall|i: int, p: u64| 0 <= i < n && 1 <= p <= n implies (#[trigger] r@[i].peers@.contains(
        p,
    ) <==> p != i + 1) by {
        lemma_peers_reach_all((i + 1) as u64, n);
    }
    r
}

/// The signal that tells a worker to stop.
#[derive(Clone, Copy, Debug, PartialEq, Eq, Structural)]
pub enum Signals {
    Terminate,
}

/// What one non-blocking poll of the shutdown channel saw.
#[derive(Clone, Copy, Debug, PartialEq, Eq, Structural)]
pub enum SignalPoll {
    Received(Signals),
    Empty,
    Disconnected,
}

/// Whether a worker stops after this poll: on a signal, and when the channel
/// is gone; it runs on only while the channel is merely empty.
pub fn terminate(poll: SignalPoll) -> (r: bool)
    ensures
        r == !(poll is Empty),
{
    match poll {
        SignalPoll::Received(Signals::Terminate) => true,
        SignalPoll::Empty => false,
        SignalPoll::Disconnected => true,
    }
}

} // verus!
