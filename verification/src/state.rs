//! The problem data model: amounts, capacity groups, connections, and the
//! full problem state.

use vstd::prelude::*;

verus! {

/// The fixed denominator that every `Amount::fractions` field is read
/// against: a fractional remainder of `f` stands for `f / 10_000` of a unit.
pub const FRACTION_DENOM: u32 = 10_000;

/// A quantity split into a whole-number `units` part and a `fractions`
/// remainder over the fixed denominator [`FRACTION_DENOM`].
#[derive(Debug, Clone, Copy, PartialEq, Eq, Structural)]
pub struct Amount {
    pub units: u32,
    pub fractions: u32,
}

/// Spec shorthand for a whole-unit amount.
pub open spec fn whole(units: u32) -> Amount {
    Amount { units, fractions: 0 }
}

impl Amount {
    /// A whole-unit amount with no fractional remainder.
    pub fn new_u(units: u32) -> (r: Self)
        ensures
            r == whole(units),
    {
        Amount { units, fractions: 0 }
    }

    /// An amount with an explicit fractional remainder.
    pub fn new(units: u32, fractions: u32) -> (r: Self)
        ensures
            r == (Amount { units, fractions }),
    {
        Amount { units, fractions }
    }
}

/// A scored pairing between item `g1` of group `r1` and item `g2` of group
/// `r2`.  The `weight` drives the objective: a positive weight rewards
/// selecting both endpoints together, a negative one penalizes it.
#[derive(Debug, Clone, Copy, PartialEq, Eq, Structural)]
pub struct Connection {
    pub r1: usize,
    pub g1: usize,
    pub r2: usize,
    pub g2: usize,
    pub weight: i64,
}

impl Connection {
    pub fn new(r1: usize, g1: usize, r2: usize, g2: usize, weight: i64) -> (r: Self)
        ensures
            r == (Connection { r1, g1, r2, g2, weight }),
    {
        Connection { r1, g1, r2, g2, weight }
    }
}

/// An ordered pool of capacity items (`free`) together with the aggregate
/// `request` that items selected from the pool must jointly cover.
#[derive(Debug)]
pub struct Group {
    pub free: Vec<Amount>,
    pub request: Amount,
}

/// A full problem instance: the groups, and the connections between their
/// items.  It is consumed read-only by the model builder.
#[derive(Debug)]
pub struct State {
    pub groups: Vec<Group>,
    pub connections: Vec<Connection>,
}

impl State {
    /// Every connection endpoint names an existing item of an existing
    /// group.  Producers of problem states must guarantee this.
    pub open spec fn wf(self) -> bool {
        forall|j: int|
            0 <= j < self.connections@.len() ==> {
                let c = #[trigger] self.connections@[j];
                &&& c.r1 < self.groups@.len()
                &&& c.r2 < self.groups@.len()
                &&& c.g1 < self.groups@[c.r1 as int].free@.len()
                &&& c.g2 < self.groups@[c.r2 as int].free@.len()
            }
    }
}

/// A list of `n` equal capacity items.
fn repeated(a: Amount, n: usize) -> (v: Vec<Amount>)
    ensures
        v@ == Seq::new(n as nat, |i: int| a),
{
    let mut v: Vec<Amount> = Vec::new();
    let mut i: usize = 0;
    while i < n
        invariant
            i <= n,
            v@.len() == i,
            forall|t: int| 0 <= t < i ==> v@[t] == a,
        decreases n - i,
    {
        v.push(a);
        i += 1;
    }
    proof {
        assert(v@ =~= Seq::new(n as nat, |i: int| a));
    }
    v
}

/// One group with `n` items of `units` whole units each and a whole-unit
/// request, with no connections: the plainest benchmark shape.
fn uniform_state(units: u32, n: usize, request: u32) -> (s: State)
    ensures
        s.groups@.len() == 1,
        s.groups@[0].free@ == Seq::new(n as nat, |i: int| whole(units)),
        s.groups@[0].request == whole(request),
        s.connections@.len() == 0,
{
    let free = repeated(Amount::new_u(units), n);
    let mut groups: Vec<Group> = Vec::new();
    groups.push(Group { free, request: Amount::new_u(request) });
    State { groups, connections: Vec::new() }
}

/// One group of four items of four units each, requesting seven units: two
/// items must be selected.
pub fn create_empty_4() -> (s: State)
    ensures
        s.groups@.len() == 1,
        s.groups@[0].free@ == Seq::new(4, |i: int| whole(4)),
        s.groups@[0].request == whole(7),
        s.connections@.len() == 0,
{
    uniform_state(4, 4, 7)
}

/// One group of sixteen items of twenty-four units each, requesting one
/// hundred units.
pub fn create_empty_16() -> (s: State)
    ensures
        s.groups@.len() == 1,
        s.groups@[0].free@ == Seq::new(16, |i: int| whole(24)),
        s.groups@[0].request == whole(100),
        s.connections@.len() == 0,
{
    uniform_state(24, 16, 100)
}

/// Two uniform groups with different item sizes and requests, no
/// connections.
pub fn create_empty_8_8() -> (s: State)
    ensures
        s.groups@.len() == 2,
        s.groups@[0].free@ == Seq::new(8, |i: int| whole(24)),
        s.groups@[0].request == whole(12),
        s.groups@[1].free@ == Seq::new(8, |i: int| whole(32)),
        s.groups@[1].request == whole(74),
        s.connections@.len() == 0,
{
    let mut groups: Vec<Group> = Vec::new();
    groups.push(Group { free: repeated(Amount::new_u(24), 8), request: Amount::new_u(12) });
    groups.push(Group { free: repeated(Amount::new_u(32), 8), request: Amount::new_u(74) });
    State { groups, connections: Vec::new() }
}

/// Three uniform groups with different item sizes and requests, no
/// connections.
pub fn create_empty_8_8_8() -> (s: State)
    ensures
        s.groups@.len() == 3,
        s.groups@[0].free@ == Seq::new(8, |i: int| whole(24)),
        s.groups@[0].request == whole(48),
        s.groups@[1].free@ == Seq::new(8, |i: int| whole(32)),
        s.groups@[1].request == whole(74),
        s.groups@[2].free@ == Seq::new(8, |i: int| whole(4)),
        s.groups@[2].request == whole(30),
        s.connections@.len() == 0,
{
    let mut groups: Vec<Group> = Vec::new();
    groups.push(Group { free: repeated(Amount::new_u(24), 8), request: Amount::new_u(48) });
    groups.push(Group { free: repeated(Amount::new_u(32), 8), request: Amount::new_u(74) });
    groups.push(Group { free: repeated(Amount::new_u(4), 8), request: Amount::new_u(30) });
    State { groups, connections: Vec::new() }
}

/// One group of thirty-two items of one hundred and twenty units each.
pub fn create_empty_32() -> (s: State)
    ensures
        s.groups@.len() == 1,
        s.groups@[0].free@ == Seq::new(32, |i: int| whole(120)),
        s.groups@[0].request == whole(921),
        s.connections@.len() == 0,
{
    uniform_state(120, 32, 921)
}

/// The mixed small-item list used by the `onlyo` benchmarks.
pub open spec fn onlyo_items() -> Seq<Amount> {
    seq![
        whole(4), whole(0), whole(2), whole(1),
        whole(4), whole(0), whole(2), whole(1),
        whole(0), whole(0), whole(0), whole(0),
        whole(3), whole(2), whole(3), whole(2),
    ]
}

/// Pushes the sixteen `onlyo` items onto `v`.
fn push_onlyo_items(v: &mut Vec<Amount>)
    ensures
        final(v)@ == old(v)@ + onlyo_items(),
{
    v.push(Amount::new_u(4));
    v.push(Amount::new_u(0));
    v.push(Amount::new_u(2));
    v.push(Amount::new_u(1));
    v.push(Amount::new_u(4));
    v.push(Amount::new_u(0));
    v.push(Amount::new_u(2));
    v.push(Amount::new_u(1));
    v.push(Amount::new_u(0));
    v.push(Amount::new_u(0));
    v.push(Amount::new_u(0));
    v.push(Amount::new_u(0));
    v.push(Amount::new_u(3));
    v.push(Amount::new_u(2));
    v.push(Amount::new_u(3));
    v.push(Amount::new_u(2));
    proof {
        assert(v@ =~= old(v)@ + onlyo_items());
    }
}

/// One group of sixteen mixed small items, requesting twenty-four units.
pub fn create_onlyo_16() -> (s: State)
    ensures
        s.groups@.len() == 1,
        s.groups@[0].free@ == onlyo_items(),
        s.groups@[0].request == whole(24),
        s.connections@.len() == 0,
{
    let mut free: Vec<Amount> = Vec::new();
    push_onlyo_items(&mut free);
    let mut groups: Vec<Group> = Vec::new();
    groups.push(Group { free, request: Amount::new_u(24) });
    State { groups, connections: Vec::new() }
}

/// One group of four small items whose total falls short of the request.
pub fn create_onlyo_4() -> (s: State)
    ensures
        s.groups@.len() == 1,
        s.groups@[0].free@ == seq![whole(1), whole(0), whole(2), whole(1)],
        s.groups@[0].request == whole(7),
        s.connections@.len() == 0,
{
    let mut free: Vec<Amount> = Vec::new();
    free.push(Amount::new_u(1));
    free.push(Amount::new_u(0));
    free.push(Amount::new_u(2));
    free.push(Amount::new_u(1));
    let mut groups: Vec<Group> = Vec::new();
    groups.push(Group { free, request: Amount::new_u(7) });
    State { groups, connections: Vec::new() }
}

/// One group of the `onlyo` item list twice over, requesting forty-eight
/// units.
pub fn create_onlyo_32() -> (s: State)
    ensures
        s.groups@.len() == 1,
        s.groups@[0].free@ == onlyo_items() + onlyo_items(),
        s.groups@[0].request == whole(48),
        s.connections@.len() == 0,
{
    let mut free: Vec<Amount> = Vec::new();
    push_onlyo_items(&mut free);
    push_onlyo_items(&mut free);
    proof {
        assert(free@ =~= onlyo_items() + onlyo_items());
    }
    let mut groups: Vec<Group> = Vec::new();
    groups.push(Group { free, request: Amount::new_u(48) });
    State { groups, connections: Vec::new() }
}

/// The near-prime item list used by the `primes` benchmarks.
pub open spec fn primes_items() -> Seq<Amount> {
    seq![
        whole(2), whole(3), whole(5), whole(7), whole(9),
        whole(11), whole(13), whole(17), whole(19), whole(23),
        whole(29), whole(31), whole(37), whole(39), whole(41),
    ]
}

/// Pushes the fifteen near-prime items onto `v`.
fn push_primes_items(v: &mut Vec<Amount>)
    ensures
        final(v)@ == old(v)@ + primes_items(),
{
    v.push(Amount::new_u(2));
    v.push(Amount::new_u(3));
    v.push(Amount::new_u(5));
    v.push(Amount::new_u(7));
    v.push(Amount::new_u(9));
    v.push(Amount::new_u(11));
    v.push(Amount::new_u(13));
    v.push(Amount::new_u(17));
    v.push(Amount::new_u(19));
    v.push(Amount::new_u(23));
    v.push(Amount::new_u(29));
    v.push(Amount::new_u(31));
    v.push(Amount::new_u(37));
    v.push(Amount::new_u(39));
    v.push(Amount::new_u(41));
    proof {
        assert(v@ =~= old(v)@ + primes_items());
    }
}

/// One group of near-prime items, requesting one hundred and thirteen
/// units.
pub fn create_primes_16() -> (s: State)
    ensures
        s.groups@.len() == 1,
        s.groups@[0].free@ == primes_items(),
        s.groups@[0].request == whole(113),
        s.connections@.len() == 0,
{
    let mut free: Vec<Amount> = Vec::new();
    push_primes_items(&mut free);
    let mut groups: Vec<Group> = Vec::new();
    groups.push(Group { free, request: Amount::new_u(113) });
    State { groups, connections: Vec::new() }
}

/// The near-prime items with a request close to their total.
pub fn create_primes_16_n() -> (s: State)
    ensures
        s.groups@.len() == 1,
        s.groups@[0].free@ == primes_items(),
        s.groups@[0].request == whole(329),
        s.connections@.len() == 0,
{
    let mut free: Vec<Amount> = Vec::new();
    push_primes_items(&mut free);
    let mut groups: Vec<Group> = Vec::new();
    groups.push(Group { free, request: Amount::new_u(329) });
    State { groups, connections: Vec::new() }
}

/// One group of items clustered in near-equal triplets.
pub fn create_triplets_16() -> (s: State)
    ensures
        s.groups@.len() == 1,
        s.groups@[0].free@ == seq![
            whole(40), whole(41), whole(42), whole(40), whole(41),
            whole(42), whole(39), whole(40), whole(41), whole(43),
            whole(44), whole(45), whole(38), whole(39), whole(40),
        ],
        s.groups@[0].request == whole(399),
        s.connections@.len() == 0,
{
    let mut free: Vec<Amount> = Vec::new();
    free.push(Amount::new_u(40));
    free.push(Amount::new_u(41));
    free.push(Amount::new_u(42));
    free.push(Amount::new_u(40));
    free.push(Amount::new_u(41));
    free.push(Amount::new_u(42));
    free.push(Amount::new_u(39));
    free.push(Amount::new_u(40));
    free.push(Amount::new_u(41));
    free.push(Amount::new_u(43));
    free.push(Amount::new_u(44));
    free.push(Amount::new_u(45));
    free.push(Amount::new_u(38));
    free.push(Amount::new_u(39));
    free.push(Amount::new_u(40));
    let mut groups: Vec<Group> = Vec::new();
    groups.push(Group { free, request: Amount::new_u(399) });
    State { groups, connections: Vec::new() }
}

/// A row of `n` connections from item `i * stride` of group `r1` to item
/// `i` of group `r2`, all with one weight.
pub open spec fn conn_row(r1: int, stride: int, r2: int, n: int, weight: i64) -> Seq<Connection> {
    Seq::new(n as nat, |i: int| (Connection {
        r1: r1 as usize,
        g1: (i * stride) as usize,
        r2: r2 as usize,
        g2: i as usize,
        weight,
    }))
}

/// Pushes one row of connections (see [`conn_row`]) onto `v`.
fn push_conn_row(v: &mut Vec<Connection>, r1: usize, stride: usize, r2: usize, n: usize, weight: i64)
    requires
        (n as int) * (stride as int) <= 0x1000_0000,
    ensures
        final(v)@ == old(v)@ + conn_row(r1 as int, stride as int, r2 as int, n as int, weight),
{
    let mut i: usize = 0;
    while i < n
        invariant
            i <= n,
            (n as int) * (stride as int) <= 0x1000_0000,
            v@.len() == old(v)@.len() + i,
            forall|t: int| 0 <= t < old(v)@.len() ==> #[trigger] v@[t] == old(v)@[t],
            forall|t: int| 0 <= t < i ==> #[trigger] v@[old(v)@.len() + t]
                == conn_row(r1 as int, stride as int, r2 as int, n as int, weight)[t],
        decreases n - i,
    {
        proof {
            assert(0 <= (i as int) * (stride as int) <= (n as int) * (stride as int)) by (nonlinear_arith)
                requires
                    0 <= i as int <= n as int,
                    stride as int >= 0,
            ;
        }
        let g1 = i * stride;
        v.push(Connection::new(r1, g1, r2, i, weight));
        i += 1;
    }
    proof {
        let row = conn_row(r1 as int, stride as int, r2 as int, n as int, weight);
        assert forall|k: int| 0 <= k < v@.len() implies v@[k] == (old(v)@ + row)[k] by {
            if k >= old(v)@.len() {
                let t = k - old(v)@.len();
                assert(v@[old(v)@.len() + t] == row[t]);
            }
        }
        assert(v@ =~= old(v)@ + row);
    }
}

/// Two groups of twelve items, item `i` of the first paired with item `i`
/// of the second at a uniform reward.
pub fn create_one2one_12_12() -> (s: State)
    ensures
        s.groups@.len() == 2,
        s.groups@[0].free@ == seq![
            whole(4), whole(4), whole(4), whole(4), whole(3), whole(3),
            whole(3), whole(3), whole(3), whole(2), whole(5), whole(1),
        ],
        s.groups@[0].request == whole(7),
        s.groups@[1].free@ == seq![
            whole(2), whole(2), whole(2), whole(2), whole(3), whole(3),
            whole(3), whole(3), whole(1), whole(0), whole(0), whole(1),
        ],
        s.groups@[1].request == whole(7),
        s.connections@ == conn_row(0, 1, 1, 12, 256),
{
    let mut f0: Vec<Amount> = Vec::new();
    f0.push(Amount::new_u(4));
    f0.push(Amount::new_u(4));
    f0.push(Amount::new_u(4));
    f0.push(Amount::new_u(4));
    f0.push(Amount::new_u(3));
    f0.push(Amount::new_u(3));
    f0.push(Amount::new_u(3));
    f0.push(Amount::new_u(3));
    f0.push(Amount::new_u(3));
    f0.push(Amount::new_u(2));
    f0.push(Amount::new_u(5));
    f0.push(Amount::new_u(1));
    let mut f1: Vec<Amount> = Vec::new();
    f1.push(Amount::new_u(2));
    f1.push(Amount::new_u(2));
    f1.push(Amount::new_u(2));
    f1.push(Amount::new_u(2));
    f1.push(Amount::new_u(3));
    f1.push(Amount::new_u(3));
    f1.push(Amount::new_u(3));
    f1.push(Amount::new_u(3));
    f1.push(Amount::new_u(1));
    f1.push(Amount::new_u(0));
    f1.push(Amount::new_u(0));
    f1.push(Amount::new_u(1));
    let mut groups: Vec<Group> = Vec::new();
    groups.push(Group { free: f0, request: Amount::new_u(7) });
    groups.push(Group { free: f1, request: Amount::new_u(7) });
    let mut connections: Vec<Connection> = Vec::new();
    push_conn_row(&mut connections, 0, 1, 1, 12, 256);
    proof {
        assert(connections@ =~= conn_row(0, 1, 1, 12, 256));
    }
    State { groups, connections }
}

/// Three groups of eight items, with one-to-one pairings between the first
/// and second and between the second and third group.
pub fn create_one2one_8_8_8() -> (s: State)
    ensures
        s.groups@.len() == 3,
        s.groups@[0].free@ == seq![
            whole(4), whole(4), whole(4), whole(4),
            whole(3), whole(3), whole(3), whole(3),
        ],
        s.groups@[0].request == whole(7),
        s.groups@[1].free@ == seq![
            whole(2), whole(2), whole(2), whole(2),
            whole(3), whole(3), whole(3), whole(3),
        ],
        s.groups@[1].request == whole(7),
        s.groups@[2].free@ == seq![
            whole(2), whole(6), whole(2), whole(3),
            whole(2), whole(2), whole(3), whole(3),
        ],
        s.groups@[2].request == whole(12),
        s.connections@ == conn_row(0, 1, 1, 8, 256) + conn_row(1, 1, 2, 8, 256),
{
    let mut f0: Vec<Amount> = Vec::new();
    f0.push(Amount::new_u(4));
    f0.push(Amount::new_u(4));
    f0.push(Amount::new_u(4));
    f0.push(Amount::new_u(4));
    f0.push(Amount::new_u(3));
    f0.push(Amount::new_u(3));
    f0.push(Amount::new_u(3));
    f0.push(Amount::new_u(3));
    let mut f1: Vec<Amount> = Vec::new();
    f1.push(Amount::new_u(2));
    f1.push(Amount::new_u(2));
    f1.push(Amount::new_u(2));
    f1.push(Amount::new_u(2));
    f1.push(Amount::new_u(3));
    f1.push(Amount::new_u(3));
    f1.push(Amount::new_u(3));
    f1.push(Amount::new_u(3));
    let mut f2: Vec<Amount> = Vec::new();
    f2.push(Amount::new_u(2));
    f2.push(Amount::new_u(6));
    f2.push(Amount::new_u(2));
    f2.push(Amount::new_u(3));
    f2.push(Amount::new_u(2));
    f2.push(Amount::new_u(2));
    f2.push(Amount::new_u(3));
    f2.push(Amount::new_u(3));
    let mut groups: Vec<Group> = Vec::new();
    groups.push(Group { free: f0, request: Amount::new_u(7) });
    groups.push(Group { free: f1, request: Amount::new_u(7) });
    groups.push(Group { free: f2, request: Amount::new_u(12) });
    let mut connections: Vec<Connection> = Vec::new();
    push_conn_row(&mut connections, 0, 1, 1, 8, 256);
    push_conn_row(&mut connections, 1, 1, 2, 8, 256);
    proof {
        assert(connections@ =~= conn_row(0, 1, 1, 8, 256) + conn_row(1, 1, 2, 8, 256));
    }
    State { groups, connections }
}

/// One connection of the all-to-all benchmark: item `i` of the first group
/// paired with item `j` of the second, the weight alternating between 128
/// and 256 with the parity of `i + j`.
pub open spec fn all2all_conn_at(i: int, j: int) -> Connection {
    Connection {
        r1: 0,
        g1: i as usize,
        r2: 1,
        g2: j as usize,
        weight: (((i + j) % 2) * 128 + 128) as i64,
    }
}

/// Connections of the all-to-all benchmark for the first `n` items of the
/// first group: item `i` paired with every item `j < i` of the second.
pub open spec fn all2all_conns(n: int) -> Seq<Connection>
    decreases n,
{
    if n <= 0 {
        Seq::empty()
    } else {
        all2all_conns(n - 1) + Seq::new((n - 1) as nat, |j: int| all2all_conn_at(n - 1, j))
    }
}

/// Two groups of sixteen items with dense pairings of alternating weight.
pub fn create_all2all_16_16() -> (s: State)
    ensures
        s.groups@.len() == 2,
        s.groups@[0].free@ == seq![
            whole(1), whole(4), whole(3), whole(4), whole(5), whole(3), whole(3), whole(3),
            whole(1), whole(4), whole(3), whole(4), whole(5), whole(3), whole(3), whole(3),
        ],
        s.groups@[0].request == whole(14),
        s.groups@[1].free@ == seq![
            whole(2), whole(2), whole(2), whole(2), whole(3), whole(3), whole(3), whole(3),
            whole(0), whole(0), whole(0), whole(5), whole(1), whole(3), whole(1), whole(1),
        ],
        s.groups@[1].request == whole(9),
        s.connections@ == all2all_conns(16),
{
    let mut f0: Vec<Amount> = Vec::new();
    f0.push(Amount::new_u(1));
    f0.push(Amount::new_u(4));
    f0.push(Amount::new_u(3));
    f0.push(Amount::new_u(4));
    f0.push(Amount::new_u(5));
    f0.push(Amount::new_u(3));
    f0.push(Amount::new_u(3));
    f0.push(Amount::new_u(3));
    f0.push(Amount::new_u(1));
    f0.push(Amount::new_u(4));
    f0.push(Amount::new_u(3));
    f0.push(Amount::new_u(4));
    f0.push(Amount::new_u(5));
    f0.push(Amount::new_u(3));
    f0.push(Amount::new_u(3));
    f0.push(Amount::new_u(3));
    let mut f1: Vec<Amount> = Vec::new();
    f1.push(Amount::new_u(2));
    f1.push(Amount::new_u(2));
    f1.push(Amount::new_u(2));
    f1.push(Amount::new_u(2));
    f1.push(Amount::new_u(3));
    f1.push(Amount::new_u(3));
    f1.push(Amount::new_u(3));
    f1.push(Amount::new_u(3));
    f1.push(Amount::new_u(0));
    f1.push(Amount::new_u(0));
    f1.push(Amount::new_u(0));
    f1.push(Amount::new_u(5));
    f1.push(Amount::new_u(1));
    f1.push(Amount::new_u(3));
    f1.push(Amount::new_u(1));
    f1.push(Amount::new_u(1));
    let mut groups: Vec<Group> = Vec::new();
    groups.push(Group { free: f0, request: Amount::new_u(14) });
    groups.push(Group { free: f1, request: Amount::new_u(9) });
    let mut connections: Vec<Connection> = Vec::new();
    let mut i: usize = 0;
    while i < 16
        invariant
            i <= 16,
            connections@ == all2all_conns(i as int),
        decreases 16 - i,
    {
        let mut j: usize = 0;
        while j < i
            invariant
                j <= i,
                i < 16,
                connections@ == all2all_conns(i as int)
                    + Seq::new(j as nat, |t: int| all2all_conn_at(i as int, t)),
            decreases i - j,
        {
            let w: i64 = if (i + j) % 2 == 1 {
                256
            } else {
                128
            };
            connections.push(Connection::new(0, i, 1, j, w));
            proof {
                assert(w == all2all_conn_at(i as int, j as int).weight);
                assert(connections@ =~= all2all_conns(i as int)
                    + Seq::new((j + 1) as nat, |t: int| all2all_conn_at(i as int, t)));
            }
            j += 1;
        }
        proof {
            assert(all2all_conns(i as int + 1) =~= all2all_conns(i as int)
                + Seq::new(i as nat, |t: int| all2all_conn_at(i as int, t)));
        }
        i += 1;
    }
    State { groups, connections }
}

/// Three groups of falling sizes, the first with staircase item sizes, and
/// rows of pairings stepping down the groups.
pub fn create_stairs_32_16_8() -> (s: State)
    ensures
        s.groups@.len() == 3,
        s.groups@[0].free@ == Seq::new(32, |i: int| whole(i as u32)),
        s.groups@[0].request == whole(127),
        s.groups@[1].free@ == seq![
            whole(2), whole(2), whole(2), whole(2), whole(3), whole(3), whole(3), whole(3),
            whole(0), whole(0), whole(0), whole(5), whole(1), whole(3), whole(1), whole(1),
        ],
        s.groups@[1].request == whole(19),
        s.groups@[2].free@ == seq![
            whole(2), whole(2), whole(2), whole(2), whole(3), whole(3), whole(3), whole(5),
        ],
        s.groups@[2].request == whole(10),
        s.connections@ == conn_row(0, 2, 1, 16, 256) + conn_row(1, 2, 2, 8, 348),
{
    let mut f0: Vec<Amount> = Vec::new();
    let mut i: usize = 0;
    while i < 32
        invariant
            i <= 32,
            f0@.len() == i,
            forall|t: int| 0 <= t < i ==> #[trigger] f0@[t] == whole(t as u32),
        decreases 32 - i,
    {
        f0.push(Amount::new_u(i as u32));
        i += 1;
    }
    proof {
        assert(f0@ =~= Seq::new(32, |t: int| whole(t as u32)));
    }
    let mut f1: Vec<Amount> = Vec::new();
    f1.push(Amount::new_u(2));
    f1.push(Amount::new_u(2));
    f1.push(Amount::new_u(2));
    f1.push(Amount::new_u(2));
    f1.push(Amount::new_u(3));
    f1.push(Amount::new_u(3));
    f1.push(Amount::new_u(3));
    f1.push(Amount::new_u(3));
    f1.push(Amount::new_u(0));
    f1.push(Amount::new_u(0));
    f1.push(Amount::new_u(0));
    f1.push(Amount::new_u(5));
    f1.push(Amount::new_u(1));
    f1.push(Amount::new_u(3));
    f1.push(Amount::new_u(1));
    f1.push(Amount::new_u(1));
    let mut f2: Vec<Amount> = Vec::new();
    f2.push(Amount::new_u(2));
    f2.push(Amount::new_u(2));
    f2.push(Amount::new_u(2));
    f2.push(Amount::new_u(2));
    f2.push(Amount::new_u(3));
    f2.push(Amount::new_u(3));
    f2.push(Amount::new_u(3));
    f2.push(Amount::new_u(5));
    let mut groups: Vec<Group> = Vec::new();
    groups.push(Group { free: f0, request: Amount::new_u(127) });
    groups.push(Group { free: f1, request: Amount::new_u(19) });
    groups.push(Group { free: f2, request: Amount::new_u(10) });
    let mut connections: Vec<Connection> = Vec::new();
    push_conn_row(&mut connections, 0, 2, 1, 16, 256);
    push_conn_row(&mut connections, 1, 2, 2, 8, 348);
    proof {
        assert(connections@ =~= conn_row(0, 2, 1, 16, 256) + conn_row(1, 2, 2, 8, 348));
    }
    State { groups, connections }
}

/// Three equal groups with pairings from the outer groups into the middle
/// one, forming diamonds.
pub fn create_diamonds_32_16_32() -> (s: State)
    ensures
        s.groups@.len() == 3,
        s.groups@[0].free@ == Seq::new(32, |i: int| whole(4)),
        s.groups@[0].request == whole(7),
        s.groups@[1].free@ == Seq::new(32, |i: int| whole(4)),
        s.groups@[1].request == whole(7),
        s.groups@[2].free@ == Seq::new(32, |i: int| whole(4)),
        s.groups@[2].request == whole(7),
        s.connections@ == conn_row(0, 2, 1, 16, 256) + conn_row(2, 2, 1, 16, 348),
{
    let mut groups: Vec<Group> = Vec::new();
    groups.push(Group { free: repeated(Amount::new_u(4), 32), request: Amount::new_u(7) });
    groups.push(Group { free: repeated(Amount::new_u(4), 32), request: Amount::new_u(7) });
    groups.push(Group { free: repeated(Amount::new_u(4), 32), request: Amount::new_u(7) });
    let mut connections: Vec<Connection> = Vec::new();
    push_conn_row(&mut connections, 0, 2, 1, 16, 256);
    push_conn_row(&mut connections, 2, 2, 1, 16, 348);
    proof {
        assert(connections@ =~= conn_row(0, 2, 1, 16, 256) + conn_row(2, 2, 1, 16, 348));
    }
    State { groups, connections }
}

/// Uniform whole-unit items facing a request with a fractional remainder.
pub fn create_empty_f_16() -> (s: State)
    ensures
        s.groups@.len() == 1,
        s.groups@[0].free@ == Seq::new(8, |i: int| whole(24)),
        s.groups@[0].request == (Amount { units: 100, fractions: 500 }),
        s.connections@.len() == 0,
{
    let mut groups: Vec<Group> = Vec::new();
    groups.push(Group { free: repeated(Amount::new_u(24), 8), request: Amount::new(100, 500) });
    State { groups, connections: Vec::new() }
}

/// The fractional item list: each item carries its own sub-unit remainder.
pub open spec fn fractions_items() -> Seq<Amount> {
    seq![
        (Amount { units: 2, fractions: 5000 }),
        (Amount { units: 1, fractions: 0 }),
        (Amount { units: 2, fractions: 5500 }),
        (Amount { units: 1, fractions: 2500 }),
        (Amount { units: 1, fractions: 3000 }),
        (Amount { units: 0, fractions: 3600 }),
        (Amount { units: 8, fractions: 0 }),
        (Amount { units: 1, fractions: 6500 }),
        (Amount { units: 2, fractions: 5000 }),
        (Amount { units: 1, fractions: 0 }),
        (Amount { units: 2, fractions: 9000 }),
        (Amount { units: 1, fractions: 2500 }),
        (Amount { units: 1, fractions: 3000 }),
        (Amount { units: 0, fractions: 3500 }),
        (Amount { units: 0, fractions: 9500 }),
        (Amount { units: 1, fractions: 4500 }),
    ]
}

/// One group of fractional items facing a fractional request.
pub fn create_fractions_16() -> (s: State)
    ensures
        s.groups@.len() == 1,
        s.groups@[0].free@ == fractions_items(),
        s.groups@[0].request == (Amount { units: 12, fractions: 3500 }),
        s.connections@.len() == 0,
{
    let mut free: Vec<Amount> = Vec::new();
    free.push(Amount::new(2, 5000));
    free.push(Amount::new(1, 0));
    free.push(Amount::new(2, 5500));
    free.push(Amount::new(1, 2500));
    free.push(Amount::new(1, 3000));
    free.push(Amount::new(0, 3600));
    free.push(Amount::new(8, 0));
    free.push(Amount::new(1, 6500));
    free.push(Amount::new(2, 5000));
    free.push(Amount::new(1, 0));
    free.push(Amount::new(2, 9000));
    free.push(Amount::new(1, 2500));
    free.push(Amount::new(1, 3000));
    free.push(Amount::new(0, 3500));
    free.push(Amount::new(0, 9500));
    free.push(Amount::new(1, 4500));
    proof {
        assert(free@ =~= fractions_items());
    }
    let mut groups: Vec<Group> = Vec::new();
    groups.push(Group { free, request: Amount::new(12, 3500) });
    State { groups, connections: Vec::new() }
}

} // verus!
