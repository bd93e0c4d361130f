//! The connectivity model: the four-neighbor adjacency of every grid index,
//! computed once per resolution and independent of the mapping and of zoom.
//!
//! Indices are row-major: for index `i` at resolution `n`, the fast
//! coordinate is `x = i % n` and the slow one is `y = i / n`; a neighbor is
//! present exactly when `i` is not on that boundary of the grid.

use vstd::prelude::*;
use vstd::arithmetic::div_mod::{lemma_fundamental_div_mod, lemma_fundamental_div_mod_converse,
    lemma_mod_pos_bound};

verus! {

/// The neighbors of one grid index, each present unless the index lies on
/// that boundary edge of the grid.
#[derive(Clone, Copy, Debug, PartialEq, Eq)]
pub struct Connection {
    pub pos: usize,
    pub left: Option<usize>,
    pub right: Option<usize>,
    pub up: Option<usize>,
    pub down: Option<usize>,
}

/// The adjacency entry for index `i` at resolution `n`.
pub open spec fn conn_entry_ok(c: Connection, n: int, i: int) -> bool {
    &&& c.pos == i
    &&& c.left == (if i % n > 0 { Some((i - 1) as usize) } else { None::<usize> })
    &&& c.right == (if i % n < n - 1 { Some((i + 1) as usize) } else { None::<usize> })
    &&& c.up == (if i / n > 0 { Some((i - n) as usize) } else { None::<usize> })
    &&& c.down == (if i / n < n - 1 { Some((i + n) as usize) } else { None::<usize> })
}

/// A full adjacency table for resolution `n`: one entry per grid index.
pub open spec fn connections_ok(s: Seq<Connection>, n: int) -> bool {
    &&& s.len() == n * n
    &&& forall|i: int| 0 <= i < s.len() ==> conn_entry_ok(#[trigger] s[i], n, i)
}

/// Every index the entry holds stays under `len`.
pub open spec fn conn_indices_in(c: Connection, len: int) -> bool {
    &&& c.pos < len
    &&& (c.left matches Some(j) ==> j < len)
    &&& (c.right matches Some(j) ==> j < len)
    &&& (c.up matches Some(j) ==> j < len)
    &&& (c.down matches Some(j) ==> j < len)
}

/// A well formed adjacency table only mentions indices of the grid it
/// describes.
pub proof fn lemma_connections_in_range(s: Seq<Connection>, n: int)
    requires
        1 <= n,
        connections_ok(s, n),
    ensures
        forall|i: int| 0 <= i < s.len() ==> conn_indices_in(#[trigger] s[i], s.len() as int),
{
    assert forall|i: int| 0 <= i < s.len() implies conn_indices_in(#[trigger] s[i], s.len() as int) by {
        assert(conn_entry_ok(s[i], n, i));
        let q = i / n;
        let r = i % n;
        lemma_fundamental_div_mod(i, n);
        lemma_mod_pos_bound(i, n);
        assert((i == n * q + r && 0 <= r < n && 1 <= n && 0 <= i < n * n) ==> ((r > 0 ==> 1 <= i)
            && (r < n - 1 ==> i + 1 < n * n) && (q > 0 ==> i >= n) && (q < n - 1 ==> i + n < n
            * n))) by (nonlinear_arith);
    }
}

/// Number of present `right` neighbors over the table.
pub open spec fn count_rights(s: Seq<Connection>) -> int
    decreases s.len(),
{
    if s.len() == 0 {
        0
    } else {
        count_rights(s.drop_last()) + (if s.last().right is Some { 1int } else { 0int })
    }
}

/// Number of present `down` neighbors over the table.
pub open spec fn count_downs(s: Seq<Connection>) -> int
    decreases s.len(),
{
    if s.len() == 0 {
        0
    } else {
        count_downs(s.drop_last()) + (if s.last().down is Some { 1int } else { 0int })
    }
}

/// Number of undirected mesh edges, each counted once at its left or upper
/// endpoint.
pub open spec fn edge_count(s: Seq<Connection>) -> int {
    count_rights(s) + count_downs(s)
}

/// The adjacency table for resolution `n`.
pub fn connections(n: usize) -> (r: Vec<Connection>)
    requires
        1 <= n <= 0xFFFF,
    ensures
        connections_ok(r@, n as int),
{
    proof {
        assert(n * n <= 0xFFFF * 0xFFFF) by (nonlinear_arith)
            requires n <= 0xFFFF;
    }
    let total = n * n;
    let mut r: Vec<Connection> = Vec::new();
    let mut pos: usize = 0;
    while pos < total
        invariant
            1 <= n <= 0xFFFF,
            total == n * n,
            pos <= total,
            r@.len() == pos,
            forall|i: int| 0 <= i < pos ==> conn_entry_ok(#[trigger] r@[i], n as int, i),
        decreases total - pos,
    {
        let x = pos % n;
        let y = pos / n;
        proof {
            assert(pos % n < n && (pos % n > 0 ==> pos >= 1) && (pos / n > 0 ==> pos >= n) && (pos
                / n < n - 1 ==> pos + n < n * n)) by (nonlinear_arith)
                requires 0 < n, pos < n * n;
        }
        let left = if x > 0 { Some(pos - 1) } else { None };
        let right = if x < n - 1 { Some(pos + 1) } else { None };
        let up = if y > 0 { Some(pos - n) } else { None };
        let down = if y < n - 1 { Some(pos + n) } else { None };
        r.push(Connection { pos, left, right, up, down });
        pos = pos + 1;
    }
    r
}

/// Count the mesh edges of a table, each undirected edge once.
pub fn count_edges(conns: &Vec<Connection>) -> (c: u64)
    requires
        conns@.len() <= 0x7FFF_FFFF_FFFF_FFFF,
    ensures
        c == edge_count(conns@),
{
    let mut c: u64 = 0;
    let mut i: usize = 0;
    while i < conns.len()
        invariant
            i <= conns@.len() <= 0x7FFF_FFFF_FFFF_FFFF,
            c == edge_count(conns@.take(i as int)),
            c <= 2 * i,
        decreases conns@.len() - i,
    {
        proof {
            assert(conns@.take(i + 1).drop_last() =~= conns@.take(i as int));
            assert(conns@.take(i + 1).last() == conns@[i as int]);
        }
        if conns[i].right.is_some() {
            c = c + 1;
        }
        if conns[i].down.is_some() {
            c = c + 1;
        }
        i = i + 1;
    }
    proof {
        assert(conns@.take(conns@.len() as int) =~= conns@);
    }
    c
}

proof fn lemma_count_rights_prefix(s: Seq<Connection>, n: int, k: int)
    requires
        1 <= n,
        connections_ok(s, n),
        0 <= k <= s.len(),
    ensures
        count_rights(s.take(k)) == (k / n) * (n - 1) + k % n,
    decreases k,
{
    if k == 0 {
        assert(count_rights(s.take(0)) == 0);
    } else {
        lemma_count_rights_prefix(s, n, k - 1);
        assert(s.take(k).drop_last() =~= s.take(k - 1));
        assert(s.take(k).last() == s[k - 1]);
        assert(conn_entry_ok(s[k - 1], n, k - 1));
        assert(s[k - 1].right is Some <==> (k - 1) % n < n - 1);
        let q = (k - 1) / n;
        let r = (k - 1) % n;
        lemma_fundamental_div_mod(k - 1, n);
        lemma_mod_pos_bound(k - 1, n);
        assert(n * q == q * n && (q + 1) * n == q * n + n && (q + 1) * (n - 1) == q * (n - 1) + (n
            - 1)) by (nonlinear_arith);
        if r < n - 1 {
            lemma_fundamental_div_mod_converse(k, n, q, r + 1);
        } else {
            lemma_fundamental_div_mod_converse(k, n, q + 1, 0);
        }
    }
}

proof fn lemma_count_downs_prefix(s: Seq<Connection>, n: int, k: int)
    requires
        1 <= n,
        connections_ok(s, n),
        0 <= k <= s.len(),
    ensures
        count_downs(s.take(k)) == if k <= n * (n - 1) { k } else { n * (n - 1) },
    decreases k,
{
    if k == 0 {
    } else {
        lemma_count_downs_prefix(s, n, k - 1);
        assert(s.take(k).drop_last() =~= s.take(k - 1));
        assert(s.take(k).last() == s[k - 1]);
        assert(conn_entry_ok(s[k - 1], n, k - 1));
        assert(s[k - 1].down is Some <==> (k - 1) / n < n - 1);
        let q = (k - 1) / n;
        let r = (k - 1) % n;
        lemma_fundamental_div_mod(k - 1, n);
        lemma_mod_pos_bound(k - 1, n);
        assert((k - 1 == n * q + r && 0 <= r < n && 1 <= n) ==> (q < n - 1 <==> k <= n * (n - 1)))
            by (nonlinear_arith);
    }
}

/// The mesh of an `n`-by-`n` grid has exactly `2*n*(n-1)` undirected edges:
/// `n*(n-1)` horizontal ones and `n*(n-1)` vertical ones.
pub proof fn lemma_edge_count(s: Seq<Connection>, n: int)
    requires
        1 <= n,
        connections_ok(s, n),
    ensures
        edge_count(s) == 2 * n * (n - 1),
{
    lemma_count_rights_prefix(s, n, n * n);
    lemma_count_downs_prefix(s, n, n * n);
    assert(s.take(n * n) =~= s);
    lemma_fundamental_div_mod_converse(n * n, n, n, 0);
    assert(n * (n - 1) < n * n) by (nonlinear_arith)
        requires 1 <= n;
    assert(n * (n - 1) + n * (n - 1) == 2 * n * (n - 1)) by (nonlinear_arith);
}

} // verus!
