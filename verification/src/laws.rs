//! General facts about the optimization model, proved once and for all
//! states: vacuous coverage for zero requests, infeasibility of empty groups
//! with positive requests, the effect of the linking constraints, weight
//! monotonicity of the objective, and determinism of model construction.

use vstd::prelude::*;

use crate::solver::{
    assignment_ok, con_dot, con_holds, conn_obj, cov_con_units, cov_cons, dot_pref, feasible,
    group_cons, lemma_sel_obj_len, lemma_sel_off_monotone, link_cons, link_pair, model_cons,
    obj_spec, objective_value, sel_obj, sel_off, selected_idx, LinCon, OBJ_SCALE, SELECT_THRESHOLD,
    VAL_SCALE,
};
use crate::state::{Group, State};

verus! {

/// A member of `a` is a member of `a + b`.
proof fn lemma_contains_left<A>(a: Seq<A>, b: Seq<A>, x: A)
    requires
        a.contains(x),
    ensures
        (a + b).contains(x),
{
    let i = choose|i: int| 0 <= i < a.len() && a[i] == x;
    assert((a + b)[i] == x);
}

/// A member of `b` is a member of `a + b`.
proof fn lemma_contains_right<A>(a: Seq<A>, b: Seq<A>, x: A)
    requires
        b.contains(x),
    ensures
        (a + b).contains(x),
{
    let i = choose|i: int| 0 <= i < b.len() && b[i] == x;
    assert((a + b)[a.len() + i] == x);
}

/// Every coverage constraint of group `g` occurs among the coverage
/// constraints of the first `n` groups.
proof fn lemma_cov_cons_contains(gs: Seq<Group>, g: int, n: int)
    requires
        0 <= g < n,
    ensures
        forall|t: int| 0 <= t < group_cons(gs[g], sel_off(gs, g)).len()
            ==> cov_cons(gs, n).contains(#[trigger] group_cons(gs[g], sel_off(gs, g))[t]),
    decreases n,
{
    if n == g + 1 {
        assert forall|t: int| 0 <= t < group_cons(gs[g], sel_off(gs, g)).len()
            implies cov_cons(gs, n).contains(#[trigger] group_cons(gs[g], sel_off(gs, g))[t]) by {
            assert(cov_cons(gs, n) == cov_cons(gs, g) + group_cons(gs[g], sel_off(gs, g)));
            let idx = cov_cons(gs, g).len() + t;
            assert(cov_cons(gs, n)[idx] == group_cons(gs[g], sel_off(gs, g))[t]);
        }
    } else {
        lemma_cov_cons_contains(gs, g, n - 1);
        assert forall|t: int| 0 <= t < group_cons(gs[g], sel_off(gs, g)).len()
            implies cov_cons(gs, n).contains(#[trigger] group_cons(gs[g], sel_off(gs, g))[t]) by {
            let x = group_cons(gs[g], sel_off(gs, g))[t];
            assert(cov_cons(gs, n - 1).contains(x));
            lemma_contains_left(cov_cons(gs, n - 1), group_cons(gs[n - 1], sel_off(gs, n - 1)), x);
            assert(cov_cons(gs, n) == cov_cons(gs, n - 1) + group_cons(gs[n - 1], sel_off(gs, n - 1)));
        }
    }
}

/// Both linking constraints of connection `j` occur among the linking
/// constraints of the first `m` connections.
proof fn lemma_link_cons_contains(
    gs: Seq<Group>,
    cs: Seq<crate::state::Connection>,
    j: int,
    m: int,
)
    requires
        0 <= j < m,
    ensures
        link_cons(gs, cs, m).contains(link_pair(gs, cs, j)[0]),
        link_cons(gs, cs, m).contains(link_pair(gs, cs, j)[1]),
    decreases m,
{
    if m == j + 1 {
        assert(link_cons(gs, cs, m) == link_cons(gs, cs, j) + link_pair(gs, cs, j));
        let base = link_cons(gs, cs, j).len() as int;
        assert(link_cons(gs, cs, m)[base] == link_pair(gs, cs, j)[0]);
        assert(link_cons(gs, cs, m)[base + 1] == link_pair(gs, cs, j)[1]);
    } else {
        lemma_link_cons_contains(gs, cs, j, m - 1);
        lemma_contains_left(link_cons(gs, cs, m - 1), link_pair(gs, cs, m - 1), link_pair(gs, cs, j)[0]);
        lemma_contains_left(link_cons(gs, cs, m - 1), link_pair(gs, cs, m - 1), link_pair(gs, cs, j)[1]);
        assert(link_cons(gs, cs, m) == link_cons(gs, cs, m - 1) + link_pair(gs, cs, m - 1));
    }
}

/// A decoded selection is a strictly ascending list of in-range item
/// indices: each index appears at most once.
pub proof fn lemma_selected_idx_ascending(off: int, n: int, vals: Seq<int>)
    ensures
        forall|k: int| 0 <= k < selected_idx(off, n, vals).len()
            ==> 0 <= #[trigger] selected_idx(off, n, vals)[k] < n,
        forall|k1: int, k2: int| 0 <= k1 < k2 < selected_idx(off, n, vals).len()
            ==> #[trigger] selected_idx(off, n, vals)[k1] < #[trigger] selected_idx(off, n, vals)[k2],
    decreases n,
{
    if n > 0 {
        lemma_selected_idx_ascending(off, n - 1, vals);
        let s = selected_idx(off, n - 1, vals);
        let t = selected_idx(off, n, vals);
        if vals[off + n - 1] > SELECT_THRESHOLD as int {
            assert(t == s.push(n - 1));
            assert forall|k: int| 0 <= k < t.len() implies 0 <= #[trigger] t[k] < n by {
                if k < s.len() {
                    assert(t[k] == s[k]);
                } else {
                    assert(t[k] == n - 1);
                }
            }
            assert forall|k1: int, k2: int| 0 <= k1 < k2 < t.len()
                implies #[trigger] t[k1] < #[trigger] t[k2] by {
                if k2 < s.len() {
                    assert(t[k1] == s[k1] && t[k2] == s[k2]);
                } else {
                    assert(t[k1] == s[k1] && t[k2] == n - 1);
                    assert(s[k1] < n - 1);
                }
            }
        } else {
            assert(t == s);
            assert forall|k: int| 0 <= k < t.len() implies 0 <= #[trigger] t[k] < n by {
                assert(t[k] == s[k]);
            }
            assert forall|k1: int, k2: int| 0 <= k1 < k2 < t.len()
                implies #[trigger] t[k1] < #[trigger] t[k2] by {
                assert(t[k1] == s[k1] && t[k2] == s[k2]);
            }
        }
    }
}

/// A zero request makes a group's coverage vacuous: the group contributes
/// no constraint to the model at all.
pub proof fn lemma_zero_request_no_coverage(g: Group, off: int)
    requires
        g.request.units == 0,
        g.request.fractions == 0,
    ensures
        group_cons(g, off) == Seq::<LinCon>::empty(),
{
    assert(group_cons(g, off) =~= Seq::<LinCon>::empty());
}

/// Coverage constraints vanish for every prefix of groups whose requests
/// are all zero.
proof fn lemma_cov_cons_all_zero(gs: Seq<Group>, g: int)
    requires
        0 <= g <= gs.len(),
        forall|t: int| 0 <= t < gs.len() ==> (#[trigger] gs[t]).request.units == 0
            && gs[t].request.fractions == 0,
    ensures
        cov_cons(gs, g) == Seq::<LinCon>::empty(),
    decreases g,
{
    if g > 0 {
        lemma_cov_cons_all_zero(gs, g - 1);
        lemma_zero_request_no_coverage(gs[g - 1], sel_off(gs, g - 1));
        assert(cov_cons(gs, g) =~= Seq::<LinCon>::empty());
    }
}

/// When every group's request is zero, all coverage constraints are
/// vacuous: the model consists of the linking constraints alone.
pub proof fn lemma_all_zero_requests_only_links(s: State)
    requires
        forall|t: int| 0 <= t < s.groups@.len() ==> (#[trigger] s.groups@[t]).request.units == 0
            && s.groups@[t].request.fractions == 0,
    ensures
        model_cons(s) == link_cons(s.groups@, s.connections@, s.connections@.len() as int),
{
    lemma_cov_cons_all_zero(s.groups@, s.groups@.len() as int);
    assert(model_cons(s) =~= link_cons(s.groups@, s.connections@, s.connections@.len() as int));
}

/// A group without items but with a positive whole-unit request makes the
/// model infeasible: its plain coverage constraint bounds an empty sum from
/// below by a positive quantity, so no assignment satisfies it.
pub proof fn lemma_empty_group_infeasible(s: State, g: int, vals: Seq<int>)
    requires
        0 <= g < s.groups@.len(),
        s.groups@[g].free@.len() == 0,
        s.groups@[g].request.units > 0,
    ensures
        !feasible(s, vals),
{
    if feasible(s, vals) {
        let gg = s.groups@[g];
        let off = sel_off(s.groups@, g);
        let c = cov_con_units(gg, off);
        assert(group_cons(gg, off)[0] == c);
        lemma_cov_cons_contains(s.groups@, g, s.groups@.len() as int);
        assert(cov_cons(s.groups@, s.groups@.len() as int).contains(c));
        lemma_contains_left(
            cov_cons(s.groups@, s.groups@.len() as int),
            link_cons(s.groups@, s.connections@, s.connections@.len() as int),
            c,
        );
        let k = choose|k: int| 0 <= k < model_cons(s).len() && model_cons(s)[k] == c;
        assert(con_holds(model_cons(s)[k], vals));
        assert(c.terms.len() == 0);
        assert(con_dot(c.terms, vals) == 0);
        assert(c.rhs >= 1);
        assert(c.rhs * (VAL_SCALE as int) >= 1 * (VAL_SCALE as int)) by (nonlinear_arith)
            requires
                c.rhs >= 1,
                VAL_SCALE as int > 0,
        ;
        assert(false);
    }
}

/// In a feasible assignment in which either endpoint's selection variable
/// is exactly zero, the linking constraints force the connection's variable
/// to zero, so the connection contributes nothing to the objective —
/// whatever the sign of its weight.
pub proof fn lemma_unselected_endpoint_zeroes_connection(s: State, j: int, vals: Seq<int>)
    requires
        0 <= j < s.connections@.len(),
        feasible(s, vals),
        vals[sel_off(s.groups@, s.connections@[j].r1 as int) + s.connections@[j].g1] == 0
            || vals[sel_off(s.groups@, s.connections@[j].r2 as int) + s.connections@[j].g2] == 0,
    ensures
        vals[s.n_sel_vars() + j] == 0,
        obj_spec(s)[s.n_sel_vars() + j] * vals[s.n_sel_vars() + j] == 0,
{
    let gs = s.groups@;
    let cs = s.connections@;
    let y = s.n_sel_vars() + j;
    lemma_sel_off_monotone(gs, 0, gs.len() as int);
    lemma_link_cons_contains(gs, cs, j, cs.len() as int);
    let which: int = if vals[sel_off(gs, cs[j].r1 as int) + cs[j].g1] == 0 {
        0
    } else {
        1
    };
    let c = link_pair(gs, cs, j)[which];
    let x: int = if which == 0 {
        sel_off(gs, cs[j].r1 as int) + cs[j].g1
    } else {
        sel_off(gs, cs[j].r2 as int) + cs[j].g2
    };
    assert(vals[x] == 0);
    assert(c.terms =~= seq![(x, 1int), (y, -1int)]);
    lemma_contains_right(
        cov_cons(gs, gs.len() as int),
        link_cons(gs, cs, cs.len() as int),
        c,
    );
    let k = choose|k: int| 0 <= k < model_cons(s).len() && model_cons(s)[k] == c;
    assert(con_holds(model_cons(s)[k], vals));
    let head = c.terms.drop_last();
    assert(head =~= seq![(x, 1int)]);
    assert(head.drop_last() =~= Seq::<(int, int)>::empty());
    assert(con_dot(head.drop_last(), vals) == 0);
    assert(head.last() == (x, 1int));
    assert(con_dot(head, vals) == 0 + vals[x] * 1);
    assert(c.terms.last() == (y, -1int));
    assert(con_dot(c.terms, vals) == con_dot(head, vals) + vals[y] * -1);
    assert(con_dot(c.terms, vals) == vals[x] * 1 + vals[y] * -1);
    assert(vals[x] - vals[y] >= c.rhs * (VAL_SCALE as int));
    assert(c.rhs == 0);
    assert(vals[y] <= 0);
    assert(0 <= y < vals.len());
    assert(vals[y] >= 0);
}

/// A dot product never shrinks when every coefficient grows (or stays) and
/// every value is non-negative.
proof fn lemma_dot_pref_pointwise_ge(a: Seq<int>, b: Seq<int>, vals: Seq<int>, n: int)
    requires
        forall|i: int| 0 <= i < n ==> #[trigger] b[i] >= a[i],
        forall|i: int| 0 <= i < n ==> #[trigger] vals[i] >= 0,
    ensures
        dot_pref(b, vals, n) >= dot_pref(a, vals, n),
    decreases n,
{
    if n > 0 {
        lemma_dot_pref_pointwise_ge(a, b, vals, n - 1);
        assert(b[n - 1] * vals[n - 1] >= a[n - 1] * vals[n - 1]) by (nonlinear_arith)
            requires
                b[n - 1] >= a[n - 1],
                vals[n - 1] >= 0,
        ;
    }
}

/// Raising one connection's weight, all else equal, never lowers the
/// objective value of any fixed in-bounds assignment.  (That the optimal
/// objective value over all feasible assignments cannot drop follows: the
/// feasible set is untouched and every assignment's value is at least what
/// it was.)
pub proof fn lemma_weight_monotone(s1: State, s2: State, j: int, vals: Seq<int>)
    requires
        s1.groups@ == s2.groups@,
        s1.connections@.len() == s2.connections@.len(),
        0 <= j < s1.connections@.len(),
        forall|t: int| 0 <= t < s1.connections@.len() && t != j
            ==> s1.connections@[t] == s2.connections@[t],
        s2.connections@[j].weight >= s1.connections@[j].weight,
        assignment_ok(vals, s1.n_vars()),
    ensures
        objective_value(s2, vals) >= objective_value(s1, vals),
{
    let a = obj_spec(s1);
    let b = obj_spec(s2);
    let nsel = s1.n_sel_vars();
    lemma_sel_obj_len(s1.groups@, s1.groups@.len() as int);
    assert(sel_obj(s2.groups@, s2.groups@.len() as int) == sel_obj(s1.groups@, s1.groups@.len() as int));
    assert(a.len() == b.len());
    assert forall|i: int| 0 <= i < a.len() implies #[trigger] b[i] >= a[i] by {
        if i < nsel {
            assert(a[i] == sel_obj(s1.groups@, s1.groups@.len() as int)[i]);
            assert(b[i] == sel_obj(s2.groups@, s2.groups@.len() as int)[i]);
        } else {
            let t = i - nsel;
            assert(a[i] == conn_obj(s1.connections@)[t]);
            assert(b[i] == conn_obj(s2.connections@)[t]);
            if t == j {
                assert(s2.connections@[t].weight * OBJ_SCALE >= s1.connections@[t].weight * OBJ_SCALE)
                    by (nonlinear_arith)
                    requires
                        s2.connections@[t].weight >= s1.connections@[t].weight,
                        OBJ_SCALE as int > 0,
                ;
            }
        }
    }
    lemma_dot_pref_pointwise_ge(a, b, vals, a.len() as int);
}

/// Model construction is a pure function of the state: equal groups and
/// equal connections yield the identical objective, constraint set and
/// variable count, so repeated solves of one state pose the identical
/// optimization problem.
pub proof fn lemma_model_deterministic(s1: State, s2: State)
    requires
        s1.groups@ == s2.groups@,
        s1.connections@ == s2.connections@,
    ensures
        obj_spec(s1) == obj_spec(s2),
        model_cons(s1) == model_cons(s2),
        s1.n_vars() == s2.n_vars(),
{
    assert(obj_spec(s1) == sel_obj(s1.groups@, s1.groups@.len() as int) + conn_obj(s1.connections@));
    assert(obj_spec(s2) == sel_obj(s2.groups@, s2.groups@.len() as int) + conn_obj(s2.connections@));
    assert(model_cons(s1) == cov_cons(s1.groups@, s1.groups@.len() as int)
        + link_cons(s1.groups@, s1.connections@, s1.connections@.len() as int));
    assert(model_cons(s2) == cov_cons(s2.groups@, s2.groups@.len() as int)
        + link_cons(s2.groups@, s2.connections@, s2.connections@.len() as int));
}

} // verus!
