//! Translation of a problem [`State`] into a linear optimization model, and
//! decoding of a solved variable assignment back into a per-group list of
//! selected items.
//!
//! All objective coefficients are rational numbers whose denominator divides
//! [`OBJ_SCALE`], so the model holds them exactly as integers scaled by
//! `OBJ_SCALE`.  Variable values handed back by an optimization backend are
//! fixed-point numbers scaled by [`VAL_SCALE`]: the value `VAL_SCALE` stands
//! for `1.0`.  The objective value of a solution is therefore held at scale
//! `OBJ_SCALE * VAL_SCALE`.

use vstd::prelude::*;

use crate::state::{Amount, Connection, Group, State};

verus! {

/// Scale of objective coefficients: a coefficient of `c` stands for the
/// rational `c / OBJ_SCALE`.  It is the least common denominator of every
/// coefficient the builder produces: the per-unit bias `1/32` becomes
/// `UNITS_BIAS = OBJ_SCALE / 32`, and the per-fraction bias
/// `1 / (10_000 * 16)` becomes exactly `1`.
pub const OBJ_SCALE: i64 = 160_000;

/// The large fixed penalty (`1024`, at scale [`OBJ_SCALE`]) charged for every
/// selected item, far larger than any tie-break bias, so that the optimizer
/// first of all selects as few items as possible.
pub const UNIT_PENALTY: i64 = 1024 * 160_000;

/// The tie-break bias per unit of an item's capacity (`1/32`, at scale
/// [`OBJ_SCALE`]), applied when the group's request has no fractional part.
pub const UNITS_BIAS: i64 = 5_000;

/// Scale of variable values in an assignment: `VAL_SCALE` stands for `1.0`.
pub const VAL_SCALE: i64 = 10_000;

/// An item is decoded as selected when its variable's value is strictly
/// greater than `1/2`, that is, strictly greater than this threshold.
pub const SELECT_THRESHOLD: i64 = 5_000;

/// Largest admitted total variable count (selection plus connection
/// variables).  A model this large already needs tens of gigabytes of
/// memory; the bound keeps every index and objective sum inside the
/// machine's integer types.
pub const VAR_LIMIT: usize = 0x4000_0000;

/// Bound on the magnitude of every objective coefficient:
/// `(i64::MAX + 1) * OBJ_SCALE` covers any scaled connection weight as well
/// as any selection penalty.
pub const COEFF_BOUND: i128 = 9_223_372_036_854_775_808 * 160_000;

/// One linear term: `coeff` times the variable with index `var`.
#[derive(Debug, Clone, Copy, PartialEq, Eq, Structural)]
pub struct Term {
    pub var: usize,
    pub coeff: i64,
}

/// One linear constraint: the sum of `terms` must be at least `rhs`.
#[derive(Debug)]
pub struct Constraint {
    pub terms: Vec<Term>,
    pub rhs: i64,
}

/// The assembled optimization model.  Variables `0 .. n_sel` are the binary
/// selection variables, one per item, in group order; variables
/// `n_sel .. obj.len()` are the continuous connection variables, one per
/// connection, each bounded to `[0, 1]`.  The objective, to be maximized,
/// has one coefficient per variable at scale [`OBJ_SCALE`].
#[derive(Debug)]
pub struct LpModel {
    pub n_sel: usize,
    pub obj: Vec<i128>,
    pub constraints: Vec<Constraint>,
}

/// Mathematical form of one constraint: index/coefficient pairs and the
/// lower bound of their sum.
#[verifier::ext_equal]
pub ghost struct LinCon {
    pub terms: Seq<(int, int)>,
    pub rhs: int,
}

/// Mathematical reading of an executable [`Constraint`].
pub open spec fn con_view(c: Constraint) -> LinCon {
    LinCon {
        terms: Seq::new(c.terms@.len(), |k: int| (c.terms@[k].var as int, c.terms@[k].coeff as int)),
        rhs: c.rhs as int,
    }
}

/// Index of the first selection variable of group `g`: the number of items
/// in the groups before it.
pub open spec fn sel_off(gs: Seq<Group>, g: int) -> int
    decreases g,
{
    if g <= 0 {
        0
    } else {
        sel_off(gs, g - 1) + gs[g - 1].free@.len()
    }
}

impl State {
    /// Number of selection variables: one per item over all groups.
    pub open spec fn n_sel_vars(self) -> int {
        sel_off(self.groups@, self.groups@.len() as int)
    }

    /// Total number of variables of the model built from this state.
    pub open spec fn n_vars(self) -> int {
        self.n_sel_vars() + self.connections@.len()
    }
}

/// Objective coefficient of one selection variable, at scale [`OBJ_SCALE`]:
/// the large negative penalty, plus a smaller tie-break bias.  When the
/// group's request has no fractional part the bias grows with the item's
/// whole units; when it has one, the bias grows with the item's fractional
/// part, and only for items whose fractional part covers the requested one.
pub open spec fn sel_coeff(a: Amount, rf: u32) -> int {
    if rf == 0 {
        -(UNIT_PENALTY + a.units * UNITS_BIAS)
    } else if a.fractions >= rf {
        -(UNIT_PENALTY + a.fractions)
    } else {
        -UNIT_PENALTY as int
    }
}

/// Objective coefficients of the selection variables of one group.
pub open spec fn group_obj(g: Group) -> Seq<int> {
    Seq::new(g.free@.len(), |i: int| sel_coeff(g.free@[i], g.request.fractions))
}

/// Objective coefficients of the selection variables of the first `g`
/// groups, in variable order.
pub open spec fn sel_obj(gs: Seq<Group>, g: int) -> Seq<int>
    decreases g,
{
    if g <= 0 {
        Seq::empty()
    } else {
        sel_obj(gs, g - 1) + group_obj(gs[g - 1])
    }
}

/// Objective coefficients of the connection variables: each connection's
/// weight, at scale [`OBJ_SCALE`].
pub open spec fn conn_obj(cs: Seq<Connection>) -> Seq<int> {
    Seq::new(cs.len(), |j: int| cs[j].weight * OBJ_SCALE)
}

/// The whole objective: selection coefficients first, then connection
/// coefficients, in variable order.
pub open spec fn obj_spec(s: State) -> Seq<int> {
    sel_obj(s.groups@, s.groups@.len() as int) + conn_obj(s.connections@)
}

/// The plain coverage constraint of one group: selected items' whole units
/// must reach the request's whole units.
pub open spec fn cov_con_units(g: Group, off: int) -> LinCon {
    LinCon {
        terms: Seq::new(g.free@.len(), |i: int| (off + i, g.free@[i].units as int)),
        rhs: g.request.units as int,
    }
}

/// Effective unit count of an item toward a fractional request: one extra
/// whole unit when the item's own fractional part covers the requested one.
pub open spec fn eff_units(a: Amount, rf: u32) -> int {
    if a.fractions >= rf {
        a.units + 1
    } else {
        a.units as int
    }
}

/// The fractional coverage constraint of one group: selected items'
/// effective units must reach one more than the request's whole units.
pub open spec fn cov_con_frac(g: Group, off: int) -> LinCon {
    LinCon {
        terms: Seq::new(g.free@.len(), |i: int| (off + i, eff_units(g.free@[i], g.request.fractions))),
        rhs: g.request.units + 1,
    }
}

/// The coverage constraints contributed by one group whose selection
/// variables start at `off`: the plain constraint when the request has a
/// whole part, then the fractional constraint when it has a fractional
/// part; none when the request is zero.
pub open spec fn group_cons(g: Group, off: int) -> Seq<LinCon> {
    (if g.request.units > 0 {
        seq![cov_con_units(g, off)]
    } else {
        Seq::empty()
    }) + (if g.request.fractions > 0 {
        seq![cov_con_frac(g, off)]
    } else {
        Seq::empty()
    })
}

/// Coverage constraints of the first `g` groups, in group order.
pub open spec fn cov_cons(gs: Seq<Group>, g: int) -> Seq<LinCon>
    decreases g,
{
    if g <= 0 {
        Seq::empty()
    } else {
        cov_cons(gs, g - 1) + group_cons(gs[g - 1], sel_off(gs, g - 1))
    }
}

/// The two linking constraints of connection `j`: its variable is bounded
/// above by each endpoint's selection variable
/// (`endpoint - connection >= 0`).
pub open spec fn link_pair(gs: Seq<Group>, cs: Seq<Connection>, j: int) -> Seq<LinCon> {
    seq![
        (LinCon {
            terms: seq![(sel_off(gs, cs[j].r1 as int) + cs[j].g1, 1int), (sel_off(gs, gs.len() as int) + j, -1int)],
            rhs: 0,
        }),
        (LinCon {
            terms: seq![(sel_off(gs, cs[j].r2 as int) + cs[j].g2, 1int), (sel_off(gs, gs.len() as int) + j, -1int)],
            rhs: 0,
        }),
    ]
}

/// Linking constraints of the first `j` connections, in connection order.
pub open spec fn link_cons(gs: Seq<Group>, cs: Seq<Connection>, j: int) -> Seq<LinCon>
    decreases j,
{
    if j <= 0 {
        Seq::empty()
    } else {
        link_cons(gs, cs, j - 1) + link_pair(gs, cs, j - 1)
    }
}

/// Every constraint of the model built from `s`: all coverage constraints,
/// then all linking constraints.
pub open spec fn model_cons(s: State) -> Seq<LinCon> {
    cov_cons(s.groups@, s.groups@.len() as int) + link_cons(s.groups@, s.connections@, s.connections@.len() as int)
}

/// `sel_off` grows with the group index.
pub proof fn lemma_sel_off_monotone(gs: Seq<Group>, g1: int, g2: int)
    requires
        0 <= g1 <= g2,
    ensures
        sel_off(gs, g1) <= sel_off(gs, g2),
    decreases g2 - g1,
{
    if g1 < g2 {
        lemma_sel_off_monotone(gs, g1, g2 - 1);
    }
}

/// The selection part of the objective has one coefficient per item.
pub proof fn lemma_sel_obj_len(gs: Seq<Group>, g: int)
    ensures
        sel_obj(gs, g).len() == sel_off(gs, g),
    decreases g,
{
    if g > 0 {
        lemma_sel_obj_len(gs, g - 1);
    }
}

/// Every connection contributes exactly two linking constraints.
pub proof fn lemma_link_cons_len(gs: Seq<Group>, cs: Seq<Connection>, j: int)
    requires
        j >= 0,
    ensures
        link_cons(gs, cs, j).len() == 2 * j,
    decreases j,
{
    if j > 0 {
        lemma_link_cons_len(gs, cs, j - 1);
    }
}

/// Builds the optimization model of `state`: one binary selection variable
/// per item (variables `0 .. n_sel`, in group order), one continuous
/// `[0, 1]` connection variable per connection (variables `n_sel ..`), the
/// maximization objective, the coverage constraints of every group, and the
/// two linking constraints of every connection.
pub fn build_model(state: &State) -> (m: LpModel)
    requires
        state.wf(),
        state.n_vars() <= VAR_LIMIT as int,
    ensures
        m.n_sel as int == state.n_sel_vars(),
        m.obj@.len() == state.n_vars(),
        forall|i: int| 0 <= i < m.obj@.len() ==> (#[trigger] m.obj@[i]) as int == obj_spec(*state)[i],
        forall|i: int| 0 <= i < m.obj@.len() ==> -COEFF_BOUND <= #[trigger] m.obj@[i] <= COEFF_BOUND,
        m.constraints@.len() == model_cons(*state).len(),
        forall|k: int| 0 <= k < m.constraints@.len() ==> con_view(#[trigger] m.constraints@[k]) == model_cons(*state)[k],
{
    let ghost gs = state.groups@;
    let ghost cs = state.connections@;
    let ng = state.groups.len();

    // Selection variables: record each group's first variable index and push
    // the selection coefficients, in group order.
    let mut offsets: Vec<usize> = Vec::new();
    let mut obj: Vec<i128> = Vec::new();
    let mut g: usize = 0;
    while g < ng
        invariant
            g <= ng,
            ng == gs.len(),
            gs == state.groups@,
            cs == state.connections@,
            state.wf(),
            state.n_vars() <= VAR_LIMIT as int,
            offsets@.len() == g,
            forall|t: int| 0 <= t < g ==> (#[trigger] offsets@[t]) as int == sel_off(gs, t),
            obj@.len() == sel_off(gs, g as int),
            forall|i2: int| 0 <= i2 < obj@.len() ==> (#[trigger] obj@[i2]) as int == sel_obj(gs, g as int)[i2],
            forall|i2: int| 0 <= i2 < obj@.len() ==> -COEFF_BOUND <= #[trigger] obj@[i2] <= COEFF_BOUND,
        decreases ng - g,
    {
        proof {
            lemma_sel_off_monotone(gs, g as int + 1, gs.len() as int);
            lemma_sel_obj_len(gs, g as int);
        }
        let off = obj.len();
        offsets.push(off);
        let rf = state.groups[g].request.fractions;
        let nf = state.groups[g].free.len();
        let mut i: usize = 0;
        while i < nf
            invariant
                i <= nf,
                g < ng,
                ng == gs.len(),
                gs == state.groups@,
                nf == gs[g as int].free@.len(),
                rf == gs[g as int].request.fractions,
                off as int == sel_off(gs, g as int),
                sel_off(gs, g as int + 1) <= VAR_LIMIT as int,
                obj@.len() == sel_off(gs, g as int) + i,
                forall|i2: int| 0 <= i2 < sel_off(gs, g as int) ==> (#[trigger] obj@[i2]) as int == sel_obj(gs, g as int)[i2],
                forall|t: int| 0 <= t < i ==> (#[trigger] obj@[sel_off(gs, g as int) + t]) as int
                    == sel_coeff(gs[g as int].free@[t], rf),
                forall|i2: int| 0 <= i2 < obj@.len() ==> -COEFF_BOUND <= #[trigger] obj@[i2] <= COEFF_BOUND,
            decreases nf - i,
        {
            let a = state.groups[g].free[i];
            proof {
                assert(0 <= a.units as i128 * UNITS_BIAS as i128 <= 4_294_967_295i128 * 5_000) by (nonlinear_arith)
                    requires
                        0 <= a.units as i128 <= 4_294_967_295i128,
                ;
            }
            let c: i128 = if rf == 0 {
                -(UNIT_PENALTY as i128 + a.units as i128 * UNITS_BIAS as i128)
            } else if a.fractions >= rf {
                -(UNIT_PENALTY as i128 + a.fractions as i128)
            } else {
                -(UNIT_PENALTY as i128)
            };
            proof {
                assert(c as int == sel_coeff(gs[g as int].free@[i as int], rf));
                assert(-COEFF_BOUND <= c <= COEFF_BOUND);
            }
            obj.push(c);
            i += 1;
        }
        proof {
            assert(sel_obj(gs, g as int + 1) =~= sel_obj(gs, g as int) + group_obj(gs[g as int]));
            lemma_sel_obj_len(gs, g as int);
            assert forall|i2: int| 0 <= i2 < obj@.len() implies (#[trigger] obj@[i2]) as int
                == sel_obj(gs, g as int + 1)[i2] by {
                if i2 >= sel_off(gs, g as int) {
                    let t = i2 - sel_off(gs, g as int);
                    assert(obj@[sel_off(gs, g as int) + t] as int == sel_coeff(gs[g as int].free@[t], rf));
                    assert(sel_obj(gs, g as int + 1)[i2] == group_obj(gs[g as int])[t]);
                }
            }
        }
        g += 1;
    }
    let n_sel = obj.len();
    proof {
        assert(n_sel as int == state.n_sel_vars());
    }

    // Connection variables: one objective coefficient per connection, the
    // weight at scale OBJ_SCALE.
    let nc = state.connections.len();
    let mut j: usize = 0;
    while j < nc
        invariant
            j <= nc,
            nc == cs.len(),
            cs == state.connections@,
            gs == state.groups@,
            n_sel as int == state.n_sel_vars(),
            obj@.len() == state.n_sel_vars() + j,
            forall|i2: int| 0 <= i2 < state.n_sel_vars() ==> (#[trigger] obj@[i2]) as int
                == sel_obj(gs, gs.len() as int)[i2],
            forall|t: int| 0 <= t < j ==> (#[trigger] obj@[state.n_sel_vars() + t]) as int
                == cs[t].weight * OBJ_SCALE,
            forall|i2: int| 0 <= i2 < obj@.len() ==> -COEFF_BOUND <= #[trigger] obj@[i2] <= COEFF_BOUND,
        decreases nc - j,
    {
        let w = state.connections[j].weight;
        let c: i128 = w as i128 * OBJ_SCALE as i128;
        proof {
            assert(-COEFF_BOUND <= c <= COEFF_BOUND) by (nonlinear_arith)
                requires
                    c == w as i128 * OBJ_SCALE as i128,
                    -9_223_372_036_854_775_808i128 <= w as i128 <= 9_223_372_036_854_775_807i128,
            ;
        }
        obj.push(c);
        j += 1;
    }
    proof {
        lemma_sel_obj_len(gs, gs.len() as int);
        assert forall|i2: int| 0 <= i2 < obj@.len() implies (#[trigger] obj@[i2]) as int
            == obj_spec(*state)[i2] by {
            if i2 < state.n_sel_vars() {
                assert(obj_spec(*state)[i2] == sel_obj(gs, gs.len() as int)[i2]);
            } else {
                let t = i2 - state.n_sel_vars();
                assert(obj_spec(*state)[i2] == conn_obj(cs)[t]);
                assert(obj@[state.n_sel_vars() + t] as int == cs[t].weight * OBJ_SCALE);
            }
        }
    }

    // Coverage constraints, in group order.
    let mut constraints: Vec<Constraint> = Vec::new();
    let mut g2: usize = 0;
    while g2 < ng
        invariant
            g2 <= ng,
            ng == gs.len(),
            gs == state.groups@,
            cs == state.connections@,
            state.wf(),
            state.n_vars() <= VAR_LIMIT as int,
            offsets@.len() == ng,
            forall|t: int| 0 <= t < ng ==> (#[trigger] offsets@[t]) as int == sel_off(gs, t),
            constraints@.len() == cov_cons(gs, g2 as int).len(),
            forall|k: int| 0 <= k < constraints@.len() ==> con_view(#[trigger] constraints@[k])
                == cov_cons(gs, g2 as int)[k],
        decreases ng - g2,
    {
        proof {
            lemma_sel_off_monotone(gs, g2 as int + 1, gs.len() as int);
        }
        let off = offsets[g2];
        let nf = state.groups[g2].free.len();
        let ghost cons_before = constraints@;
        if state.groups[g2].request.units > 0 {
            let mut terms: Vec<Term> = Vec::new();
            let mut i: usize = 0;
            while i < nf
                invariant
                    i <= nf,
                    g2 < ng,
                    ng == gs.len(),
                    gs == state.groups@,
                    nf == gs[g2 as int].free@.len(),
                    off as int == sel_off(gs, g2 as int),
                    sel_off(gs, g2 as int + 1) <= VAR_LIMIT as int,
                    terms@.len() == i,
                    forall|t: int| 0 <= t < i ==> #[trigger] terms@[t] == (Term {
                        var: (sel_off(gs, g2 as int) + t) as usize,
                        coeff: gs[g2 as int].free@[t].units as i64,
                    }),
                decreases nf - i,
            {
                terms.push(Term { var: off + i, coeff: state.groups[g2].free[i].units as i64 });
                i += 1;
            }
            let rhs = state.groups[g2].request.units as i64;
            constraints.push(Constraint { terms, rhs });
            proof {
                assert(con_view(constraints@.last()) =~= cov_con_units(gs[g2 as int], sel_off(gs, g2 as int)));
            }
        }
        if state.groups[g2].request.fractions > 0 {
            let rf = state.groups[g2].request.fractions;
            let mut terms: Vec<Term> = Vec::new();
            let mut i: usize = 0;
            while i < nf
                invariant
                    i <= nf,
                    g2 < ng,
                    ng == gs.len(),
                    gs == state.groups@,
                    nf == gs[g2 as int].free@.len(),
                    rf == gs[g2 as int].request.fractions,
                    off as int == sel_off(gs, g2 as int),
                    sel_off(gs, g2 as int + 1) <= VAR_LIMIT as int,
                    terms@.len() == i,
                    forall|t: int| 0 <= t < i ==> (#[trigger] terms@[t]).var as int == sel_off(gs, g2 as int) + t
                        && terms@[t].coeff as int == eff_units(gs[g2 as int].free@[t], rf),
                decreases nf - i,
            {
                let a = state.groups[g2].free[i];
                let eff: i64 = if a.fractions >= rf {
                    a.units as i64 + 1
                } else {
                    a.units as i64
                };
                terms.push(Term { var: off + i, coeff: eff });
                i += 1;
            }
            let rhs = state.groups[g2].request.units as i64 + 1;
            constraints.push(Constraint { terms, rhs });
            proof {
                assert(con_view(constraints@.last()) =~= cov_con_frac(gs[g2 as int], sel_off(gs, g2 as int)));
            }
        }
        proof {
            let gg = gs[g2 as int];
            let soff = sel_off(gs, g2 as int);
            assert(cov_cons(gs, g2 as int + 1) =~= cov_cons(gs, g2 as int) + group_cons(gg, soff));
            assert forall|k: int| 0 <= k < constraints@.len() implies con_view(#[trigger] constraints@[k])
                == cov_cons(gs, g2 as int + 1)[k] by {
                if k < cons_before.len() {
                    assert(constraints@[k] == cons_before[k]);
                } else {
                    assert(cov_cons(gs, g2 as int + 1)[k] == group_cons(gg, soff)[k - cons_before.len()]);
                }
            }
        }
        g2 += 1;
    }

    // Linking constraints: for each connection, its variable is bounded by
    // each endpoint's selection variable.
    let mut j2: usize = 0;
    while j2 < nc
        invariant
            j2 <= nc,
            nc == cs.len(),
            ng == gs.len(),
            gs == state.groups@,
            cs == state.connections@,
            state.wf(),
            state.n_vars() <= VAR_LIMIT as int,
            n_sel as int == state.n_sel_vars(),
            offsets@.len() == ng,
            forall|t: int| 0 <= t < ng ==> (#[trigger] offsets@[t]) as int == sel_off(gs, t),
            constraints@.len() == cov_cons(gs, gs.len() as int).len() + 2 * j2,
            forall|k: int| 0 <= k < constraints@.len() ==> con_view(#[trigger] constraints@[k])
                == (cov_cons(gs, gs.len() as int) + link_cons(gs, cs, j2 as int))[k],
        decreases nc - j2,
    {
        proof {
            lemma_link_cons_len(gs, cs, j2 as int);
        }
        let c = state.connections[j2];
        proof {
            lemma_sel_off_monotone(gs, c.r1 as int + 1, gs.len() as int);
            lemma_sel_off_monotone(gs, c.r2 as int + 1, gs.len() as int);
        }
        let x1 = offsets[c.r1] + c.g1;
        let x2 = offsets[c.r2] + c.g2;
        let y = n_sel + j2;
        let ghost cons_before = constraints@;
        let mut terms1: Vec<Term> = Vec::new();
        terms1.push(Term { var: x1, coeff: 1 });
        terms1.push(Term { var: y, coeff: -1 });
        constraints.push(Constraint { terms: terms1, rhs: 0 });
        let mut terms2: Vec<Term> = Vec::new();
        terms2.push(Term { var: x2, coeff: 1 });
        terms2.push(Term { var: y, coeff: -1 });
        constraints.push(Constraint { terms: terms2, rhs: 0 });
        proof {
            lemma_link_cons_len(gs, cs, j2 as int + 1);
            assert(link_cons(gs, cs, j2 as int + 1) =~= link_cons(gs, cs, j2 as int) + link_pair(gs, cs, j2 as int));
            assert(con_view(constraints@[cons_before.len() as int]) =~= link_pair(gs, cs, j2 as int)[0]);
            assert(con_view(constraints@[cons_before.len() as int + 1]) =~= link_pair(gs, cs, j2 as int)[1]);
            assert forall|k: int| 0 <= k < constraints@.len() implies con_view(#[trigger] constraints@[k])
                == (cov_cons(gs, gs.len() as int) + link_cons(gs, cs, j2 as int + 1))[k] by {
                if k < cons_before.len() {
                    assert(constraints@[k] == cons_before[k]);
                    assert(con_view(constraints@[k]) == (cov_cons(gs, gs.len() as int) + link_cons(gs, cs, j2 as int))[k]);
                }
            }
        }
        j2 += 1;
    }
    proof {
        lemma_link_cons_len(gs, cs, nc as int);
    }

    LpModel { n_sel, obj, constraints }
}

/// Mathematical values of a sequence of `i64` machine integers.
pub open spec fn ints_of_i64s(s: Seq<i64>) -> Seq<int> {
    Seq::new(s.len(), |i: int| s[i] as int)
}

/// Mathematical values of a sequence of `i128` machine integers.
pub open spec fn ints_of_i128s(s: Seq<i128>) -> Seq<int> {
    Seq::new(s.len(), |i: int| s[i] as int)
}

/// Mathematical values of a sequence of `usize` machine integers.
pub open spec fn ints_of_usizes(s: Seq<usize>) -> Seq<int> {
    Seq::new(s.len(), |i: int| s[i] as int)
}

/// Dot product of the first `n` entries of `a` and `b`.
pub open spec fn dot_pref(a: Seq<int>, b: Seq<int>, n: int) -> int
    decreases n,
{
    if n <= 0 {
        0
    } else {
        dot_pref(a, b, n - 1) + a[n - 1] * b[n - 1]
    }
}

/// An assignment is one fixed-point value per variable, inside the
/// variables' `[0, 1]` bounds (`0 .. VAL_SCALE` at scale [`VAL_SCALE`]).
pub open spec fn assignment_ok(vals: Seq<int>, n: int) -> bool {
    &&& vals.len() == n
    &&& forall|i: int| 0 <= i < vals.len() ==> 0 <= #[trigger] vals[i] <= VAL_SCALE as int
}

/// Value of a constraint's left-hand side under an assignment.
pub open spec fn con_dot(terms: Seq<(int, int)>, vals: Seq<int>) -> int
    decreases terms.len(),
{
    if terms.len() == 0 {
        0
    } else {
        con_dot(terms.drop_last(), vals) + vals[terms.last().0] * terms.last().1
    }
}

/// Whether an assignment satisfies one constraint.  The right-hand side is
/// brought to the assignment's scale [`VAL_SCALE`].
pub open spec fn con_holds(c: LinCon, vals: Seq<int>) -> bool {
    con_dot(c.terms, vals) >= c.rhs * VAL_SCALE
}

/// Whether an assignment is feasible for the model built from `s`: it is in
/// bounds and satisfies every constraint.
pub open spec fn feasible(s: State, vals: Seq<int>) -> bool {
    &&& assignment_ok(vals, s.n_vars())
    &&& forall|k: int| 0 <= k < model_cons(s).len() ==> con_holds(#[trigger] model_cons(s)[k], vals)
}

/// Objective value of an assignment, at scale `OBJ_SCALE * VAL_SCALE`.
pub open spec fn objective_value(s: State, vals: Seq<int>) -> int {
    dot_pref(obj_spec(s), vals, obj_spec(s).len() as int)
}

/// Evaluates the objective deterministically for a returned assignment: the
/// dot product of the coefficients and the values.  The result is at scale
/// `OBJ_SCALE * VAL_SCALE`.
pub fn eval_objective(obj: &Vec<i128>, vals: &Vec<i64>) -> (r: i128)
    requires
        vals@.len() == obj@.len(),
        obj@.len() <= VAR_LIMIT as int,
        forall|i: int| 0 <= i < obj@.len() ==> -COEFF_BOUND <= #[trigger] obj@[i] <= COEFF_BOUND,
        forall|i: int| 0 <= i < vals@.len() ==> 0 <= #[trigger] vals@[i] <= VAL_SCALE,
    ensures
        r as int == dot_pref(ints_of_i128s(obj@), ints_of_i64s(vals@), obj@.len() as int),
{
    let ghost a = ints_of_i128s(obj@);
    let ghost b = ints_of_i64s(vals@);
    let n = obj.len();
    let mut acc: i128 = 0;
    let mut i: usize = 0;
    while i < n
        invariant
            i <= n,
            n == obj@.len(),
            vals@.len() == n,
            n <= VAR_LIMIT,
            a == ints_of_i128s(obj@),
            b == ints_of_i64s(vals@),
            forall|t: int| 0 <= t < obj@.len() ==> -COEFF_BOUND <= #[trigger] obj@[t] <= COEFF_BOUND,
            forall|t: int| 0 <= t < vals@.len() ==> 0 <= #[trigger] vals@[t] <= VAL_SCALE,
            acc as int == dot_pref(a, b, i as int),
            // the literal is COEFF_BOUND * VAL_SCALE, the largest magnitude
            // of one term; VAR_LIMIT of them stay well inside i128
            -(i as int) * 14_757_395_258_967_641_292_800_000_000 <= acc as int
                <= (i as int) * 14_757_395_258_967_641_292_800_000_000,
        decreases n - i,
    {
        proof {
            let o: int = obj@[i as int] as int;
            let v: int = vals@[i as int] as int;
            assert(COEFF_BOUND as int == 1_475_739_525_896_764_129_280_000);
            assert(-14_757_395_258_967_641_292_800_000_000 <= o * v
                <= 14_757_395_258_967_641_292_800_000_000) by (nonlinear_arith)
                requires
                    -1_475_739_525_896_764_129_280_000 <= o <= 1_475_739_525_896_764_129_280_000,
                    0 <= v <= 10_000,
            ;
            assert(a[i as int] == o && b[i as int] == v);
            assert(dot_pref(a, b, i as int + 1) == dot_pref(a, b, i as int) + o * v);
        }
        let t: i128 = obj[i] * vals[i] as i128;
        acc = acc + t;
        i += 1;
    }
    acc
}

/// Indices `0 <= i < n` whose variable `off + i` has a value strictly
/// greater than the selection threshold, in ascending order.
pub open spec fn selected_idx(off: int, n: int, vals: Seq<int>) -> Seq<int>
    decreases n,
{
    if n <= 0 {
        Seq::empty()
    } else if vals[off + n - 1] > SELECT_THRESHOLD as int {
        selected_idx(off, n - 1, vals).push(n - 1)
    } else {
        selected_idx(off, n - 1, vals)
    }
}

/// Decodes an assignment into the per-group lists of selected item indices:
/// an item counts as selected exactly when its binary selection variable's
/// value is strictly greater than `1/2`.
pub fn extract_groups(state: &State, vals: &Vec<i64>) -> (r: Vec<Vec<usize>>)
    requires
        state.n_vars() <= VAR_LIMIT as int,
        vals@.len() == state.n_vars(),
    ensures
        r@.len() == state.groups@.len(),
        forall|g: int| 0 <= g < r@.len() ==> ints_of_usizes(#[trigger] r@[g]@)
            == selected_idx(sel_off(state.groups@, g), state.groups@[g].free@.len() as int, ints_of_i64s(vals@)),
{
    let ghost gs = state.groups@;
    let ghost vi = ints_of_i64s(vals@);
    let nv = vals.len();
    let ng = state.groups.len();
    let mut r: Vec<Vec<usize>> = Vec::new();
    let mut off: usize = 0;
    let mut g: usize = 0;
    while g < ng
        invariant
            g <= ng,
            ng == gs.len(),
            gs == state.groups@,
            vi == ints_of_i64s(vals@),
            state.n_vars() <= VAR_LIMIT as int,
            vals@.len() == state.n_vars(),
            nv == vals@.len(),
            off as int == sel_off(gs, g as int),
            r@.len() == g,
            forall|t: int| 0 <= t < g ==> ints_of_usizes(#[trigger] r@[t]@)
                == selected_idx(sel_off(gs, t), gs[t].free@.len() as int, vi),
        decreases ng - g,
    {
        let nf = state.groups[g].free.len();
        proof {
            lemma_sel_off_monotone(gs, g as int + 1, gs.len() as int);
            assert(sel_off(gs, g as int + 1) == sel_off(gs, g as int) + gs[g as int].free@.len());
        }
        let mut sel: Vec<usize> = Vec::new();
        let mut i: usize = 0;
        while i < nf
            invariant
                i <= nf,
                g < ng,
                ng == gs.len(),
                gs == state.groups@,
                nf == gs[g as int].free@.len(),
                vi == ints_of_i64s(vals@),
                vals@.len() == state.n_vars(),
                nv == vals@.len(),
                off as int == sel_off(gs, g as int),
                sel_off(gs, g as int) + nf <= vals@.len(),
                ints_of_usizes(sel@) == selected_idx(sel_off(gs, g as int), i as int, vi),
            decreases nf - i,
        {
            if vals[off + i] > SELECT_THRESHOLD {
                sel.push(i);
                proof {
                    assert(ints_of_usizes(sel@) =~= selected_idx(sel_off(gs, g as int), i as int, vi).push(i as int));
                }
            }
            proof {
                assert(vi[sel_off(gs, g as int) + i] == vals@[off + i] as int);
            }
            i += 1;
        }
        r.push(sel);
        off = off + nf;
        g += 1;
    }
    r
}

/// The outcome of a solve: for every group, the selected item indices in
/// ascending order, and the achieved objective value at scale
/// `OBJ_SCALE * VAL_SCALE`.
#[derive(Debug)]
pub struct HqSolution {
    pub groups: Vec<Vec<usize>>,
    pub objective: i128,
}

/// Whether a solution is exactly the decoding of the assignment `vals` for
/// the state `s`: the per-group selections by threshold, and the objective
/// recomputed from the objective coefficients.
pub open spec fn solution_matches(s: State, vals: Seq<int>, sol: HqSolution) -> bool {
    &&& sol.groups@.len() == s.groups@.len()
    &&& (forall|g: int| 0 <= g < s.groups@.len() ==> ints_of_usizes(#[trigger] sol.groups@[g]@)
        == selected_idx(sel_off(s.groups@, g), s.groups@[g].free@.len() as int, vals))
    &&& sol.objective as int == objective_value(s, vals)
}

/// What a successful solve returns: the exact decoding of some in-bounds
/// assignment of the model's variables.
pub open spec fn solve_ok(s: State, sol: HqSolution) -> bool {
    exists|vals: Seq<int>| assignment_ok(vals, s.n_vars()) && #[trigger] solution_matches(s, vals, sol)
}

/// A pluggable optimization backend.  The model builder is agnostic to the
/// concrete engine (exact branch-and-bound, LP relaxation, ...); any type
/// implementing this contract can drive a solve.
pub trait Optimizer: Sized {
    /// Runs the backend on `model`, maximizing the objective subject to the
    /// constraints and the variables' bounds.  `None` reports an infeasible
    /// model or any backend failure.  A returned assignment carries one
    /// value per variable, scaled by [`VAL_SCALE`] and inside the
    /// variables' `[0, 1]` bounds.
    fn optimize(self, model: &LpModel) -> (r: Option<Vec<i64>>)
        ensures
            r matches Some(vals) ==> (vals@.len() == model.obj@.len()
                && forall|i: int| 0 <= i < vals@.len() ==> 0 <= #[trigger] vals@[i] <= VAL_SCALE),
    ;
}

/// Builds the model of `state`, hands it to the optimizer, and decodes the
/// outcome: `None` when the optimizer reports no feasible assignment,
/// otherwise the per-group selected indices and the objective value
/// recomputed deterministically from the objective coefficients (a value
/// reported by the backend itself is never trusted).  Repeated calls on the
/// same state build the identical model.
pub fn solve<O: Optimizer>(state: &State, optimizer: O) -> (r: Option<HqSolution>)
    requires
        state.wf(),
        state.n_vars() <= VAR_LIMIT as int,
    ensures
        match r {
            Some(sol) => solve_ok(*state, sol),
            None => true,
        },
{
    let m = build_model(state);
    match optimizer.optimize(&m) {
        None => None,
        Some(vals) => {
            let objective = eval_objective(&m.obj, &vals);
            let groups = extract_groups(state, &vals);
            let sol = HqSolution { groups, objective };
            proof {
                let vi = ints_of_i64s(vals@);
                lemma_sel_obj_len(state.groups@, state.groups@.len() as int);
                assert(ints_of_i128s(m.obj@) =~= obj_spec(*state));
                assert(assignment_ok(vi, state.n_vars()));
                assert(solution_matches(*state, vi, sol));
                assert(solve_ok(*state, sol));
            }
            Some(sol)
        },
    }
}

} // verus!
