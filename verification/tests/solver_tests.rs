use hqsolve::solver::{build_model, eval_objective, extract_groups, solve, LpModel, Optimizer, Term};
use hqsolve::state::{
    create_all2all_16_16, create_diamonds_32_16_32, create_empty_16, create_empty_32,
    create_empty_4, create_empty_8_8, create_empty_8_8_8, create_empty_f_16, create_fractions_16,
    create_one2one_12_12, create_one2one_8_8_8, create_onlyo_16, create_onlyo_32, create_onlyo_4,
    create_primes_16, create_primes_16_n, create_stairs_32_16_8, create_triplets_16, Amount,
    Connection, Group, State,
};

/// An exact branch-and-bound backend: binary selection variables, continuous
/// connection variables in [0, 1].
struct Microlp;

impl Optimizer for Microlp {
    fn optimize(self, model: &LpModel) -> Option<Vec<i64>> {
        let mut p = microlp::Problem::new(microlp::OptimizationDirection::Maximize);
        let mut vars = Vec::new();
        for (i, &c) in model.obj.iter().enumerate() {
            let coeff = c as f64 / 160_000.0;
            if i < model.n_sel {
                vars.push(p.add_binary_var(coeff));
            } else {
                vars.push(p.add_var(coeff, (0.0, 1.0)));
            }
        }
        for con in &model.constraints {
            let mut expr = microlp::LinearExpr::empty();
            for t in &con.terms {
                expr.add(vars[t.var], t.coeff as f64);
            }
            p.add_constraint(expr, microlp::ComparisonOp::Ge, con.rhs as f64);
        }
        let outcome = p.solve().ok()?;
        let sol = outcome.into_solution().ok()?;
        let mut vals = Vec::new();
        for &v in &vars {
            let x = sol.var_value(v);
            let scaled = (x * 10_000.0).round() as i64;
            vals.push(scaled.clamp(0, 10_000));
        }
        Some(vals)
    }
}

fn single_group(free: Vec<Amount>, request: Amount) -> State {
    State {
        groups: vec![Group { free, request }],
        connections: Vec::new(),
    }
}

#[test]
fn two_items_cover_seven() {
    // Four items of four units, request of seven: exactly two items must be
    // selected, never three.
    let state = create_empty_4();
    let sol = solve(&state, Microlp).expect("feasible");
    assert_eq!(sol.groups.len(), 1);
    assert_eq!(sol.groups[0].len(), 2);
    // Each selected item costs (1024 * 160_000 + 4 * 5_000) at value 10_000.
    assert_eq!(sol.objective, -2 * 163_860_000 * 10_000);
}

#[test]
fn zero_request_selects_nothing() {
    let state = single_group(vec![Amount::new_u(3), Amount::new_u(3)], Amount::new_u(0));
    let sol = solve(&state, Microlp).expect("feasible");
    assert_eq!(sol.groups, vec![Vec::<usize>::new()]);
    assert_eq!(sol.objective, 0);
}

#[test]
fn empty_group_positive_request_has_no_solution() {
    let state = single_group(Vec::new(), Amount::new_u(5));
    assert!(solve(&state, Microlp).is_none());
}

#[test]
fn short_capacity_has_no_solution() {
    // Total capacity 4 cannot reach the request of 7.
    let state = create_onlyo_4();
    assert!(solve(&state, Microlp).is_none());
}

#[test]
fn fractional_item_counts_double_toward_fractional_request() {
    // Item (1, 5000) against request (12, 3500): 5000 >= 3500, so the item
    // contributes 1 unit to the plain constraint (target 12) but 1 + 1 = 2
    // effective units to the fractional constraint (target 13).
    let state = single_group(vec![Amount::new(1, 5000)], Amount::new(12, 3500));
    let model = build_model(&state);
    assert_eq!(model.n_sel, 1);
    assert_eq!(model.constraints.len(), 2);
    assert_eq!(model.constraints[0].terms, vec![Term { var: 0, coeff: 1 }]);
    assert_eq!(model.constraints[0].rhs, 12);
    assert_eq!(model.constraints[1].terms, vec![Term { var: 0, coeff: 2 }]);
    assert_eq!(model.constraints[1].rhs, 13);
    // Its objective coefficient carries the fractional tie-break bias.
    assert_eq!(model.obj[0], -(1024 * 160_000 + 5000));
}

#[test]
fn fractional_item_below_threshold_counts_single() {
    // Item (1, 3000) against request (12, 3500): 3000 < 3500, so the item
    // contributes only its whole unit to both constraints, and its
    // objective coefficient has no bias.
    let state = single_group(vec![Amount::new(1, 3000)], Amount::new(12, 3500));
    let model = build_model(&state);
    assert_eq!(model.constraints[1].terms, vec![Term { var: 0, coeff: 1 }]);
    assert_eq!(model.constraints[1].rhs, 13);
    assert_eq!(model.obj[0], -1024 * 160_000);
}

#[test]
fn zero_request_group_adds_no_constraints() {
    let state = single_group(vec![Amount::new_u(3), Amount::new_u(3)], Amount::new_u(0));
    let model = build_model(&state);
    assert!(model.constraints.is_empty());
    assert_eq!(model.obj.len(), 2);
}

fn linked_pair_state(weight: i64) -> State {
    State {
        groups: vec![
            Group { free: vec![Amount::new_u(1)], request: Amount::new_u(1) },
            Group { free: vec![Amount::new_u(1)], request: Amount::new_u(1) },
        ],
        connections: vec![Connection::new(0, 0, 1, 0, weight)],
    }
}

#[test]
fn higher_weight_never_lowers_objective() {
    let low = solve(&linked_pair_state(10), Microlp).expect("feasible");
    let high = solve(&linked_pair_state(1000), Microlp).expect("feasible");
    assert!(high.objective >= low.objective);
    // Both endpoints are forcibly selected, so the connection is fully
    // active and the objectives differ by exactly the weight difference.
    assert_eq!(high.objective - low.objective, (1000 - 10) * 160_000 * 10_000);
}

#[test]
fn connection_reward_steers_tie_breaking() {
    // Each group must select exactly one of two equal items; the reward for
    // pairing the second items decides both ties.
    let state = State {
        groups: vec![
            Group { free: vec![Amount::new_u(1), Amount::new_u(1)], request: Amount::new_u(1) },
            Group { free: vec![Amount::new_u(1), Amount::new_u(1)], request: Amount::new_u(1) },
        ],
        connections: vec![Connection::new(0, 1, 1, 1, 256)],
    };
    let sol = solve(&state, Microlp).expect("feasible");
    assert_eq!(sol.groups, vec![vec![1], vec![1]]);
    assert_eq!(sol.objective, (-2 * 163_845_000 + 256 * 160_000) * 10_000);
}

#[test]
fn unselected_endpoints_contribute_nothing() {
    // Zero requests and a weight too small to pay for two selections: the
    // optimum selects nothing, and the connection contributes nothing —
    // the objective is exactly zero, not the weight.
    let state = State {
        groups: vec![
            Group { free: vec![Amount::new_u(1)], request: Amount::new_u(0) },
            Group { free: vec![Amount::new_u(1)], request: Amount::new_u(0) },
        ],
        connections: vec![Connection::new(0, 0, 1, 0, 500)],
    };
    let sol = solve(&state, Microlp).expect("feasible");
    assert_eq!(sol.groups, vec![Vec::<usize>::new(), Vec::<usize>::new()]);
    assert_eq!(sol.objective, 0);
}

#[test]
fn negative_weight_connection_contributes_nothing() {
    let state = State {
        groups: vec![
            Group { free: vec![Amount::new_u(1)], request: Amount::new_u(0) },
            Group { free: vec![Amount::new_u(1)], request: Amount::new_u(0) },
        ],
        connections: vec![Connection::new(0, 0, 1, 0, -500)],
    };
    let sol = solve(&state, Microlp).expect("feasible");
    assert_eq!(sol.groups, vec![Vec::<usize>::new(), Vec::<usize>::new()]);
    assert_eq!(sol.objective, 0);
}

#[test]
fn large_reward_pays_for_selection() {
    // A weight of 5000 outweighs the two unit penalties of roughly 1024
    // each: both items are selected and the connection is fully active.
    let state = State {
        groups: vec![
            Group { free: vec![Amount::new_u(1)], request: Amount::new_u(0) },
            Group { free: vec![Amount::new_u(1)], request: Amount::new_u(0) },
        ],
        connections: vec![Connection::new(0, 0, 1, 0, 5000)],
    };
    let sol = solve(&state, Microlp).expect("feasible");
    assert_eq!(sol.groups, vec![vec![0], vec![0]]);
    assert_eq!(sol.objective, (5000i128 * 160_000 - 2 * 163_845_000) * 10_000);
}

#[test]
fn repeated_solve_same_objective() {
    let state = create_one2one_12_12();
    let first = solve(&state, Microlp).expect("feasible");
    let second = solve(&state, Microlp).expect("feasible");
    assert_eq!(first.objective, second.objective);
}

#[test]
fn selection_threshold_is_strict() {
    // Decoding selects a value strictly greater than one half: 5000 of
    // 10000 is out, 5001 is in.
    let state = single_group(vec![Amount::new_u(1), Amount::new_u(1)], Amount::new_u(0));
    let groups = extract_groups(&state, &vec![5000, 5001]);
    assert_eq!(groups, vec![vec![1]]);
}

#[test]
fn objective_evaluation_is_exact() {
    assert_eq!(eval_objective(&vec![2, 3], &vec![10_000, 5_000]), 35_000);
    assert_eq!(eval_objective(&vec![-7], &vec![10_000]), -70_000);
    assert_eq!(eval_objective(&Vec::new(), &Vec::new()), 0);
}

#[test]
fn fixtures_have_expected_shapes() {
    let primes = create_primes_16();
    assert_eq!(primes.groups.len(), 1);
    assert_eq!(primes.groups[0].free.len(), 15);
    assert_eq!(primes.groups[0].free[14].units, 41);
    assert_eq!(primes.groups[0].request.units, 113);

    let all2all = create_all2all_16_16();
    assert_eq!(all2all.connections.len(), 120);
    // First connection pairs item 1 with item 0: odd parity, weight 256.
    assert_eq!(all2all.connections[0].weight, 256);
    assert_eq!(all2all.connections[0].r1, 0);
    assert_eq!(all2all.connections[0].g1, 1);
    assert_eq!(all2all.connections[0].g2, 0);

    let stairs = create_stairs_32_16_8();
    assert_eq!(stairs.groups[0].free.len(), 32);
    assert_eq!(stairs.groups[0].free[31].units, 31);
    assert_eq!(stairs.connections.len(), 24);
    assert_eq!(stairs.connections[16].weight, 348);
    assert_eq!(stairs.connections[16].r1, 1);

    let diamonds = create_diamonds_32_16_32();
    assert_eq!(diamonds.connections.len(), 32);
    assert_eq!(diamonds.connections[31].r1, 2);
    assert_eq!(diamonds.connections[31].g1, 30);
    assert_eq!(diamonds.connections[31].g2, 15);

    let fractions = create_fractions_16();
    assert_eq!(fractions.groups[0].free.len(), 16);
    assert_eq!(fractions.groups[0].request.units, 12);
    assert_eq!(fractions.groups[0].request.fractions, 3500);
    assert_eq!(fractions.groups[0].free[2].fractions, 5500);

    let e16 = create_empty_16();
    assert_eq!(e16.groups[0].free, vec![Amount::new_u(24); 16]);
    assert_eq!(e16.groups[0].request.units, 100);

    let e32 = create_empty_32();
    assert_eq!(e32.groups[0].free, vec![Amount::new_u(120); 32]);
    assert_eq!(e32.groups[0].request.units, 921);

    let e88 = create_empty_8_8();
    assert_eq!(e88.groups.len(), 2);
    assert_eq!(e88.groups[1].free, vec![Amount::new_u(32); 8]);
    assert_eq!(e88.groups[1].request.units, 74);

    let e888 = create_empty_8_8_8();
    assert_eq!(e888.groups.len(), 3);
    assert_eq!(e888.groups[2].free, vec![Amount::new_u(4); 8]);
    assert_eq!(e888.groups[2].request.units, 30);

    let o16 = create_onlyo_16();
    assert_eq!(o16.groups[0].free.len(), 16);
    assert_eq!(o16.groups[0].free[0].units, 4);
    assert_eq!(o16.groups[0].free[15].units, 2);
    assert_eq!(o16.groups[0].request.units, 24);

    let o32 = create_onlyo_32();
    assert_eq!(o32.groups[0].free.len(), 32);
    assert_eq!(o32.groups[0].free[16..], o32.groups[0].free[..16]);
    assert_eq!(o32.groups[0].request.units, 48);

    let pn = create_primes_16_n();
    assert_eq!(pn.groups[0].free, primes.groups[0].free);
    assert_eq!(pn.groups[0].request.units, 329);

    let tr = create_triplets_16();
    assert_eq!(tr.groups[0].free.len(), 15);
    assert_eq!(tr.groups[0].free[11].units, 45);
    assert_eq!(tr.groups[0].request.units, 399);

    let ef = create_empty_f_16();
    assert_eq!(ef.groups[0].free, vec![Amount::new_u(24); 8]);
    assert_eq!(ef.groups[0].request, Amount::new(100, 500));

    let oo12 = create_one2one_12_12();
    assert_eq!(oo12.connections.len(), 12);
    assert_eq!(oo12.connections[5], Connection::new(0, 5, 1, 5, 256));

    let oo888 = create_one2one_8_8_8();
    assert_eq!(oo888.connections.len(), 16);
    assert_eq!(oo888.connections[3], Connection::new(0, 3, 1, 3, 256));
    assert_eq!(oo888.connections[11], Connection::new(1, 3, 2, 3, 256));
}

#[test]
fn fractional_request_selects_covering_items() {
    // Request (12, 3500) over the fractional benchmark: a solution exists
    // and meets both coverage constraints.
    let state = create_fractions_16();
    let sol = solve(&state, Microlp).expect("feasible");
    let selected = &sol.groups[0];
    let units: u32 = selected.iter().map(|&i| state.groups[0].free[i].units).sum();
    assert!(units >= 12);
    let eff: u32 = selected
        .iter()
        .map(|&i| {
            let a = state.groups[0].free[i];
            if a.fractions >= 3500 { a.units + 1 } else { a.units }
        })
        .sum();
    assert!(eff >= 13);
}
