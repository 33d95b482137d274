use pixel_fight::sim::{SPEED_MAX, SPEED_MIN};
use pixel_fight::{Rgb, Simulation, Team, Unit, V2};

fn team(color: Rgb, x: i64, y: i64, radius: u64, count: usize) -> Team {
    Team::new(color, V2 { x, y }, radius, count)
}

const RED: Rgb = Rgb { r: 255, g: 0, b: 0 };
const BLUE: Rgb = Rgb { r: 0, g: 0, b: 255 };

/// Two teams of one unit each, 100 apart, reach 10, speed 20/s: the first
/// tick only selects targets, the second moves both 20 along the x-axis.
#[test]
fn two_single_units_select_then_approach() {
    let teams = vec![team(RED, 0, 0, 0, 1), team(BLUE, 100, 0, 0, 1)];
    let a = Unit::with_speed(0, 0, V2 { x: 0, y: 0 }, 20);
    let b = Unit::with_speed(1, 1, V2 { x: 100, y: 0 }, 20);
    let mut sim = Simulation { teams, units: vec![a, b] };
    let draws = vec![0usize, 0usize];

    sim.tick_with_draws(1000, &draws);
    assert_eq!(sim.units()[0].target_id, Some(1));
    assert_eq!(sim.units()[1].target_id, Some(0));
    assert_eq!(*sim.units()[0].position(), V2 { x: 0, y: 0 });
    assert_eq!(*sim.units()[1].position(), V2 { x: 100, y: 0 });

    sim.tick_with_draws(1000, &draws);
    assert_eq!(*sim.units()[0].position(), V2 { x: 20, y: 0 });
    assert_eq!(*sim.units()[1].position(), V2 { x: 80, y: 0 });
    assert!(sim.units()[0].is_alive());
    assert!(sim.units()[1].is_alive());
    assert_eq!(sim.units().len(), 2);
}

/// A unit within reach kills on that tick instead of moving, even though its
/// speed times the elapsed time would overshoot the target.
#[test]
fn kill_beats_overshooting_move() {
    let teams = vec![team(RED, 0, 0, 0, 1), team(BLUE, 8, 0, 0, 1)];
    let mut a = Unit::with_speed(0, 0, V2 { x: 0, y: 0 }, 20);
    a.set_target(Some(1));
    let b = Unit::with_speed(1, 1, V2 { x: 8, y: 0 }, 20);
    let mut sim = Simulation { teams, units: vec![a, b] };

    sim.tick_with_draws(1000, &vec![0usize, 0usize]);
    // the killer stays put and clears its target; the victim dies in place
    assert_eq!(*sim.units()[0].position(), V2 { x: 0, y: 0 });
    assert_eq!(sim.units()[0].target_id, None);
    assert!(!sim.units()[1].is_alive());
    assert_eq!(*sim.units()[1].position(), V2 { x: 8, y: 0 });
}

/// At distance exactly equal to the reach threshold the kill still happens.
#[test]
fn kill_at_reach_boundary() {
    let teams = vec![team(RED, 0, 0, 0, 1), team(BLUE, 10, 0, 0, 1)];
    let mut a = Unit::with_speed(0, 0, V2 { x: 0, y: 0 }, 20);
    a.set_target(Some(1));
    let b = Unit::with_speed(1, 1, V2 { x: 10, y: 0 }, 20);
    let mut sim = Simulation { teams, units: vec![a, b] };
    sim.tick_with_draws(1000, &vec![0usize, 0usize]);
    assert!(!sim.units()[1].is_alive());
    assert_eq!(sim.units()[0].target_id, None);
}

/// Just outside the reach threshold no kill happens: the unit moves, and the
/// step may carry it past its target.
#[test]
fn no_kill_just_outside_reach() {
    let teams = vec![team(RED, 0, 0, 0, 1), team(BLUE, 11, 0, 0, 1)];
    let mut a = Unit::with_speed(0, 0, V2 { x: 0, y: 0 }, 20);
    a.set_target(Some(1));
    let b = Unit::with_speed(1, 1, V2 { x: 11, y: 0 }, 20);
    let mut sim = Simulation { teams, units: vec![a, b] };
    sim.tick_with_draws(1000, &vec![0usize, 0usize]);
    assert!(sim.units()[1].is_alive());
    // 11 * 20 / 11 == 20: the mover overshoots to x == 20
    assert_eq!(*sim.units()[0].position(), V2 { x: 20, y: 0 });
    assert_eq!(sim.units()[0].target_id, Some(1));
}

/// A unit whose team has no live enemy left selects "no target" and neither
/// panics nor keeps a stale target.
#[test]
fn no_live_enemy_sets_target_to_none() {
    let teams = vec![team(RED, 0, 0, 0, 1), team(BLUE, 50, 0, 0, 1)];
    let a = Unit::with_speed(0, 0, V2 { x: 0, y: 0 }, 20);
    let mut b = Unit::with_speed(1, 1, V2 { x: 50, y: 0 }, 20);
    b.kill();
    let mut sim = Simulation { teams, units: vec![a, b] };
    sim.tick_with_draws(1000, &vec![0usize, 0usize]);
    assert_eq!(sim.units()[0].target_id, None);
    assert!(sim.units()[0].is_alive());
}

/// A unit with no enemy team at all also resolves to "no target".
#[test]
fn lone_team_has_no_target() {
    let teams = vec![team(RED, 0, 0, 0, 2)];
    let a = Unit::with_speed(0, 0, V2 { x: 0, y: 0 }, 20);
    let b = Unit::with_speed(0, 1, V2 { x: 5, y: 0 }, 20);
    let mut sim = Simulation { teams, units: vec![a, b] };
    sim.tick_with_draws(1000, &vec![0usize, 0usize]);
    assert_eq!(sim.units()[0].target_id, None);
    assert_eq!(sim.units()[1].target_id, None);
}

/// A kill applied after its target already died the same tick is a no-op on
/// the target and still clears the killer's target: two units of one team
/// both in reach of the same victim.
#[test]
fn second_kill_on_dead_target_is_noop() {
    let teams = vec![team(RED, 0, 0, 0, 2), team(BLUE, 5, 0, 0, 1)];
    let mut a = Unit::with_speed(0, 0, V2 { x: 0, y: 0 }, 20);
    a.set_target(Some(2));
    let mut b = Unit::with_speed(0, 1, V2 { x: 2, y: 0 }, 20);
    b.set_target(Some(2));
    let c = Unit::with_speed(1, 2, V2 { x: 5, y: 0 }, 20);
    let mut sim = Simulation { teams, units: vec![a, b, c] };
    sim.tick_with_draws(1000, &vec![0usize, 0, 0]);
    assert!(!sim.units()[2].is_alive());
    assert_eq!(sim.units()[0].target_id, None);
    assert_eq!(sim.units()[1].target_id, None);
    // nobody moved, nobody else died
    assert_eq!(*sim.units()[0].position(), V2 { x: 0, y: 0 });
    assert_eq!(*sim.units()[1].position(), V2 { x: 2, y: 0 });
    assert!(sim.units()[0].is_alive());
    assert!(sim.units()[1].is_alive());
    assert_eq!(*sim.units()[2].position(), V2 { x: 5, y: 0 });
}

/// A unit whose target died on an earlier tick re-reads the snapshot and
/// picks a fresh target instead of chasing the corpse.
#[test]
fn dead_target_triggers_retargeting() {
    let teams = vec![team(RED, 0, 0, 0, 1), team(BLUE, 50, 0, 0, 2)];
    let mut a = Unit::with_speed(0, 0, V2 { x: 0, y: 0 }, 20);
    a.set_target(Some(1));
    let mut b = Unit::with_speed(1, 1, V2 { x: 50, y: 0 }, 20);
    b.kill();
    let c = Unit::with_speed(1, 2, V2 { x: 60, y: 0 }, 20);
    let mut sim = Simulation { teams, units: vec![a, b, c] };
    sim.tick_with_draws(1000, &vec![0usize, 0, 0]);
    // the only eligible enemy is unit 2
    assert_eq!(sim.units()[0].target_id, Some(2));
    assert_eq!(*sim.units()[0].position(), V2 { x: 0, y: 0 });
}

/// With a fixed draw sequence, two runs from the same configuration produce
/// identical trajectories.
#[test]
fn fixed_draws_give_identical_runs() {
    let build = || {
        let teams = vec![team(RED, 0, 0, 0, 2), team(BLUE, 40, 0, 0, 2)];
        let units = vec![
            Unit::with_speed(0, 0, V2 { x: 0, y: 0 }, 17),
            Unit::with_speed(0, 1, V2 { x: 0, y: 7 }, 23),
            Unit::with_speed(1, 2, V2 { x: 40, y: 0 }, 11),
            Unit::with_speed(1, 3, V2 { x: 40, y: 9 }, 29),
        ];
        Simulation { teams, units }
    };
    let mut s1 = build();
    let mut s2 = build();
    let draw_seqs = [[3usize, 1, 4, 1], [5, 9, 2, 6], [5, 3, 5, 8], [9, 7, 9, 3]];
    for draws in draw_seqs.iter() {
        let d = draws.to_vec();
        s1.tick_with_draws(250, &d);
        s2.tick_with_draws(250, &d);
        for (u1, u2) in s1.units().iter().zip(s2.units().iter()) {
            assert_eq!(*u1.position(), *u2.position());
            assert_eq!(u1.is_alive(), u2.is_alive());
            assert_eq!(u1.target_id, u2.target_id);
        }
    }
}

/// Over a long random run the population is conserved, ids stay put, death
/// is monotone, and nobody ever targets itself.
#[test]
fn random_run_keeps_invariants() {
    let teams = vec![team(RED, 0, 0, 30, 25), team(BLUE, 150, 0, 30, 25)];
    let mut sim = Simulation::new(teams);
    let n = sim.units().len();
    assert_eq!(n, 50);
    let mut dead = vec![false; n];
    for _ in 0..60 {
        sim.tick(100);
        assert_eq!(sim.units().len(), n);
        for (i, u) in sim.units().iter().enumerate() {
            assert_eq!(u.id, i);
            assert!(u.team_id == if i < 25 { 0 } else { 1 });
            if dead[i] {
                assert!(!u.is_alive());
            }
            if !u.is_alive() {
                dead[i] = true;
            }
            if let Some(t) = u.target_id {
                assert_ne!(t, u.id);
                assert!(t < n);
            }
        }
    }
}

/// Construction scatters each team's units within its spawn radius, alive,
/// untargeted, with speeds drawn from the allowed band.
#[test]
fn construction_scatters_teams() {
    let teams = vec![team(RED, -200, 300, 40, 12), team(BLUE, 500, -100, 25, 7)];
    let sim = Simulation::new(teams);
    assert_eq!(sim.units().len(), 19);
    assert_eq!(sim.teams().len(), 2);
    for (i, u) in sim.units().iter().enumerate() {
        assert_eq!(u.id, i);
        assert!(u.is_alive());
        assert_eq!(u.target_id, None);
        assert!(SPEED_MIN <= u.speed && u.speed <= SPEED_MAX);
        let (team, cx, cy, r) = if i < 12 { (0, -200, 300, 40i64) } else { (1, 500, -100, 25) };
        assert_eq!(u.team_id, team);
        let dx = u.position().x - cx;
        let dy = u.position().y - cy;
        assert!(dx * dx + dy * dy <= r * r);
    }
}

/// Speeds are actually drawn from the randomized band rather than all equal:
/// with many units at least two must differ unless chance is astronomical.
#[test]
fn speeds_vary_across_population() {
    let sim = Simulation::new(vec![team(RED, 0, 0, 10, 200)]);
    let first = sim.units()[0].speed;
    assert!(sim.units().iter().any(|u| u.speed != first));
}
