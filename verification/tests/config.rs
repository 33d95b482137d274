use pixel_fight::builder::{self, Descriptor};
use pixel_fight::{build, example_descriptor, Command, Params, Rgb, View, V2};

#[test]
fn example_descriptor_lists_three_teams() {
    let d = example_descriptor();
    assert_eq!(d.teams.len(), 3);
    assert_eq!(d.teams[0].color, (255, 0, 0));
    assert_eq!(d.teams[1].color, (0, 255, 0));
    assert_eq!(d.teams[2].color, (0, 0, 255));
    assert_eq!(d.teams[0].position, (0, 0));
    assert_eq!(d.teams[1].position, (0, 1000));
    assert_eq!(d.teams[2].position, (800, 500));
    for t in d.teams.iter() {
        assert_eq!(t.radius, 100);
        assert_eq!(t.count, 1000);
    }
}

#[test]
fn unwrap_resolves_descriptor_teams_in_order() {
    let d = Descriptor {
        teams: vec![
            builder::Team { color: (1, 2, 3), position: (-5, 9), radius: 7, count: 4 },
            builder::Team { color: (9, 8, 7), position: (20, -30), radius: 0, count: 1 },
        ],
    };
    let teams = d.unwrap();
    assert_eq!(teams.len(), 2);
    assert_eq!(teams[0].color, Rgb { r: 1, g: 2, b: 3 });
    assert_eq!(teams[0].initial_position, V2 { x: -5, y: 9 });
    assert_eq!(teams[0].initial_radius, 7);
    assert_eq!(teams[0].initial_unit_count, 4);
    assert_eq!(teams[1].color, Rgb { r: 9, g: 8, b: 7 });
    assert_eq!(teams[1].initial_position, V2 { x: 20, y: -30 });
    assert_eq!(teams[1].initial_radius, 0);
    assert_eq!(teams[1].initial_unit_count, 1);
}

#[test]
fn build_spawns_the_whole_example_population() {
    let sim = build(example_descriptor());
    assert_eq!(sim.teams().len(), 3);
    assert_eq!(sim.units().len(), 3000);
    for (i, u) in sim.units().iter().enumerate() {
        assert_eq!(u.id, i);
        assert!(u.is_alive());
        assert_eq!(u.team_id, i / 1000);
        let (cx, cy) = [(0i64, 0i64), (0, 1000), (800, 500)][u.team_id];
        let dx = u.position().x - cx;
        let dy = u.position().y - cy;
        assert!(dx * dx + dy * dy <= 100 * 100);
    }
    let colors: Vec<Rgb> = sim.teams().iter().map(|t| t.color).collect();
    assert_eq!(colors[0], Rgb { r: 255, g: 0, b: 0 });
    assert_eq!(colors[1], Rgb { r: 0, g: 255, b: 0 });
    assert_eq!(colors[2], Rgb { r: 0, g: 0, b: 255 });
}

#[test]
fn unit_color_follows_its_team() {
    let sim = build(example_descriptor());
    let teams = sim.teams();
    assert_eq!(*sim.units()[0].color(teams), Rgb { r: 255, g: 0, b: 0 });
    assert_eq!(*sim.units()[1500].color(teams), Rgb { r: 0, g: 255, b: 0 });
    assert_eq!(*sim.units()[2999].color(teams), Rgb { r: 0, g: 0, b: 255 });
}

#[test]
fn view_starts_at_origin_and_pans() {
    let mut v = View::default();
    assert_eq!(*v.origin(), V2 { x: 0, y: 0 });
    v.displace(V2 { x: -100, y: 0 });
    v.displace(V2 { x: 0, y: 250 });
    assert_eq!(*v.origin(), V2 { x: -100, y: 250 });
}

#[test]
fn params_carry_the_command() {
    let p = Params { command: Command::Run { path: String::from("fight.ron") } };
    match p.command {
        Command::Run { path } => assert_eq!(path, "fight.ron"),
        Command::Example => panic!("wrong command"),
    }
    let q = Params { command: Command::Example };
    assert!(matches!(q.command, Command::Example));
}
