use candlelight::{
    light_blobs, Camera, Candle, Input, Jumpscare, LightBlob, Particle, ParticleColor, Player, PointF,
    Rect, Scene, SceneState, Specter, StepOutcome, World, WorldGrid, SPEED_START, SUB,
};

fn no_keys() -> Input {
    Input { left: false, right: false, up: false, down: false, interact: false, toggle_map: false, quit: false }
}

fn px(v: i32) -> i32 {
    v * SUB
}

fn world(player: PointF, ghost: PointF) -> World {
    World {
        map: WorldGrid::new(),
        candles: vec![Candle { dst: Rect::new(400, 400, 8, 8), lit: false }],
        player: Player { pos: player, hflip: false, anim: 0 },
        specter: Specter { pos: ghost, spd: SPEED_START, alpha: 0 },
        particles: vec![Particle { pos: PointF { x: px(300), y: px(300) }, lifetime: 230, color: ParticleColor::Gray, light: false }],
        timer: 0,
        progress: 0,
    }
}

#[test]
fn touching_the_ghost_starts_the_jumpscare() {
    let mut rng = rand::thread_rng();
    // player box (105, 105, 6, 5), ghost box (108, 106, 8, 8)
    let mut scene = Scene { world: world(PointF { x: px(100), y: px(100) }, PointF { x: px(108), y: px(106) }), show_map: false };
    let (state, view) = scene.frame(&no_keys(), &mut rng, 45, 16);
    assert_eq!(state, SceneState::Jumpscare);
    assert!(view.is_none());
    // the frame stopped at the check: nothing aged, the ghost did not move
    assert_eq!(scene.world.particles[0].lifetime, 230);
    assert_eq!(scene.world.specter.pos, PointF { x: px(108), y: px(106) });
    assert_eq!(scene.world.timer, 0);
}

#[test]
fn a_ghost_just_past_the_box_does_not_catch() {
    let mut rng = rand::thread_rng();
    // player box ends at x = 111; ghost box starts at 111
    let mut w = world(PointF { x: px(100), y: px(100) }, PointF { x: px(111), y: px(101) });
    match w.step(&no_keys(), &mut rng, 45, 16) {
        StepOutcome::Frame(v) => {
            assert_eq!(v.cam, Camera { x: 76, y: 73 });
        },
        _ => panic!("the frame should have run to its end"),
    }
    assert_eq!(w.timer, 1);
    assert_eq!(w.particles[0].lifetime, 231);
}

#[test]
fn quitting_leaves_the_scene() {
    let mut rng = rand::thread_rng();
    let mut scene = Scene { world: world(PointF { x: px(100), y: px(100) }, PointF { x: px(300), y: px(300) }), show_map: true };
    let quit = Input { quit: true, ..no_keys() };
    let (state, view) = scene.frame(&quit, &mut rng, 45, 16);
    assert_eq!(state, SceneState::Exit);
    assert!(view.is_none());
    assert_eq!(scene.world.timer, 0);
    assert!(scene.show_map);
}

#[test]
fn the_minimap_leaves_the_simulation_alone() {
    let mut rng = rand::thread_rng();
    // ghost at 301.x px keeps off the cue lines for these frames: no random embers
    let start = || Scene { world: world(PointF { x: px(100), y: px(100) }, PointF { x: px(301) + 1, y: px(301) + 1 }), show_map: false };
    let mut a = start();
    let mut b = start();
    let toggle = Input { toggle_map: true, ..no_keys() };
    let (sa, _) = a.frame(&toggle, &mut rng, 45, 16);
    let (sb, _) = b.frame(&no_keys(), &mut rng, 45, 16);
    assert_eq!((sa, sb), (SceneState::Exploration, SceneState::Exploration));
    assert!(a.show_map);
    assert!(!b.show_map);
    for _ in 0..5 {
        a.frame(&no_keys(), &mut rng, 45, 16);
        b.frame(&no_keys(), &mut rng, 45, 16);
        assert_eq!(a.world.player, b.world.player);
        assert_eq!(a.world.specter, b.world.specter);
        assert_eq!(a.world.particles, b.world.particles);
        assert_eq!(a.world.candles, b.world.candles);
        assert_eq!(a.world.timer, b.world.timer);
    }
    assert!(a.show_map);
    a.frame(&toggle, &mut rng, 45, 16);
    assert!(!a.show_map);
}

#[test]
fn walking_on_an_emission_frame_drops_an_ember() {
    let mut rng = rand::thread_rng();
    let mut w = world(PointF { x: px(100), y: px(100) }, PointF { x: px(301) + 1, y: px(301) + 1 });
    w.particles.clear();
    let walk = Input { right: true, ..no_keys() };
    w.step(&walk, &mut rng, 45, 16);
    assert_eq!(w.particles.len(), 1);
    let e = w.particles[0];
    // facing right: 11 px across, 4 px down, then one frame of ageing
    assert_eq!(e.lifetime, 201);
    assert_eq!(e.pos.y, px(104) - 14);
    let dx = e.pos.x - (px(100) + 10 + px(11));
    assert!(dx == -SUB || dx == 0 || dx == SUB);
    // timer 1 and 2 -> whole values 0 and 1; frame with whole value 1 emits nothing
    w.step(&walk, &mut rng, 45, 16);
    w.step(&walk, &mut rng, 45, 16);
    assert_eq!(w.particles.len(), 2);
    w.step(&walk, &mut rng, 45, 16);
    assert_eq!(w.particles.len(), 2);
}

#[test]
fn light_mask_in_drawing_order() {
    let player = Player { pos: PointF { x: px(100), y: px(100) }, hflip: false, anim: 0 };
    let cam = Camera { x: 76, y: 73 };
    let ps = vec![
        Particle { pos: PointF { x: px(110), y: px(110) }, lifetime: 210, color: ParticleColor::Yellow, light: true },
        Particle { pos: PointF { x: px(111), y: px(110) }, lifetime: 210, color: ParticleColor::Gray, light: false },
        Particle { pos: PointF { x: px(500), y: px(110) }, lifetime: 210, color: ParticleColor::Yellow, light: true },
    ];
    let cs = vec![
        Candle { dst: Rect::new(120, 100, 8, 8), lit: true },
        Candle { dst: Rect::new(130, 100, 8, 8), lit: false },
        Candle { dst: Rect::new(600, 600, 8, 8), lit: true },
    ];
    let blobs = light_blobs(&player, &ps, &cs, cam, 45, 16);
    assert_eq!(
        blobs,
        vec![
            LightBlob { x: 100 + 8 - 76 - 22, y: 100 + 5 - 73 - 22, size: 45 },
            LightBlob { x: 110 - 76 - 3, y: 110 - 73 - 3, size: 6 },
            LightBlob { x: 120 + 3 - 76 - 8, y: 100 + 2 - 73 - 8, size: 16 },
        ]
    );
}

#[test]
fn generated_world_and_ghost_placement() {
    let mut rng = rand::thread_rng();
    let (mut w, spawn) = World::generate(&mut rng);
    assert!(w.candles.len() >= 8 && w.candles.len() <= 11);
    assert_eq!(w.specter.pos, w.player.pos);
    assert!(spawn.dist_y >= 64 && spawn.dist_y < 128);
    let p = w.player.pos;
    w.place_ghost(-2000, 1500);
    assert_eq!(w.specter.pos, PointF { x: p.x - 2000, y: p.y + 1500 });
    assert_eq!(w.specter.spd, SPEED_START);
}

#[test]
fn jumpscare_runs_its_strip_then_returns() {
    let mut j = Jumpscare::new();
    let mut frames = 0;
    let mut pictures = Vec::new();
    loop {
        let (state, pic) = j.frame(false);
        frames += 1;
        pictures.push(pic);
        if state == SceneState::Exploration {
            break;
        }
        assert_eq!(state, SceneState::Jumpscare);
    }
    assert_eq!(frames, 151);
    assert_eq!(pictures[0], 0);
    assert_eq!(pictures[5], 1);
    assert_eq!(pictures[24], 4);
    assert_eq!(pictures[150], 4);
    let mut k = Jumpscare::new();
    assert_eq!(k.frame(true).0, SceneState::Exit);
}

#[test]
fn live_particles_stay_bounded_by_emission_rate_and_lifetime() {
    let mut rng = rand::thread_rng();
    let mut w = world(PointF { x: px(500), y: px(500) }, PointF { x: px(900) + 1, y: px(900) + 1 });
    w.candles = (0..11).map(|i| Candle { dst: Rect::new(16 * i, 16, 8, 8), lit: true }).collect();
    let walk = Input { left: true, ..no_keys() };
    let mut most = 0;
    for _ in 0..600 {
        if let StepOutcome::Caught = w.step(&walk, &mut rng, 45, 16) {
            panic!("the ghost is far away");
        }
        most = most.max(w.particles.len());
        assert!(w.particles.iter().all(|p| p.lifetime < 255));
    }
    // at most one ember per emitter per frame, each living 55 frames
    assert!(most <= 13 * 55);
    assert!(most > 0);
}
