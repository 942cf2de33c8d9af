use candlelight::{
    age_particles, camera_for, candle_marks, gen_map, make_ember, player_mark, player_rect,
    spawn_particles, stereo, tile_color, update_candles, update_ghost, update_player, visible_dots,
    Audio, Camera, Candle, Input, Particle, ParticleColor, Player, PointF, Rect, Specter, WorldGrid,
    PROGRESS_FULL, SPEED_MAX, SPEED_START, SUB, TILE_EMPTY,
};

fn no_keys() -> Input {
    Input { left: false, right: false, up: false, down: false, interact: false, toggle_map: false, quit: false }
}

fn px(v: i32) -> i32 {
    v * SUB
}

#[test]
fn rect_intersection() {
    let a = Rect::new(0, 0, 8, 8);
    assert!(a.has_intersection(Rect::new(7, 7, 8, 8)));
    assert!(!a.has_intersection(Rect::new(8, 0, 8, 8)));
    assert!(!a.has_intersection(Rect::new(0, 8, 8, 8)));
    assert!(!a.has_intersection(Rect::new(2, 2, 0, 3)));
    assert!(Rect::new(-3, -3, 4, 4).has_intersection(a));
}

#[test]
fn generated_map_places_eight_to_eleven_candles_on_empty_tiles() {
    let mut rng = rand::thread_rng();
    for _ in 0..20 {
        let mut player = PointF { x: 0, y: 0 };
        let mut map = WorldGrid::new();
        let mut candles: Vec<Candle> = Vec::new();
        let spawn = gen_map(&mut player, &mut map, &mut candles, &mut rng);
        assert!(candles.len() >= 8 && candles.len() <= 11);
        for c in &candles {
            assert!(!c.lit);
            assert_eq!(c.dst.w, 8);
            assert_eq!(c.dst.h, 8);
            assert_eq!(c.dst.x % 16, 0);
            assert_eq!(c.dst.y % 16, 0);
            let tx = (c.dst.x / 16) as usize;
            let ty = (c.dst.y / 16) as usize;
            assert_eq!(map.tile(tx, ty), TILE_EMPTY);
        }
        assert_eq!(player.x % px(16), 0);
        assert_eq!(player.y % px(16), 0);
        assert!(player.x >= 0 && player.x < px(1024));
        assert!(spawn.angle_x >= 0 && spawn.angle_x < 360);
        assert!(spawn.dist_x >= 64 && spawn.dist_x < 128 && spawn.dist_x % 16 == 0);
        // a fair coin per tile gives both kinds of tile
        let mut walls = 0;
        for y in 0..64 {
            for x in 0..64 {
                walls += map.tile(x, y) as usize;
            }
        }
        assert!(walls > 1000 && walls < 3096);
    }
}

#[test]
fn player_moves_half_a_pixel_and_camera_follows() {
    let mut p = Player { pos: PointF { x: px(500), y: px(500) }, hflip: false, anim: 0 };
    let mut inp = no_keys();
    inp.right = true;
    inp.down = true;
    let cam = update_player(&inp, &mut p);
    assert_eq!(p.pos, PointF { x: px(500) + 10, y: px(500) + 10 });
    assert!(p.hflip);
    assert_eq!(p.anim, 21);
    // (500.5 + 8 - 32) and (500.5 + 5 - 32), truncated
    assert_eq!(cam, Camera { x: 476, y: 473 });
}

#[test]
fn left_wins_over_right_and_up_over_down() {
    let mut p = Player { pos: PointF { x: px(100), y: px(100) }, hflip: true, anim: 0 };
    let inp = Input { left: true, right: true, up: true, down: true, ..no_keys() };
    update_player(&inp, &mut p);
    assert_eq!(p.pos, PointF { x: px(100) - 10, y: px(100) - 10 });
    assert!(!p.hflip);
}

#[test]
fn player_and_camera_stay_in_world() {
    let mut p = Player { pos: PointF { x: px(-5), y: px(1019) }, hflip: false, anim: 0 };
    let inp = Input { left: true, down: true, ..no_keys() };
    for _ in 0..50 {
        let cam = update_player(&inp, &mut p);
        assert_eq!(p.pos, PointF { x: px(-5), y: px(1019) });
        assert_eq!(cam, Camera { x: 0, y: 944 });
    }
    let mut q = Player { pos: PointF { x: px(3), y: px(3) }, hflip: false, anim: 0 };
    let cam = update_player(&no_keys(), &mut q);
    assert_eq!(cam, Camera { x: 0, y: 0 });
    assert_eq!(camera_for(PointF { x: px(2000), y: px(-2000) }), Camera { x: 944, y: 0 });
}

#[test]
fn animation_phases_wrap() {
    let mut p = Player { pos: PointF { x: 0, y: 0 }, hflip: false, anim: 0 };
    let walk = Input { up: true, ..no_keys() };
    for _ in 0..15 {
        update_player(&walk, &mut p);
    }
    assert_eq!(p.anim, 35);
    update_player(&walk, &mut p);
    assert_eq!(p.anim, 20);
    update_player(&no_keys(), &mut p);
    assert_eq!(p.anim, 1);
    for _ in 0..14 {
        update_player(&no_keys(), &mut p);
    }
    assert_eq!(p.anim, 15);
    update_player(&no_keys(), &mut p);
    assert_eq!(p.anim, 0);
}

#[test]
fn ghost_chases_each_axis_by_its_sign() {
    let player = PointF { x: px(100), y: px(100) };
    let mut g = Specter { pos: PointF { x: px(50), y: px(200) }, spd: SPEED_START, alpha: 3 };
    update_ghost(&mut g, &player);
    assert_eq!(g.pos, PointF { x: px(50) + 2, y: px(200) - 2 });
    assert_eq!(g.alpha, 2);
    // on the target axis it holds still
    let mut h = Specter { pos: PointF { x: px(108), y: px(90) }, spd: 5, alpha: 0 };
    update_ghost(&mut h, &player);
    assert_eq!(h.pos, PointF { x: px(108), y: px(90) + 5 });
    assert_eq!(h.alpha, 0);
}

#[test]
fn ghost_speed_caps_after_six_candles() {
    let mut g = Specter { pos: PointF { x: 0, y: 0 }, spd: SPEED_START, alpha: 0 };
    let mut last = g.spd;
    for n in 1..=10 {
        g.speed_up();
        assert!(g.spd >= last);
        last = g.spd;
        if n < 6 {
            assert!(g.spd < SPEED_MAX);
        } else {
            assert_eq!(g.spd, SPEED_MAX);
        }
    }
}

#[test]
fn cue_fires_on_lines_when_cooled_down() {
    let mut g = Specter { pos: PointF { x: px(16), y: px(3) }, spd: 2, alpha: 0 };
    assert!(g.trigger_cue());
    assert_eq!(g.alpha, 255);
    assert!(!g.trigger_cue());
    let mut h = Specter { pos: PointF { x: px(17), y: px(3) }, spd: 2, alpha: 0 };
    assert!(!h.trigger_cue());
    assert_eq!(h.alpha, 0);
    let k = Specter { pos: PointF { x: px(-17) + 5, y: px(-9) + 5 }, spd: 2, alpha: 0 };
    // -16.75 and -8.75 truncate to -16 and -8
    assert!(k.on_cue_line());
    assert_eq!(k.draw_pos(), (-16, -8));
    assert_eq!(Specter { pos: PointF { x: px(23), y: px(9) }, spd: 2, alpha: 0 }.draw_pos(), (16, 8));
}

#[test]
fn stereo_levels() {
    let p = PointF { x: px(100), y: px(100) };
    let s = stereo(PointF { x: px(100), y: px(100) }, p);
    assert_eq!((s.left, s.right, s.volume), (255, 0, 128));
    let s = stereo(PointF { x: px(132), y: px(100) }, p);
    assert_eq!((s.left, s.right, s.volume), (0, 255, 96));
    let s = stereo(PointF { x: px(116), y: px(100) }, p);
    assert_eq!((s.left, s.right, s.volume), (127, 127, 112));
    let s = stereo(PointF { x: px(50), y: px(300) }, p);
    assert_eq!((s.left, s.right, s.volume), (255, 0, 0));
}

fn candle_at(x: i32, y: i32) -> Candle {
    Candle { dst: Rect::new(x, y, 8, 8), lit: false }
}

#[test]
fn hundred_frames_of_holding_light_a_candle() {
    let mut candles = vec![candle_at(100, 100)];
    let mut progress: u32 = 0;
    let mut g = Specter { pos: PointF { x: 0, y: 0 }, spd: SPEED_START, alpha: 0 };
    let box_ = player_rect(PointF { x: px(96), y: px(96) });
    for frame in 1..100 {
        let bars = update_candles(&mut candles, &mut progress, &mut g, box_, true);
        assert_eq!(progress, frame);
        assert!(!candles[0].lit);
        assert_eq!(bars.len(), 1);
        assert_eq!(bars[0].width, 6);
        assert_eq!(bars[0].filled, (frame * 6 / 100) as i32);
        assert!(!bars[0].completed);
    }
    let bars = update_candles(&mut candles, &mut progress, &mut g, box_, true);
    assert!(candles[0].lit);
    assert_eq!(progress, 0);
    assert_eq!(g.spd, SPEED_START + 1);
    assert!(bars[0].completed);
    assert_eq!(bars[0].filled, 6);
    assert_eq!(PROGRESS_FULL, 100);
}

#[test]
fn releasing_the_key_resets_progress() {
    let mut candles = vec![candle_at(100, 100)];
    let mut progress: u32 = 0;
    let mut g = Specter { pos: PointF { x: 0, y: 0 }, spd: SPEED_START, alpha: 0 };
    let box_ = player_rect(PointF { x: px(96), y: px(96) });
    for _ in 0..99 {
        update_candles(&mut candles, &mut progress, &mut g, box_, true);
    }
    assert_eq!(progress, 99);
    let bars = update_candles(&mut candles, &mut progress, &mut g, box_, false);
    assert_eq!(progress, 0);
    assert!(bars.is_empty());
    for _ in 0..99 {
        update_candles(&mut candles, &mut progress, &mut g, box_, true);
    }
    assert!(!candles[0].lit);
    update_candles(&mut candles, &mut progress, &mut g, box_, true);
    assert!(candles[0].lit);
    assert_eq!(g.spd, SPEED_START + 1);
}

#[test]
fn holding_away_from_candles_keeps_progress() {
    let mut candles = vec![candle_at(100, 100), candle_at(500, 500)];
    let mut progress: u32 = 40;
    let mut g = Specter { pos: PointF { x: 0, y: 0 }, spd: SPEED_START, alpha: 0 };
    let far = player_rect(PointF { x: px(300), y: px(300) });
    let bars = update_candles(&mut candles, &mut progress, &mut g, far, true);
    assert_eq!(progress, 40);
    assert!(bars.is_empty());
}

fn mote(x: i32, y: i32, lifetime: u8, light: bool) -> Particle {
    Particle { pos: PointF { x, y }, lifetime, color: ParticleColor::Gray, light }
}

#[test]
fn particles_age_by_one_and_die_at_255() {
    let mut ps = vec![
        mote(px(10), px(10), 254, false),
        mote(px(11), px(10), 200, false),
        mote(px(5000), px(5000), 254, true),
        mote(px(5000), px(5000), 100, true),
    ];
    age_particles(&mut ps);
    assert_eq!(ps.len(), 2);
    assert_eq!(ps[0], mote(px(11), px(10) - 14, 201, false));
    // off screen motes age the same
    assert_eq!(ps[1], mote(px(5000), px(5000) - 14, 101, true));
    for _ in 0..55 {
        age_particles(&mut ps);
    }
    assert_eq!(ps.len(), 1);
    assert_eq!(ps[0].lifetime, 156);
}

#[test]
fn consecutive_dead_particles_are_all_removed() {
    let mut ps = vec![mote(0, 0, 254, false), mote(0, 0, 254, false), mote(0, 0, 3, false)];
    age_particles(&mut ps);
    assert_eq!(ps, vec![mote(0, -14, 4, false)]);
}

#[test]
fn visible_dots_skip_motes_outside_the_view() {
    let cam = Camera { x: 100, y: 100 };
    let ps = vec![
        mote(px(100), px(120), 10, false),
        mote(px(100) + 1, px(120), 10, false),
        mote(px(164), px(164), 10, false),
        mote(px(164) + 1, px(120), 10, false),
    ];
    let dots = visible_dots(&ps, cam);
    assert_eq!(dots.len(), 2);
    assert_eq!((dots[0].x, dots[0].y), (0, 20));
    assert_eq!((dots[1].x, dots[1].y), (64, 64));
}

#[test]
fn embers_spawn_with_jitter() {
    let mut rng = rand::thread_rng();
    let mut ps: Vec<Particle> = Vec::new();
    for _ in 0..30 {
        spawn_particles(&mut ps, &mut rng, true, px(50), px(60), ParticleColor::Red);
    }
    let mut seen = [false; 3];
    for p in &ps {
        let j = (p.pos.x - px(50)) / SUB;
        assert!((-1..=1).contains(&j));
        assert_eq!((p.pos.x - px(50)) % SUB, 0);
        seen[(j + 1) as usize] = true;
        assert_eq!(p.pos.y, px(62));
        assert_eq!(p.lifetime, 200);
        assert!(p.light);
        assert_eq!(p.color, ParticleColor::Red);
    }
    assert!(seen.iter().filter(|s| **s).count() >= 2);
    assert_eq!(make_ember(0, 0, 1, false, ParticleColor::Gray).pos, PointF { x: px(1), y: px(2) });
}

#[test]
fn minimap_colors_and_marks() {
    assert_eq!(tile_color(0), (0, 0, 0));
    assert_eq!(tile_color(1), (0, 94, 41));
    assert_eq!(tile_color(2), (94, 25, 0));
    let cs = vec![candle_at(32, 48), Candle { dst: Rect::new(64, 64, 8, 8), lit: true }, candle_at(1008, 0)];
    assert_eq!(candle_marks(&cs), vec![(2, 3), (63, 0)]);
    assert_eq!(player_mark(PointF { x: px(27), y: px(-5) }), (2, 0));
}

#[test]
fn audio_handle() {
    let _a = Audio::new();
}

#[test]
fn a_drawn_tile_gives_a_candle_only_when_empty() {
    let mut map = WorldGrid::new();
    map.set_tile(3, 5, 1);
    assert_eq!(candlelight::candle_from_draw(&map, 3, 5), None);
    assert_eq!(
        candlelight::candle_from_draw(&map, 4, 5),
        Some(Candle { dst: Rect::new(64, 80, 8, 8), lit: false })
    );
}

#[test]
fn bright_roll_is_one_in_r() {
    assert!(candlelight::bright_from_roll(20, 0));
    assert!(!candlelight::bright_from_roll(20, 1));
    assert!(!candlelight::bright_from_roll(29, 28));
    let mut rng = rand::thread_rng();
    let bright = (0..5000).filter(|_| candlelight::roll_bright(&mut rng)).count();
    // one in 20 to 29: between 100 and 400 of 5000 in practice
    assert!(bright > 100 && bright < 400);
}
