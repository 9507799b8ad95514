use gamebench_fyrox::sprites::{animation_frame, spawn_frame, SPRITE_FRAMES};

#[test]
fn spawn_frame_is_within_range() {
    let mut rng = rand::thread_rng();
    for _ in 0..200 {
        assert!(spawn_frame(&mut rng, SPRITE_FRAMES) < SPRITE_FRAMES);
        assert_eq!(spawn_frame(&mut rng, 1), 0);
    }
}

#[test]
fn spawn_frame_reaches_every_frame() {
    let mut rng = rand::thread_rng();
    let mut seen = [false; 8];
    for _ in 0..2000 {
        seen[spawn_frame(&mut rng, 8)] = true;
    }
    assert!(seen.iter().all(|s| *s));
}

#[test]
fn animation_cycles() {
    assert_eq!(animation_frame(0, 8), 0);
    assert_eq!(animation_frame(7, 8), 7);
    assert_eq!(animation_frame(8, 8), 0);
    assert_eq!(animation_frame(21, 8), 5);
}
