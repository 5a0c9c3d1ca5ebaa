use cloth_sim::palette::{hex_to_rgb, ColorGenerator};
use cloth_sim::cloth::validate_geometry;
use cloth_sim::input::{movement_offset, MovementState, MOUSE_PRESSED, MOVE_A, MOVE_D, MOVE_S, MOVE_W};
use cloth_sim::{ClothError, DragKind, FixedStep, Memoized};

#[test]
fn clock_carries_remainder() {
    let mut clock = FixedStep::new(10);
    assert_eq!(clock.step_nanos(), 10);
    assert_eq!(clock.pending(), 0);
    assert_eq!(clock.advance(25), 2);
    assert_eq!(clock.pending(), 5);
    assert_eq!(clock.advance(4), 0);
    assert_eq!(clock.pending(), 9);
    assert_eq!(clock.advance(1), 1);
    assert_eq!(clock.pending(), 0);
}

#[test]
fn clock_short_frame_runs_nothing() {
    let mut clock = FixedStep::new(8_333_333);
    assert_eq!(clock.advance(8_333_332), 0);
    assert_eq!(clock.pending(), 8_333_332);
}

#[test]
fn clock_exact_multiple_runs_exactly() {
    let mut clock = FixedStep::new(8_333_333);
    assert_eq!(clock.advance(2 * 8_333_333), 2);
    assert_eq!(clock.advance(7 * 8_333_333), 7);
    assert_eq!(clock.pending(), 0);
}

#[test]
fn clock_largest_frame() {
    let mut clock = FixedStep::new(1);
    assert_eq!(clock.advance(u64::MAX), u64::MAX as u128);
    let mut clock = FixedStep::new(u64::MAX);
    assert_eq!(clock.advance(u64::MAX - 1), 0);
    assert_eq!(clock.advance(u64::MAX), 1);
    assert_eq!(clock.pending(), u64::MAX - 1);
}

#[test]
fn memo_starts_clean() {
    let m = Memoized::new(5u32);
    assert!(!m.updated());
    assert_eq!(*m.get(), 5);
}

#[test]
fn memo_write_marks() {
    let mut m = Memoized::new(5u32);
    *m.get_mut() += 1;
    assert!(m.updated());
    assert_eq!(*m.get(), 6);
    m.reset();
    assert!(!m.updated());
    assert_eq!(*m.get(), 6);
}

#[test]
fn memo_handle_updated_clears_mark() {
    let mut m = Memoized::new(vec![1u8]);
    assert!(m.handle_updated().is_none());
    m.get_mut().push(2);
    match m.handle_updated() {
        Some(v) => {
            assert_eq!(*v, vec![1, 2]);
            v.push(3);
        }
        None => panic!("a marked value was not handed out"),
    }
    assert!(!m.updated());
    assert_eq!(*m.get(), vec![1, 2, 3]);
    assert!(m.handle_updated().is_none());
}

#[test]
fn drag_kind_compares_by_particle() {
    let a = DragKind::Particle(1, 2);
    assert_eq!(a, DragKind::Particle(1, 2));
    assert_ne!(a, DragKind::Particle(2, 1));
}

#[test]
fn hex_six_digits() {
    assert_eq!(hex_to_rgb("5FB49C"), Some((0x5F, 0xB4, 0x9C)));
    assert_eq!(hex_to_rgb("ffb800"), Some((255, 184, 0)));
}

#[test]
fn hex_three_digits_double_up() {
    assert_eq!(hex_to_rgb("F0a"), Some((0xFF, 0x00, 0xAA)));
}

#[test]
fn hex_extra_characters_ignored() {
    assert_eq!(hex_to_rgb("A288E3FF"), Some((0xA2, 0x88, 0xE3)));
}

#[test]
fn hex_rejects_bad_input() {
    assert_eq!(hex_to_rgb(""), None);
    assert_eq!(hex_to_rgb("ABCD"), None);
    assert_eq!(hex_to_rgb("12345"), None);
    assert_eq!(hex_to_rgb("GG0000"), None);
    assert_eq!(hex_to_rgb("00 000"), None);
}

#[test]
fn palette_cycles() {
    let mut g = ColorGenerator::new();
    assert_eq!(g.colors.len(), 15);
    assert_eq!(g.next(), (0x5F, 0xB4, 0x9C));
    assert_eq!(g.next(), (0xF2, 0xB1, 0x34));
    for _ in 2..15 {
        g.next();
    }
    assert_eq!(g.idx, 15);
    assert_eq!(g.next(), (0x5F, 0xB4, 0x9C));
    assert_eq!(g.colors[14], (0xCC, 0xFF, 0xCB));
}

#[test]
fn movement_flags_set_and_clear() {
    let mut m = MovementState::empty();
    assert!(!m.contains(MOVE_W));
    m.set(MOVE_W | MOUSE_PRESSED, true);
    assert!(m.contains(MOVE_W));
    assert!(m.contains(MOUSE_PRESSED));
    assert!(m.contains(MOVE_W | MOUSE_PRESSED));
    assert!(!m.contains(MOVE_W | MOVE_S));
    m.set(MOVE_W, false);
    assert!(!m.contains(MOVE_W));
    assert!(m.contains(MOUSE_PRESSED));
    assert_eq!(m.bits, 0b10000);
}

#[test]
fn movement_offsets() {
    let mut m = MovementState::empty();
    assert_eq!(movement_offset(m), (0, 0));
    m.set(MOVE_W | MOVE_D, true);
    assert_eq!(movement_offset(m), (1, 1));
    m.set(MOVE_A | MOVE_S, true);
    assert_eq!(movement_offset(m), (0, 0));
    m.set(MOVE_W | MOVE_D, false);
    assert_eq!(movement_offset(m), (-1, -1));
}

#[test]
fn geometry_validation() {
    assert_eq!(validate_geometry(true, true, 2, 2), Ok(()));
    assert_eq!(validate_geometry(false, true, 2, 2), Err(ClothError::InvalidGeometry));
    assert_eq!(validate_geometry(true, false, 5, 5), Err(ClothError::InvalidGeometry));
    assert_eq!(validate_geometry(true, true, 1, 5), Err(ClothError::InvalidGeometry));
    assert_eq!(validate_geometry(true, true, 5, 0), Err(ClothError::InvalidGeometry));
}

#[test]
fn memo_from_value() {
    let m: Memoized<u32> = Memoized::from(3);
    assert!(!m.updated());
    assert_eq!(*m.get(), 3);
    let n: Memoized<&str> = "abc".into();
    assert_eq!(*n.get(), "abc");
}
