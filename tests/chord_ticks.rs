use padtype::chord::{ChordState, Key, KeyCommand, Reading};
use padtype::table::CharacterTable;
use padtype::vector::Vector2;

fn reading(primary: (i32, i32), secondary: (i32, i32)) -> Reading {
    Reading {
        east: false,
        left_thumb: false,
        right_trigger: false,
        primary: Vector2::new(primary.0, primary.1),
        secondary: Vector2::new(secondary.0, secondary.1),
    }
}

fn char_clicks(cmds: &[KeyCommand]) -> Vec<char> {
    let mut out = Vec::new();
    for c in cmds {
        if let KeyCommand::Click(Key::Layout(ch)) = c {
            out.push(*ch);
        }
    }
    out
}

fn caps_clicks(cmds: &[KeyCommand]) -> usize {
    cmds.iter().filter(|c| **c == KeyCommand::Click(Key::CapsLock)).count()
}

/// Eight rows of four: row `i`, column `j` holds a letter except in column 3.
fn octant_table() -> CharacterTable {
    let mut cells = Vec::new();
    for i in 0..8u8 {
        for j in 0..4u8 {
            cells.push(if j == 3 { None } else { Some((b'a' + i * 3 + j) as char) });
        }
    }
    CharacterTable::new(8, 4, cells).unwrap()
}

#[test]
fn new_state_is_armed() {
    let s = ChordState::new();
    assert!(s.can_type);
    assert!(s.can_toggle_caps);
    assert!(!s.backspace_held);
    assert!(!s.shift_held);
}

#[test]
fn idle_tick_releases_hold_keys() {
    let table = CharacterTable::standard();
    let mut s = ChordState::new();
    let out = s.tick(&table, &reading((0, 0), (0, 0)));
    assert_eq!(
        out,
        vec![KeyCommand::Release(Key::Backspace), KeyCommand::Release(Key::Shift)]
    );
    assert_eq!(s, ChordState::new());
}

#[test]
fn scenario_rising_secondary_clicks_once() {
    let table = octant_table();
    let mut s = ChordState::new();
    let mut typed = Vec::new();
    // primary up at 0.9; secondary to the right (quadrant 1)
    for m in [0, 4000, 6000, 9000, 9500, 9000, 8000, 7500] {
        let out = s.tick(&table, &reading((0, 9000), (m, 0)));
        typed.extend(char_clicks(&out));
    }
    assert_eq!(typed, vec!['b']);
    assert!(!s.can_type);
    // falling to 0.3 re-arms, rising again types once more
    for m in [3000, 8000, 9000, 9000] {
        let out = s.tick(&table, &reading((0, 9000), (m, 0)));
        typed.extend(char_clicks(&out));
    }
    assert_eq!(typed, vec!['b', 'b']);
}

#[test]
fn scenario_primary_at_rest_never_types() {
    let table = octant_table();
    let mut s = ChordState::new();
    for (sx, sy) in [(0, 0), (9000, 0), (-10000, 0), (0, 10000), (3000, 0), (10000, 0)] {
        let out = s.tick(&table, &reading((0, 3000), (sx, sy)));
        assert!(char_clicks(&out).is_empty());
        assert!(s.can_type);
    }
}

#[test]
fn scenario_caps_clicks_on_rising_edges() {
    let table = CharacterTable::standard();
    let mut s = ChordState::new();
    let mut clicks = Vec::new();
    for pressed in [true, true, true, false, true] {
        let mut r = reading((0, 0), (0, 0));
        r.right_trigger = pressed;
        let out = s.tick(&table, &r);
        clicks.push(caps_clicks(&out));
        assert_eq!(s.can_toggle_caps, !pressed);
    }
    assert_eq!(clicks, vec![1, 0, 0, 0, 1]);
}

#[test]
fn scenario_backspace_held_then_released() {
    let table = CharacterTable::standard();
    let mut s = ChordState::new();
    let mut presses = 0;
    let mut releases = 0;
    for held in [true, true, true, false] {
        let mut r = reading((0, 0), (0, 0));
        r.east = held;
        let out = s.tick(&table, &r);
        assert_eq!(out[0], if held { KeyCommand::Press(Key::Backspace) } else { KeyCommand::Release(Key::Backspace) });
        assert_eq!(s.backspace_held, held);
        for c in &out {
            match c {
                KeyCommand::Press(Key::Backspace) => presses += 1,
                KeyCommand::Release(Key::Backspace) => releases += 1,
                _ => {}
            }
        }
    }
    assert_eq!(presses, 3);
    assert_eq!(releases, 1);
}

#[test]
fn shift_comes_before_the_character() {
    let table = octant_table();
    let mut s = ChordState::new();
    let mut r = reading((10000, 0), (0, -10000));
    r.left_thumb = true;
    r.right_trigger = true;
    let out = s.tick(&table, &r);
    // primary right is octant 2, secondary down is quadrant 2
    assert_eq!(
        out,
        vec![
            KeyCommand::Release(Key::Backspace),
            KeyCommand::Press(Key::Shift),
            KeyCommand::Click(Key::CapsLock),
            KeyCommand::Click(Key::Layout('i')),
        ]
    );
    assert!(s.shift_held);
    assert!(!s.can_type);
}

#[test]
fn band_holds_after_firing() {
    let table = octant_table();
    let mut s = ChordState::new();
    let out = s.tick(&table, &reading((0, 10000), (0, 10000)));
    assert_eq!(char_clicks(&out), vec!['a']);
    // 0.75 raw is 0.5625 conditioned: inside the band
    for _ in 0..5 {
        let out = s.tick(&table, &reading((0, 10000), (0, 7500)));
        assert!(char_clicks(&out).is_empty());
        assert!(!s.can_type);
    }
    // 0.7 raw is 0.49 conditioned: re-arms without typing
    let out = s.tick(&table, &reading((0, 10000), (0, 7000)));
    assert!(char_clicks(&out).is_empty());
    assert!(s.can_type);
    let out = s.tick(&table, &reading((0, 10000), (0, 8400)));
    assert_eq!(char_clicks(&out), vec!['a']);
}

#[test]
fn thresholds_are_inclusive() {
    let table = octant_table();
    let mut s = ChordState::new();
    // 0.7071 raw is just under 0.5 conditioned: primary not engaged
    let out = s.tick(&table, &reading((0, 7071), (0, 10000)));
    assert!(char_clicks(&out).is_empty());
    // 0.7072 raw reaches 0.5: engaged
    let out = s.tick(&table, &reading((0, 7072), (0, 10000)));
    assert_eq!(char_clicks(&out), vec!['a']);
    // secondary at 0.8367 raw reaches 0.7 conditioned, 0.8366 does not
    let mut s = ChordState::new();
    let out = s.tick(&table, &reading((0, 10000), (0, 8366)));
    assert!(char_clicks(&out).is_empty());
    let out = s.tick(&table, &reading((0, 10000), (0, 8367)));
    assert_eq!(char_clicks(&out), vec!['a']);
}

#[test]
fn empty_cell_does_not_fire() {
    let table = octant_table();
    let mut s = ChordState::new();
    // secondary left is quadrant 3, an empty column
    let out = s.tick(&table, &reading((0, 10000), (-10000, 0)));
    assert!(char_clicks(&out).is_empty());
    assert!(s.can_type);
    let out = s.tick(&table, &reading((0, 10000), (10000, 0)));
    assert_eq!(char_clicks(&out), vec!['b']);
}

#[test]
fn standard_layout_types_letters() {
    let table = CharacterTable::standard();
    let mut s = ChordState::new();
    // primary up-right is octant 1, secondary right is quadrant 1: 'a'
    let out = s.tick(&table, &reading((8000, 8000), (10000, 0)));
    assert_eq!(char_clicks(&out), vec!['a']);
    s.tick(&table, &reading((8000, 8000), (0, 0)));
    // primary down-left is octant 5, secondary left is quadrant 3: 'n'
    let out = s.tick(&table, &reading((-8000, -8000), (-10000, 0)));
    assert_eq!(char_clicks(&out), vec!['n']);
}
