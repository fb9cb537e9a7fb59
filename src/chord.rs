//! The per-tick decisions: hold keys, the caps-lock toggle and typing.
use vstd::prelude::*;
use crate::vector::{Vector2, level_of, transform_input_vector};
use crate::sector::{sector_of, quantize};
use crate::table::CharacterTable;

verus! {

/// Conditioned magnitude, on the squared scale of `level_of`, at or above
/// which the secondary stick types (0.7).
pub const TYPE_MAGNITUDE_THRESHOLD: u64 = 70000000;

/// Conditioned magnitude, on the squared scale of `level_of`, at or below
/// which typing is re-armed (0.5). The primary stick must reach it for any
/// typing at all.
pub const TYPE_RETURN_THRESHOLD: u64 = 50000000;

/// A key that the keystroke sink understands.
#[derive(Clone, Copy, Debug, PartialEq, Eq, Structural)]
pub enum Key {
    Backspace,
    Shift,
    CapsLock,
    Layout(char),
}

/// One command for the keystroke sink.
#[derive(Clone, Copy, Debug, PartialEq, Eq, Structural)]
pub enum KeyCommand {
    Press(Key),
    Release(Key),
    Click(Key),
}

/// What the controller reads at one tick: three buttons and the raw sticks.
#[derive(Clone, Copy, Debug, PartialEq, Eq, Structural)]
pub struct Reading {
    pub east: bool,
    pub left_thumb: bool,
    pub right_trigger: bool,
    pub primary: Vector2,
    pub secondary: Vector2,
}

/// The state kept from one tick to the next.
#[derive(Clone, Copy, Debug, PartialEq, Eq, Structural)]
pub struct ChordState {
    pub can_type: bool,
    pub can_toggle_caps: bool,
    pub backspace_held: bool,
    pub shift_held: bool,
}

/// `Press` while `pressed`, else `Release`.
pub open spec fn hold_command(key: Key, pressed: bool) -> KeyCommand {
    if pressed {
        KeyCommand::Press(key)
    } else {
        KeyCommand::Release(key)
    }
}

/// Whether the primary stick is far enough out for typing to be considered.
pub open spec fn primary_engaged(r: Reading) -> bool {
    level_of(r.primary) >= TYPE_RETURN_THRESHOLD
}

/// The character that the two sticks select.
pub open spec fn selected_char(table: CharacterTable, r: Reading) -> Option<char> {
    table.cell(sector_of(8, r.primary), sector_of(4, r.secondary))
}

/// Whether this tick clicks the selected character.
pub open spec fn types_char(s: ChordState, table: CharacterTable, r: Reading) -> bool {
    &&& primary_engaged(r)
    &&& level_of(r.secondary) >= TYPE_MAGNITUDE_THRESHOLD
    &&& s.can_type
    &&& selected_char(table, r) is Some
}

/// Whether this tick clicks caps lock: on a press of the trigger while armed.
pub open spec fn toggles_caps(s: ChordState, r: Reading) -> bool {
    r.right_trigger && s.can_toggle_caps
}

/// The state after one tick.
pub open spec fn step(s: ChordState, table: CharacterTable, r: Reading) -> ChordState {
    ChordState {
        can_type: if types_char(s, table, r) {
            false
        } else if primary_engaged(r) && level_of(r.secondary) <= TYPE_RETURN_THRESHOLD {
            true
        } else {
            s.can_type
        },
        can_toggle_caps: !r.right_trigger,
        backspace_held: r.east,
        shift_held: r.left_thumb,
    }
}

/// The hold-key commands of a tick: backspace, then shift.
pub open spec fn hold_commands(r: Reading) -> Seq<KeyCommand> {
    seq![hold_command(Key::Backspace, r.east), hold_command(Key::Shift, r.left_thumb)]
}

/// The caps-lock click of a tick, if any.
pub open spec fn caps_commands(s: ChordState, r: Reading) -> Seq<KeyCommand> {
    if toggles_caps(s, r) {
        seq![KeyCommand::Click(Key::CapsLock)]
    } else {
        Seq::empty()
    }
}

/// The click of the character that the sticks select.
pub open spec fn char_click(table: CharacterTable, r: Reading) -> KeyCommand {
    KeyCommand::Click(Key::Layout(selected_char(table, r)->0))
}

/// The character click of a tick, if any.
pub open spec fn char_commands(s: ChordState, table: CharacterTable, r: Reading) -> Seq<KeyCommand> {
    if types_char(s, table, r) {
        seq![char_click(table, r)]
    } else {
        Seq::empty()
    }
}

/// The commands of one tick, in order: hold keys, then the toggle, then the character.
pub open spec fn commands(s: ChordState, table: CharacterTable, r: Reading) -> Seq<KeyCommand> {
    hold_commands(r) + caps_commands(s, r) + char_commands(s, table, r)
}

impl ChordState {
    /// The state at start: typing and the toggle armed, no key held.
    pub fn new() -> (r: ChordState)
        ensures
            r.can_type,
            r.can_toggle_caps,
            !r.backspace_held,
            !r.shift_held,
    {
        ChordState { can_type: true, can_toggle_caps: true, backspace_held: false, shift_held: false }
    }

    /// The typing part of a tick: decides on the character click and
    /// updates `can_type`.
    fn type_step(&mut self, table: &CharacterTable, r: &Reading) -> (click: Option<KeyCommand>)
        requires
            table.wf(),
        ensures
            final(self).can_type == step(*old(self), *table, *r).can_type,
            final(self).can_toggle_caps == old(self).can_toggle_caps,
            final(self).backspace_held == old(self).backspace_held,
            final(self).shift_held == old(self).shift_held,
            types_char(*old(self), *table, *r) ==> click == Some(char_click(*table, *r)),
            !types_char(*old(self), *table, *r) ==> click is None,
    {
        let primary = transform_input_vector(r.primary);
        let secondary = transform_input_vector(r.secondary);
        if !primary.reaches(TYPE_RETURN_THRESHOLD) {
            return None;
        }
        let row = quantize(&primary.dir, 8);
        let col = quantize(&secondary.dir, 4);
        let c = table.lookup(row as usize, col as usize);
        if secondary.reaches(TYPE_MAGNITUDE_THRESHOLD) {
            if self.can_type && c.is_some() {
                self.can_type = false;
                return Some(KeyCommand::Click(Key::Layout(c.unwrap())));
            }
        } else if secondary.level <= TYPE_RETURN_THRESHOLD {
            self.can_type = true;
        }
        None
    }

    /// Runs one tick on what the controller reads and returns the commands
    /// for the keystroke sink, in the order they are to be sent.
    pub fn tick(&mut self, table: &CharacterTable, r: &Reading) -> (out: Vec<KeyCommand>)
        requires
            table.wf(),
        ensures
            *final(self) == step(*old(self), *table, *r),
            out@ == commands(*old(self), *table, *r),
    {
        let mut out: Vec<KeyCommand> = Vec::new();
        if r.east {
            out.push(KeyCommand::Press(Key::Backspace));
        } else {
            out.push(KeyCommand::Release(Key::Backspace));
        }
        self.backspace_held = r.east;
        if r.left_thumb {
            out.push(KeyCommand::Press(Key::Shift));
        } else {
            out.push(KeyCommand::Release(Key::Shift));
        }
        self.shift_held = r.left_thumb;
        if r.right_trigger && self.can_toggle_caps {
            out.push(KeyCommand::Click(Key::CapsLock));
            self.can_toggle_caps = false;
        } else if !r.right_trigger && !self.can_toggle_caps {
            self.can_toggle_caps = true;
        }
        assert(out@ =~= hold_commands(*r) + caps_commands(*old(self), *r));
        if let Some(click) = self.type_step(table, r) {
            out.push(click);
        }
        assert(out@ =~= commands(*old(self), *table, *r));
        out
    }
}

/// Whether a command clicks a character.
pub open spec fn is_char_click(c: KeyCommand) -> bool {
    c matches KeyCommand::Click(Key::Layout(_))
}

/// Whether a run of commands clicks any character.
pub open spec fn clicks_char(cmds: Seq<KeyCommand>) -> bool {
    exists|i: int| 0 <= i < cmds.len() && #[trigger] is_char_click(cmds[i])
}

/// The state after a run of ticks.
pub open spec fn run(s: ChordState, table: CharacterTable, rs: Seq<Reading>) -> ChordState
    decreases rs.len(),
{
    if rs.len() == 0 {
        s
    } else {
        run(step(s, table, rs[0]), table, rs.drop_first())
    }
}

/// The commands of a run of ticks, tick after tick.
pub open spec fn run_commands(s: ChordState, table: CharacterTable, rs: Seq<Reading>) -> Seq<KeyCommand>
    decreases rs.len(),
{
    if rs.len() == 0 {
        Seq::empty()
    } else {
        commands(s, table, rs[0]) + run_commands(step(s, table, rs[0]), table, rs.drop_first())
    }
}

proof fn lemma_char_commands(s: ChordState, table: CharacterTable, r: Reading)
    ensures
        types_char(s, table, r) ==> char_commands(s, table, r) == seq![char_click(table, r)],
        !types_char(s, table, r) ==> char_commands(s, table, r) == Seq::<KeyCommand>::empty(),
{
}

proof fn lemma_no_click_in_concat(a: Seq<KeyCommand>, b: Seq<KeyCommand>)
    requires
        !clicks_char(a),
        !clicks_char(b),
    ensures
        !clicks_char(a + b),
{
    if clicks_char(a + b) {
        let i = choose|i: int| 0 <= i < (a + b).len() && #[trigger] is_char_click((a + b)[i]);
        if i < a.len() {
            assert(is_char_click(a[i]));
        } else {
            assert(is_char_click(b[i - a.len()]));
        }
    }
}

/// A tick clicks a character exactly when typing is armed, the primary
/// stick is engaged, the secondary stick reaches the typing threshold and
/// the sticks select a character; such a tick disarms typing.
pub proof fn lemma_click_when_armed(s: ChordState, table: CharacterTable, r: Reading)
    ensures
        clicks_char(commands(s, table, r)) <==> (s.can_type && primary_engaged(r) && level_of(
            r.secondary,
        ) >= TYPE_MAGNITUDE_THRESHOLD && selected_char(table, r) is Some),
        clicks_char(commands(s, table, r)) ==> !step(s, table, r).can_type,
{
    let hc = hold_commands(r) + caps_commands(s, r);
    if !types_char(s, table, r) {
        if clicks_char(hc) {
            let i = choose|i: int| 0 <= i < hc.len() && #[trigger] is_char_click(hc[i]);
            assert(false);
        }
        assert(commands(s, table, r) =~= hc);
    } else {
        let cmds = commands(s, table, r);
        let cc = char_commands(s, table, r);
        lemma_char_commands(s, table, r);
        assert(cc.len() == 1);
        assert(cmds == hc + cc);
        assert(cmds[hc.len() as int] == cc[0]);
        assert(is_char_click(cmds[hc.len() as int]));
    }
}

/// Once typing has fired, a tick whose secondary stick stays strictly
/// between the two thresholds keeps it disarmed and clicks no character.
pub proof fn lemma_band_keeps_fired(s: ChordState, table: CharacterTable, r: Reading)
    requires
        !s.can_type,
        TYPE_RETURN_THRESHOLD < level_of(r.secondary) < TYPE_MAGNITUDE_THRESHOLD,
    ensures
        !step(s, table, r).can_type,
        !clicks_char(commands(s, table, r)),
{
    lemma_click_when_armed(s, table, r);
}

/// Typing is re-armed only by a tick whose primary stick is engaged and
/// whose secondary stick has fallen to the return threshold or below.
pub proof fn lemma_rearm_only_at_return(s: ChordState, table: CharacterTable, r: Reading)
    requires
        !s.can_type,
        step(s, table, r).can_type,
    ensures
        primary_engaged(r),
        level_of(r.secondary) <= TYPE_RETURN_THRESHOLD,
{
}

/// Once typing has fired, any run of ticks whose secondary stick stays
/// strictly between the two thresholds clicks no character and leaves
/// typing disarmed.
pub proof fn lemma_run_in_band_keeps_fired(s: ChordState, table: CharacterTable, rs: Seq<Reading>)
    requires
        !s.can_type,
        forall|i: int|
            0 <= i < rs.len() ==> TYPE_RETURN_THRESHOLD < level_of(#[trigger] rs[i].secondary)
                < TYPE_MAGNITUDE_THRESHOLD,
    ensures
        !run(s, table, rs).can_type,
        !clicks_char(run_commands(s, table, rs)),
    decreases rs.len(),
{
    if rs.len() > 0 {
        lemma_band_keeps_fired(s, table, rs[0]);
        let rest = rs.drop_first();
        assert forall|i: int| 0 <= i < rest.len() implies TYPE_RETURN_THRESHOLD < level_of(
            #[trigger] rest[i].secondary,
        ) < TYPE_MAGNITUDE_THRESHOLD by {
            assert(rest[i] == rs[i + 1]);
        }
        lemma_run_in_band_keeps_fired(step(s, table, rs[0]), table, rest);
        lemma_no_click_in_concat(
            commands(s, table, rs[0]),
            run_commands(step(s, table, rs[0]), table, rest),
        );
    }
}

/// Caps lock is clicked on a rising edge of the trigger only: after a tick
/// with reading `r1`, a tick with reading `r2` clicks it exactly when the
/// trigger is pressed in `r2` and was released in `r1`.
pub proof fn lemma_caps_on_rising_edge(s: ChordState, table: CharacterTable, r1: Reading, r2: Reading)
    ensures
        toggles_caps(step(s, table, r1), r2) <==> (r2.right_trigger && !r1.right_trigger),
        commands(step(s, table, r1), table, r2).contains(KeyCommand::Click(Key::CapsLock))
            <==> (r2.right_trigger && !r1.right_trigger),
{
    let s1 = step(s, table, r1);
    let cmds = commands(s1, table, r2);
    let hold = hold_commands(r2);
    let caps = caps_commands(s1, r2);
    let cc = char_commands(s1, table, r2);
    assert(cmds == hold + caps + cc);
    assert(hold.len() == 2);
    assert(hold[0] is Press || hold[0] is Release);
    assert(hold[1] is Press || hold[1] is Release);
    lemma_char_commands(s1, table, r2);
    if toggles_caps(s1, r2) {
        assert((hold + caps)[2] == caps[0]);
        assert(cmds[2] == KeyCommand::Click(Key::CapsLock));
        assert(cmds.contains(KeyCommand::Click(Key::CapsLock)));
    } else if cmds.contains(KeyCommand::Click(Key::CapsLock)) {
        let i = choose|i: int| 0 <= i < cmds.len() && cmds[i] == KeyCommand::Click(Key::CapsLock);
        assert(caps.len() == 0);
        if i < 2 {
            assert(cmds[i] == hold[i]);
        } else {
            assert(cmds[i] == cc[i - 2]);
        }
    }
}

} // verus!
