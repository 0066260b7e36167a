//! Terminal modes for `pty-req` (RFC 4254 section 8).
//!
//! A local terminal is described by flag words and control characters whose
//! layout differs from system to system; on the wire every mode has a number
//! of its own. [`encode_modes`] goes from the one to the other for any
//! layout, [`encode_termios_modes`] for the layout of this system.

use crate::format::{be32, Writer};
use vstd::prelude::*;

verus! {

/// Ends the list of modes.
pub const TTY_OP_END: u8 = 0;

/// Mode numbers of the control characters: interrupt, quit, erase, kill,
/// end of file, end of line, a second end of line, start, stop, suspend,
/// reprint, erase word, and literal next.
pub const CONTROL_CHARACTERS: [u8; 13] = [1, 2, 3, 4, 5, 6, 7, 8, 9, 10, 12, 13, 14];

/// Mode numbers of the input flags: `IGNPAR`, `PARMRK`, `INPCK`, `ISTRIP`,
/// `INLCR`, `IGNCR`, `ICRNL`, `IXON`, `IXANY`, `IXOFF`, `IMAXBEL`.
pub const INPUT_MODES: [u8; 11] = [30, 31, 32, 33, 34, 35, 36, 39, 40, 41, 42];

/// Mode numbers of the local flags: `ISIG`, `ICANON`, `ECHO`, `ECHOE`,
/// `ECHOK`, `ECHONL`, `NOFLSH`, `TOSTOP`, `IEXTEN`, `ECHOCTL`, `ECHOKE`.
pub const LOCAL_MODES: [u8; 11] = [50, 51, 53, 54, 55, 56, 57, 58, 59, 60, 61];

/// Mode numbers of the output flags: `OPOST`, `ONLCR`, `OCRNL`, `ONOCR`,
/// `ONLRET`.
pub const OUTPUT_MODES: [u8; 5] = [70, 72, 73, 74, 75];

/// Mode number: characters of seven bits.
pub const CS7: u8 = 90;

/// Mode number: characters of eight bits.
pub const CS8: u8 = 91;

/// Mode number: parity is on.
pub const PARENB: u8 = 92;

/// Mode number: parity is odd.
pub const PARODD: u8 = 93;

/// Mode number: input speed.
pub const TTY_OP_ISPEED: u8 = 128;

/// Mode number: output speed.
pub const TTY_OP_OSPEED: u8 = 129;

/// The speed that is always reported; it means nothing to a virtual terminal.
pub const NOMINAL_SPEED: u32 = 38_400;

/// The settings of a local terminal.
#[derive(Debug, Clone)]
pub struct Termios {
    /// Input flags.
    pub c_iflag: u64,
    /// Output flags.
    pub c_oflag: u64,
    /// Control flags.
    pub c_cflag: u64,
    /// Local flags.
    pub c_lflag: u64,
    /// Control characters.
    pub c_cc: Vec<u8>,
}

/// Where a system keeps its terminal settings: which slots hold the control
/// characters, and which bits of the flag words stand for which mode, each in
/// the order of the mode numbers above.
#[derive(Debug, Clone, Copy)]
pub struct TermiosLayout {
    /// Slots of the control characters.
    pub slots: [usize; 13],
    /// Bits of the input flags.
    pub input: [u64; 11],
    /// Bits of the local flags.
    pub local: [u64; 11],
    /// Bits of the output flags.
    pub output: [u64; 5],
    /// The character-size field, its values for seven and for eight bits,
    /// and the bits for parity and odd parity.
    pub control: [u64; 5],
}

/// Whether no two control characters share a slot.
pub open spec fn own_slots(slots: Seq<usize>) -> bool {
    forall|i: int, j: int| 0 <= i < j < slots.len() ==> slots[i] != slots[j]
}

/// Whether every mode has bits, and no two modes share one.
pub open spec fn own_bits(masks: Seq<u64>) -> bool {
    &&& forall|i: int| 0 <= i < masks.len() ==> masks[i] != 0
    &&& forall|i: int, j: int| 0 <= i < j < masks.len() ==> masks[i] & masks[j] == 0
}

/// Whether the character size and the two parity modes have bits that they do
/// not share, and the two sizes are different values of their field.
pub open spec fn own_fields(masks: Seq<u64>) -> bool {
    &&& own_bits(seq![masks[0], masks[3], masks[4]])
    &&& masks[1] != masks[2]
    &&& masks[1] & masks[0] == masks[1]
    &&& masks[2] & masks[0] == masks[2]
}

impl TermiosLayout {
    /// Whether each mode is kept in a place of its own.
    pub open spec fn sound(self) -> bool {
        &&& own_slots(self.slots@)
        &&& own_bits(self.input@)
        &&& own_bits(self.local@)
        &&& own_bits(self.output@)
        &&& own_fields(self.control@)
    }
}

/// One mode: its number and its value.
pub open spec fn mode(op: u8, value: u32) -> Seq<u8> {
    seq![op] + be32(value)
}

/// The value of a mode that is on or off.
pub open spec fn on_off(on: bool) -> u32 {
    if on {
        1
    } else {
        0
    }
}

/// The control character in a slot; a slot that the terminal does not have
/// counts as 0.
pub open spec fn slot(cc: Seq<u8>, i: int) -> u32 {
    if 0 <= i < cc.len() {
        cc[i] as u32
    } else {
        0
    }
}

/// The first `n` control characters.
pub open spec fn character_modes(cc: Seq<u8>, slots: Seq<usize>, n: nat) -> Seq<u8>
    decreases n,
{
    if n == 0 {
        Seq::empty()
    } else {
        character_modes(cc, slots, (n - 1) as nat) + mode(
            CONTROL_CHARACTERS@[n - 1],
            slot(cc, slots[n - 1] as int),
        )
    }
}

/// The first `n` modes of a flag word.
pub open spec fn flag_modes(ops: Seq<u8>, flags: u64, masks: Seq<u64>, n: nat) -> Seq<u8>
    decreases n,
{
    if n == 0 {
        Seq::empty()
    } else {
        flag_modes(ops, flags, masks, (n - 1) as nat) + mode(
            ops[n - 1],
            on_off(flags & masks[n - 1] != 0),
        )
    }
}

/// Character size and parity.
pub open spec fn control_modes(flags: u64, masks: Seq<u64>) -> Seq<u8> {
    let size = flags & masks[0];
    mode(CS7, on_off(size == masks[1])) + mode(CS8, on_off(size == masks[2])) + mode(
        PARENB,
        on_off(flags & masks[3] != 0),
    ) + mode(PARODD, on_off(flags & masks[4] != 0))
}

/// All modes of a terminal.
pub open spec fn modes(t: Termios, layout: TermiosLayout) -> Seq<u8> {
    character_modes(t.c_cc@, layout.slots@, 13)
        + flag_modes(INPUT_MODES@, t.c_iflag, layout.input@, 11)
        + flag_modes(LOCAL_MODES@, t.c_lflag, layout.local@, 11)
        + flag_modes(OUTPUT_MODES@, t.c_oflag, layout.output@, 5)
        + control_modes(t.c_cflag, layout.control@)
        + mode(TTY_OP_ISPEED, NOMINAL_SPEED)
        + mode(TTY_OP_OSPEED, NOMINAL_SPEED)
        + seq![TTY_OP_END]
}

/// Write one mode.
fn write_mode(w: &mut Writer, op: u8, value: u32)
    ensures
        final(w)@ == old(w)@ + mode(op, value),
{
    w.write_u8(op);
    w.write_u32(value);
    assert(w@ =~= old(w)@ + mode(op, value));
}

/// Write a mode that is on or off.
fn write_switch(w: &mut Writer, op: u8, on: bool)
    ensures
        final(w)@ == old(w)@ + mode(op, on_off(on)),
{
    write_mode(
        w,
        op,
        if on {
            1
        } else {
            0
        },
    );
}

/// Write the modes of a flag word.
fn write_flags(w: &mut Writer, ops: &[u8], flags: u64, masks: &[u64])
    requires
        ops@.len() == masks@.len(),
    ensures
        final(w)@ == old(w)@ + flag_modes(ops@, flags, masks@, ops@.len()),
{
    let mut i: usize = 0;
    let n: usize = ops.len();
    assert(w@ =~= old(w)@ + flag_modes(ops@, flags, masks@, 0));
    while i < n
        invariant
            i <= n,
            n == ops@.len(),
            ops@.len() == masks@.len(),
            w@ == old(w)@ + flag_modes(ops@, flags, masks@, i as nat),
        decreases n - i,
    {
        let set = flags & masks[i] != 0;
        write_switch(w, ops[i], set);
        assert(w@ =~= old(w)@ + flag_modes(ops@, flags, masks@, (i + 1) as nat));
        i += 1;
    }
}

/// Encode the settings of a terminal that are laid out as `layout` says: the
/// control characters, the input, local, output and control modes, and the
/// two speeds, in that order.
pub fn encode_modes(t: &Termios, layout: &TermiosLayout) -> (r: Vec<u8>)
    ensures
        r@ == modes(*t, *layout),
{
    let mut w = Writer::new();
    let mut i: usize = 0;
    let slots: [usize; 13] = layout.slots;
    let ops: [u8; 13] = CONTROL_CHARACTERS;
    assert(w@ =~= character_modes(t.c_cc@, slots@, 0));
    while i < 13
        invariant
            i <= 13,
            ops == CONTROL_CHARACTERS,
            w@ == character_modes(t.c_cc@, slots@, i as nat),
        decreases 13 - i,
    {
        let at: usize = slots[i];
        let value: u32 = if at < t.c_cc.len() {
            t.c_cc[at] as u32
        } else {
            0
        };
        write_mode(&mut w, ops[i], value);
        assert(w@ =~= character_modes(t.c_cc@, slots@, (i + 1) as nat));
        i += 1;
    }
    let input: [u8; 11] = INPUT_MODES;
    let local: [u8; 11] = LOCAL_MODES;
    let output: [u8; 5] = OUTPUT_MODES;
    write_flags(&mut w, input.as_slice(), t.c_iflag, layout.input.as_slice());
    write_flags(&mut w, local.as_slice(), t.c_lflag, layout.local.as_slice());
    write_flags(&mut w, output.as_slice(), t.c_oflag, layout.output.as_slice());
    let flags: u64 = t.c_cflag;
    let size: u64 = flags & layout.control[0];
    let ghost before = w@;
    write_switch(&mut w, CS7, size == layout.control[1]);
    write_switch(&mut w, CS8, size == layout.control[2]);
    write_switch(&mut w, PARENB, flags & layout.control[3] != 0);
    write_switch(&mut w, PARODD, flags & layout.control[4] != 0);
    assert(w@ =~= before + control_modes(flags, layout.control@));
    write_mode(&mut w, TTY_OP_ISPEED, NOMINAL_SPEED);
    write_mode(&mut w, TTY_OP_OSPEED, NOMINAL_SPEED);
    w.write_u8(TTY_OP_END);
    assert(w@ =~= modes(*t, *layout));
    w.into_vec()
}

/// The constants `VINTR` to `VLNEXT` of the `libc` crate: the slots of the
/// control characters on this system. They differ from one another; their
/// values are not claimed, for they differ from system to system.
#[verifier::external_body]
fn control_slots() -> (r: [usize; 13])
    ensures
        own_slots(r@),
{
    [
        libc::VINTR, libc::VQUIT, libc::VERASE, libc::VKILL, libc::VEOF, libc::VEOL, libc::VEOL2,
        libc::VSTART, libc::VSTOP, libc::VSUSP, libc::VREPRINT, libc::VWERASE, libc::VLNEXT,
    ]
}

/// The constants `IGNPAR` to `IMAXBEL` of the `libc` crate: the bits of the
/// input flags on this system. Each is a bit of its own; which one is not
/// claimed.
#[verifier::external_body]
fn input_bits() -> (r: [u64; 11])
    ensures
        own_bits(r@),
{
    [
        libc::IGNPAR, libc::PARMRK, libc::INPCK, libc::ISTRIP, libc::INLCR, libc::IGNCR,
        libc::ICRNL, libc::IXON, libc::IXANY, libc::IXOFF, libc::IMAXBEL,
    ].map(u64::from)
}

/// The constants `ISIG` to `ECHOKE` of the `libc` crate: the bits of the
/// local flags on this system. Each is a bit of its own; which one is not
/// claimed.
#[verifier::external_body]
fn local_bits() -> (r: [u64; 11])
    ensures
        own_bits(r@),
{
    [
        libc::ISIG, libc::ICANON, libc::ECHO, libc::ECHOE, libc::ECHOK, libc::ECHONL,
        libc::NOFLSH, libc::TOSTOP, libc::IEXTEN, libc::ECHOCTL, libc::ECHOKE,
    ].map(u64::from)
}

/// The constants `OPOST` to `ONLRET` of the `libc` crate: the bits of the
/// output flags on this system. Each is a bit of its own; which one is not
/// claimed.
#[verifier::external_body]
fn output_bits() -> (r: [u64; 5])
    ensures
        own_bits(r@),
{
    [libc::OPOST, libc::ONLCR, libc::OCRNL, libc::ONOCR, libc::ONLRET].map(u64::from)
}

/// The constants `CSIZE`, `CS7`, `CS8`, `PARENB` and `PARODD` of the `libc`
/// crate: the fields of the control flags on this system. `CS7` and `CS8` are
/// different values of the field `CSIZE`, and it and the parity flags share no
/// bits; which ones they have is not claimed.
#[verifier::external_body]
fn control_bits() -> (r: [u64; 5])
    ensures
        own_fields(r@),
{
    [libc::CSIZE, libc::CS7, libc::CS8, libc::PARENB, libc::PARODD].map(u64::from)
}

/// The layout of this system.
fn local_layout() -> (r: TermiosLayout)
    ensures
        r.sound(),
{
    TermiosLayout {
        slots: control_slots(),
        input: input_bits(),
        local: local_bits(),
        output: output_bits(),
        control: control_bits(),
    }
}

/// Encode the settings of a local terminal for `pty-req`, so that the remote
/// one mirrors its control characters and modes. Which bit of a flag word
/// stands for which mode is up to the system; for some layout that keeps each
/// mode in a place of its own, the result is what [`encode_modes`] gives.
pub fn encode_termios_modes(t: &Termios) -> (r: Vec<u8>)
    ensures
        exists|layout: TermiosLayout| layout.sound() && r@ == #[trigger] modes(*t, layout),
{
    let layout = local_layout();
    encode_modes(t, &layout)
}

/// Whatever the terminal and the system, every mode is sent: the blob has the
/// same length, and ends with the end mark.
pub proof fn lemma_modes_shape(t: Termios, layout: TermiosLayout)
    ensures
        modes(t, layout).len() == 231,
        modes(t, layout).last() == TTY_OP_END,
{
    lemma_character_modes_len(t.c_cc@, layout.slots@, 13);
    lemma_flag_modes_len(INPUT_MODES@, t.c_iflag, layout.input@, 11);
    lemma_flag_modes_len(LOCAL_MODES@, t.c_lflag, layout.local@, 11);
    lemma_flag_modes_len(OUTPUT_MODES@, t.c_oflag, layout.output@, 5);
}

/// Each control character takes five bytes.
proof fn lemma_character_modes_len(cc: Seq<u8>, slots: Seq<usize>, n: nat)
    ensures
        character_modes(cc, slots, n).len() == 5 * n,
    decreases n,
{
    if n > 0 {
        lemma_character_modes_len(cc, slots, (n - 1) as nat);
    }
}

/// Each flag takes five bytes.
proof fn lemma_flag_modes_len(ops: Seq<u8>, flags: u64, masks: Seq<u64>, n: nat)
    ensures
        flag_modes(ops, flags, masks, n).len() == 5 * n,
    decreases n,
{
    if n > 0 {
        lemma_flag_modes_len(ops, flags, masks, (n - 1) as nat);
    }
}

} // verus!
