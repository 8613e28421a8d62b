//! Actions driven onto the display's bus, and the shapes of the framed
//! command and data sequences the driver emits.
//!
//! An [`Action`] is one elementary hardware step: a level change on the
//! chip-select, data/command or reset line, a blocking settle delay, or one
//! bus transfer of a byte payload.  Its mathematical view is an [`Event`];
//! a whole driver operation is specified as a `Seq<Event>`.

use vstd::prelude::*;

verus! {

/// One elementary step for the hardware front end to perform.
///
/// Chip-select is active low: `CsLow` selects the controller.  The
/// data/command line low marks transferred bytes as a command opcode, high
/// as data.  A `Transfer` is one synchronous block transfer of its payload,
/// completed before the next action starts.
#[derive(Debug, PartialEq, Eq)]
pub enum Action {
    CsLow,
    CsHigh,
    DcLow,
    DcHigh,
    RstLow,
    RstHigh,
    DelayMs(u32),
    Transfer(Vec<u8>),
}

/// The mathematical view of an [`Action`].
#[verifier::ext_equal]
pub ghost enum Event {
    CsLow,
    CsHigh,
    DcLow,
    DcHigh,
    RstLow,
    RstHigh,
    DelayMs(u32),
    Transfer(Seq<u8>),
}

impl View for Action {
    type V = Event;

    open spec fn view(&self) -> Event {
        match self {
            Action::CsLow => Event::CsLow,
            Action::CsHigh => Event::CsHigh,
            Action::DcLow => Event::DcLow,
            Action::DcHigh => Event::DcHigh,
            Action::RstLow => Event::RstLow,
            Action::RstHigh => Event::RstHigh,
            Action::DelayMs(ms) => Event::DelayMs(*ms),
            Action::Transfer(bytes) => Event::Transfer(bytes@),
        }
    }
}

/// The events of an action sequence.
pub open spec fn events_of(s: Seq<Action>) -> Seq<Event> {
    s.map_values(|a: Action| a@)
}

/// The payloads of the transfers in an event sequence, in order.
pub open spec fn transfer_payloads(s: Seq<Event>) -> Seq<Seq<u8>>
    decreases s.len(),
{
    if s.len() == 0 {
        seq![]
    } else {
        let rest = transfer_payloads(s.drop_first());
        match s.first() {
            Event::Transfer(b) => seq![b] + rest,
            _ => rest,
        }
    }
}

/// Every byte that an event sequence drives onto the bus, in order:
/// the concatenation of its transfer payloads.
pub open spec fn wire_bytes(s: Seq<Event>) -> Seq<u8> {
    transfer_payloads(s).flatten()
}

/// Transfer payloads distribute over concatenation of event sequences.
pub proof fn lemma_transfer_payloads_concat(a: Seq<Event>, b: Seq<Event>)
    ensures
        transfer_payloads(a + b) == transfer_payloads(a) + transfer_payloads(b),
    decreases a.len(),
{
    if a.len() == 0 {
        assert(a + b =~= b);
        assert(transfer_payloads(a) + transfer_payloads(b) =~= transfer_payloads(b));
    } else {
        assert((a + b).len() > 0);
        assert((a + b).first() == a.first());
        assert((a + b).drop_first() =~= a.drop_first() + b);
        lemma_transfer_payloads_concat(a.drop_first(), b);
        assert(transfer_payloads(a + b) =~= transfer_payloads(a) + transfer_payloads(b));
    }
}

/// One framed command: select the controller with the data/command line
/// low, transfer the opcode, hold the selection through the settle delay,
/// then deselect.
pub open spec fn cmd_frame(opcode: u8, settle_ms: u32) -> Seq<Event> {
    seq![
        Event::DcLow,
        Event::CsLow,
        Event::Transfer(seq![opcode]),
        Event::DelayMs(settle_ms),
        Event::CsHigh,
    ]
}

/// One framed data payload: as [`cmd_frame`], but with the data/command
/// line high.
pub open spec fn data_frame(payload: Seq<u8>, settle_ms: u32) -> Seq<Event> {
    seq![
        Event::DcHigh,
        Event::CsLow,
        Event::Transfer(payload),
        Event::DelayMs(settle_ms),
        Event::CsHigh,
    ]
}

/// One command followed by its data payload under a single chip-select
/// assertion, as the controller requires for the address-set commands: the
/// address latch is sampled only while chip-select stays asserted across
/// the opcode and the bytes that follow it.
pub open spec fn cmd_data_frame(
    opcode: u8,
    payload: Seq<u8>,
    cmd_settle_ms: u32,
    data_settle_ms: u32,
) -> Seq<Event> {
    seq![
        Event::DcLow,
        Event::CsLow,
        Event::Transfer(seq![opcode]),
        Event::DelayMs(cmd_settle_ms),
        Event::DcHigh,
        Event::Transfer(payload),
        Event::DelayMs(data_settle_ms),
        Event::CsHigh,
    ]
}

/// A framed command transfers exactly its opcode byte.
pub proof fn lemma_payloads_cmd_frame(opcode: u8, settle_ms: u32)
    ensures
        transfer_payloads(cmd_frame(opcode, settle_ms)) == seq![seq![opcode]],
{
    reveal_with_fuel(transfer_payloads, 7);
    let f = cmd_frame(opcode, settle_ms);
    assert(f.drop_first() =~= seq![
        Event::CsLow,
        Event::Transfer(seq![opcode]),
        Event::DelayMs(settle_ms),
        Event::CsHigh,
    ]);
    assert(f.drop_first().drop_first() =~= seq![
        Event::Transfer(seq![opcode]),
        Event::DelayMs(settle_ms),
        Event::CsHigh,
    ]);
    assert(f.drop_first().drop_first().drop_first() =~= seq![
        Event::DelayMs(settle_ms),
        Event::CsHigh,
    ]);
    assert(f.drop_first().drop_first().drop_first().drop_first() =~= seq![Event::CsHigh]);
    assert(f.drop_first().drop_first().drop_first().drop_first().drop_first()
        =~= Seq::<Event>::empty());
    assert(transfer_payloads(f) =~~= seq![seq![opcode]]);
}

/// A framed data payload transfers exactly that payload.
pub proof fn lemma_payloads_data_frame(payload: Seq<u8>, settle_ms: u32)
    ensures
        transfer_payloads(data_frame(payload, settle_ms)) == seq![payload],
{
    reveal_with_fuel(transfer_payloads, 7);
    let f = data_frame(payload, settle_ms);
    assert(f.drop_first() =~= seq![
        Event::CsLow,
        Event::Transfer(payload),
        Event::DelayMs(settle_ms),
        Event::CsHigh,
    ]);
    assert(f.drop_first().drop_first() =~= seq![
        Event::Transfer(payload),
        Event::DelayMs(settle_ms),
        Event::CsHigh,
    ]);
    assert(f.drop_first().drop_first().drop_first() =~= seq![
        Event::DelayMs(settle_ms),
        Event::CsHigh,
    ]);
    assert(f.drop_first().drop_first().drop_first().drop_first() =~= seq![Event::CsHigh]);
    assert(f.drop_first().drop_first().drop_first().drop_first().drop_first()
        =~= Seq::<Event>::empty());
    assert(transfer_payloads(f) =~~= seq![payload]);
}

/// A command-and-data frame transfers exactly the opcode byte and then
/// the payload.
pub proof fn lemma_payloads_cmd_data_frame(
    opcode: u8,
    payload: Seq<u8>,
    cmd_settle_ms: u32,
    data_settle_ms: u32,
)
    ensures
        transfer_payloads(cmd_data_frame(opcode, payload, cmd_settle_ms, data_settle_ms))
            == seq![seq![opcode], payload],
{
    reveal_with_fuel(transfer_payloads, 10);
    let f = cmd_data_frame(opcode, payload, cmd_settle_ms, data_settle_ms);
    let tail = seq![
        Event::DcHigh,
        Event::Transfer(payload),
        Event::DelayMs(data_settle_ms),
        Event::CsHigh,
    ];
    assert(f.drop_first() =~= seq![
        Event::CsLow,
        Event::Transfer(seq![opcode]),
        Event::DelayMs(cmd_settle_ms),
    ] + tail);
    assert(f.drop_first().drop_first() =~= seq![
        Event::Transfer(seq![opcode]),
        Event::DelayMs(cmd_settle_ms),
    ] + tail);
    assert(f.drop_first().drop_first().drop_first() =~= seq![
        Event::DelayMs(cmd_settle_ms),
    ] + tail);
    let t0 = f.drop_first().drop_first().drop_first().drop_first();
    assert(t0 =~= tail);
    assert(t0.drop_first() =~= seq![
        Event::Transfer(payload),
        Event::DelayMs(data_settle_ms),
        Event::CsHigh,
    ]);
    assert(t0.drop_first().drop_first() =~= seq![Event::DelayMs(data_settle_ms), Event::CsHigh]);
    assert(t0.drop_first().drop_first().drop_first() =~= seq![Event::CsHigh]);
    assert(t0.drop_first().drop_first().drop_first().drop_first() =~= Seq::<Event>::empty());
    assert(transfer_payloads(f) =~~= seq![seq![opcode], payload]);
}

/// Wire bytes distribute over concatenation of event sequences.
pub proof fn lemma_wire_bytes_concat(a: Seq<Event>, b: Seq<Event>)
    ensures
        wire_bytes(a + b) == wire_bytes(a) + wire_bytes(b),
{
    lemma_transfer_payloads_concat(a, b);
    vstd::seq_lib::lemma_flatten_concat(transfer_payloads(a), transfer_payloads(b));
}

/// A framed command drives exactly its opcode byte onto the bus.
pub proof fn lemma_wire_bytes_cmd_frame(opcode: u8, settle_ms: u32)
    ensures
        wire_bytes(cmd_frame(opcode, settle_ms)) == seq![opcode],
{
    lemma_payloads_cmd_frame(opcode, settle_ms);
    seq![seq![opcode]].lemma_flatten_one_element();
}

/// A framed data payload drives exactly that payload onto the bus.
pub proof fn lemma_wire_bytes_data_frame(payload: Seq<u8>, settle_ms: u32)
    ensures
        wire_bytes(data_frame(payload, settle_ms)) == payload,
{
    lemma_payloads_data_frame(payload, settle_ms);
    seq![payload].lemma_flatten_one_element();
}

/// A command-and-data frame drives exactly the opcode byte followed by
/// the payload onto the bus.
pub proof fn lemma_wire_bytes_cmd_data_frame(
    opcode: u8,
    payload: Seq<u8>,
    cmd_settle_ms: u32,
    data_settle_ms: u32,
)
    ensures
        wire_bytes(cmd_data_frame(opcode, payload, cmd_settle_ms, data_settle_ms))
            == seq![opcode] + payload,
{
    lemma_payloads_cmd_data_frame(opcode, payload, cmd_settle_ms, data_settle_ms);
    let ps = seq![seq![opcode], payload];
    assert(ps.drop_first() =~= seq![payload]);
    seq![payload].lemma_flatten_one_element();
    assert(ps.flatten() == ps.first() + ps.drop_first().flatten());
    assert(ps.flatten() =~= seq![opcode] + payload);
}

} // verus!
