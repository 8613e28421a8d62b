//! The driver handle and its operations.
//!
//! The handle owns the bus transmitter, the block-transfer channel and the
//! five staging buffers as optionally-present fields: each is either present
//! in the handle or checked out to an in-flight transfer, never both.  Every
//! operation checks the resources it uses back in before it returns, and
//! says so in its contract.
//!
//! Operations perform no I/O.  Each returns the exact [`Action`] sequence
//! to drive onto the hardware, stated over the frame shapes of [`crate::bus`]
//! and the encodings of [`crate::codec`].

use vstd::prelude::*;

use crate::bus::{
    cmd_data_frame, cmd_frame, data_frame, events_of, lemma_transfer_payloads_concat,
    lemma_wire_bytes_cmd_data_frame, lemma_wire_bytes_cmd_frame, lemma_wire_bytes_concat,
    lemma_wire_bytes_data_frame, transfer_payloads, wire_bytes, Action, Event,
};
use crate::codec::{
    be16_bytes, ceil_div, chunks, encode_pixels, lemma_chunks_count, lemma_chunks_flatten,
    lemma_encode_pixels_len, window_payload,
};
use crate::common::{ColorMode, Commands, DrawError};
use crate::rect::Rect;

verus! {

/// A fresh copy of the first `n` bytes of a buffer: what one transfer
/// drives onto the wire out of a staging buffer.
fn copy_prefix(src: &Vec<u8>, n: usize) -> (r: Vec<u8>)
    requires
        n <= src@.len(),
    ensures
        r@ == src@.take(n as int),
{
    let mut r: Vec<u8> = Vec::new();
    let mut i: usize = 0;
    while i < n
        invariant
            i <= n <= src@.len(),
            r@ == src@.take(i as int),
        decreases n - i,
    {
        r.push(src[i]);
        i = i + 1;
        proof {
            assert(r@ =~= src@.take(i as int));
        }
    }
    r
}

/// A fresh copy of a byte slice: what one transfer drives onto the wire.
fn copy_bytes(src: &[u8]) -> (r: Vec<u8>)
    ensures
        r@ == src@,
{
    let mut r: Vec<u8> = Vec::new();
    let mut i: usize = 0;
    while i < src.len()
        invariant
            i <= src@.len(),
            r@ == src@.take(i as int),
        decreases src@.len() - i,
    {
        r.push(src[i]);
        i = i + 1;
        proof {
            assert(r@ =~= src@.take(i as int));
        }
    }
    proof {
        assert(src@.take(src@.len() as int) =~= src@);
    }
    r
}

/// The wire bytes of the first `n` pixels of a color buffer: two bytes
/// per pixel, most significant first.
fn encode_prefix(colors: &Vec<u16>, n: usize) -> (r: Vec<u8>)
    requires
        n <= colors@.len(),
    ensures
        r@ == encode_pixels(colors@.take(n as int)),
{
    let mut r: Vec<u8> = Vec::new();
    let mut j: usize = 0;
    proof {
        assert(colors@.take(0) =~= Seq::<u16>::empty());
    }
    while j < n
        invariant
            j <= n <= colors@.len(),
            r@ == encode_pixels(colors@.take(j as int)),
        decreases n - j,
    {
        let (hi, lo) = be16_bytes(colors[j]);
        r.push(hi);
        r.push(lo);
        j = j + 1;
        proof {
            let t = colors@.take(j as int);
            assert(t.drop_last() =~= colors@.take(j as int - 1));
            assert(r@ =~= encode_pixels(colors@.take(j as int)));
        }
    }
    r
}

/// The fixed action sequence that initializes the controller: hardware
/// reset on the reset line, software reset, sleep-out, the RGB565 color
/// mode, the default memory-access orientation, inversion on, display on —
/// each framed in its own chip-select assertion with its settle delay.
/// It does not depend on the driver's state, so re-running `init` emits
/// the identical sequence every time.
pub open spec fn init_events() -> Seq<Event> {
    seq![
        Event::RstLow,
        Event::DelayMs(120),
        Event::RstHigh,
        Event::DelayMs(150),
    ] + cmd_frame(Commands::SoftwareReset.spec_byte(), 150)
        + cmd_frame(Commands::SleepOut.spec_byte(), 120)
        + cmd_frame(Commands::SetColorMode.spec_byte(), 1)
        + data_frame(seq![ColorMode::RGB565.spec_byte()], 10)
        + cmd_frame(Commands::MemoryDataAccessControl.spec_byte(), 1)
        + data_frame(seq![0x00], 10)
        + cmd_frame(Commands::InversionOn.spec_byte(), 1)
        + cmd_frame(Commands::DisplayOn.spec_byte(), 50)
}

/// The action sequence that sets the address window to columns
/// `xs ..= xe` and requested rows `ys ..= ye`: a CASET and a RASET
/// command, each under one chip-select assertion with its 4-byte
/// big-endian payload.  The panel's vertical offset `off` is added to
/// both row bounds, compensating for the non-visible border rows.
pub open spec fn window_events(xs: u16, xe: u16, ys: u16, ye: u16, off: u16) -> Seq<Event>
    recommends
        ys + off <= 0xFFFF,
        ye + off <= 0xFFFF,
{
    cmd_data_frame(Commands::CASET.spec_byte(), window_payload(xs, xe), 1, 1)
        + cmd_data_frame(
        Commands::RASET.spec_byte(),
        window_payload((ys + off) as u16, (ye + off) as u16),
        1,
        1,
    )
}

/// One transfer event per burst, in order.
pub open spec fn transfer_events(bursts: Seq<Seq<u8>>) -> Seq<Event> {
    bursts.map_values(|b: Seq<u8>| Event::Transfer(b))
}

/// The action sequence of one chunked write-RAM payload: data mode and
/// chip-select asserted once, one transfer per burst of the partition of
/// the payload into `cap`-byte chunks, and chip-select released once after
/// the last burst — so the controller sees one continuous write.
pub open spec fn stream_events(payload: Seq<u8>, cap: nat) -> Seq<Event> {
    seq![Event::DcHigh, Event::CsLow] + transfer_events(chunks(payload, cap)) + seq![
        Event::CsHigh,
    ]
}

/// `n` pixels of one color.
pub open spec fn repeat_color(color: u16, n: nat) -> Seq<u16> {
    Seq::new(n, |i: int| color)
}

/// The action sequence of one fill request on a panel of `width` by
/// `height` pixels with vertical offset `off` and burst capacity `cap`:
/// the request is clipped to the panel, and when anything remains, the
/// address window is set to the clipped rectangle, write-RAM is issued,
/// and the first `clipped-pixel-count` colors of the source are streamed
/// as one chunked write.  Pixels clipped away are never transmitted, and
/// the source is consumed only for the clipped count, in row-major order
/// of the clipped rectangle.  A request entirely off the panel transmits
/// nothing at all.
pub open spec fn fill_events(
    area: Rect,
    width: u16,
    height: u16,
    off: u16,
    cap: nat,
    colors: Seq<u16>,
) -> Seq<Event>
    recommends
        colors.len() >= Rect::spec_intersection(
            area,
            Rect { x: 0, y: 0, width: width as u32, height: height as u32 },
        ).pixel_count(),
{
    let cl = Rect::spec_intersection(
        area,
        Rect { x: 0, y: 0, width: width as u32, height: height as u32 },
    );
    if cl.spec_is_empty() {
        seq![]
    } else {
        window_events(
            cl.x as u16,
            (cl.x + cl.width - 1) as u16,
            cl.y as u16,
            (cl.y + cl.height - 1) as u16,
            off,
        ) + cmd_frame(Commands::RAMWR.spec_byte(), 10) + stream_events(
            encode_pixels(colors.take(cl.pixel_count() as int)),
            cap,
        )
    }
}

/// The transfers of a burst sequence carry exactly those bursts.
pub proof fn lemma_transfer_events_payloads(bursts: Seq<Seq<u8>>)
    ensures
        transfer_payloads(transfer_events(bursts)) == bursts,
    decreases bursts.len(),
{
    let m = transfer_events(bursts);
    if bursts.len() == 0 {
        assert(m =~= Seq::<Event>::empty());
        assert(transfer_payloads(m) =~= bursts);
    } else {
        assert(m.first() == Event::Transfer(bursts.first()));
        assert(m.drop_first() =~= transfer_events(bursts.drop_first()));
        lemma_transfer_events_payloads(bursts.drop_first());
        assert(transfer_payloads(m) =~= bursts);
    }
}

/// A chunked stream transfers exactly the bursts of its payload's
/// partition.
pub proof fn lemma_payloads_of_stream(payload: Seq<u8>, cap: nat)
    requires
        cap > 0,
    ensures
        transfer_payloads(stream_events(payload, cap)) == chunks(payload, cap),
{
    reveal_with_fuel(transfer_payloads, 4);
    let head = seq![Event::DcHigh, Event::CsLow];
    let mid = transfer_events(chunks(payload, cap));
    let tail = seq![Event::CsHigh];
    assert(stream_events(payload, cap) == head + mid + tail);
    lemma_transfer_payloads_concat(head + mid, tail);
    lemma_transfer_payloads_concat(head, mid);
    assert(head.drop_first() =~= seq![Event::CsLow]);
    assert(seq![Event::CsLow].drop_first() =~= Seq::<Event>::empty());
    assert(tail.drop_first() =~= Seq::<Event>::empty());
    assert(transfer_payloads(Seq::<Event>::empty()) =~= Seq::<Seq<u8>>::empty());
    assert(transfer_payloads(head) =~= Seq::<Seq<u8>>::empty());
    assert(transfer_payloads(tail) =~= Seq::<Seq<u8>>::empty());
    lemma_transfer_events_payloads(chunks(payload, cap));
    assert(transfer_payloads(stream_events(payload, cap)) =~= chunks(payload, cap));
}

/// A chunked stream drives exactly its payload onto the bus: the wire
/// bytes of `stream_events(payload, cap)` are `payload`, neither lost,
/// duplicated nor reordered by the partition into bursts.
pub proof fn lemma_wire_bytes_of_stream(payload: Seq<u8>, cap: nat)
    requires
        cap > 0,
    ensures
        wire_bytes(stream_events(payload, cap)) == payload,
{
    lemma_payloads_of_stream(payload, cap);
    lemma_chunks_flatten(payload, cap);
}

/// The driver handle for one ST7789V2-class controller.
///
/// `TX` is the bus transmitter and `CH` the block-transfer channel bound to
/// it; the driver never looks inside them, it only enforces that they are
/// checked out for one transfer at a time.  The staging buffers hold one
/// command byte, one data byte, the two 4-byte address payloads, and the
/// `cap`-byte chunk through which large payloads are bounced.
pub struct ST7789V2<TX, CH> {
    pub tx: Option<TX>,
    pub ch: Option<CH>,
    pub cmd_buf: Option<Vec<u8>>,
    pub data_buf: Option<Vec<u8>>,
    pub caset_buf: Option<Vec<u8>>,
    pub raset_buf: Option<Vec<u8>>,
    pub chunk_buf: Option<Vec<u8>>,
    /// Capacity of the chunk buffer: the size of one full burst.
    pub cap: usize,
    /// Panel width in pixels.
    pub width: u16,
    /// Visible panel height in pixels.
    pub height: u16,
    /// Non-visible rows above the visible area; added to both row bounds.
    pub y_offset: u16,
}

impl<TX, CH> ST7789V2<TX, CH> {
    /// The geometry and chunk capacity are sane: a non-degenerate panel,
    /// row addresses that cannot overflow 16 bits once offset, and a chunk
    /// size that holds whole 2-byte pixels.
    pub open spec fn wf(self) -> bool {
        &&& 1 <= self.width
        &&& 1 <= self.height
        &&& self.y_offset + self.height <= 0x10000
        &&& 2 * self.width * self.height <= usize::MAX
        &&& 2 <= self.cap
        &&& self.cap % 2 == 0
    }

    /// Every resource is present in the handle (none is checked out to an
    /// in-flight transfer), and each staging buffer has its fixed size.
    pub open spec fn ready(self) -> bool {
        &&& self.tx is Some
        &&& self.ch is Some
        &&& self.cmd_buf is Some && self.cmd_buf.unwrap()@.len() == 1
        &&& self.data_buf is Some && self.data_buf.unwrap()@.len() == 1
        &&& self.caset_buf is Some && self.caset_buf.unwrap()@.len() == 4
        &&& self.raset_buf is Some && self.raset_buf.unwrap()@.len() == 4
        &&& self.chunk_buf is Some && self.chunk_buf.unwrap()@.len() == self.cap
    }

    /// Same panel geometry and chunk capacity, and the same transmitter and
    /// channel: what every operation leaves untouched.
    pub open spec fn same_setup(self, o: Self) -> bool {
        &&& self.width == o.width
        &&& self.height == o.height
        &&& self.y_offset == o.y_offset
        &&& self.cap == o.cap
        &&& self.tx == o.tx
        &&& self.ch == o.ch
    }

    /// The visible area: all of the panel.
    pub open spec fn spec_bounding_box(self) -> Rect {
        Rect { x: 0, y: 0, width: self.width as u32, height: self.height as u32 }
    }

    /// Builds a driver handle from the externally supplied capabilities:
    /// the transmitter, the channel bound to it, and the caller-allocated
    /// staging buffers of sizes 1, 1, 4, 4 and the burst capacity.
    pub fn new(
        tx: TX,
        ch: CH,
        cmd_buf: Vec<u8>,
        data_buf: Vec<u8>,
        caset_buf: Vec<u8>,
        raset_buf: Vec<u8>,
        chunk_buf: Vec<u8>,
        width: u16,
        height: u16,
        y_offset: u16,
    ) -> (r: Self)
        requires
            cmd_buf@.len() == 1,
            data_buf@.len() == 1,
            caset_buf@.len() == 4,
            raset_buf@.len() == 4,
            2 <= chunk_buf@.len(),
            chunk_buf@.len() % 2 == 0,
            1 <= width,
            1 <= height,
            y_offset + height <= 0x10000,
            2 * width * height <= usize::MAX,
        ensures
            r.wf(),
            r.ready(),
            r.width == width,
            r.height == height,
            r.y_offset == y_offset,
            r.cap == chunk_buf@.len(),
            r.tx == Some(tx),
            r.ch == Some(ch),
    {
        let cap = chunk_buf.len();
        ST7789V2 {
            tx: Some(tx),
            ch: Some(ch),
            cmd_buf: Some(cmd_buf),
            data_buf: Some(data_buf),
            caset_buf: Some(caset_buf),
            raset_buf: Some(raset_buf),
            chunk_buf: Some(chunk_buf),
            cap,
            width,
            height,
            y_offset,
        }
    }

    /// The panel size: width, then visible height, in pixels.
    pub fn size(&self) -> (r: (u32, u32))
        ensures
            r.0 == self.width,
            r.1 == self.height,
    {
        (self.width as u32, self.height as u32)
    }

    /// The visible area as a rectangle anchored at the origin.
    pub fn bounding_box(&self) -> (r: Rect)
        ensures
            r == self.spec_bounding_box(),
    {
        Rect { x: 0, y: 0, width: self.width as u32, height: self.height as u32 }
    }

    /// Whether the transmitter and channel are present, so that a transfer
    /// could be started.  The front end tests this before checking them out.
    pub fn bus_present(&self) -> (r: bool)
        ensures
            r == (self.tx is Some && self.ch is Some),
    {
        self.tx.is_some() && self.ch.is_some()
    }

    /// Checks the transmitter and channel out of the handle for one
    /// transfer.  Until they are returned, no operation needing them can
    /// run: the handle is no longer `ready`.
    pub fn take_bus(&mut self) -> (r: (TX, CH))
        requires
            (old(self).tx is Some),
            (old(self).ch is Some),
        ensures
            r.0 == old(self).tx.unwrap(),
            r.1 == old(self).ch.unwrap(),
            (final(self).tx is None),
            (final(self).ch is None),
            *final(self) == (ST7789V2 { tx: None::<TX>, ch: None::<CH>, ..*old(self) }),
    {
        let tx = self.tx.take().unwrap();
        let ch = self.ch.take().unwrap();
        (tx, ch)
    }

    /// Checks the transmitter and channel back into the handle after a
    /// transfer has observably completed.
    pub fn return_bus(&mut self, tx: TX, ch: CH)
        requires
            (old(self).tx is None),
            (old(self).ch is None),
        ensures
            *final(self) == (ST7789V2 { tx: Some(tx), ch: Some(ch), ..*old(self) }),
    {
        self.tx = Some(tx);
        self.ch = Some(ch);
    }

    /// Hands the transmitter and channel back to the caller for good, for
    /// example to repurpose the bus for another peripheral.
    pub fn release(self) -> (r: (TX, CH))
        requires
            (self.tx is Some),
            (self.ch is Some),
        ensures
            r.0 == self.tx.unwrap(),
            r.1 == self.ch.unwrap(),
    {
        let ST7789V2 { tx, ch, .. } = self;
        (tx.unwrap(), ch.unwrap())
    }

    /// Appends the primitive for one command byte: data/command line low,
    /// controller selected, the opcode transferred out of the 1-byte
    /// command staging buffer.  Chip-select is left low so that a settle
    /// delay or a data payload can follow under the same assertion; the
    /// caller deasserts.  The staging buffer, transmitter and channel are
    /// checked out for the transfer and back in before returning.
    fn emit_command(&mut self, cmd: Commands, out: &mut Vec<Action>)
        requires
            old(self).ready(),
        ensures
            final(self).ready(),
            final(self).same_setup(*old(self)),
            final(self).wf() == old(self).wf(),
            events_of(final(out)@) == events_of(old(out)@) + seq![
                Event::DcLow,
                Event::CsLow,
                Event::Transfer(seq![cmd.spec_byte()]),
            ],
    {
        let mut buf = self.cmd_buf.take().unwrap();
        buf[0] = cmd.to_byte();
        let tx = self.tx.take().unwrap();
        let ch = self.ch.take().unwrap();
        out.push(Action::DcLow);
        out.push(Action::CsLow);
        let payload = copy_prefix(&buf, 1);
        out.push(Action::Transfer(payload));
        self.tx = Some(tx);
        self.ch = Some(ch);
        self.cmd_buf = Some(buf);
        proof {
            assert(events_of(out@) =~~= events_of(old(out)@) + seq![
                Event::DcLow,
                Event::CsLow,
                Event::Transfer(seq![cmd.spec_byte()]),
            ]);
        }
    }

    /// Appends the primitive for one data byte: as [`Self::emit_command`],
    /// but with the data/command line high and the 1-byte data staging
    /// buffer.
    fn emit_data_u8(&mut self, data: u8, out: &mut Vec<Action>)
        requires
            old(self).ready(),
        ensures
            final(self).ready(),
            final(self).same_setup(*old(self)),
            final(self).wf() == old(self).wf(),
            events_of(final(out)@) == events_of(old(out)@) + seq![
                Event::DcHigh,
                Event::CsLow,
                Event::Transfer(seq![data]),
            ],
    {
        let mut buf = self.data_buf.take().unwrap();
        buf[0] = data;
        let tx = self.tx.take().unwrap();
        let ch = self.ch.take().unwrap();
        out.push(Action::DcHigh);
        out.push(Action::CsLow);
        let payload = copy_prefix(&buf, 1);
        out.push(Action::Transfer(payload));
        self.tx = Some(tx);
        self.ch = Some(ch);
        self.data_buf = Some(buf);
        proof {
            assert(events_of(out@) =~~= events_of(old(out)@) + seq![
                Event::DcHigh,
                Event::CsLow,
                Event::Transfer(seq![data]),
            ]);
        }
    }

    /// Appends one fully framed command: the command primitive, the settle
    /// delay held under chip-select, then deselection.
    fn frame_command(&mut self, cmd: Commands, settle_ms: u32, out: &mut Vec<Action>)
        requires
            old(self).ready(),
        ensures
            final(self).ready(),
            final(self).same_setup(*old(self)),
            final(self).wf() == old(self).wf(),
            events_of(final(out)@) == events_of(old(out)@) + cmd_frame(
                cmd.spec_byte(),
                settle_ms,
            ),
    {
        self.emit_command(cmd, out);
        let ghost mid = out@;
        out.push(Action::DelayMs(settle_ms));
        out.push(Action::CsHigh);
        proof {
            assert(events_of(out@) =~~= events_of(mid) + seq![
                Event::DelayMs(settle_ms),
                Event::CsHigh,
            ]);
            assert(events_of(out@) =~~= events_of(old(out)@) + cmd_frame(
                cmd.spec_byte(),
                settle_ms,
            ));
        }
    }

    /// Appends one fully framed data byte, as [`Self::frame_command`].
    fn frame_data_u8(&mut self, data: u8, settle_ms: u32, out: &mut Vec<Action>)
        requires
            old(self).ready(),
        ensures
            final(self).ready(),
            final(self).same_setup(*old(self)),
            final(self).wf() == old(self).wf(),
            events_of(final(out)@) == events_of(old(out)@) + data_frame(
                seq![data],
                settle_ms,
            ),
    {
        self.emit_data_u8(data, out);
        let ghost mid = out@;
        out.push(Action::DelayMs(settle_ms));
        out.push(Action::CsHigh);
        proof {
            assert(events_of(out@) =~~= events_of(mid) + seq![
                Event::DelayMs(settle_ms),
                Event::CsHigh,
            ]);
            assert(events_of(out@) =~~= events_of(old(out)@) + data_frame(
                seq![data],
                settle_ms,
            ));
        }
    }

    /// Brings the controller from power-on or reset to an active display
    /// accepting write-RAM writes.  The returned sequence is exactly
    /// [`init_events`], whatever the driver's state: running `init` twice
    /// emits the identical byte sequence both times.
    pub fn init(&mut self) -> (r: Vec<Action>)
        requires
            old(self).ready(),
        ensures
            final(self).ready(),
            final(self).same_setup(*old(self)),
            final(self).wf() == old(self).wf(),
            events_of(r@) == init_events(),
    {
        let mut out: Vec<Action> = Vec::new();
        out.push(Action::RstLow);
        out.push(Action::DelayMs(120));
        out.push(Action::RstHigh);
        out.push(Action::DelayMs(150));
        proof {
            assert(events_of(out@) =~= seq![
                Event::RstLow,
                Event::DelayMs(120),
                Event::RstHigh,
                Event::DelayMs(150),
            ]);
        }
        self.frame_command(Commands::SoftwareReset, 150, &mut out);
        self.frame_command(Commands::SleepOut, 120, &mut out);
        self.frame_command(Commands::SetColorMode, 1, &mut out);
        self.frame_data_u8(ColorMode::RGB565.to_byte(), 10, &mut out);
        self.frame_command(Commands::MemoryDataAccessControl, 1, &mut out);
        self.frame_data_u8(0x00, 10, &mut out);
        self.frame_command(Commands::InversionOn, 1, &mut out);
        self.frame_command(Commands::DisplayOn, 50, &mut out);
        proof {
            assert(events_of(out@) =~~= init_events());
        }
        out
    }

    /// Appends the data half of one address-set frame: with chip-select
    /// still low from the command, the 4-byte big-endian window payload is
    /// staged into `buf`, transferred, allowed to settle, and chip-select
    /// is released.  Returns the staging buffer for check-in.
    fn emit_addr_data(&mut self, buf: Vec<u8>, start: u16, end: u16, out: &mut Vec<Action>) -> (r:
        Vec<u8>)
        requires
            (old(self).tx is Some),
            (old(self).ch is Some),
            buf@.len() == 4,
        ensures
            *final(self) == *old(self),
            r@ == window_payload(start, end),
            events_of(final(out)@) == events_of(old(out)@) + seq![
                Event::DcHigh,
                Event::Transfer(window_payload(start, end)),
                Event::DelayMs(1),
                Event::CsHigh,
            ],
    {
        let mut buf = buf;
        let (hs, ls) = be16_bytes(start);
        let (he, le) = be16_bytes(end);
        buf[0] = hs;
        buf[1] = ls;
        buf[2] = he;
        buf[3] = le;
        proof {
            assert(buf@ =~= window_payload(start, end));
        }
        let tx = self.tx.take().unwrap();
        let ch = self.ch.take().unwrap();
        out.push(Action::DcHigh);
        out.push(Action::Transfer(copy_prefix(&buf, 4)));
        out.push(Action::DelayMs(1));
        out.push(Action::CsHigh);
        self.tx = Some(tx);
        self.ch = Some(ch);
        proof {
            assert(buf@.take(4) =~= buf@);
            assert(events_of(out@) =~~= events_of(old(out)@) + seq![
                Event::DcHigh,
                Event::Transfer(window_payload(start, end)),
                Event::DelayMs(1),
                Event::CsHigh,
            ]);
        }
        buf
    }

    /// Sets the address window: the columns `xs ..= xe` and the rows
    /// `ys ..= ye` of the visible area that the next write-RAM burst will
    /// fill in row-major order.  The panel's vertical offset is added to
    /// both row bounds before they are serialized, big-endian 16-bit, into
    /// the CASET and RASET payloads.
    pub fn set_size(&mut self, xs: u16, xe: u16, ys: u16, ye: u16) -> (r: Vec<Action>)
        requires
            old(self).wf(),
            old(self).ready(),
            xs <= xe < old(self).width,
            ys <= ye < old(self).height,
        ensures
            final(self).wf(),
            final(self).ready(),
            final(self).same_setup(*old(self)),
            events_of(r@) == window_events(xs, xe, ys, ye, old(self).y_offset),
    {
        let mut out: Vec<Action> = Vec::new();
        let actual_ys = ys + self.y_offset;
        let actual_ye = ye + self.y_offset;

        self.emit_command(Commands::CASET, &mut out);
        let ghost m1 = out@;
        out.push(Action::DelayMs(1));
        proof {
            assert(events_of(out@) =~~= events_of(m1) + seq![Event::DelayMs(1)]);
        }
        let caset = self.caset_buf.take().unwrap();
        let caset = self.emit_addr_data(caset, xs, xe, &mut out);
        self.caset_buf = Some(caset);
        proof {
            assert(events_of(out@) =~~= cmd_data_frame(
                Commands::CASET.spec_byte(),
                window_payload(xs, xe),
                1,
                1,
            ));
        }

        self.emit_command(Commands::RASET, &mut out);
        let ghost m2 = out@;
        out.push(Action::DelayMs(1));
        proof {
            assert(events_of(out@) =~~= events_of(m2) + seq![Event::DelayMs(1)]);
        }
        let raset = self.raset_buf.take().unwrap();
        let raset = self.emit_addr_data(raset, actual_ys, actual_ye, &mut out);
        self.raset_buf = Some(raset);
        proof {
            assert(events_of(out@) =~~= window_events(xs, xe, ys, ye, old(self).y_offset));
        }
        out
    }

    /// Issues the write-RAM command: the controller will route the bytes
    /// of the following transfers into display memory, auto-incrementing
    /// through the address window in row-major order.
    pub fn begin_draw(&mut self) -> (r: Vec<Action>)
        requires
            old(self).ready(),
        ensures
            final(self).ready(),
            final(self).same_setup(*old(self)),
            final(self).wf() == old(self).wf(),
            events_of(r@) == cmd_frame(Commands::RAMWR.spec_byte(), 10),
    {
        let mut out: Vec<Action> = Vec::new();
        self.frame_command(Commands::RAMWR, 10, &mut out);
        proof {
            assert(events_of(out@) =~~= cmd_frame(Commands::RAMWR.spec_byte(), 10));
        }
        out
    }

    /// Performs one burst: checks the transmitter and channel out of the
    /// handle, transfers the first `n` staged bytes, and checks them back
    /// in once the transfer has observably completed.
    fn emit_burst(&mut self, staged: &Vec<u8>, n: usize, out: &mut Vec<Action>)
        requires
            (old(self).tx is Some),
            (old(self).ch is Some),
            n <= staged@.len(),
        ensures
            *final(self) == *old(self),
            events_of(final(out)@) == events_of(old(out)@) + seq![
                Event::Transfer(staged@.take(n as int)),
            ],
    {
        let tx = self.tx.take().unwrap();
        let ch = self.ch.take().unwrap();
        out.push(Action::Transfer(copy_prefix(staged, n)));
        self.tx = Some(tx);
        self.ch = Some(ch);
        proof {
            assert(events_of(out@) =~~= events_of(old(out)@) + seq![
                Event::Transfer(staged@.take(n as int)),
            ]);
        }
    }

    /// Streams an arbitrary-length payload to the controller as one
    /// continuous write: the payload is bounced through the `cap`-byte
    /// chunk buffer, one burst per chunk, with the final partial chunk
    /// transferred in full by the same path.  `begin_draw` must have
    /// issued the write-RAM command first.  Afterwards the transmitter,
    /// the channel and every buffer are back in the handle.
    pub fn send_frame(&mut self, payload: &[u8]) -> (r: Vec<Action>)
        requires
            old(self).wf(),
            old(self).ready(),
        ensures
            final(self).wf(),
            final(self).ready(),
            final(self).same_setup(*old(self)),
            events_of(r@) == stream_events(payload@, old(self).cap as nat),
    {
        let mut out: Vec<Action> = Vec::new();
        out.push(Action::DcHigh);
        out.push(Action::CsLow);
        proof {
            assert(events_of(out@) =~= seq![Event::DcHigh, Event::CsLow]);
        }
        let ghost base = out@;
        let mut chunk = self.chunk_buf.take().unwrap();
        let cap = self.cap;
        let len = payload.len();
        let mut pos: usize = 0;
        let ghost mut done: Seq<Seq<u8>> = Seq::empty();
        proof {
            assert(payload@.skip(0) =~= payload@);
            assert(done + chunks(payload@.skip(0), cap as nat) =~= chunks(payload@, cap as nat));
        }
        while pos < len
            invariant
                0 < cap,
                pos <= len,
                payload@.len() == len,
                chunk@.len() == cap,
                cap == old(self).cap,
                *self == (ST7789V2 { chunk_buf: None::<Vec<u8>>, ..*old(self) }),
                old(self).ready(),
                done + chunks(payload@.skip(pos as int), cap as nat) == chunks(
                    payload@,
                    cap as nat,
                ),
                events_of(out@) == events_of(base) + transfer_events(done),
            decreases len - pos,
        {
            let n = if len - pos < cap {
                len - pos
            } else {
                cap
            };
            let mut i: usize = 0;
            while i < n
                invariant
                    i <= n,
                    n <= cap,
                    pos + n <= len,
                    payload@.len() == len,
                    chunk@.len() == cap,
                    chunk@.take(i as int) == payload@.subrange(pos as int, pos as int + i as int),
                decreases n - i,
            {
                chunk[i] = payload[pos + i];
                i = i + 1;
                proof {
                    assert(chunk@.take(i as int) =~= payload@.subrange(
                        pos as int,
                        pos as int + i as int,
                    ));
                }
            }
            let ghost piece = payload@.subrange(pos as int, pos as int + n as int);
            let ghost prev = done;
            self.emit_burst(&chunk, n, &mut out);
            proof {
                done = done.push(piece);
                assert(transfer_events(done) =~~= transfer_events(prev).push(
                    Event::Transfer(piece),
                ));
                assert(events_of(out@) =~~= events_of(base) + transfer_events(done));
                let rest = payload@.skip(pos as int);
                if len - pos > cap {
                    assert(rest.take(cap as int) =~= piece);
                    assert(rest.skip(cap as int) =~= payload@.skip(pos as int + cap as int));
                    assert(prev + chunks(rest, cap as nat) =~= prev.push(piece) + chunks(
                        payload@.skip(pos as int + cap as int),
                        cap as nat,
                    ));
                } else {
                    assert(rest =~= piece);
                    assert(chunks(rest, cap as nat) == seq![piece]);
                    assert(prev + chunks(rest, cap as nat) =~= prev.push(piece));
                    assert(chunks(payload@.skip(len as int), cap as nat) =~=
                        Seq::<Seq<u8>>::empty());
                    assert(prev.push(piece) + chunks(payload@.skip(len as int), cap as nat)
                        =~= prev.push(piece));
                }
            }
            pos = pos + n;
        }
        self.chunk_buf = Some(chunk);
        out.push(Action::CsHigh);
        proof {
            assert(payload@.skip(len as int) =~= Seq::<u8>::empty());
            assert(chunks(payload@.skip(len as int), cap as nat) =~= Seq::<Seq<u8>>::empty());
            assert(done + chunks(payload@.skip(len as int), cap as nat) =~= done);
            assert(events_of(out@) =~~= stream_events(payload@, old(self).cap as nat));
        }
        out
    }

    /// Fills a rectangle with the next pixels of a color source: clips the
    /// request to the panel, sets the address window to what remains,
    /// issues write-RAM, and streams the clipped pixel count — two bytes
    /// per pixel, row-major — as one chunked write.  Pixels outside the
    /// panel are silently dropped, never transferred; a request entirely
    /// off the panel emits nothing.  The source must hold at least the
    /// clipped pixel count; only that prefix is consumed.
    pub fn fill_contiguous(&mut self, area: &Rect, colors: &Vec<u16>) -> (r: Vec<Action>)
        requires
            old(self).wf(),
            old(self).ready(),
            colors@.len() >= Rect::spec_intersection(
                *area,
                old(self).spec_bounding_box(),
            ).pixel_count(),
        ensures
            final(self).wf(),
            final(self).ready(),
            final(self).same_setup(*old(self)),
            events_of(r@) == fill_events(
                *area,
                old(self).width,
                old(self).height,
                old(self).y_offset,
                old(self).cap as nat,
                colors@,
            ),
    {
        let bbox = self.bounding_box();
        let cl = area.intersection(&bbox);
        if cl.is_empty() {
            let out: Vec<Action> = Vec::new();
            proof {
                assert(events_of(out@) =~= Seq::<Event>::empty());
            }
            return out;
        }
        proof {
            assert(0 <= cl.x && cl.right() <= old(self).width);
            assert(0 <= cl.y && cl.bottom() <= old(self).height);
            assert(cl.width as int * cl.height as int <= 0xFFFF * 0xFFFF)
                by (nonlinear_arith)
                requires cl.width <= 0xFFFF, cl.height <= 0xFFFF;
        }
        let xs = cl.x as u16;
        let xe = (cl.x as u32 + cl.width - 1) as u16;
        let ys = cl.y as u16;
        let ye = (cl.y as u32 + cl.height - 1) as u16;
        let count64 = cl.width as u64 * cl.height as u64;
        proof {
            assert(count64 == cl.pixel_count());
            assert(count64 <= colors@.len());
            assert(xs as int == cl.x && ys as int == cl.y);
            assert(xe as int == cl.x + cl.width - 1);
            assert(ye as int == cl.y + cl.height - 1);
        }
        let count = count64 as usize;
        let payload = encode_prefix(colors, count);
        let mut out = self.set_size(xs, xe, ys, ye);
        let ghost g1 = out@;
        let mut ramwr = self.begin_draw();
        let ghost g2 = ramwr@;
        out.append(&mut ramwr);
        let mut burst = self.send_frame(payload.as_slice());
        let ghost g3 = burst@;
        out.append(&mut burst);
        proof {
            assert(events_of(out@) =~~= events_of(g1) + events_of(g2) + events_of(g3));
            assert(events_of(out@) =~~= fill_events(
                *area,
                old(self).width,
                old(self).height,
                old(self).y_offset,
                old(self).cap as nat,
                colors@,
            ));
        }
        out
    }

    /// Fills a rectangle with one color: a fill whose source repeats the
    /// color for every clipped pixel.
    pub fn fill_solid(&mut self, area: &Rect, color: u16) -> (r: Vec<Action>)
        requires
            old(self).wf(),
            old(self).ready(),
        ensures
            final(self).wf(),
            final(self).ready(),
            final(self).same_setup(*old(self)),
            events_of(r@) == fill_events(
                *area,
                old(self).width,
                old(self).height,
                old(self).y_offset,
                old(self).cap as nat,
                repeat_color(
                    color,
                    Rect::spec_intersection(*area, old(self).spec_bounding_box()).pixel_count(),
                ),
            ),
    {
        let bbox = self.bounding_box();
        let cl = area.intersection(&bbox);
        proof {
            assert(cl.width as int * cl.height as int <= 0xFFFF * 0xFFFF)
                by (nonlinear_arith)
                requires cl.width <= 0xFFFF, cl.height <= 0xFFFF;
        }
        let count = (cl.width as u64 * cl.height as u64) as usize;
        let mut colors: Vec<u16> = Vec::new();
        let mut j: usize = 0;
        while j < count
            invariant
                j <= count,
                colors@ == repeat_color(color, j as nat),
            decreases count - j,
        {
            colors.push(color);
            j = j + 1;
            proof {
                assert(colors@ =~= repeat_color(color, j as nat));
            }
        }
        proof {
            assert(colors@ =~= repeat_color(color, count as nat));
            assert(colors@.len() >= cl.pixel_count());
        }
        let r = self.fill_contiguous(area, &colors);
        proof {
            let full = repeat_color(color, cl.pixel_count());
            assert(colors@.take(cl.pixel_count() as int) =~= full.take(cl.pixel_count() as int));
        }
        r
    }

    /// Fills the whole visible area with one color.
    pub fn clear(&mut self, color: u16) -> (r: Vec<Action>)
        requires
            old(self).wf(),
            old(self).ready(),
        ensures
            final(self).wf(),
            final(self).ready(),
            final(self).same_setup(*old(self)),
            events_of(r@) == fill_events(
                old(self).spec_bounding_box(),
                old(self).width,
                old(self).height,
                old(self).y_offset,
                old(self).cap as nat,
                repeat_color(color, (old(self).width * old(self).height) as nat),
            ),
    {
        let bbox = self.bounding_box();
        proof {
            crate::rect::lemma_intersection_inside(bbox, bbox);
        }
        self.fill_solid(&bbox, color)
    }

    /// Sparse per-pixel drawing is incompatible with one continuous
    /// chunked burst, so it is rejected outright: every call fails with
    /// [`DrawError::Unsupported`] and nothing reaches the bus.
    pub fn draw_iter(&mut self, pixels: &Vec<(i32, i32, u16)>) -> (r: Result<
        Vec<Action>,
        DrawError,
    >)
        ensures
            *final(self) == *old(self),
            r == Err::<Vec<Action>, DrawError>(DrawError::Unsupported),
    {
        Err(DrawError::Unsupported)
    }

    /// Draws a full frame: sets the address window to the whole visible
    /// area, issues write-RAM, and streams the frame buffer — which must
    /// hold exactly two bytes per visible pixel — as one chunked write.
    pub fn draw_entire_screen(&mut self, buffer: &[u8]) -> (r: Vec<Action>)
        requires
            old(self).wf(),
            old(self).ready(),
            buffer@.len() == 2 * old(self).width * old(self).height,
        ensures
            final(self).wf(),
            final(self).ready(),
            final(self).same_setup(*old(self)),
            events_of(r@) == window_events(
                0,
                (old(self).width - 1) as u16,
                0,
                (old(self).height - 1) as u16,
                old(self).y_offset,
            ) + cmd_frame(Commands::RAMWR.spec_byte(), 10) + stream_events(
                buffer@,
                old(self).cap as nat,
            ),
    {
        let xe = self.width - 1;
        let ye = self.height - 1;
        let mut out = self.set_size(0, xe, 0, ye);
        let ghost g1 = out@;
        let mut ramwr = self.begin_draw();
        let ghost g2 = ramwr@;
        out.append(&mut ramwr);
        let mut burst = self.send_frame(buffer);
        let ghost g3 = burst@;
        out.append(&mut burst);
        proof {
            assert(events_of(out@) =~~= events_of(g1) + events_of(g2) + events_of(g3));
        }
        out
    }

    /// The frame primitive for one command byte: data/command low, the
    /// controller selected, the opcode transferred.  Chip-select is left
    /// low, so that a command-and-data sequence stays atomic under one
    /// assertion; deselecting is the caller's responsibility.
    pub fn send_command(&mut self, cmd: Commands) -> (r: Vec<Action>)
        requires
            old(self).ready(),
        ensures
            final(self).ready(),
            final(self).same_setup(*old(self)),
            final(self).wf() == old(self).wf(),
            events_of(r@) == seq![
                Event::DcLow,
                Event::CsLow,
                Event::Transfer(seq![cmd.spec_byte()]),
            ],
    {
        let mut out: Vec<Action> = Vec::new();
        self.emit_command(cmd, &mut out);
        out
    }

    /// The frame primitive for a data payload: data/command high, the
    /// controller selected, the bytes transferred in one transfer.
    /// Chip-select is left low; deselecting is the caller's
    /// responsibility.
    pub fn send_data(&mut self, data: &[u8]) -> (r: Vec<Action>)
        requires
            old(self).ready(),
        ensures
            final(self).ready(),
            final(self).same_setup(*old(self)),
            final(self).wf() == old(self).wf(),
            events_of(r@) == seq![Event::DcHigh, Event::CsLow, Event::Transfer(data@)],
    {
        let mut out: Vec<Action> = Vec::new();
        let tx = self.tx.take().unwrap();
        let ch = self.ch.take().unwrap();
        out.push(Action::DcHigh);
        out.push(Action::CsLow);
        out.push(Action::Transfer(copy_bytes(data)));
        self.tx = Some(tx);
        self.ch = Some(ch);
        proof {
            assert(events_of(out@) =~~= seq![
                Event::DcHigh,
                Event::CsLow,
                Event::Transfer(data@),
            ]);
        }
        out
    }

    /// Turns the display off.
    pub fn off(&mut self) -> (r: Vec<Action>)
        requires
            old(self).ready(),
        ensures
            final(self).ready(),
            final(self).same_setup(*old(self)),
            final(self).wf() == old(self).wf(),
            events_of(r@) == cmd_frame(Commands::DisplayOff.spec_byte(), 50),
    {
        let mut out: Vec<Action> = Vec::new();
        self.frame_command(Commands::DisplayOff, 50, &mut out);
        proof {
            assert(events_of(out@) =~~= cmd_frame(Commands::DisplayOff.spec_byte(), 50));
        }
        out
    }

    /// Selects the controller: chip-select is active low.
    pub fn select(&mut self) -> (r: Vec<Action>)
        ensures
            *final(self) == *old(self),
            events_of(r@) == seq![Event::CsLow],
    {
        let mut out: Vec<Action> = Vec::new();
        out.push(Action::CsLow);
        proof {
            assert(events_of(out@) =~= seq![Event::CsLow]);
        }
        out
    }

    /// Deselects the controller.
    pub fn deselect(&mut self) -> (r: Vec<Action>)
        ensures
            *final(self) == *old(self),
            events_of(r@) == seq![Event::CsHigh],
    {
        let mut out: Vec<Action> = Vec::new();
        out.push(Action::CsHigh);
        proof {
            assert(events_of(out@) =~= seq![Event::CsHigh]);
        }
        out
    }
}

/// A fill of a rectangle lying fully inside the panel is transmitted
/// unclipped: exactly one address-window set for the rectangle itself,
/// one write-RAM command, then one chunked stream whose payload is the
/// rectangle's pixel count encoded at two bytes per pixel, cut into
/// `ceil(2·w·h / cap)` bursts.  Together with
/// [`crate::codec::lemma_chunks_sizes`] every burst is at most `cap`
/// bytes, all but the last exactly `cap`, and the last holds the
/// remainder (or a full `cap` when it divides evenly); together with
/// [`lemma_wire_bytes_of_stream`] the stream drives exactly those
/// payload bytes onto the bus.
pub proof fn lemma_fill_region_inside(
    area: Rect,
    width: u16,
    height: u16,
    off: u16,
    cap: nat,
    colors: Seq<u16>,
)
    requires
        cap > 0,
        !area.spec_is_empty(),
        area.inside(Rect { x: 0, y: 0, width: width as u32, height: height as u32 }),
        colors.len() >= area.pixel_count(),
    ensures
        fill_events(area, width, height, off, cap, colors) == window_events(
            area.x as u16,
            (area.x + area.width - 1) as u16,
            area.y as u16,
            (area.y + area.height - 1) as u16,
            off,
        ) + cmd_frame(Commands::RAMWR.spec_byte(), 10) + stream_events(
            encode_pixels(colors.take(area.pixel_count() as int)),
            cap,
        ),
        encode_pixels(colors.take(area.pixel_count() as int)).len() == 2 * area.pixel_count(),
        chunks(encode_pixels(colors.take(area.pixel_count() as int)), cap).len() == ceil_div(
            2 * area.pixel_count(),
            cap,
        ),
{
    let bbox = Rect { x: 0, y: 0, width: width as u32, height: height as u32 };
    crate::rect::lemma_intersection_inside(area, bbox);
    let taken = colors.take(area.pixel_count() as int);
    lemma_encode_pixels_len(taken);
    lemma_chunks_count(encode_pixels(taken), cap);
}

/// Initialization drives exactly this byte sequence onto the bus, every
/// time it runs: software reset, sleep-out, set-color-mode with its
/// RGB565 parameter, memory-access control with the default orientation
/// byte, inversion on, display on.
proof fn lemma_reset_wire_bytes()
    ensures
        wire_bytes(
            seq![Event::RstLow, Event::DelayMs(120), Event::RstHigh, Event::DelayMs(150)],
        ) == Seq::<u8>::empty(),
{
    reveal_with_fuel(transfer_payloads, 6);
    let reset = seq![
        Event::RstLow,
        Event::DelayMs(120),
        Event::RstHigh,
        Event::DelayMs(150),
    ];
    assert(reset.drop_first() =~= seq![
        Event::DelayMs(120),
        Event::RstHigh,
        Event::DelayMs(150),
    ]);
    assert(reset.drop_first().drop_first() =~= seq![Event::RstHigh, Event::DelayMs(150)]);
    assert(reset.drop_first().drop_first().drop_first() =~= seq![Event::DelayMs(150)]);
    assert(reset.drop_first().drop_first().drop_first().drop_first() =~= Seq::<Event>::empty());
    assert(transfer_payloads(reset) =~= Seq::<Seq<u8>>::empty());
    assert(wire_bytes(reset) =~= Seq::<u8>::empty());
}

#[verifier::rlimit(50)]
pub proof fn lemma_init_wire_bytes()
    ensures
        wire_bytes(init_events()) == seq![
            0x01u8,
            0x11u8,
            0x3Au8,
            0x55u8,
            0x36u8,
            0x00u8,
            0x21u8,
            0x29u8,
        ],
{
    let reset = seq![
        Event::RstLow,
        Event::DelayMs(120),
        Event::RstHigh,
        Event::DelayMs(150),
    ];
    lemma_reset_wire_bytes();

    let c1 = cmd_frame(Commands::SoftwareReset.spec_byte(), 150);
    let c2 = cmd_frame(Commands::SleepOut.spec_byte(), 120);
    let c3 = cmd_frame(Commands::SetColorMode.spec_byte(), 1);
    let d1 = data_frame(seq![ColorMode::RGB565.spec_byte()], 10);
    let c4 = cmd_frame(Commands::MemoryDataAccessControl.spec_byte(), 1);
    let d2 = data_frame(seq![0x00], 10);
    let c5 = cmd_frame(Commands::InversionOn.spec_byte(), 1);
    let c6 = cmd_frame(Commands::DisplayOn.spec_byte(), 50);
    lemma_wire_bytes_cmd_frame(Commands::SoftwareReset.spec_byte(), 150);
    lemma_wire_bytes_cmd_frame(Commands::SleepOut.spec_byte(), 120);
    lemma_wire_bytes_cmd_frame(Commands::SetColorMode.spec_byte(), 1);
    lemma_wire_bytes_data_frame(seq![ColorMode::RGB565.spec_byte()], 10);
    lemma_wire_bytes_cmd_frame(Commands::MemoryDataAccessControl.spec_byte(), 1);
    lemma_wire_bytes_data_frame(seq![0x00], 10);
    lemma_wire_bytes_cmd_frame(Commands::InversionOn.spec_byte(), 1);
    lemma_wire_bytes_cmd_frame(Commands::DisplayOn.spec_byte(), 50);
    lemma_wire_bytes_concat(reset, c1);
    lemma_wire_bytes_concat(reset + c1, c2);
    lemma_wire_bytes_concat(reset + c1 + c2, c3);
    lemma_wire_bytes_concat(reset + c1 + c2 + c3, d1);
    lemma_wire_bytes_concat(reset + c1 + c2 + c3 + d1, c4);
    lemma_wire_bytes_concat(reset + c1 + c2 + c3 + d1 + c4, d2);
    lemma_wire_bytes_concat(reset + c1 + c2 + c3 + d1 + c4 + d2, c5);
    lemma_wire_bytes_concat(reset + c1 + c2 + c3 + d1 + c4 + d2 + c5, c6);
    assert(wire_bytes(init_events()) =~= seq![
        0x01u8,
        0x11u8,
        0x3Au8,
        0x55u8,
        0x36u8,
        0x00u8,
        0x21u8,
        0x29u8,
    ]);
}

/// Setting the window drives exactly the CASET opcode with its 4-byte
/// big-endian column bounds, then the RASET opcode with its 4-byte
/// big-endian offset row bounds, onto the bus.
pub proof fn lemma_window_wire_bytes(xs: u16, xe: u16, ys: u16, ye: u16, off: u16)
    ensures
        wire_bytes(window_events(xs, xe, ys, ye, off)) == seq![0x2Au8] + window_payload(xs, xe)
            + seq![0x2Bu8] + window_payload((ys + off) as u16, (ye + off) as u16),
{
    let cas_pay = window_payload(xs, xe);
    let ras_pay = window_payload((ys + off) as u16, (ye + off) as u16);
    let caset = cmd_data_frame(Commands::CASET.spec_byte(), cas_pay, 1, 1);
    let raset = cmd_data_frame(Commands::RASET.spec_byte(), ras_pay, 1, 1);
    lemma_wire_bytes_concat(caset, raset);
    lemma_wire_bytes_cmd_data_frame(Commands::CASET.spec_byte(), cas_pay, 1, 1);
    lemma_wire_bytes_cmd_data_frame(Commands::RASET.spec_byte(), ras_pay, 1, 1);
    assert(wire_bytes(window_events(xs, xe, ys, ye, off)) =~= seq![0x2Au8] + cas_pay + seq![
        0x2Bu8,
    ] + ras_pay);
}

/// A fill drives onto the bus exactly: the CASET opcode with the clipped
/// rectangle's column bounds, the RASET opcode with its offset row
/// bounds, the write-RAM opcode, then two big-endian bytes per clipped
/// pixel — and nothing at all when the request lies off the panel.
pub proof fn lemma_fill_wire_bytes(
    area: Rect,
    width: u16,
    height: u16,
    off: u16,
    cap: nat,
    colors: Seq<u16>,
)
    requires
        cap > 0,
    ensures
        ({
            let cl = Rect::spec_intersection(
                area,
                Rect { x: 0, y: 0, width: width as u32, height: height as u32 },
            );
            cl.spec_is_empty() ==> wire_bytes(fill_events(area, width, height, off, cap, colors))
                == Seq::<u8>::empty()
        }),
        ({
            let cl = Rect::spec_intersection(
                area,
                Rect { x: 0, y: 0, width: width as u32, height: height as u32 },
            );
            !cl.spec_is_empty() ==> wire_bytes(fill_events(area, width, height, off, cap, colors))
                == seq![0x2Au8] + window_payload(cl.x as u16, (cl.x + cl.width - 1) as u16) + seq![
                0x2Bu8,
            ] + window_payload(
                ((cl.y as u16) + off) as u16,
                (((cl.y + cl.height - 1) as u16) + off) as u16,
            ) + seq![0x2Cu8] + encode_pixels(colors.take(cl.pixel_count() as int))
        }),
{
    let cl = Rect::spec_intersection(
        area,
        Rect { x: 0, y: 0, width: width as u32, height: height as u32 },
    );
    let fe = fill_events(area, width, height, off, cap, colors);
    if cl.spec_is_empty() {
        assert(fe =~= Seq::<Event>::empty());
        assert(transfer_payloads(fe) =~= Seq::<Seq<u8>>::empty());
        assert(wire_bytes(fe) =~= Seq::<u8>::empty());
    } else {
        let xs = cl.x as u16;
        let xe = (cl.x + cl.width - 1) as u16;
        let ys = cl.y as u16;
        let ye = (cl.y + cl.height - 1) as u16;
        let w = window_events(xs, xe, ys, ye, off);
        let rf = cmd_frame(Commands::RAMWR.spec_byte(), 10);
        let st = stream_events(encode_pixels(colors.take(cl.pixel_count() as int)), cap);
        assert(fe == w + rf + st);
        lemma_wire_bytes_concat(w + rf, st);
        lemma_wire_bytes_concat(w, rf);
        lemma_window_wire_bytes(xs, xe, ys, ye, off);
        lemma_wire_bytes_cmd_frame(Commands::RAMWR.spec_byte(), 10);
        lemma_wire_bytes_of_stream(encode_pixels(colors.take(cl.pixel_count() as int)), cap);
        assert(wire_bytes(fe) =~= seq![0x2Au8] + window_payload(xs, xe) + seq![0x2Bu8]
            + window_payload((ys + off) as u16, (ye + off) as u16) + seq![0x2Cu8]
            + encode_pixels(colors.take(cl.pixel_count() as int)));
    }
}

} // verus!
