//! The handle through which the rest of the program talks to the panel: each
//! request is encoded as an `LcdCommand` and queued for the thread that owns
//! the serial port.
use vstd::prelude::*;
use std::sync::mpsc::Sender;
use crate::frame::Frame;
use crate::protocol::{LcdCommand, rgb565_pixel, rgb565_value};
use crate::text::{chars_of, eq_str};

verus! {

#[verifier::external_type_specification]
#[verifier::external_body]
#[verifier::reject_recursive_types(T)]
pub struct ExSender<T>(Sender<T>);

/// `std::sync::mpsc::Sender::send`. The standard library documents that a
/// failed send hands the value back (the receiving end is gone); that is what
/// the contract states. Whether the send succeeds depends on the other thread
/// and is not stated.
#[verifier::external_body]
fn channel_send(tx: &Sender<LcdCommand>, cmd: LcdCommand) -> (r: Result<(), LcdCommand>)
    ensures
        r matches Err(back) ==> back == cmd,
{
    tx.send(cmd).map_err(|e| e.0)
}

/// Why a request could not be queued: the port thread has stopped, and the
/// request comes back unsent.
#[derive(Debug)]
pub enum LcdError {
    Disconnected(LcdCommand),
}

/// The bytes that carry one raster to the panel: for every pixel, row by row,
/// its RGB565 word, low byte first.
pub open spec fn rgb565_payload(img: Frame, w: nat, h: nat) -> Seq<u8> {
    Seq::new(
        w * h * 2,
        |i: int|
            {
                let k = i / 2;
                let p = img.pixel(k % (w as int), k / (w as int));
                if i % 2 == 0 {
                    (rgb565_value(p) % 256) as u8
                } else {
                    (rgb565_value(p) / 256) as u8
                }
            },
    )
}

/// The panel receives a raster row by row, each row left to right: pixel
/// `(x, y)` of a `w`-pixel-wide raster is word number `y * w + x`, sent low
/// byte first, and the word packs the top 5, 6 and 5 bits of red, green and
/// blue from the high bits down. So the second word of a row is the pixel to
/// the right of the first, not the one below it.
pub proof fn rgb565_payload_row_by_row(img: Frame, w: nat, h: nat, x: int, y: int)
    requires
        0 <= x < w,
        0 <= y < h,
    ensures
        rgb565_payload(img, w, h).len() == w * h * 2,
        ({
            let p = img.pixel(x, y);
            let word = (p[0] / 8) * 2048 + (p[1] / 4) * 32 + p[2] / 8;
            &&& rgb565_payload(img, w, h)[2 * (y * w + x)] == word % 256
            &&& rgb565_payload(img, w, h)[2 * (y * w + x) + 1] == word / 256
        }),
{
    let k = y * w + x;
    assert(k < w * h) by (nonlinear_arith)
        requires k == y * w + x, 0 <= x < w, 0 <= y < h;
    assert(0 <= k) by (nonlinear_arith)
        requires k == y * w + x, 0 <= x, 0 <= y, w >= 0;
    vstd::arithmetic::div_mod::lemma_fundamental_div_mod_converse(k, w as int, y, x);
    assert((2 * k) / 2 == k && (2 * k + 1) / 2 == k);
    assert((2 * k) % 2 == 0 && (2 * k + 1) % 2 == 1);
    let p = img.pixel(x, y);
    let word = (p[0] / 8) * 2048 + (p[1] / 4) * 32 + p[2] / 8;
    assert(0 <= word < 65536);
    assert(rgb565_value(p) == word);
}

/// Converts the top-left `w` x `h` pixels of a raster into the panel's pixel format.
pub fn frame_to_rgb565(img: &Frame, w: u16, h: u16) -> (out: Vec<u8>)
    requires
        img.wf(),
        w <= img.w(),
        h <= img.h(),
    ensures
        out@ == rgb565_payload(*img, w as nat, h as nat),
{
    let ghost payload = rgb565_payload(*img, w as nat, h as nat);
    let mut out: Vec<u8> = Vec::new();
    let mut py: u16 = 0;
    assert(0 * (w as int) == 0);
    while py < h
        invariant
            py <= h,
            img.wf(),
            w <= img.w(),
            h <= img.h(),
            payload == rgb565_payload(*img, w as nat, h as nat),
            out@.len() == (py as int) * (w as int) * 2,
            forall|i: int| 0 <= i < out@.len() ==> out@[i] == payload[i],
        decreases h - py,
    {
        let mut px: u16 = 0;
        while px < w
            invariant
                py < h,
                px <= w,
                img.wf(),
                w <= img.w(),
                h <= img.h(),
                payload == rgb565_payload(*img, w as nat, h as nat),
                out@.len() == ((py as int) * (w as int) + px as int) * 2,
                forall|i: int| 0 <= i < out@.len() ==> out@[i] == payload[i],
            decreases w - px,
        {
            let p = img.get_pixel(px as u32, py as u32);
            let b = rgb565_pixel(p);
            let ghost k = (py as int) * (w as int) + px as int;
            proof {
                vstd::arithmetic::div_mod::lemma_fundamental_div_mod_converse(
                    k,
                    w as int,
                    py as int,
                    px as int,
                );
                assert(k < (w as int) * (h as int)) by (nonlinear_arith)
                    requires k == (py as int) * (w as int) + px as int, px < w, py < h;
                assert((2 * k) / 2 == k && (2 * k + 1) / 2 == k);
                assert((2 * k) % 2 == 0 && (2 * k + 1) % 2 == 1);
            }
            out.push(b[0]);
            out.push(b[1]);
            px += 1;
        }
        py += 1;
        assert((py as int) * (w as int) == (py as int - 1) * (w as int) + w as int) by (nonlinear_arith);
    }
    assert(out@ =~= payload) by {
        assert((py as int) * (w as int) * 2 == (h as int) * (w as int) * 2);
        assert((h as int) * (w as int) == (w as int) * (h as int)) by (nonlinear_arith);
    }
    out
}

/// Counts consecutive failed port writes; from the third one in a row on, the
/// port is considered lost and the program restarts itself.
pub struct FailureTracker {
    consecutive: u32,
}

pub const FAILURE_LIMIT: u32 = 3;

impl FailureTracker {
    pub closed spec fn count(&self) -> nat {
        self.consecutive as nat
    }

    pub fn new() -> (t: FailureTracker)
        ensures
            t.count() == 0,
    {
        FailureTracker { consecutive: 0 }
    }

    pub fn consecutive_failures(&self) -> (n: u32)
        ensures
            n == self.count(),
    {
        self.consecutive
    }

    /// Records the outcome of one command: a success clears the count, a
    /// failure raises it. Returns whether the failure limit has been reached.
    pub fn record(&mut self, ok: bool) -> (hard_failure: bool)
        requires
            !ok ==> old(self).count() < u32::MAX,
        ensures
            final(self).count() == next_count(old(self).count(), ok),
            ok ==> final(self).count() == 0 && !hard_failure,
            !ok ==> final(self).count() == old(self).count() + 1 && hard_failure == (
            final(self).count() >= FAILURE_LIMIT),
    {
        if ok {
            self.consecutive = 0;
            false
        } else {
            self.consecutive = self.consecutive + 1;
            self.consecutive >= FAILURE_LIMIT
        }
    }
}

/// The failure count after one more command: zero after a success, one more
/// after a failure.
pub open spec fn next_count(count: nat, ok: bool) -> nat {
    if ok {
        0
    } else {
        count + 1
    }
}

/// The count a new tracker holds after recording `outcomes` in order.
pub open spec fn count_after(outcomes: Seq<bool>) -> nat
    decreases outcomes.len(),
{
    if outcomes.len() == 0 {
        0
    } else {
        next_count(count_after(outcomes.drop_last()), outcomes.last())
    }
}

proof fn lemma_count_at_least(s: Seq<bool>, m: nat)
    ensures
        count_after(s) >= m <==> (m <= s.len() && forall|j: int|
            s.len() - m <= j < s.len() ==> !#[trigger] s[j]),
    decreases s.len(),
{
    if m > 0 && s.len() > 0 {
        let d = s.drop_last();
        lemma_count_at_least(d, (m - 1) as nat);
        if s.last() {
            assert(s[s.len() - 1]);
        } else if m <= s.len() {
            if forall|j: int| d.len() - (m - 1) <= j < d.len() ==> !#[trigger] d[j] {
                assert forall|j: int| s.len() - m <= j < s.len() implies !#[trigger] s[j] by {
                    if j < s.len() - 1 {
                        assert(s[j] == d[j]);
                    }
                }
            }
            if forall|j: int| s.len() - m <= j < s.len() ==> !#[trigger] s[j] {
                assert forall|j: int| d.len() - (m - 1) <= j < d.len() implies !#[trigger] d[j] by {
                    assert(s[j] == d[j]);
                }
            }
        }
    }
}

/// The count is the number of failures since the last success, so a hard
/// failure is reported on command `k` exactly when it and the two before it
/// all failed: recording, for instance, failure, failure, success and then
/// four failures reports a hard failure on the last two.
pub proof fn hard_failure_on_third_failure_in_a_row(outcomes: Seq<bool>, k: int)
    requires
        0 <= k < outcomes.len(),
    ensures
        count_after(outcomes.take(k + 1)) >= FAILURE_LIMIT <==> (k >= 2 && !outcomes[k] && !outcomes[k - 1]
            && !outcomes[k - 2]),
{
    let s = outcomes.take(k + 1);
    lemma_count_at_least(s, 3);
    if k >= 2 {
        assert(s[k] == outcomes[k] && s[k - 1] == outcomes[k - 1] && s[k - 2] == outcomes[k - 2]);
    }
}

/// A serial port as the system lists it.
pub struct PortInfo {
    pub port_name: String,
    pub usb: Option<UsbPortInfo>,
}

/// What the system reports about a USB serial device.
pub struct UsbPortInfo {
    pub serial_number: Option<String>,
    pub vid: u16,
    pub pid: u16,
}

/// The panel identifies itself by serial number `USB35INCHIPSV2` or by the
/// USB ids 1a86:5722.
pub open spec fn is_panel_port(p: PortInfo) -> bool {
    match p.usb {
        Some(u) => (u.serial_number matches Some(sn) && sn@ == "USB35INCHIPSV2"@) || (u.vid
            == 0x1a86 && u.pid == 0x5722),
        None => false,
    }
}

fn is_panel_port_exec(p: &PortInfo) -> (r: bool)
    ensures
        r == is_panel_port(*p),
{
    match &p.usb {
        Some(u) => {
            let by_serial = match &u.serial_number {
                Some(sn) => {
                    let c = chars_of(sn.as_str());
                    eq_str(&c, "USB35INCHIPSV2")
                },
                None => false,
            };
            by_serial || (u.vid == 0x1a86 && u.pid == 0x5722)
        },
        None => false,
    }
}

/// The first port, in the order listed, that identifies itself as the panel.
pub fn find_panel_port(ports: &Vec<PortInfo>) -> (r: Option<usize>)
    ensures
        r matches Some(i) ==> i < ports@.len() && is_panel_port(ports@[i as int]) && forall|j: int|
            0 <= j < i ==> !is_panel_port(#[trigger] ports@[j]),
        r is None ==> forall|j: int| 0 <= j < ports@.len() ==> !is_panel_port(#[trigger] ports@[j]),
{
    let mut i: usize = 0;
    while i < ports.len()
        invariant
            i <= ports@.len(),
            forall|j: int| 0 <= j < i ==> !is_panel_port(#[trigger] ports@[j]),
        decreases ports@.len() - i,
    {
        if is_panel_port_exec(&ports[i]) {
            return Some(i);
        }
        i += 1;
    }
    None
}

/// Handle to the panel; the serial port itself belongs to a separate thread
/// that receives the commands queued here.
pub struct LcdComm {
    tx: Sender<LcdCommand>,
    queued: Ghost<Seq<LcdCommand>>,
}

/// The effect of one send: an accepted command joins the end of the queue
/// record; a refused one comes back and the record stays as it was.
pub open spec fn sent_one(before: LcdComm, after: LcdComm, r: Result<(), LcdError>, cmd: LcdCommand) -> bool {
    &&& after.sender() == before.sender()
    &&& match r {
        Ok(()) => after.queued() == before.queued().push(cmd),
        Err(LcdError::Disconnected(c)) => c == cmd && after.queued() == before.queued(),
    }
}

/// The command that carries the top-left `w` x `h` pixels of `img` to `(x, y)`.
pub open spec fn image_command(c: LcdCommand, img: Frame, x: u16, y: u16, w: u16, h: u16) -> bool {
    c matches LcdCommand::DisplayImage { rgb565, x: cx, y: cy, w: cw, h: ch } && cx == x && cy == y
        && cw == w && ch == h && rgb565@ == rgb565_payload(img, w as nat, h as nat)
}

/// The commands that bring the panel up: portrait orientation on the 320x480
/// panel, screen on, then the brightness.
pub open spec fn init_commands_spec(brightness: u8) -> Seq<LcdCommand> {
    seq![LcdCommand::SetOrientation(0, 320, 480), LcdCommand::ScreenOn, LcdCommand::SetBrightness(brightness)]
}

/// The start-up commands, in the order they are sent.
pub fn init_commands(brightness: u8) -> (v: Vec<LcdCommand>)
    ensures
        v@ == init_commands_spec(brightness),
{
    let mut v: Vec<LcdCommand> = Vec::new();
    v.push(LcdCommand::SetOrientation(0, 320, 480));
    v.push(LcdCommand::ScreenOn);
    v.push(LcdCommand::SetBrightness(brightness));
    assert(v@ =~= init_commands_spec(brightness));
    v
}

impl LcdComm {
    /// The sending end of the command queue.
    pub closed spec fn sender(&self) -> Sender<LcdCommand> {
        self.tx
    }

    /// Every command the queue has accepted through this handle, oldest first.
    pub closed spec fn queued(&self) -> Seq<LcdCommand> {
        self.queued@
    }

    /// Wraps the sending end of the port thread's command queue.
    pub fn from_sender(tx: Sender<LcdCommand>) -> (c: LcdComm)
        ensures
            c.sender() == tx,
            c.queued() == Seq::<LcdCommand>::empty(),
    {
        LcdComm { tx, queued: Ghost(Seq::empty()) }
    }

    fn send_cmd(&mut self, cmd: LcdCommand) -> (r: Result<(), LcdError>)
        ensures
            sent_one(*old(self), *final(self), r, cmd),
    {
        let ghost c = cmd;
        match channel_send(&self.tx, cmd) {
            Ok(()) => {
                proof {
                    self.queued@ = self.queued@.push(c);
                }
                Ok(())
            },
            Err(back) => Err(LcdError::Disconnected(back)),
        }
    }

    /// Queues a raster to be drawn with its top-left corner at `(x, y)`; its
    /// size is taken modulo 2^16, as the protocol carries 16-bit sizes.
    pub fn display_image(&mut self, img: &Frame, x: u16, y: u16) -> (r: Result<(), LcdError>)
        requires
            img.wf(),
        ensures
            final(self).sender() == old(self).sender(),
            match r {
                Ok(()) => final(self).queued().len() == old(self).queued().len() + 1
                    && final(self).queued().drop_last() == old(self).queued() && image_command(
                    final(self).queued().last(),
                    *img,
                    x,
                    y,
                    (img.w() % 65536) as u16,
                    (img.h() % 65536) as u16,
                ),
                Err(LcdError::Disconnected(c)) => final(self).queued() == old(self).queued()
                    && image_command(c, *img, x, y, (img.w() % 65536) as u16, (img.h() % 65536) as u16),
            },
    {
        let w = #[verifier::truncate] (img.width() as u16);
        let h = #[verifier::truncate] (img.height() as u16);
        assert(w == img.w() % 65536 && h == img.h() % 65536) by {
            let iw = img.w() as u32;
            let ih = img.h() as u32;
            assert(iw as u16 == iw % 65536 && ih as u16 == ih % 65536) by (bit_vector);
        }
        let rgb565 = frame_to_rgb565(img, w, h);
        let r = self.send_cmd(LcdCommand::DisplayImage { rgb565, x, y, w, h });
        proof {
            if r is Ok {
                assert(final(self).queued().drop_last() =~= old(self).queued());
            }
        }
        r
    }

    /// Puts the panel in portrait orientation, switches it on and sets its
    /// brightness: the commands of `init_commands`, in order. Stops at the
    /// first one that cannot be queued and hands it back; the ones before it
    /// stay queued.
    pub fn initialize(&mut self, brightness: u8) -> (r: Result<(), LcdError>)
        ensures
            final(self).sender() == old(self).sender(),
            match r {
                Ok(()) => final(self).queued() == old(self).queued() + init_commands_spec(brightness),
                Err(LcdError::Disconnected(c)) => {
                    let k = final(self).queued().len() - old(self).queued().len();
                    &&& 0 <= k < 3
                    &&& c == init_commands_spec(brightness)[k]
                    &&& final(self).queued() == old(self).queued() + init_commands_spec(brightness).take(k)
                },
            },
    {
        let ghost start = self.queued@;
        let ghost all = init_commands_spec(brightness);
        let mut cmds = init_commands(brightness);
        let mut k: usize = 0;
        while k < 3
            invariant
                k <= 3,
                self.tx == old(self).tx,
                start == old(self).queued(),
                all == init_commands_spec(brightness),
                cmds@ == all.skip(k as int),
                self.queued@ == start + all.take(k as int),
            decreases 3 - k,
        {
            let cmd = cmds.remove(0);
            let ghost before = self.queued@;
            match self.send_cmd(cmd) {
                Ok(()) => {
                    assert(all.take(k + 1) =~= all.take(k as int).push(all[k as int]));
                    assert(all.skip(k + 1) =~= all.skip(k as int).remove(0));
                    k += 1;
                },
                Err(e) => {
                    assert(self.queued@.len() == start.len() + k);
                    return Err(e);
                },
            }
        }
        assert(all.take(3) =~= all);
        Ok(())
    }

    pub fn reset(&mut self) -> (r: Result<(), LcdError>)
        ensures
            sent_one(*old(self), *final(self), r, LcdCommand::Reset),
    {
        self.send_cmd(LcdCommand::Reset)
    }

    pub fn screen_off(&mut self) -> (r: Result<(), LcdError>)
        ensures
            sent_one(*old(self), *final(self), r, LcdCommand::ScreenOff),
    {
        self.send_cmd(LcdCommand::ScreenOff)
    }

    pub fn screen_on(&mut self) -> (r: Result<(), LcdError>)
        ensures
            sent_one(*old(self), *final(self), r, LcdCommand::ScreenOn),
    {
        self.send_cmd(LcdCommand::ScreenOn)
    }

    /// Queues a brightness change; `level` is a percentage.
    pub fn set_brightness(&mut self, level: u8) -> (r: Result<(), LcdError>)
        ensures
            sent_one(*old(self), *final(self), r, LcdCommand::SetBrightness(level)),
    {
        self.send_cmd(LcdCommand::SetBrightness(level))
    }

    /// Queues an orientation change for the 320x480 panel.
    pub fn set_orientation(&mut self, orientation: u8) -> (r: Result<(), LcdError>)
        ensures
            sent_one(*old(self), *final(self), r, LcdCommand::SetOrientation(orientation, 320, 480)),
    {
        self.send_cmd(LcdCommand::SetOrientation(orientation, 320, 480))
    }

    /// Asks the port thread to stop.
    pub fn quit(&mut self) -> (r: Result<(), LcdError>)
        ensures
            sent_one(*old(self), *final(self), r, LcdCommand::Quit),
    {
        self.send_cmd(LcdCommand::Quit)
    }
}

/// What the port thread does next with the command it is writing: write
/// piece `i` of the command's writes, or finish (flushing the port or not,
/// and counting the command as written or failed).
#[derive(Debug, PartialEq, Eq, Structural)]
pub enum PortStep {
    Write(usize),
    Finish { flush: bool, ok: bool },
}

/// The progress of one command on the port: how many of its `total` writes
/// went through, and whether one failed.
pub struct PortRun {
    total: usize,
    written: usize,
    failed: bool,
    image: bool,
}

impl PortRun {
    pub closed spec fn total(&self) -> nat {
        self.total as nat
    }

    pub closed spec fn written(&self) -> nat {
        self.written as nat
    }

    pub closed spec fn failed(&self) -> bool {
        self.failed
    }

    pub closed spec fn image(&self) -> bool {
        self.image
    }

    pub closed spec fn wf(&self) -> bool {
        self.written <= self.total
    }

    /// Starts writing a command of `total` writes.
    pub fn start(cmd: &LcdCommand, total: usize) -> (r: PortRun)
        ensures
            r.wf(),
            r.total() == total,
            r.written() == 0,
            !r.failed(),
            r.image() == (*cmd is DisplayImage),
    {
        let image = match cmd {
            LcdCommand::DisplayImage { .. } => true,
            _ => false,
        };
        PortRun { total, written: 0, failed: false, image }
    }

    /// The next step: the writes go out in order until one fails or all are
    /// done. A command is written when all its writes went through; the port
    /// is flushed then, and also after a failed image once its header went out.
    pub fn next(&self) -> (step: PortStep)
        requires
            self.wf(),
        ensures
            step == next_step(self.total(), self.written(), self.failed(), self.image()),
    {
        if self.failed {
            PortStep::Finish { flush: self.image && self.written > 0, ok: false }
        } else if self.written < self.total {
            PortStep::Write(self.written)
        } else {
            PortStep::Finish { flush: true, ok: true }
        }
    }

    /// Records the outcome of the write just made.
    pub fn record(&mut self, ok: bool)
        requires
            old(self).wf(),
            !old(self).failed(),
            old(self).written() < old(self).total(),
        ensures
            final(self).wf(),
            final(self).total() == old(self).total(),
            final(self).image() == old(self).image(),
            ok ==> final(self).written() == old(self).written() + 1 && !final(self).failed(),
            !ok ==> final(self).written() == old(self).written() && final(self).failed(),
    {
        if ok {
            self.written = self.written + 1;
        } else {
            self.failed = true;
        }
    }
}

/// A command's writes go out in order: after `k` successful writes the next
/// step is write `k`, a failure ends the command as failed, and the command
/// counts as written only once every write went through.
pub proof fn port_run_in_order(total: nat, k: nat, image: bool)
    requires
        k <= total,
    ensures
        k < total ==> next_step(total, k, false, image) == PortStep::Write(k as usize),
        next_step(total, k, true, image) matches PortStep::Finish { ok, .. } && !ok,
        (next_step(total, k, false, image) matches PortStep::Finish { ok, .. } && ok) <==> k == total,
{
}

/// The step `next` gives for a run with these fields.
pub open spec fn next_step(total: nat, written: nat, failed: bool, image: bool) -> PortStep {
    if failed {
        PortStep::Finish { flush: image && written > 0, ok: false }
    } else if written < total {
        PortStep::Write(written as usize)
    } else {
        PortStep::Finish { flush: true, ok: true }
    }
}

} // verus!
