//! The wire format of the panel's serial command protocol.
use vstd::prelude::*;

verus! {

/// The six-byte command header: four 10-bit coordinates packed into five
/// bytes, followed by the command byte.
pub open spec fn header_spec(x: u16, y: u16, ex: u16, ey: u16, cmd: u8) -> Seq<u8> {
    seq![
        ((x / 4) % 256) as u8,
        (((x % 4) * 64 + y / 16) % 256) as u8,
        (((y % 16) * 16 + ex / 64) % 256) as u8,
        (((ex % 64) * 4 + ey / 256) % 256) as u8,
        (ey % 256) as u8,
        cmd,
    ]
}

/// Reads the coordinates and the command back out of a header.
pub open spec fn header_fields(h: Seq<u8>) -> (int, int, int, int, u8) {
    (
        h[0] * 4 + h[1] / 64,
        (h[1] % 64) * 16 + h[2] / 16,
        (h[2] % 16) * 64 + h[3] / 4,
        (h[3] % 4) * 256 + h[4],
        h[5],
    )
}

/// Packs a rectangle `(x, y)..=(ex, ey)` and a command code into a header.
pub fn encode_header(x: u16, y: u16, ex: u16, ey: u16, cmd: u8) -> (h: [u8; 6])
    ensures
        h@ == header_spec(x, y, ex, ey, cmd),
{
    assert(((x & 3) << 6) <= 192u16 && (y >> 4) <= 4095u16) by (bit_vector);
    assert(((y & 15) << 4) <= 240u16 && (ex >> 6) <= 1023u16) by (bit_vector);
    assert(((ex & 63) << 2) <= 252u16 && (ey >> 8) <= 255u16) by (bit_vector);
    let b0 = #[verifier::truncate] ((x >> 2) as u8);
    let b1 = #[verifier::truncate] ((((x & 3) << 6) + (y >> 4)) as u8);
    let b2 = #[verifier::truncate] ((((y & 15) << 4) + (ex >> 6)) as u8);
    let b3 = #[verifier::truncate] ((((ex & 63) << 2) + (ey >> 8)) as u8);
    let b4 = #[verifier::truncate] ((ey & 255) as u8);
    assert(b0 == ((x / 4) % 256) as u8) by (bit_vector)
        requires b0 == (x >> 2) as u8;
    assert(b1 == (((x % 4) * 64 + y / 16) % 256) as u8) by (bit_vector)
        requires b1 == (((x & 3) << 6) + (y >> 4)) as u8;
    assert(b2 == (((y % 16) * 16 + ex / 64) % 256) as u8) by (bit_vector)
        requires b2 == (((y & 15) << 4) + (ex >> 6)) as u8;
    assert(b3 == (((ex % 64) * 4 + ey / 256) % 256) as u8) by (bit_vector)
        requires b3 == (((ex & 63) << 2) + (ey >> 8)) as u8;
    assert(b4 == (ey % 256) as u8) by (bit_vector)
        requires b4 == (ey & 255) as u8;
    let h = [b0, b1, b2, b3, b4, cmd];
    assert(h@ =~= header_spec(x, y, ex, ey, cmd));
    h
}

/// Every coordinate below 1024 survives the packing: the header decodes to
/// exactly the rectangle and command it was built from.
pub proof fn header_round_trip(x: u16, y: u16, ex: u16, ey: u16, cmd: u8)
    requires
        x < 1024,
        y < 1024,
        ex < 1024,
        ey < 1024,
    ensures
        header_fields(header_spec(x, y, ex, ey, cmd)) == (x as int, y as int, ex as int, ey as int, cmd),
{
    let h = header_spec(x, y, ex, ey, cmd);
    assert(h[0] * 4 + h[1] / 64 == x) by (nonlinear_arith)
        requires x < 1024, h[0] == (x / 4) % 256, h[1] == ((x % 4) * 64 + y / 16) % 256, y < 1024;
    assert((h[1] % 64) * 16 + h[2] / 16 == y) by (nonlinear_arith)
        requires y < 1024, ex < 1024, h[1] == ((x % 4) * 64 + y / 16) % 256, h[2] == ((y % 16) * 16 + ex / 64) % 256, x < 1024;
    assert((h[2] % 16) * 64 + h[3] / 4 == ex) by (nonlinear_arith)
        requires ex < 1024, ey < 1024, h[2] == ((y % 16) * 16 + ex / 64) % 256, h[3] == ((ex % 64) * 4 + ey / 256) % 256, y < 1024;
    assert((h[3] % 4) * 256 + h[4] == ey) by (nonlinear_arith)
        requires ey < 1024, h[3] == ((ex % 64) * 4 + ey / 256) % 256, h[4] == ey % 256, ex < 1024;
}

} // verus!

verus! {

/// Largest piece of pixel data written to the port in one go.
pub const CHUNK_BYTES: usize = 2560;

/// Splits `s` into consecutive pieces of `CHUNK_BYTES` bytes; the last one may be shorter.
pub open spec fn chunk_seq(s: Seq<u8>) -> Seq<Seq<u8>>
    decreases s.len(),
{
    if s.len() == 0 {
        seq![]
    } else if s.len() <= CHUNK_BYTES {
        seq![s]
    } else {
        seq![s.take(CHUNK_BYTES as int)] + chunk_seq(s.skip(CHUNK_BYTES as int))
    }
}

/// Concatenation of a sequence of byte strings.
pub open spec fn flatten(parts: Seq<Seq<u8>>) -> Seq<u8>
    decreases parts.len(),
{
    if parts.len() == 0 {
        seq![]
    } else {
        parts[0] + flatten(parts.drop_first())
    }
}

/// Writing the chunks one after another writes exactly the bytes that were cut up,
/// and no chunk is empty or longer than `CHUNK_BYTES`.
pub proof fn chunks_reassemble(s: Seq<u8>)
    ensures
        flatten(chunk_seq(s)) == s,
        forall|i: int|
            0 <= i < chunk_seq(s).len() ==> 0 < #[trigger] chunk_seq(s)[i].len() <= CHUNK_BYTES,
    decreases s.len(),
{
    if s.len() == 0 {
    } else if s.len() <= CHUNK_BYTES {
        let c = chunk_seq(s);
        assert(c.drop_first() =~= Seq::<Seq<u8>>::empty());
        assert(flatten(c.drop_first()) =~= Seq::<u8>::empty());
        assert(flatten(c) =~= s);
    } else {
        let rest = s.skip(CHUNK_BYTES as int);
        chunks_reassemble(rest);
        let c = chunk_seq(s);
        assert(c.drop_first() =~= chunk_seq(rest));
        assert(s =~= s.take(CHUNK_BYTES as int) + rest);
        assert forall|i: int| 0 <= i < c.len() implies 0 < #[trigger] c[i].len() <= CHUNK_BYTES by {
            if i > 0 {
                assert(c[i] == chunk_seq(rest)[i - 1]);
            }
        }
    }
}

/// The byte strings held by a sequence of byte vectors.
pub open spec fn byte_views(v: Seq<Vec<u8>>) -> Seq<Seq<u8>> {
    v.map_values(|b: Vec<u8>| b@)
}

/// Cuts pixel data into the pieces that are written to the port.
pub fn split_chunks(data: &Vec<u8>) -> (out: Vec<Vec<u8>>)
    ensures
        byte_views(out@) == chunk_seq(data@),
{
    let mut out: Vec<Vec<u8>> = Vec::new();
    let mut start: usize = 0;
    let len = data.len();
    proof {
        assert(data@.skip(0) =~= data@);
        assert(byte_views(out@) =~= Seq::<Seq<u8>>::empty());
        assert(Seq::<Seq<u8>>::empty() + chunk_seq(data@) =~= chunk_seq(data@));
    }
    while start < len
        invariant
            len == data@.len(),
            start <= len,
            chunk_seq(data@) == byte_views(out@) + chunk_seq(data@.skip(start as int)),
        decreases len - start,
    {
        let end = if len - start > CHUNK_BYTES { start + CHUNK_BYTES } else { len };
        let mut piece: Vec<u8> = Vec::new();
        let mut i = start;
        while i < end
            invariant
                start <= i <= end <= len,
                len == data@.len(),
                piece@ == data@.subrange(start as int, i as int),
            decreases end - i,
        {
            piece.push(data[i]);
            i += 1;
            assert(piece@ =~= data@.subrange(start as int, i as int));
        }
        let ghost rest = data@.skip(start as int);
        let ghost old_out = byte_views(out@);
        out.push(piece);
        proof {
            assert(byte_views(out@) =~= old_out.push(data@.subrange(start as int, end as int)));
            if len - start > CHUNK_BYTES {
                assert(rest.take(CHUNK_BYTES as int) =~= data@.subrange(start as int, end as int));
                assert(rest.skip(CHUNK_BYTES as int) =~= data@.skip(end as int));
            } else {
                assert(rest =~= data@.subrange(start as int, end as int));
                assert(data@.skip(end as int) =~= seq![]);
                assert(chunk_seq(data@.skip(end as int)) =~= seq![]);
            }
            assert(old_out.push(data@.subrange(start as int, end as int)) + chunk_seq(data@.skip(end as int))
                =~= old_out + chunk_seq(rest));
        }
        start = end;
    }
    proof {
        assert(data@.skip(start as int) =~= seq![]);
        assert(byte_views(out@) + seq![] =~= byte_views(out@));
    }
    out
}

/// The little-endian RGB565 word for an RGB888 colour: 5 bits red, 6 bits green, 5 bits blue.
pub open spec fn rgb565_value(p: [u8; 3]) -> int {
    (p[0] / 8) * 2048 + (p[1] / 4) * 32 + p[2] / 8
}

/// The RGB565 word keeps the top 5, 6 and 5 bits of the three channels.
pub proof fn rgb565_keeps_high_bits(p: [u8; 3])
    ensures
        0 <= rgb565_value(p) < 65536,
        (rgb565_value(p) / 2048) * 8 == p[0] - p[0] % 8,
        ((rgb565_value(p) / 32) % 64) * 4 == p[1] - p[1] % 4,
        (rgb565_value(p) % 32) * 8 == p[2] - p[2] % 8,
{
    let v = rgb565_value(p);
    let r: int = (p[0] / 8) as int;
    let g: int = (p[1] / 4) as int;
    let b: int = (p[2] / 8) as int;
    assert(v == r * 2048 + g * 32 + b);
    vstd::arithmetic::div_mod::lemma_fundamental_div_mod_converse(v, 2048, r, g * 32 + b);
    vstd::arithmetic::div_mod::lemma_fundamental_div_mod_converse(v, 32, r * 64 + g, b);
    vstd::arithmetic::div_mod::lemma_fundamental_div_mod_converse(r * 64 + g, 64, r, g);
}

/// The two bytes sent for one pixel: the RGB565 word, low byte first.
pub fn rgb565_pixel(p: [u8; 3]) -> (b: [u8; 2])
    ensures
        b[0] == rgb565_value(p) % 256,
        b[1] == rgb565_value(p) / 256,
{
    let p0 = p[0];
    let p1 = p[1];
    let p2 = p[2];
    let r = (p0 as u16) >> 3;
    let g = (p1 as u16) >> 2;
    let bl = (p2 as u16) >> 3;
    assert(r <= 31 && g <= 63 && bl <= 31 && r == p0 / 8 && g == p1 / 4 && bl == p2 / 8) by (bit_vector)
        requires r == (p0 as u16) >> 3, g == (p1 as u16) >> 2, bl == (p2 as u16) >> 3;
    let val: u16 = (r << 11) | (g << 5) | bl;
    assert(val == r * 2048 + g * 32 + bl) by (bit_vector)
        requires r <= 31, g <= 63, bl <= 31, val == (r << 11) | (g << 5) | bl;
    let lo = #[verifier::truncate] ((val & 0xff) as u8);
    let hi = #[verifier::truncate] ((val >> 8) as u8);
    assert(lo == val % 256 && hi == val / 256) by (bit_vector)
        requires lo == (val & 0xff) as u8, hi == (val >> 8) as u8;
    [lo, hi]
}

} // verus!

verus! {

/// One request for the panel, as queued for the thread that owns the port.
#[derive(Debug)]
pub enum LcdCommand {
    DisplayImage { rgb565: Vec<u8>, x: u16, y: u16, w: u16, h: u16 },
    Reset,
    ScreenOff,
    ScreenOn,
    SetBrightness(u8),
    SetOrientation(u8, u16, u16),
    Quit,
}

/// Command codes of the panel's protocol.
pub const CMD_RESET: u8 = 101;
pub const CMD_SCREEN_OFF: u8 = 108;
pub const CMD_SCREEN_ON: u8 = 109;
pub const CMD_SET_BRIGHTNESS: u8 = 110;
pub const CMD_SET_ORIENTATION: u8 = 121;
pub const CMD_DISPLAY_BITMAP: u8 = 197;

/// The panel's brightness byte runs backwards: 255 is dark, 0 is full brightness.
pub open spec fn brightness_level(level: u8) -> int {
    255 - (level * 255) / 100
}

impl LcdCommand {
    /// The command can be put on the wire: the end coordinates `x + w - 1` and
    /// `y + h - 1` of its rectangle are 16-bit values (an empty image away from
    /// the origin ends one before its start), the brightness is a percentage
    /// and the orientation code leaves room for the protocol's offset of 100.
    pub open spec fn encodable(&self) -> bool {
        match *self {
            LcdCommand::DisplayImage { x, y, w, h, .. } => 1 <= x + w && 1 <= y + h && x + w
                <= u16::MAX && y + h <= u16::MAX,
            LcdCommand::SetBrightness(level) => level <= 100,
            LcdCommand::SetOrientation(o, _, _) => o + 100 <= u8::MAX,
            _ => true,
        }
    }

    pub fn is_encodable(&self) -> (r: bool)
        ensures
            r == self.encodable(),
    {
        match self {
            LcdCommand::DisplayImage { x, y, w, h, .. } => {
                let ex = (*x as u32) + (*w as u32);
                let ey = (*y as u32) + (*h as u32);
                1 <= ex && 1 <= ey && ex <= u16::MAX as u32 && ey <= u16::MAX as u32
            },
            LcdCommand::SetBrightness(level) => *level <= 100,
            LcdCommand::SetOrientation(o, _, _) => (*o as u16) + 100 <= u8::MAX as u16,
            _ => true,
        }
    }

    /// The byte strings written to the port for this command, in order.
    pub open spec fn writes(&self) -> Seq<Seq<u8>> {
        match *self {
            LcdCommand::DisplayImage { rgb565, x, y, w, h } => seq![
                header_spec(x, y, (x + w - 1) as u16, (y + h - 1) as u16, CMD_DISPLAY_BITMAP),
            ] + chunk_seq(rgb565@),
            LcdCommand::Reset => seq![header_spec(0, 0, 0, 0, CMD_RESET)],
            LcdCommand::ScreenOff => seq![header_spec(0, 0, 0, 0, CMD_SCREEN_OFF)],
            LcdCommand::ScreenOn => seq![header_spec(0, 0, 0, 0, CMD_SCREEN_ON)],
            LcdCommand::SetBrightness(level) => seq![
                header_spec(brightness_level(level) as u16, 0, 0, 0, CMD_SET_BRIGHTNESS),
            ],
            LcdCommand::SetOrientation(o, width, height) => seq![
                header_spec(0, 0, 0, 0, CMD_SET_ORIENTATION) + seq![
                    (o + 100) as u8,
                    (width / 256) as u8,
                    (width % 256) as u8,
                    (height / 256) as u8,
                    (height % 256) as u8,
                ],
            ],
            LcdCommand::Quit => seq![],
        }
    }

    /// Encodes the command into the writes the port thread performs.
    pub fn encode(&self) -> (out: Vec<Vec<u8>>)
        requires
            self.encodable(),
        ensures
            byte_views(out@) == self.writes(),
    {
        match self {
            LcdCommand::DisplayImage { rgb565, x, y, w, h } => {
                let header = encode_header(*x, *y, *x + *w - 1, *y + *h - 1, CMD_DISPLAY_BITMAP);
                let chunks = split_chunks(rgb565);
                let mut out: Vec<Vec<u8>> = Vec::new();
                out.push(header_vec(&header));
                let mut i: usize = 0;
                while i < chunks.len()
                    invariant
                        i <= chunks@.len(),
                        byte_views(chunks@) == chunk_seq(rgb565@),
                        byte_views(out@) == seq![header@] + byte_views(chunks@).take(i as int),
                    decreases chunks@.len() - i,
                {
                    let ghost prev = byte_views(out@);
                    out.push(copy_bytes(&chunks[i]));
                    assert(byte_views(out@) =~= prev.push(chunks@[i as int]@));
                    i += 1;
                    assert(byte_views(chunks@).take(i as int) =~= byte_views(chunks@).take(
                        (i - 1) as int,
                    ).push(chunks@[i - 1]@));
                    assert(byte_views(out@) =~= seq![header@] + byte_views(chunks@).take(i as int));
                }
                assert(byte_views(chunks@).take(i as int) =~= byte_views(chunks@));
                out
            },
            LcdCommand::Reset => single_write(&encode_header(0, 0, 0, 0, CMD_RESET)),
            LcdCommand::ScreenOff => single_write(&encode_header(0, 0, 0, 0, CMD_SCREEN_OFF)),
            LcdCommand::ScreenOn => single_write(&encode_header(0, 0, 0, 0, CMD_SCREEN_ON)),
            LcdCommand::SetBrightness(level) => {
                let scaled: u16 = (*level as u16) * 255 / 100;
                let level_abs: u16 = 255 - scaled;
                single_write(&encode_header(level_abs, 0, 0, 0, CMD_SET_BRIGHTNESS))
            },
            LcdCommand::SetOrientation(o, width, height) => {
                let hdr = encode_header(0, 0, 0, 0, CMD_SET_ORIENTATION);
                let mut buf = header_vec(&hdr);
                let wv = *width;
                let hv = *height;
                assert((wv >> 8) < 256 && (wv >> 8) == wv / 256 && (wv & 0xff) == wv % 256) by (bit_vector);
                assert((hv >> 8) < 256 && (hv >> 8) == hv / 256 && (hv & 0xff) == hv % 256) by (bit_vector);
                let b6 = *o + 100;
                let b7 = (wv >> 8) as u8;
                let b8 = #[verifier::truncate] ((wv & 0xff) as u8);
                let b9 = (hv >> 8) as u8;
                let b10 = #[verifier::truncate] ((hv & 0xff) as u8);
                buf.push(b6);
                buf.push(b7);
                buf.push(b8);
                buf.push(b9);
                buf.push(b10);
                assert(buf@ =~= header_spec(0, 0, 0, 0, CMD_SET_ORIENTATION) + seq![b6, b7, b8, b9, b10]);
                let mut out: Vec<Vec<u8>> = Vec::new();
                out.push(buf);
                assert(byte_views(out@) =~= self.writes());
                out
            },
            LcdCommand::Quit => {
                let out: Vec<Vec<u8>> = Vec::new();
                assert(byte_views(out@) =~= Seq::<Seq<u8>>::empty());
                out
            },
        }
    }
}

/// Everything written for an image, one write after the other, is its header
/// followed by exactly its pixel data; every other command is one write (or,
/// for `Quit`, none).
pub proof fn image_writes_carry_payload(cmd: LcdCommand)
    ensures
        cmd matches LcdCommand::DisplayImage { rgb565, x, y, w, h } ==> flatten(cmd.writes()) == header_spec(
            x,
            y,
            (x + w - 1) as u16,
            (y + h - 1) as u16,
            CMD_DISPLAY_BITMAP,
        ) + rgb565@,
        !(cmd is DisplayImage) && !(cmd is Quit) ==> cmd.writes().len() == 1,
        cmd is Quit ==> cmd.writes().len() == 0,
{
    if let LcdCommand::DisplayImage { rgb565, x, y, w, h } = cmd {
        let hd = header_spec(x, y, (x + w - 1) as u16, (y + h - 1) as u16, CMD_DISPLAY_BITMAP);
        chunks_reassemble(rgb565@);
        let ws = cmd.writes();
        assert(ws == seq![hd] + chunk_seq(rgb565@));
        assert(ws[0] == hd);
        assert(ws.drop_first() =~= chunk_seq(rgb565@));
    }
}

fn header_vec(h: &[u8; 6]) -> (v: Vec<u8>)
    ensures
        v@ == h@,
{
    let v = vec![h[0], h[1], h[2], h[3], h[4], h[5]];
    assert(v@ =~= h@);
    v
}

fn copy_bytes(b: &Vec<u8>) -> (v: Vec<u8>)
    ensures
        v@ == b@,
{
    let mut v: Vec<u8> = Vec::new();
    let mut i: usize = 0;
    while i < b.len()
        invariant
            i <= b@.len(),
            v@ == b@.take(i as int),
        decreases b@.len() - i,
    {
        v.push(b[i]);
        i += 1;
        assert(v@ =~= b@.take(i as int));
    }
    assert(b@.take(i as int) =~= b@);
    v
}

fn single_write(h: &[u8; 6]) -> (out: Vec<Vec<u8>>)
    ensures
        byte_views(out@) == seq![h@],
{
    let mut out: Vec<Vec<u8>> = Vec::new();
    out.push(header_vec(h));
    assert(byte_views(out@) =~= seq![h@]);
    out
}

} // verus!
