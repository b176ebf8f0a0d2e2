//! Messages that a GPU backend sends to the display, and the answers to them.
use vhost::vhost_user::gpu_message::{
    GpuBackendReq, VhostUserGpuHeaderFlag, VhostUserGpuScanout, VhostUserGpuUpdate,
};
use vm_memory::ByteValued;
use vstd::prelude::*;

verus! {

/// Bytes that a pixel takes.
pub const BYTES_PER_PIXEL: usize = 4;

/// Bytes of the fixed part of a scanout message.
pub const SCANOUT_BYTES: usize = 12;

/// Bytes of the fixed part of an update message.
pub const UPDATE_BYTES: usize = 20;

/// The flag of a message that answers another.
pub const GPU_REPLY_FLAG: u32 = 4;

/// The answer that carries the display's modes.
pub const RESP_OK_DISPLAY_INFO: u32 = 0x1101;

/// The answer that carries the display's identification.
pub const RESP_OK_EDID: u32 = 0x1104;

/// Words of the header that starts every answer.
pub const RESPONSE_HEADER_WORDS: usize = 6;

/// Words of the answer that carries the display's modes.
pub const DISPLAY_INFO_WORDS: usize = 102;

/// Bytes that an answer has for the display's identification.
pub const EDID_BYTES: usize = 1024;

/// What a GPU backend asks for.
#[derive(Clone, Copy, Debug, PartialEq, Eq, Structural)]
pub enum GpuRequest {
    GetProtocolFeatures,
    SetProtocolFeatures,
    GetDisplayInfo,
    CursorPos,
    CursorPosHide,
    CursorUpdate,
    Scanout,
    Update,
    DmabufScanout,
    DmabufUpdate,
    GetEdid,
    DmabufScanout2,
    Unknown,
}

/// The request that a number stands for.
pub open spec fn gpu_request_spec(request: u32) -> GpuRequest {
    match request {
        1 => GpuRequest::GetProtocolFeatures,
        2 => GpuRequest::SetProtocolFeatures,
        3 => GpuRequest::GetDisplayInfo,
        4 => GpuRequest::CursorPos,
        5 => GpuRequest::CursorPosHide,
        6 => GpuRequest::CursorUpdate,
        7 => GpuRequest::Scanout,
        8 => GpuRequest::Update,
        9 => GpuRequest::DmabufScanout,
        10 => GpuRequest::DmabufUpdate,
        11 => GpuRequest::GetEdid,
        12 => GpuRequest::DmabufScanout2,
        _ => GpuRequest::Unknown,
    }
}

/// `vhost::vhost_user::gpu_message::GpuBackendReq::try_from`: the request that a number
/// stands for. The numbers from 1 to 12 each stand for one, the others for none.
#[verifier::external_body]
fn gpu_request(request: u32) -> (result: GpuRequest)
    ensures
        result == gpu_request_spec(request),
{
    match GpuBackendReq::try_from(request) {
        Ok(GpuBackendReq::GET_PROTOCOL_FEATURES) => GpuRequest::GetProtocolFeatures,
        Ok(GpuBackendReq::SET_PROTOCOL_FEATURES) => GpuRequest::SetProtocolFeatures,
        Ok(GpuBackendReq::GET_DISPLAY_INFO) => GpuRequest::GetDisplayInfo,
        Ok(GpuBackendReq::CURSOR_POS) => GpuRequest::CursorPos,
        Ok(GpuBackendReq::CURSOR_POS_HIDE) => GpuRequest::CursorPosHide,
        Ok(GpuBackendReq::CURSOR_UPDATE) => GpuRequest::CursorUpdate,
        Ok(GpuBackendReq::SCANOUT) => GpuRequest::Scanout,
        Ok(GpuBackendReq::UPDATE) => GpuRequest::Update,
        Ok(GpuBackendReq::DMABUF_SCANOUT) => GpuRequest::DmabufScanout,
        Ok(GpuBackendReq::DMABUF_UPDATE) => GpuRequest::DmabufUpdate,
        Ok(GpuBackendReq::GET_EDID) => GpuRequest::GetEdid,
        Ok(GpuBackendReq::DMABUF_SCANOUT2) => GpuRequest::DmabufScanout2,
        Err(_) => GpuRequest::Unknown,
    }
}

/// Four bytes as a number, the least significant first.
pub open spec fn word_le(bytes: Seq<u8>, at: int) -> int {
    bytes[at] + 0x100 * bytes[at + 1] + 0x1_0000 * bytes[at + 2] + 0x100_0000 * bytes[at + 3]
}

/// Four bytes as a number, the most significant first.
pub open spec fn word_be(bytes: Seq<u8>, at: int) -> int {
    bytes[at + 3] + 0x100 * bytes[at + 2] + 0x1_0000 * bytes[at + 1] + 0x100_0000 * bytes[at]
}

/// The size of a scanout.
#[derive(Clone, Copy, Debug, PartialEq, Eq, Structural)]
pub struct GpuScanout {
    pub scanout_id: u32,
    pub width: u32,
    pub height: u32,
}

impl GpuScanout {
    /// The scanout is what the bytes say in one of the two byte orders.
    pub open spec fn read_from(self, bytes: Seq<u8>) -> bool {
        ||| (self.scanout_id == word_le(bytes, 0) && self.width == word_le(bytes, 4) && self.height
            == word_le(bytes, 8))
        ||| (self.scanout_id == word_be(bytes, 0) && self.width == word_be(bytes, 4) && self.height
            == word_be(bytes, 8))
    }
}

/// A rectangle of a scanout that changed.
#[derive(Clone, Copy, Debug, PartialEq, Eq, Structural)]
pub struct GpuUpdate {
    pub scanout_id: u32,
    pub x: u32,
    pub y: u32,
    pub width: u32,
    pub height: u32,
}

impl GpuUpdate {
    /// The update is what the bytes say in one of the two byte orders.
    pub open spec fn read_from(self, bytes: Seq<u8>) -> bool {
        ||| (self.scanout_id == word_le(bytes, 0) && self.x == word_le(bytes, 4) && self.y
            == word_le(bytes, 8) && self.width == word_le(bytes, 12) && self.height == word_le(
            bytes,
            16,
        ))
        ||| (self.scanout_id == word_be(bytes, 0) && self.x == word_be(bytes, 4) && self.y
            == word_be(bytes, 8) && self.width == word_be(bytes, 12) && self.height == word_be(
            bytes,
            16,
        ))
    }
}

/// `vm_memory::ByteValued::as_mut_slice` on `vhost`'s `VhostUserGpuScanout`: the words of the
/// message in the machine's byte order. Which order that is is left unsaid.
#[verifier::external_body]
fn scanout_from_bytes(bytes: &Vec<u8>) -> (scanout: GpuScanout)
    requires
        bytes@.len() >= SCANOUT_BYTES,
    ensures
        scanout.read_from(bytes@),
{
    let mut read = VhostUserGpuScanout::default();
    read.as_mut_slice().copy_from_slice(&bytes[..SCANOUT_BYTES]);
    GpuScanout { scanout_id: read.scanout_id, width: read.width, height: read.height }
}

/// `vm_memory::ByteValued::as_mut_slice` on `vhost`'s `VhostUserGpuUpdate`: the words of the
/// message in the machine's byte order. Which order that is is left unsaid.
#[verifier::external_body]
fn update_from_bytes(bytes: &Vec<u8>) -> (update: GpuUpdate)
    requires
        bytes@.len() >= UPDATE_BYTES,
    ensures
        update.read_from(bytes@),
{
    let mut read = VhostUserGpuUpdate::default();
    read.as_mut_slice().copy_from_slice(&bytes[..UPDATE_BYTES]);
    GpuUpdate {
        scanout_id: read.scanout_id,
        x: read.x,
        y: read.y,
        width: read.width,
        height: read.height,
    }
}

/// The size of the display.
#[derive(Clone, Copy, Debug, PartialEq, Eq, Structural)]
pub struct DisplaySize {
    pub width: u32,
    pub height: u32,
}

/// Why a message was not carried out.
#[derive(Clone, Copy, Debug, PartialEq, Eq, Structural)]
pub enum GpuMessageError {
    PayloadTooShort,
    InvalidScanout(u32),
    PixelsTooShort,
    OutOfBounds,
}

/// What a scanout message asks of the display.
#[derive(Clone, Copy, Debug, PartialEq, Eq, Structural)]
pub enum ScanoutAction {
    Disable,
    Configure { display_width: u32, display_height: u32, width: u32, height: u32 },
}

/// What the display is asked to do for a scanout.
pub open spec fn scanout_spec(scanout: GpuScanout, display: Option<DisplaySize>) -> Result<
    ScanoutAction,
    GpuMessageError,
> {
    if scanout.scanout_id != 0 {
        Err(GpuMessageError::InvalidScanout(scanout.scanout_id))
    } else if scanout.width == 0 || scanout.height == 0 {
        Ok(ScanoutAction::Disable)
    } else {
        Ok(
            ScanoutAction::Configure {
                display_width: match display {
                    Some(size) => size.width,
                    None => scanout.width,
                },
                display_height: match display {
                    Some(size) => size.height,
                    None => scanout.height,
                },
                width: scanout.width,
                height: scanout.height,
            },
        )
    }
}

/// What the display is asked to do for a scanout. Only the first scanout exists. An empty
/// scanout is switched off. Without a size of its own the display takes the scanout's.
pub fn scanout_action(scanout: GpuScanout, display: Option<DisplaySize>) -> (result: Result<
    ScanoutAction,
    GpuMessageError,
>)
    ensures
        result == scanout_spec(scanout, display),
{
    if scanout.scanout_id != 0 {
        return Err(GpuMessageError::InvalidScanout(scanout.scanout_id));
    }
    if scanout.width == 0 || scanout.height == 0 {
        return Ok(ScanoutAction::Disable);
    }
    let (display_width, display_height) = match display {
        Some(size) => (size.width, size.height),
        None => (scanout.width, scanout.height),
    };
    Ok(
        ScanoutAction::Configure {
            display_width,
            display_height,
            width: scanout.width,
            height: scanout.height,
        },
    )
}

/// What a scanout message asks of the display.
pub fn handle_gpu_scanout(payload: &Vec<u8>, display: Option<DisplaySize>) -> (result: Result<
    ScanoutAction,
    GpuMessageError,
>)
    ensures
        payload@.len() < SCANOUT_BYTES ==> result == Err::<ScanoutAction, _>(
            GpuMessageError::PayloadTooShort,
        ),
        payload@.len() >= SCANOUT_BYTES ==> exists|scanout: GpuScanout|
            #[trigger] scanout.read_from(payload@) && result == scanout_spec(scanout, display),
{
    if payload.len() < SCANOUT_BYTES {
        return Err(GpuMessageError::PayloadTooShort);
    }
    let scanout = scanout_from_bytes(payload);
    scanout_action(scanout, display)
}

/// A rectangle to be drawn into a frame whose rows are `frame_width` pixels wide.
#[derive(Clone, Copy, Debug, PartialEq, Eq, Structural)]
pub struct DrawPlan {
    pub x: usize,
    pub y: usize,
    pub width: usize,
    pub height: usize,
    pub frame_width: usize,
    pub frame_height: usize,
}

impl DrawPlan {
    /// The rectangle lies in the frame.
    pub open spec fn wf(self) -> bool {
        &&& self.x + self.width <= self.frame_width <= u32::MAX
        &&& self.y + self.height <= self.frame_height <= u32::MAX
    }

    /// Bytes of the whole frame.
    pub open spec fn frame_bytes(self) -> int {
        self.frame_width * self.frame_height * BYTES_PER_PIXEL
    }

    /// Bytes of the rectangle.
    pub open spec fn pixel_bytes(self) -> int {
        self.width * self.height * BYTES_PER_PIXEL
    }

    /// Where a byte of the rectangle's row stands in the frame.
    pub open spec fn target(self, row: int, at: int) -> int {
        ((self.y + row) * self.frame_width + self.x) * BYTES_PER_PIXEL + at
    }

    /// Where a byte of the rectangle's row stands in the pixels.
    pub open spec fn source(self, row: int, at: int) -> int {
        row * self.width * BYTES_PER_PIXEL + at
    }

    /// `row` and `at` name a byte of the rectangle.
    pub open spec fn inside(self, row: int, at: int) -> bool {
        0 <= row < self.height && 0 <= at < self.width * BYTES_PER_PIXEL
    }

    /// The first `rows` rows of the rectangle are drawn, and nothing else of the frame has
    /// changed.
    pub open spec fn drawn_rows(
        self,
        rows: int,
        before: Seq<u8>,
        pixels: Seq<u8>,
        after: Seq<u8>,
    ) -> bool {
        &&& after.len() == before.len()
        &&& forall|row: int, at: int|
            #![trigger self.target(row, at)]
            self.inside(row, at) && row < rows ==> after[self.target(row, at)]
                == pixels[self.source(row, at)]
        &&& forall|k: int|
            0 <= k < after.len() && (forall|row: int, at: int|
                #![trigger self.target(row, at)]
                self.inside(row, at) && row < rows ==> self.target(row, at) != k)
                ==> #[trigger] after[k] == before[k]
    }

    /// The rectangle is drawn, and nothing else of the frame has changed.
    pub open spec fn drawn(self, before: Seq<u8>, pixels: Seq<u8>, after: Seq<u8>) -> bool {
        self.drawn_rows(self.height as int, before, pixels, after)
    }
}

/// What is drawn for an update of which `pixels` bytes of pixels came.
pub open spec fn update_spec(
    update: GpuUpdate,
    pixels: int,
    display: Option<DisplaySize>,
) -> Result<DrawPlan, GpuMessageError> {
    let frame_width = match display {
        Some(size) => size.width,
        None => update.width,
    };
    let frame_height = match display {
        Some(size) => size.height,
        None => update.height,
    };
    if update.scanout_id != 0 {
        Err(GpuMessageError::InvalidScanout(update.scanout_id))
    } else if pixels < update.width * update.height * BYTES_PER_PIXEL {
        Err(GpuMessageError::PixelsTooShort)
    } else if update.x + update.width > frame_width || update.y + update.height > frame_height {
        Err(GpuMessageError::OutOfBounds)
    } else {
        Ok(
            DrawPlan {
                x: update.x as usize,
                y: update.y as usize,
                width: update.width as usize,
                height: update.height as usize,
                frame_width: frame_width as usize,
                frame_height: frame_height as usize,
            },
        )
    }
}

/// What is drawn for an update of which `pixels` bytes of pixels came: only the first scanout
/// exists, every pixel of the rectangle must be there, and the rectangle must lie in the
/// frame.
pub fn update_plan(update: GpuUpdate, pixels: usize, display: Option<DisplaySize>) -> (result:
    Result<DrawPlan, GpuMessageError>)
    ensures
        result == update_spec(update, pixels as int, display),
        result matches Ok(plan) ==> plan.wf() && plan.pixel_bytes() <= pixels,
{
    if update.scanout_id != 0 {
        return Err(GpuMessageError::InvalidScanout(update.scanout_id));
    }
    proof {
        assert(update.width * update.height <= 0xffff_ffff * 0xffff_ffff) by (nonlinear_arith)
            requires
                update.width <= 0xffff_ffff,
                update.height <= 0xffff_ffff,
        ;
    }
    let area: u64 = update.width as u64 * update.height as u64;
    let needed: u128 = area as u128 * 4;
    if (pixels as u128) < needed {
        return Err(GpuMessageError::PixelsTooShort);
    }
    let (frame_width, frame_height) = match display {
        Some(size) => (size.width, size.height),
        None => (update.width, update.height),
    };
    if update.x as u64 + update.width as u64 > frame_width as u64 || update.y as u64
        + update.height as u64 > frame_height as u64 {
        return Err(GpuMessageError::OutOfBounds);
    }
    Ok(
        DrawPlan {
            x: update.x as usize,
            y: update.y as usize,
            width: update.width as usize,
            height: update.height as usize,
            frame_width: frame_width as usize,
            frame_height: frame_height as usize,
        },
    )
}

/// What is drawn for an update message. The pixels are what follows the message's fixed part.
pub fn handle_gpu_update(payload: &Vec<u8>, display: Option<DisplaySize>) -> (result: Result<
    DrawPlan,
    GpuMessageError,
>)
    ensures
        payload@.len() < UPDATE_BYTES ==> result == Err::<DrawPlan, _>(
            GpuMessageError::PayloadTooShort,
        ),
        payload@.len() >= UPDATE_BYTES ==> exists|update: GpuUpdate|
            #[trigger] update.read_from(payload@) && result == update_spec(
                update,
                payload@.len() - UPDATE_BYTES,
                display,
            ),
        result matches Ok(plan) ==> plan.wf() && plan.pixel_bytes() <= payload@.len()
            - UPDATE_BYTES,
{
    if payload.len() < UPDATE_BYTES {
        return Err(GpuMessageError::PayloadTooShort);
    }
    let update = update_from_bytes(payload);
    update_plan(update, payload.len() - UPDATE_BYTES, display)
}

/// The bytes of one row of the rectangle come before those of a later row.
proof fn lemma_rows_apart(plan: DrawPlan, row: int, at: int, later: int, later_at: int)
    requires
        plan.wf(),
        plan.inside(row, at),
        row < later,
        0 <= later_at,
    ensures
        plan.target(row, at) < plan.target(later, later_at),
{
    let w = plan.frame_width as int;
    assert((plan.y + row) * w + w <= (plan.y + later) * w) by (nonlinear_arith)
        requires
            row < later,
            w >= 0,
    ;
}

/// The bytes of a row of the rectangle stand in the frame and in the pixels.
proof fn lemma_row_in_bounds(plan: DrawPlan, row: int)
    requires
        plan.wf(),
        0 <= row < plan.height,
    ensures
        0 <= plan.target(row, 0),
        plan.target(row, plan.width * BYTES_PER_PIXEL) <= plan.target(
            plan.height - 1,
            plan.width * BYTES_PER_PIXEL,
        ),
        0 <= plan.source(row, 0),
        plan.source(row, plan.width * BYTES_PER_PIXEL) <= plan.pixel_bytes(),
        plan.target(row, plan.width * BYTES_PER_PIXEL) <= plan.frame_bytes(),
{
    let w = plan.frame_width as int;
    let h = plan.height as int;
    let pw = plan.width as int;
    assert(0 <= (plan.y + row) * w <= (plan.y + h - 1) * w) by (nonlinear_arith)
        requires
            0 <= row < h,
            w >= 0,
            plan.y >= 0,
    ;
    assert((plan.y + row) * w + w <= w * plan.frame_height) by (nonlinear_arith)
        requires
            row < h,
            plan.y + h <= plan.frame_height,
            w >= 0,
    ;
    assert(0 <= row * pw && row * pw + pw <= pw * h) by (nonlinear_arith)
        requires
            0 <= row < h,
            pw >= 0,
    ;
}

/// Draws the rectangle of an update into a frame, row by row. The pixels start behind the
/// message's fixed part.
pub fn draw_update(frame: &mut [u8], payload: &Vec<u8>, plan: &DrawPlan)
    requires
        plan.wf(),
        payload@.len() >= UPDATE_BYTES + plan.pixel_bytes(),
        plan.height > 0 ==> plan.target(plan.height - 1, plan.width * BYTES_PER_PIXEL) <= old(
            frame,
        )@.len(),
    ensures
        plan.drawn(
            old(frame)@,
            payload@.subrange(UPDATE_BYTES as int, payload@.len() as int),
            final(frame)@,
        ),
{
    let ghost before = frame@;
    let ghost pixels = payload@.subrange(UPDATE_BYTES as int, payload@.len() as int);
    let frame_len: usize = frame.len();
    let payload_len: usize = payload.len();
    let mut row: usize = 0;
    while row < plan.height
        invariant
            plan.wf(),
            frame_len == before.len(),
            payload_len == payload@.len(),
            row <= plan.height,
            payload@.len() >= UPDATE_BYTES + plan.pixel_bytes(),
            pixels == payload@.subrange(UPDATE_BYTES as int, payload@.len() as int),
            before == old(frame)@,
            plan.height > 0 ==> plan.target(plan.height - 1, plan.width * BYTES_PER_PIXEL)
                <= before.len(),
            plan.drawn_rows(row as int, before, pixels, frame@),
        decreases plan.height - row,
    {
        proof {
            lemma_row_in_bounds(*plan, row as int);
        }
        let ghost start = frame@;
        let ghost first = plan.target(row as int, 0);
        let row_bytes: usize = plan.width * 4;
        proof {
            let w = plan.frame_width as int;
            assert(0 <= (plan.y + row) * w) by (nonlinear_arith)
                requires
                    w >= 0,
                    plan.y >= 0,
                    row >= 0,
            ;
            assert(0 <= row * plan.width) by (nonlinear_arith);
        }
        let dst: usize = ((plan.y + row) * plan.frame_width + plan.x) * 4;
        let src: usize = row * plan.width * 4;
        let mut at: usize = 0;
        while at < row_bytes
            invariant
                at <= row_bytes,
                frame_len == start.len(),
                payload_len == payload@.len(),
                row_bytes == plan.width * BYTES_PER_PIXEL,
                frame@.len() == start.len(),
                dst + row_bytes <= start.len(),
                src + row_bytes + UPDATE_BYTES <= payload@.len(),
                pixels == payload@.subrange(UPDATE_BYTES as int, payload@.len() as int),
                forall|k: int|
                    0 <= k < start.len() ==> #[trigger] frame@[k] == if dst <= k < dst + at {
                        pixels[src + (k - dst)]
                    } else {
                        start[k]
                    },
            decreases row_bytes - at,
        {
            frame[dst + at] = payload[UPDATE_BYTES + src + at];
            at += 1;
        }
        proof {
            lemma_row_drawn(*plan, row as int, before, pixels, start, frame@);
        }
        row += 1;
    }
}

/// With one more row copied, one more row is drawn.
proof fn lemma_row_drawn(
    plan: DrawPlan,
    row: int,
    before: Seq<u8>,
    pixels: Seq<u8>,
    start: Seq<u8>,
    after: Seq<u8>,
)
    requires
        plan.wf(),
        0 <= row < plan.height,
        plan.drawn_rows(row, before, pixels, start),
        after.len() == start.len(),
        plan.target(row, plan.width * BYTES_PER_PIXEL) <= start.len(),
        0 <= plan.target(row, 0),
        forall|k: int|
            0 <= k < start.len() ==> #[trigger] after[k] == if plan.target(row, 0) <= k
                < plan.target(row, plan.width * BYTES_PER_PIXEL) {
                pixels[plan.source(row, 0) + (k - plan.target(row, 0))]
            } else {
                start[k]
            },
    ensures
        plan.drawn_rows(row + 1, before, pixels, after),
{
    assert forall|r: int, at: int|
        #![trigger plan.target(r, at)]
        plan.inside(r, at) && r < row + 1 implies after[plan.target(r, at)]
        == pixels[plan.source(r, at)] by {
        lemma_row_in_bounds(plan, r);
        if r < row {
            lemma_rows_apart(plan, r, at, row, 0);
        }
    }
    assert forall|k: int|
        0 <= k < after.len() && (forall|r: int, at: int|
            #![trigger plan.target(r, at)]
            plan.inside(r, at) && r < row + 1 ==> plan.target(r, at)
                != k) implies #[trigger] after[k] == before[k] by {
        if plan.target(row, 0) <= k < plan.target(row, plan.width * BYTES_PER_PIXEL) {
            let at = k - plan.target(row, 0);
            assert(plan.inside(row, at) && plan.target(row, at) == k);
        }
        assert(after[k] == start[k]);
    }
}

/// `vhost::vhost_user::gpu_message::VhostUserGpuHeaderFlag::REPLY`: the flag of a message that
/// answers another.
#[verifier::external_body]
fn reply_flag() -> (flag: u32)
    ensures
        flag == GPU_REPLY_FLAG,
{
    VhostUserGpuHeaderFlag::REPLY.bits()
}

/// The words of the header that starts an answer to the backend.
pub fn gpu_response_header(request: u32, size: u32) -> (words: Vec<u32>)
    ensures
        words@ == seq![request, GPU_REPLY_FLAG, size],
{
    let words = vec![request, reply_flag(), size];
    assert(words@ =~= seq![request, GPU_REPLY_FLAG, size]);
    words
}

/// A word of the answer that carries the display's modes: the answer's number, five words of
/// zero, then six words for each mode. Only the first mode is enabled.
pub open spec fn display_info_word(display: Option<DisplaySize>, index: int) -> u32 {
    if index == 0 {
        RESP_OK_DISPLAY_INFO
    } else if index == RESPONSE_HEADER_WORDS + 2 {
        match display {
            Some(size) => size.width,
            None => 0,
        }
    } else if index == RESPONSE_HEADER_WORDS + 3 {
        match display {
            Some(size) => size.height,
            None => 0,
        }
    } else if index == RESPONSE_HEADER_WORDS + 4 {
        1
    } else {
        0
    }
}

/// The words of the answer that carries the display's modes.
pub fn gpu_display_info(display: Option<DisplaySize>) -> (words: Vec<u32>)
    ensures
        words@ == Seq::new(
            DISPLAY_INFO_WORDS as nat,
            |i: int| display_info_word(display, i),
        ),
{
    let (width, height) = match display {
        Some(size) => (size.width, size.height),
        None => (0, 0),
    };
    let mut words: Vec<u32> = vec![RESP_OK_DISPLAY_INFO, 0, 0, 0, 0, 0, 0, 0, width, height, 1];
    while words.len() < DISPLAY_INFO_WORDS
        invariant
            RESPONSE_HEADER_WORDS + 5 <= words@.len() <= DISPLAY_INFO_WORDS,
            forall|i: int|
                0 <= i < words@.len() ==> #[trigger] words@[i] == display_info_word(display, i),
        decreases DISPLAY_INFO_WORDS - words@.len(),
    {
        words.push(0);
    }
    assert(words@ =~= Seq::new(
        DISPLAY_INFO_WORDS as nat,
        |i: int| display_info_word(display, i),
    ));
    words
}

/// The answer that carries the display's identification: its words, then its bytes.
#[derive(Debug)]
pub struct EdidResponse {
    pub words: Vec<u32>,
    pub edid: Vec<u8>,
}

/// The answer that carries the display's identification. What does not fit is cut off, and
/// what is missing is filled with zeros. The length is that of the whole identification.
pub fn gpu_edid(edid: &Vec<u8>) -> (response: EdidResponse)
    ensures
        response.words@ == seq![RESP_OK_EDID, 0, 0, 0, 0, 0, edid.len() as u32, 0],
        response.edid@ == Seq::new(
            EDID_BYTES as nat,
            |i: int|
                if i < edid@.len() {
                    edid@[i]
                } else {
                    0
                },
        ),
{
    let words = vec![RESP_OK_EDID, 0, 0, 0, 0, 0, edid.len() as u32, 0];
    let mut bytes: Vec<u8> = Vec::new();
    while bytes.len() < EDID_BYTES
        invariant
            bytes@.len() <= EDID_BYTES,
            forall|i: int|
                0 <= i < bytes@.len() ==> #[trigger] bytes@[i] == if i < edid@.len() {
                    edid@[i]
                } else {
                    0
                },
        decreases EDID_BYTES - bytes@.len(),
    {
        let index: usize = bytes.len();
        if index < edid.len() {
            bytes.push(edid[index]);
        } else {
            bytes.push(0);
        }
    }
    assert(words@ =~= seq![RESP_OK_EDID, 0, 0, 0, 0, 0, edid.len() as u32, 0]);
    assert(bytes@ =~= Seq::new(
        EDID_BYTES as nat,
        |i: int|
            if i < edid@.len() {
                edid@[i]
            } else {
                0
            },
    ));
    EdidResponse { words, edid: bytes }
}

/// What a message from the backend leads to.
#[derive(Debug)]
pub enum GpuAction {
    /// The words are sent as an answer.
    SendDisplayInfo(Vec<u32>),
    /// The display's identification is sent as an answer, if there is a display.
    SendEdid,
    Scanout(Result<ScanoutAction, GpuMessageError>),
    Draw(Result<DrawPlan, GpuMessageError>),
    Unhandled,
}

/// What a message from the backend leads to.
pub fn handle_gpu_message(request: u32, payload: &Vec<u8>, display: Option<DisplaySize>) -> (action:
    GpuAction)
    ensures
        match gpu_request_spec(request) {
            GpuRequest::GetDisplayInfo => action matches GpuAction::SendDisplayInfo(words)
                && words@ == Seq::new(
                DISPLAY_INFO_WORDS as nat,
                |i: int| display_info_word(display, i),
            ),
            GpuRequest::GetEdid => action is SendEdid,
            GpuRequest::Scanout => action matches GpuAction::Scanout(result) && if payload@.len()
                < SCANOUT_BYTES {
                result == Err::<ScanoutAction, _>(GpuMessageError::PayloadTooShort)
            } else {
                exists|scanout: GpuScanout| #[trigger]
                    scanout.read_from(payload@) && result == scanout_spec(scanout, display)
            },
            GpuRequest::Update => action matches GpuAction::Draw(result) && (result matches Ok(plan)
                ==> plan.wf() && UPDATE_BYTES + plan.pixel_bytes() <= payload@.len()) && if payload@.len()
                < UPDATE_BYTES {
                result == Err::<DrawPlan, _>(GpuMessageError::PayloadTooShort)
            } else {
                exists|update: GpuUpdate| #[trigger]
                    update.read_from(payload@) && result == update_spec(
                        update,
                        payload@.len() - UPDATE_BYTES,
                        display,
                    )
            },
            _ => action is Unhandled,
        },
{
    match gpu_request(request) {
        GpuRequest::GetDisplayInfo => GpuAction::SendDisplayInfo(gpu_display_info(display)),
        GpuRequest::GetEdid => GpuAction::SendEdid,
        GpuRequest::Scanout => GpuAction::Scanout(handle_gpu_scanout(payload, display)),
        GpuRequest::Update => GpuAction::Draw(handle_gpu_update(payload, display)),
        _ => GpuAction::Unhandled,
    }
}

/// A rectangle that is drawn lies in the frame: no byte of it falls outside.
pub proof fn law_drawing_stays_in_the_frame(
    update: GpuUpdate,
    pixels: int,
    display: Option<DisplaySize>,
    plan: DrawPlan,
    row: int,
    at: int,
)
    requires
        update_spec(update, pixels, display) == Ok::<DrawPlan, GpuMessageError>(plan),
        plan.inside(row, at),
    ensures
        0 <= plan.target(row, at) < plan.frame_bytes(),
        0 <= plan.source(row, at) < pixels,
{
    lemma_row_in_bounds(plan, row);
}

/// No byte of a frame is drawn twice for one update.
pub proof fn law_drawn_bytes_are_distinct(
    plan: DrawPlan,
    row: int,
    at: int,
    other_row: int,
    other_at: int,
)
    requires
        plan.wf(),
        plan.inside(row, at),
        plan.inside(other_row, other_at),
        plan.target(row, at) == plan.target(other_row, other_at),
    ensures
        row == other_row,
        at == other_at,
{
    if row < other_row {
        lemma_rows_apart(plan, row, at, other_row, other_at);
    } else if other_row < row {
        lemma_rows_apart(plan, other_row, other_at, row, at);
    }
}

} // verus!
