use vstd::prelude::*;
use crate::buffer::{
    empty_buffer, laid_out, packed_row_bytes, sized, uv_dim, with_rgb_rows, with_yuva_rows,
    yuva_rows_sized, DecBufferView, WebPDecBuffer, WebPInitDecBuffer,
};
use crate::bytes::push_bytes;
use crate::decode::{
    features_spec, is_rgb_mode, VP8StatusCode, WebPGetFeatures, WebPIsRGBMode, WEBP_CSP_MODE,
};
use crate::error::WebpUnknownError;
use crate::rows::lemma_mul_le;

verus! {

/// How a decoder has been fed so far.
#[derive(Debug, Clone, Copy, PartialEq, Eq, Structural)]
pub enum FeedMode {
    /// No bytes were fed yet.
    Unset,
    /// Bytes are appended to those fed before.
    Append,
    /// Each call replaces the bytes that are not consumed yet.
    Update,
}

/// Where an incremental decoder stands.
#[derive(Debug, Clone, Copy, PartialEq, Eq, Structural)]
pub enum DecoderState {
    /// The headers are not complete yet.
    AwaitingData,
    /// The headers are read and so many rows are decoded.
    PartiallyDecoded(u32),
    /// Every row is decoded.
    Complete,
    /// Decoding failed for good, with this status.
    Failed(VP8StatusCode),
}

/// An incremental decoder: the bytes fed so far, how many of them the pixel
/// codec is done with, the output buffer, and how many rows of it hold their
/// final pixels.
#[derive(Debug)]
pub struct WebPIDecoder {
    input: Vec<u8>,
    consumed: usize,
    mode: FeedMode,
    status: VP8StatusCode,
    ready: bool,
    last_y: u32,
    output: WebPDecBuffer,
}

/// What an incremental decoder is, with its buffers as sequences.
pub struct IDecoderView {
    /// The bytes fed so far.
    pub input: Seq<u8>,
    /// How many of them the pixel codec needs no more.
    pub consumed: int,
    pub mode: FeedMode,
    /// `VP8_STATUS_SUSPENDED` while more is to come, `VP8_STATUS_OK` once
    /// every row is decoded, any other status after a failure.
    pub status: VP8StatusCode,
    /// Whether the headers are read and the output buffer is laid out.
    pub ready: bool,
    /// How many rows hold their final pixels.
    pub last_y: u32,
    pub output: DecBufferView,
}

/// What holds of every decoder: the cursor lies within the input; rows are
/// decoded only into a buffer that is laid out, and no more of them than the
/// image has; and the status is `VP8_STATUS_OK` exactly when all rows of the
/// image are decoded.
pub open spec fn idec_wf(d: IDecoderView) -> bool {
    &&& 0 <= d.consumed <= d.input.len()
    &&& d.ready ==> laid_out(d.output) && d.last_y <= d.output.height
    &&& !d.ready ==> d.last_y == 0
    &&& d.status == VP8StatusCode::VP8_STATUS_OK <==> (d.ready && d.last_y == d.output.height)
    &&& d.status != VP8StatusCode::VP8_STATUS_NOT_ENOUGH_DATA
}

/// The state that a decoder is in.
pub open spec fn state_of(d: IDecoderView) -> DecoderState {
    if d.status == VP8StatusCode::VP8_STATUS_OK {
        DecoderState::Complete
    } else if d.status == VP8StatusCode::VP8_STATUS_SUSPENDED {
        if d.ready {
            DecoderState::PartiallyDecoded(d.last_y)
        } else {
            DecoderState::AwaitingData
        }
    } else {
        DecoderState::Failed(d.status)
    }
}

/// What can happen to a decoder: the caller feeds it, or the pixel codec
/// reports what it made of the bytes.
pub enum DecoderEvent {
    /// The caller appends bytes to the input.
    Append(Seq<u8>),
    /// The caller replaces the bytes that are not consumed yet.
    Update(Seq<u8>),
    /// The codec is done with the input up to `consumed` and has decoded the
    /// rows up to `last_row`; `rows` holds the pixels of the new rows, packed.
    RgbRows { consumed: int, last_row: int, rows: Seq<u8> },
    /// The same for a planar layout, one sequence per plane.
    YuvaRows { consumed: int, last_row: int, y: Seq<u8>, u: Seq<u8>, v: Seq<u8>, a: Seq<u8> },
    /// The codec gave up with this status.
    Failure(VP8StatusCode),
}

/// The decoder once its input has become `input`: while the headers are not
/// read, they are tried again. Headers that are cut short leave the decoder
/// waiting; unsound headers fail it with a bitstream error, an animation
/// with "unsupported feature"; sound headers size the output buffer, and
/// caller's memory that does not fit the image fails the decoder with
/// "invalid parameter".
pub open spec fn fed(d: IDecoderView, mode: FeedMode, input: Seq<u8>) -> IDecoderView {
    let next = IDecoderView { input, mode, ..d };
    if d.ready {
        next
    } else {
        match features_spec(input) {
            Err(e) => if e == VP8StatusCode::VP8_STATUS_NOT_ENOUGH_DATA {
                next
            } else {
                IDecoderView { status: e, ..next }
            },
            Ok(f) => if f.has_animation {
                IDecoderView { status: VP8StatusCode::VP8_STATUS_UNSUPPORTED_FEATURE, ..next }
            } else if laid_out(sized(d.output, f.width, f.height)) {
                IDecoderView { ready: true, output: sized(d.output, f.width, f.height), ..next }
            } else {
                IDecoderView { status: VP8StatusCode::VP8_STATUS_INVALID_PARAM, ..next }
            },
        }
    }
}

/// Whether a decoder still takes bytes and rows.
pub open spec fn is_live(d: IDecoderView) -> bool {
    d.status == VP8StatusCode::VP8_STATUS_SUSPENDED
}

/// Whether a report of rows fits the decoder: the decoder is live and laid
/// out, the cursor and the row count do not go back and stay within the
/// input and the image.
pub open spec fn rows_event_fits(d: IDecoderView, consumed: int, last_row: int) -> bool {
    &&& is_live(d)
    &&& d.ready
    &&& d.consumed <= consumed <= d.input.len()
    &&& d.last_y <= last_row <= d.output.height
}

/// Whether a status is one that a codec gives up with.
pub open spec fn is_failure(status: VP8StatusCode) -> bool {
    status != VP8StatusCode::VP8_STATUS_OK && status != VP8StatusCode::VP8_STATUS_SUSPENDED
        && status != VP8StatusCode::VP8_STATUS_NOT_ENOUGH_DATA
}

/// The status of a decoder that has decoded `last_row` rows.
pub open spec fn status_at(d: IDecoderView, last_row: int) -> VP8StatusCode {
    if last_row == d.output.height {
        VP8StatusCode::VP8_STATUS_OK
    } else {
        VP8StatusCode::VP8_STATUS_SUSPENDED
    }
}

/// Whether the decoder takes an event. One that it does not take leaves it
/// as it is.
pub open spec fn accepts(d: IDecoderView, e: DecoderEvent) -> bool {
    match e {
        DecoderEvent::Append(_) => is_live(d) && d.mode != FeedMode::Update,
        DecoderEvent::Update(_) => is_live(d) && d.mode != FeedMode::Append,
        DecoderEvent::RgbRows { consumed, last_row, rows } => {
            &&& rows_event_fits(d, consumed, last_row)
            &&& is_rgb_mode(d.output.colorspace)
            &&& rows.len() == (last_row - d.last_y) * packed_row_bytes(d.output)
        },
        DecoderEvent::YuvaRows { consumed, last_row, y, u, v, a } => {
            &&& rows_event_fits(d, consumed, last_row)
            &&& !is_rgb_mode(d.output.colorspace)
            &&& yuva_rows_sized(d.output, d.last_y as int, last_row - d.last_y, y, u, v, a)
        },
        DecoderEvent::Failure(status) => is_live(d) && is_failure(status),
    }
}

/// The decoder after an event.
///
/// Appending adds to the input; updating keeps what the codec is done with
/// and replaces the rest. Rows that the codec reports are written into the
/// output buffer behind the rows decoded before; with the last row of the
/// image the decoder is complete. A failure of the codec is final.
pub open spec fn step(d: IDecoderView, e: DecoderEvent) -> IDecoderView {
    if !accepts(d, e) {
        d
    } else {
        match e {
            DecoderEvent::Append(bytes) => fed(d, FeedMode::Append, d.input + bytes),
            DecoderEvent::Update(bytes) => fed(
                d,
                FeedMode::Update,
                d.input.subrange(0, d.consumed) + bytes,
            ),
            DecoderEvent::RgbRows { consumed, last_row, rows } => IDecoderView {
                consumed,
                last_y: last_row as u32,
                status: status_at(d, last_row),
                output: with_rgb_rows(d.output, d.last_y as int, last_row - d.last_y, rows),
                ..d
            },
            DecoderEvent::YuvaRows { consumed, last_row, y, u, v, a } => IDecoderView {
                consumed,
                last_y: last_row as u32,
                status: status_at(d, last_row),
                output: with_yuva_rows(d.output, d.last_y as int, last_row - d.last_y, y, u, v, a),
                ..d
            },
            DecoderEvent::Failure(status) => IDecoderView { status, ..d },
        }
    }
}

/// The decoder after a list of events, one after another.
pub open spec fn run(d: IDecoderView, events: Seq<DecoderEvent>) -> IDecoderView
    decreases events.len(),
{
    if events.len() == 0 {
        d
    } else {
        step(run(d, events.drop_last()), events.last())
    }
}

/// Whether a decoder refuses every append: it has failed, it is complete, or
/// it was fed by update.
pub open spec fn refuses_append(d: IDecoderView) -> bool {
    is_failure(d.status) || d.status == VP8StatusCode::VP8_STATUS_OK || d.mode
        == FeedMode::Update
}

/// What the caller is told after an event.
///
/// A decoder that has failed answers its failure to everything. Any other
/// decoder answers "invalid parameter" to an event that it does not take,
/// and a complete decoder takes none: feeding it is an error in either
/// mode, and so is feeding a decoder in the mode that it was not fed in
/// before, live or complete. An event that is taken is answered with the
/// status that it leaves.
pub open spec fn answer(d: IDecoderView, e: DecoderEvent) -> VP8StatusCode {
    if is_failure(d.status) {
        d.status
    } else if !accepts(d, e) {
        VP8StatusCode::VP8_STATUS_INVALID_PARAM
    } else {
        step(d, e).status
    }
}

impl WebPIDecoder {
    /// What the decoder is.
    pub closed spec fn view(&self) -> IDecoderView {
        IDecoderView {
            input: self.input@,
            consumed: self.consumed as int,
            mode: self.mode,
            status: self.status,
            ready: self.ready,
            last_y: self.last_y,
            output: self.output@,
        }
    }

    /// Whether the decoder is sound. Every decoder that this module hands
    /// out is, and stays so under every operation.
    pub open spec fn wf(&self) -> bool {
        idec_wf(self@)
    }

    /// A decoder that has been fed nothing, around an output buffer.
    fn around(output: WebPDecBuffer) -> (d: WebPIDecoder)
        ensures
            d@ == fresh_decoder(output@),
            d.wf(),
    {
        WebPIDecoder {
            input: Vec::new(),
            consumed: 0,
            mode: FeedMode::Unset,
            status: VP8StatusCode::VP8_STATUS_SUSPENDED,
            ready: false,
            last_y: 0,
            output,
        }
    }

    /// The status of the decoder: `VP8_STATUS_SUSPENDED` while more is to
    /// come, `VP8_STATUS_OK` once every row is decoded, any other status
    /// after a failure.
    pub fn status(&self) -> (s: VP8StatusCode)
        ensures
            s == self@.status,
    {
        self.status
    }

    /// The state that the decoder is in.
    pub fn state(&self) -> (s: DecoderState)
        ensures
            s == state_of(self@),
    {
        match self.status {
            VP8StatusCode::VP8_STATUS_OK => DecoderState::Complete,
            VP8StatusCode::VP8_STATUS_SUSPENDED => if self.ready {
                DecoderState::PartiallyDecoded(self.last_y)
            } else {
                DecoderState::AwaitingData
            },
            other => DecoderState::Failed(other),
        }
    }

    /// How many rows hold their final pixels.
    pub fn last_row(&self) -> (n: u32)
        ensures
            n == self@.last_y,
    {
        self.last_y
    }

    /// How many bytes the decoder holds.
    pub fn input_len(&self) -> (n: usize)
        ensures
            n == self@.input.len(),
    {
        self.input.len()
    }

    /// How many of the bytes the pixel codec needs no more.
    pub fn consumed(&self) -> (n: usize)
        ensures
            n == self@.consumed,
    {
        self.consumed
    }

    /// The bytes that the pixel codec is not done with yet.
    pub fn pending_input(&self) -> (bytes: &[u8])
        requires
            self.wf(),
        ensures
            bytes@ == self@.input.subrange(self@.consumed, self@.input.len() as int),
    {
        vstd::slice::slice_subrange(self.input.as_slice(), self.consumed, self.input.len())
    }

    /// The output buffer.
    pub fn output(&self) -> (b: &WebPDecBuffer)
        ensures
            b@ == self@.output,
    {
        &self.output
    }

    /// Ends the decoder and gives the output buffer back.
    pub fn into_output(self) -> (b: WebPDecBuffer)
        ensures
            b@ == self@.output,
    {
        self.output
    }

    /// Tries the headers again after the input has changed.
    fn refresh(&mut self, mode: FeedMode, Ghost(before): Ghost<IDecoderView>)
        requires
            idec_wf(before),
            is_live(before),
            old(self)@ == (IDecoderView { input: old(self)@.input, ..before }),
            before.consumed <= old(self)@.input.len(),
        ensures
            final(self)@ == fed(before, mode, old(self)@.input),
            final(self).wf(),
            final(self)@.last_y == before.last_y,
    {
        self.mode = mode;
        if self.ready {
            return ;
        }
        match WebPGetFeatures(self.input.as_slice()) {
            Err(VP8StatusCode::VP8_STATUS_NOT_ENOUGH_DATA) => {},
            Err(e) => {
                self.status = e;
            },
            Ok(f) => {
                if f.has_animation {
                    self.status = VP8StatusCode::VP8_STATUS_UNSUPPORTED_FEATURE;
                } else {
                    match self.output.set_size(f.width, f.height) {
                        VP8StatusCode::VP8_STATUS_OK => {
                            self.ready = true;
                        },
                        _ => {
                            self.status = VP8StatusCode::VP8_STATUS_INVALID_PARAM;
                        },
                    }
                }
            },
        }
    }

    /// Feeds the decoder the next bytes of the file.
    ///
    /// The bytes are added to those fed before. A decoder that has failed
    /// takes no bytes and answers with its failure. A decoder that is
    /// complete, and a decoder that was fed by `update`, answer
    /// `VP8_STATUS_INVALID_PARAM`. In all three cases the decoder stays as it
    /// is.
    pub fn append(&mut self, data: &[u8]) -> (status: VP8StatusCode)
        requires
            old(self).wf(),
        ensures
            final(self)@ == step(old(self)@, DecoderEvent::Append(data@)),
            status == answer(old(self)@, DecoderEvent::Append(data@)),
            final(self).wf(),
            final(self)@.last_y >= old(self)@.last_y,
    {
        match self.status {
            VP8StatusCode::VP8_STATUS_SUSPENDED => {},
            VP8StatusCode::VP8_STATUS_OK => {
                return VP8StatusCode::VP8_STATUS_INVALID_PARAM;
            },
            failure => {
                return failure;
            },
        }
        match self.mode {
            FeedMode::Update => {
                return VP8StatusCode::VP8_STATUS_INVALID_PARAM;
            },
            _ => {},
        }
        let ghost before = self@;
        push_bytes(&mut self.input, data);
        self.refresh(FeedMode::Append, Ghost(before));
        self.status
    }

    /// Replaces the bytes that the pixel codec is not done with yet.
    ///
    /// The decoder keeps a copy of `data` and no reference to it. A decoder
    /// that has failed takes no bytes and answers with its failure. A decoder
    /// that is complete, and a decoder that was fed by `append`, answer
    /// `VP8_STATUS_INVALID_PARAM`. In all three cases the decoder stays as it
    /// is.
    pub fn update(&mut self, data: &[u8]) -> (status: VP8StatusCode)
        requires
            old(self).wf(),
        ensures
            final(self)@ == step(old(self)@, DecoderEvent::Update(data@)),
            status == answer(old(self)@, DecoderEvent::Update(data@)),
            final(self).wf(),
            final(self)@.last_y >= old(self)@.last_y,
    {
        match self.status {
            VP8StatusCode::VP8_STATUS_SUSPENDED => {},
            VP8StatusCode::VP8_STATUS_OK => {
                return VP8StatusCode::VP8_STATUS_INVALID_PARAM;
            },
            failure => {
                return failure;
            },
        }
        match self.mode {
            FeedMode::Append => {
                return VP8StatusCode::VP8_STATUS_INVALID_PARAM;
            },
            _ => {},
        }
        let ghost before = self@;
        self.input.truncate(self.consumed);
        push_bytes(&mut self.input, data);
        self.refresh(FeedMode::Update, Ghost(before));
        self.status
    }

    /// Takes the pixel codec's report on a packed image: the codec is done
    /// with the input up to `consumed`, the rows up to `last_row` are
    /// decoded, and `rows` holds the pixels of the rows that are new, one row
    /// after another without gaps.
    ///
    /// A report that does not fit the decoder, and any report to a decoder
    /// that is complete, is answered with `VP8_STATUS_INVALID_PARAM` and
    /// changes nothing; a decoder that has failed answers its failure.
    pub fn commit_rgb_rows(&mut self, consumed: usize, last_row: u32, rows: &[u8]) -> (status:
        VP8StatusCode)
        requires
            old(self).wf(),
        ensures
            final(self)@ == step(
                old(self)@,
                DecoderEvent::RgbRows {
                    consumed: consumed as int,
                    last_row: last_row as int,
                    rows: rows@,
                },
            ),
            status == answer(
                old(self)@,
                DecoderEvent::RgbRows {
                    consumed: consumed as int,
                    last_row: last_row as int,
                    rows: rows@,
                },
            ),
            final(self).wf(),
            final(self)@.last_y >= old(self)@.last_y,
    {
        match self.status {
            VP8StatusCode::VP8_STATUS_SUSPENDED => {},
            VP8StatusCode::VP8_STATUS_OK => {
                return VP8StatusCode::VP8_STATUS_INVALID_PARAM;
            },
            failure => {
                return failure;
            },
        }
        if !self.ready || consumed < self.consumed || consumed > self.input.len() || last_row
            < self.last_y || last_row > self.output.height() || !WebPIsRGBMode(
            self.output.colorspace(),
        ) {
            return VP8StatusCode::VP8_STATUS_INVALID_PARAM;
        }
        let count = last_row - self.last_y;
        let width = self.output.width();
        let bpp = crate::decode::bytes_per_pixel(self.output.colorspace());
        proof {
            lemma_mul_le(width as int, 0x4000, bpp as int);
        }
        let row_bytes = width * bpp;
        proof {
            lemma_mul_le(count as int, 0x4000, row_bytes as int);
        }
        if rows.len() as u64 != count as u64 * row_bytes as u64 {
            return VP8StatusCode::VP8_STATUS_INVALID_PARAM;
        }
        self.output.put_rgb_rows(self.last_y, count, rows);
        self.consumed = consumed;
        self.last_y = last_row;
        if last_row == self.output.height() {
            self.status = VP8StatusCode::VP8_STATUS_OK;
        }
        self.status
    }

    /// Takes the pixel codec's report on a planar image: the codec is done
    /// with the input up to `consumed`, the rows up to `last_row` are
    /// decoded, and the four slices hold the samples of the rows that are
    /// new, plane by plane, one row after another without gaps. Chroma has
    /// one row for every two rows of luma; `a` is empty where the layout has
    /// no alpha.
    ///
    /// A report that does not fit the decoder, and any report to a decoder
    /// that is complete, is answered with `VP8_STATUS_INVALID_PARAM` and
    /// changes nothing; a decoder that has failed answers its failure.
    pub fn commit_yuva_rows(
        &mut self,
        consumed: usize,
        last_row: u32,
        y: &[u8],
        u: &[u8],
        v: &[u8],
        a: &[u8],
    ) -> (status: VP8StatusCode)
        requires
            old(self).wf(),
        ensures
            final(self)@ == step(
                old(self)@,
                DecoderEvent::YuvaRows {
                    consumed: consumed as int,
                    last_row: last_row as int,
                    y: y@,
                    u: u@,
                    v: v@,
                    a: a@,
                },
            ),
            status == answer(
                old(self)@,
                DecoderEvent::YuvaRows {
                    consumed: consumed as int,
                    last_row: last_row as int,
                    y: y@,
                    u: u@,
                    v: v@,
                    a: a@,
                },
            ),
            final(self).wf(),
            final(self)@.last_y >= old(self)@.last_y,
    {
        match self.status {
            VP8StatusCode::VP8_STATUS_SUSPENDED => {},
            VP8StatusCode::VP8_STATUS_OK => {
                return VP8StatusCode::VP8_STATUS_INVALID_PARAM;
            },
            failure => {
                return failure;
            },
        }
        if !self.ready || consumed < self.consumed || consumed > self.input.len() || last_row
            < self.last_y || last_row > self.output.height() || WebPIsRGBMode(
            self.output.colorspace(),
        ) {
            return VP8StatusCode::VP8_STATUS_INVALID_PARAM;
        }
        let count = last_row - self.last_y;
        let width = self.output.width();
        let uv_width = (width + 1) / 2;
        let uv_count = (last_row + 1) / 2 - (self.last_y + 1) / 2;
        let with_alpha = match self.output.colorspace() {
            WEBP_CSP_MODE::MODE_YUVA => true,
            _ => false,
        };
        proof {
            lemma_mul_le(count as int, 0x4000, width as int);
            lemma_mul_le(width as int, 0x4000, 0x4000);
            lemma_mul_le(uv_count as int, 0x4000, uv_width as int);
            lemma_mul_le(uv_width as int, 0x4000, 0x4000);
        }
        let luma: u64 = count as u64 * width as u64;
        let chroma: u64 = uv_count as u64 * uv_width as u64;
        let alpha: u64 = if with_alpha {
            luma
        } else {
            0
        };
        if y.len() as u64 != luma || u.len() as u64 != chroma || v.len() as u64 != chroma
            || a.len() as u64 != alpha {
            return VP8StatusCode::VP8_STATUS_INVALID_PARAM;
        }
        self.output.put_yuva_rows(self.last_y, count, y, u, v, a);
        self.consumed = consumed;
        self.last_y = last_row;
        if last_row == self.output.height() {
            self.status = VP8StatusCode::VP8_STATUS_OK;
        }
        self.status
    }

    /// Takes the pixel codec's report that it gave up. The failure is final:
    /// the decoder takes no bytes and no rows after it, and answers it to
    /// everything. A status that is no failure, and any report to a decoder
    /// that is complete, is answered with `VP8_STATUS_INVALID_PARAM`.
    pub fn fail(&mut self, reason: VP8StatusCode) -> (status: VP8StatusCode)
        requires
            old(self).wf(),
        ensures
            final(self)@ == step(old(self)@, DecoderEvent::Failure(reason)),
            status == answer(old(self)@, DecoderEvent::Failure(reason)),
            final(self).wf(),
            final(self)@.last_y == old(self)@.last_y,
    {
        match self.status {
            VP8StatusCode::VP8_STATUS_SUSPENDED => {},
            VP8StatusCode::VP8_STATUS_OK => {
                return VP8StatusCode::VP8_STATUS_INVALID_PARAM;
            },
            failure => {
                return failure;
            },
        }
        match reason {
            VP8StatusCode::VP8_STATUS_OK
            | VP8StatusCode::VP8_STATUS_SUSPENDED
            | VP8StatusCode::VP8_STATUS_NOT_ENOUGH_DATA => {
                return VP8StatusCode::VP8_STATUS_INVALID_PARAM;
            },
            _ => {},
        }
        self.status = reason;
        reason
    }
}

/// The decoder that has been fed nothing yet.
pub open spec fn fresh_decoder(output: DecBufferView) -> IDecoderView {
    IDecoderView {
        input: Seq::<u8>::empty(),
        consumed: 0,
        mode: FeedMode::Unset,
        status: VP8StatusCode::VP8_STATUS_SUSPENDED,
        ready: false,
        last_y: 0,
        output,
    }
}

/// The output buffer of a decoder that is made for a packed layout: memory
/// of its own, or the caller's plane.
pub open spec fn rgb_output(csp: WEBP_CSP_MODE, buffer: Option<Seq<u8>>, stride: u32) -> DecBufferView {
    match buffer {
        Some(rgba) => DecBufferView {
            colorspace: csp,
            is_external_memory: 1,
            rgba,
            stride,
            ..empty_buffer()
        },
        None => DecBufferView { colorspace: csp, ..empty_buffer() },
    }
}

/// The views of an optional plane.
pub open spec fn opt_plane(o: Option<Vec<u8>>) -> Option<Seq<u8>> {
    match o {
        Some(v) => Some(v@),
        None => None,
    }
}

/// Whether a plane that the caller supplies, and the distance between its
/// rows, are both not empty.
pub open spec fn plane_given(plane: Option<Seq<u8>>, stride: u32) -> bool {
    plane matches Some(p) && p.len() > 0 && stride > 0
}

/// A decoder that writes into the given output buffer, or, where none is
/// given, into a buffer of its own in layout `MODE_RGB`.
#[allow(non_snake_case)]
pub fn WebPINewDecoder(output_buffer: Option<WebPDecBuffer>) -> (r: Result<
    WebPIDecoder,
    WebpUnknownError,
>)
    ensures
        r matches Ok(d) && d.wf() && d@ == fresh_decoder(
            match output_buffer {
                Some(b) => b@,
                None => empty_buffer(),
            },
        ),
{
    let output = match output_buffer {
        Some(b) => b,
        None => match WebPInitDecBuffer() {
            Ok(b) => b,
            Err(e) => {
                return Err(e);
            },
        },
    };
    Ok(WebPIDecoder::around(output))
}

/// A decoder for a packed layout, which writes into a plane that the caller
/// supplies or, where none is given, into memory of its own.
///
/// A planar layout is refused, and so is a plane that is empty or whose rows
/// are no bytes apart.
#[allow(non_snake_case)]
pub fn WebPINewRGB(csp: WEBP_CSP_MODE, output_buffer: Option<Vec<u8>>, output_stride: u32) -> (r:
    Result<WebPIDecoder, WebpUnknownError>)
    requires
        output_stride <= i32::MAX,
    ensures
        r.is_ok() <==> is_rgb_mode(csp) && (output_buffer is Some ==> plane_given(
            opt_plane(output_buffer),
            output_stride,
        )),
        r matches Ok(d) ==> d.wf() && d@ == fresh_decoder(
            rgb_output(csp, opt_plane(output_buffer), output_stride),
        ),
{
    if !WebPIsRGBMode(csp) {
        return Err(WebpUnknownError);
    }
    let mut output = match WebPInitDecBuffer() {
        Ok(b) => b,
        Err(e) => {
            return Err(e);
        },
    };
    output.set_colorspace(csp);
    match output_buffer {
        Some(rgba) => {
            if output_stride == 0 || rgba.len() == 0 {
                return Err(WebpUnknownError);
            }
            output.set_rgba_buffer(rgba, output_stride);
        },
        None => {},
    }
    Ok(WebPIDecoder::around(output))
}

/// The output buffer of a decoder that is made for a planar layout: memory
/// of its own with alpha, or the caller's planes, with alpha where a fourth
/// plane is given.
pub open spec fn yuva_output(
    luma: Option<Seq<u8>>,
    luma_stride: u32,
    u: Option<Seq<u8>>,
    u_stride: u32,
    v: Option<Seq<u8>>,
    v_stride: u32,
    a: Option<Seq<u8>>,
    a_stride: u32,
) -> DecBufferView {
    match luma {
        Some(y) => DecBufferView {
            colorspace: if a is Some {
                WEBP_CSP_MODE::MODE_YUVA
            } else {
                WEBP_CSP_MODE::MODE_YUV
            },
            is_external_memory: 1,
            y,
            u: u->0,
            v: v->0,
            a: match a {
                Some(p) => p,
                None => Seq::<u8>::empty(),
            },
            y_stride: luma_stride,
            u_stride,
            v_stride,
            a_stride: if a is Some {
                a_stride
            } else {
                0
            },
            ..empty_buffer()
        },
        None => DecBufferView { colorspace: WEBP_CSP_MODE::MODE_YUVA, ..empty_buffer() },
    }
}

/// A decoder for a planar layout, which writes into the planes that the
/// caller supplies or, where no luma plane is given, into memory of its own.
///
/// With a luma plane the two chroma planes must be given too; every plane
/// that is given must not be empty, and its rows must not be zero bytes
/// apart. The alpha plane may be left out. Without a luma plane the other
/// arguments are not looked at.
#[allow(non_snake_case)]
pub fn WebPINewYUVA(
    luma: Option<Vec<u8>>,
    luma_stride: u32,
    u: Option<Vec<u8>>,
    u_stride: u32,
    v: Option<Vec<u8>>,
    v_stride: u32,
    a: Option<Vec<u8>>,
    a_stride: u32,
) -> (r: Result<WebPIDecoder, WebpUnknownError>)
    requires
        luma_stride <= i32::MAX,
        u_stride <= i32::MAX,
        v_stride <= i32::MAX,
        a_stride <= i32::MAX,
    ensures
        r.is_ok() <==> (luma is Some ==> {
            &&& plane_given(opt_plane(luma), luma_stride)
            &&& plane_given(opt_plane(u), u_stride)
            &&& plane_given(opt_plane(v), v_stride)
            &&& a is Some ==> plane_given(opt_plane(a), a_stride)
        }),
        r matches Ok(d) ==> d.wf() && d@ == fresh_decoder(
            yuva_output(
                opt_plane(luma),
                luma_stride,
                opt_plane(u),
                u_stride,
                opt_plane(v),
                v_stride,
                opt_plane(a),
                a_stride,
            ),
        ),
{
    let mut output = match WebPInitDecBuffer() {
        Ok(b) => b,
        Err(e) => {
            return Err(e);
        },
    };
    let y = match luma {
        Some(y) => y,
        None => {
            output.set_colorspace(WEBP_CSP_MODE::MODE_YUVA);
            return Ok(WebPIDecoder::around(output));
        },
    };
    let (u, v) = match (u, v) {
        (Some(u), Some(v)) => (u, v),
        _ => {
            return Err(WebpUnknownError);
        },
    };
    if y.len() == 0 || u.len() == 0 || v.len() == 0 || luma_stride == 0 || u_stride == 0
        || v_stride == 0 {
        return Err(WebpUnknownError);
    }
    match a {
        Some(a) => {
            if a.len() == 0 || a_stride == 0 {
                return Err(WebpUnknownError);
            }
            output.set_colorspace(WEBP_CSP_MODE::MODE_YUVA);
            output.set_yuva_buffer(y, u, v, a, luma_stride, u_stride, v_stride, a_stride);
        },
        None => {
            output.set_colorspace(WEBP_CSP_MODE::MODE_YUV);
            output.set_yuva_buffer(y, u, v, Vec::new(), luma_stride, u_stride, v_stride, 0);
        },
    }
    Ok(WebPIDecoder::around(output))
}

/// A decoder for a planar layout without alpha.
#[allow(non_snake_case)]
pub fn WebPINewYUV(
    luma: Option<Vec<u8>>,
    luma_stride: u32,
    u: Option<Vec<u8>>,
    u_stride: u32,
    v: Option<Vec<u8>>,
    v_stride: u32,
) -> (r: Result<WebPIDecoder, WebpUnknownError>)
    requires
        luma_stride <= i32::MAX,
        u_stride <= i32::MAX,
        v_stride <= i32::MAX,
    ensures
        r.is_ok() <==> (luma is Some ==> {
            &&& plane_given(opt_plane(luma), luma_stride)
            &&& plane_given(opt_plane(u), u_stride)
            &&& plane_given(opt_plane(v), v_stride)
        }),
        r matches Ok(d) ==> d.wf() && d@ == fresh_decoder(
            yuva_output(
                opt_plane(luma),
                luma_stride,
                opt_plane(u),
                u_stride,
                opt_plane(v),
                v_stride,
                None,
                0,
            ),
        ),
{
    WebPINewYUVA(luma, luma_stride, u, u_stride, v, v_stride, None, 0)
}

/// Feeds a decoder the next bytes of the file; see `WebPIDecoder::append`.
#[allow(non_snake_case)]
pub fn WebPIAppend(idec: &mut WebPIDecoder, data: &[u8]) -> (status: VP8StatusCode)
    requires
        old(idec).wf(),
    ensures
        final(idec)@ == step(old(idec)@, DecoderEvent::Append(data@)),
        status == answer(old(idec)@, DecoderEvent::Append(data@)),
        final(idec).wf(),
        final(idec)@.last_y >= old(idec)@.last_y,
{
    idec.append(data)
}

/// Replaces the bytes that the pixel codec is not done with yet; see
/// `WebPIDecoder::update`.
#[allow(non_snake_case)]
pub fn WebPIUpdate(idec: &mut WebPIDecoder, data: &[u8]) -> (status: VP8StatusCode)
    requires
        old(idec).wf(),
    ensures
        final(idec)@ == step(old(idec)@, DecoderEvent::Update(data@)),
        status == answer(old(idec)@, DecoderEvent::Update(data@)),
        final(idec).wf(),
        final(idec)@.last_y >= old(idec)@.last_y,
{
    idec.update(data)
}

/// The rows of a packed image that are decoded so far: their bytes, their
/// number, the width and the height of the image, and the distance between
/// rows. Before the headers are read, and for a planar layout, there is
/// nothing to give.
#[allow(non_snake_case)]
pub fn WebPIDecGetRGB(idec: &WebPIDecoder) -> (r: Result<
    (&[u8], u32, u32, u32, u32),
    WebpUnknownError,
>)
    requires
        idec.wf(),
    ensures
        r.is_ok() <==> idec@.ready && is_rgb_mode(idec@.output.colorspace),
        r matches Ok(got) ==> {
            &&& got.1 == idec@.last_y
            &&& got.2 == idec@.output.width
            &&& got.3 == idec@.output.height
            &&& got.4 == idec@.output.stride
            &&& got.1 <= got.3
            &&& got.4 * got.1 <= idec@.output.rgba.len()
            &&& got.0@ == idec@.output.rgba.subrange(0, got.4 * got.1)
            &&& got.0@.len() == got.4 * got.1
        },
{
    if !idec.ready || !WebPIsRGBMode(idec.output.colorspace()) {
        return Err(WebpUnknownError);
    }
    let (rgba, stride) = idec.output.rgba();
    let last_y = idec.last_y;
    let data = plane_rows(rgba, stride, last_y, Ghost(idec.output@.height as int));
    proof {
        assert(stride * last_y == last_y * stride) by (nonlinear_arith);
    }
    Ok((data, last_y, idec.output.width(), idec.output.height(), stride))
}

/// The rows of one plane that are decoded so far.
fn plane_rows<'a>(plane: &'a [u8], stride: u32, rows: u32, Ghost(height): Ghost<int>) -> (r: &'a [u8])
    requires
        plane@.len() == stride * height,
        rows <= height,
    ensures
        rows * stride <= plane@.len(),
        r@ == plane@.subrange(0, rows * stride),
{
    let n = plane.len();
    proof {
        lemma_mul_le(rows as int, height, stride as int);
        assert(stride * height == height * stride) by (nonlinear_arith);
    }
    vstd::slice::slice_subrange(plane, 0, rows as usize * stride as usize)
}

/// The rows of a planar image that are decoded so far: luma and their
/// number, the two chroma planes, alpha where the layout has it, the width
/// and the height of the image, and the distances between the rows of luma,
/// of chroma and of alpha. Chroma has one row for every two rows of luma,
/// and both chroma planes are cut by the one chroma distance. Before the
/// headers are read, and for a packed layout, there is nothing to give.
#[allow(non_snake_case)]
pub fn WebPIDecGetYUVA(idec: &WebPIDecoder) -> (r: Result<
    (&[u8], u32, &[u8], &[u8], Option<&[u8]>, u32, u32, u32, u32, u32),
    WebpUnknownError,
>)
    requires
        idec.wf(),
    ensures
        r.is_ok() <==> idec@.ready && !is_rgb_mode(idec@.output.colorspace),
        r matches Ok(got) ==> {
            let out = idec@.output;
            let last_y = idec@.last_y;
            let with_alpha = out.colorspace == WEBP_CSP_MODE::MODE_YUVA;
            &&& got.1 == last_y
            &&& got.5 == out.width
            &&& got.6 == out.height
            &&& got.7 == out.y_stride
            &&& got.8 == out.u_stride
            &&& got.9 == if with_alpha {
                out.a_stride
            } else {
                0
            }
            &&& got.1 <= got.6
            &&& got.7 >= got.5
            &&& got.1 * got.7 <= out.y.len()
            &&& uv_dim(got.1 as int) * got.8 <= out.u.len()
            &&& uv_dim(got.1 as int) * got.8 <= out.v.len()
            &&& got.0@ == out.y.subrange(0, got.1 * got.7)
            &&& got.2@ == out.u.subrange(0, uv_dim(got.1 as int) * got.8)
            &&& got.3@ == out.v.subrange(0, uv_dim(got.1 as int) * got.8)
            &&& got.0@.len() == got.1 * got.7
            &&& got.2@.len() == uv_dim(got.1 as int) * got.8
            &&& got.3@.len() == got.2@.len()
            &&& got.4 is Some <==> with_alpha
            &&& got.4 matches Some(a) ==> got.1 * got.9 <= out.a.len() && a@.len() == got.1 * got.9
            &&& got.4 matches Some(a) ==> a@ == out.a.subrange(0, last_y * out.a_stride)
        },
{
    if !idec.ready || WebPIsRGBMode(idec.output.colorspace()) {
        return Err(WebpUnknownError);
    }
    let last_y = idec.last_y;
    let uv_rows = (last_y + 1) / 2;
    let (y, y_stride) = idec.output.y_plane();
    let (u, u_stride) = idec.output.u_plane();
    let (v, _) = idec.output.v_plane();
    let (a, a_stride) = idec.output.a_plane();
    let ghost height = idec.output@.height as int;
    let y_rows = plane_rows(y, y_stride, last_y, Ghost(height));
    let u_rows = plane_rows(u, u_stride, uv_rows, Ghost(uv_dim(height)));
    let v_rows = plane_rows(v, u_stride, uv_rows, Ghost(uv_dim(height)));
    proof {
        crate::checks::lemma_stride_quotient(idec.output@.width as int, y_stride as int, 1);
    }
    let with_alpha = match idec.output.colorspace() {
        WEBP_CSP_MODE::MODE_YUVA => true,
        _ => false,
    };
    if with_alpha {
        let a_rows = plane_rows(a, a_stride, last_y, Ghost(height));
        Ok(
            (
                y_rows,
                last_y,
                u_rows,
                v_rows,
                Some(a_rows),
                idec.output.width(),
                idec.output.height(),
                y_stride,
                u_stride,
                a_stride,
            ),
        )
    } else {
        Ok(
            (
                y_rows,
                last_y,
                u_rows,
                v_rows,
                None,
                idec.output.width(),
                idec.output.height(),
                y_stride,
                u_stride,
                0,
            ),
        )
    }
}

/// The rows of a planar image that are decoded so far, without alpha: luma
/// and their number, the two chroma planes, the width and the height of the
/// image, and the distances between the rows of luma and of chroma.
#[allow(non_snake_case)]
pub fn WebPIDecGetYUV(idec: &WebPIDecoder) -> (r: Result<
    (&[u8], u32, &[u8], &[u8], u32, u32, u32, u32),
    WebpUnknownError,
>)
    requires
        idec.wf(),
    ensures
        r.is_ok() <==> idec@.ready && !is_rgb_mode(idec@.output.colorspace),
        r matches Ok(got) ==> {
            let out = idec@.output;
            let last_y = idec@.last_y;
            &&& got.1 == last_y
            &&& got.4 == out.width
            &&& got.5 == out.height
            &&& got.6 == out.y_stride
            &&& got.7 == out.u_stride
            &&& got.1 <= got.5
            &&& got.6 >= got.4
            &&& got.1 * got.6 <= out.y.len()
            &&& uv_dim(got.1 as int) * got.7 <= out.u.len()
            &&& uv_dim(got.1 as int) * got.7 <= out.v.len()
            &&& got.0@ == out.y.subrange(0, got.1 * got.6)
            &&& got.2@ == out.u.subrange(0, uv_dim(got.1 as int) * got.7)
            &&& got.3@ == out.v.subrange(0, uv_dim(got.1 as int) * got.7)
            &&& got.0@.len() == got.1 * got.6
            &&& got.2@.len() == uv_dim(got.1 as int) * got.7
            &&& got.3@.len() == got.2@.len()
        },
{
    match WebPIDecGetYUVA(idec) {
        Ok(got) => Ok((got.0, got.1, got.2, got.3, got.5, got.6, got.7, got.8)),
        Err(e) => Err(e),
    }
}

/// The part of the image that is decoded so far: the output buffer, and the
/// left edge, the top edge, the width and the height of the area, which is
/// made of the whole rows from the top. Before the headers are read there is
/// nothing to give.
#[allow(non_snake_case)]
pub fn WebPIDecodedArea(idec: &WebPIDecoder) -> (r: Result<
    (&WebPDecBuffer, u32, u32, u32, u32),
    WebpUnknownError,
>)
    requires
        idec.wf(),
    ensures
        r.is_ok() <==> idec@.ready,
        r matches Ok(got) ==> {
            &&& got.0@ == idec@.output
            &&& got.1 == 0
            &&& got.2 == 0
            &&& got.3 == idec@.output.width
            &&& got.4 == idec@.last_y
        },
{
    if !idec.ready {
        return Err(WebpUnknownError);
    }
    Ok((&idec.output, 0, 0, idec.output.width(), idec.last_y))
}

} // verus!
