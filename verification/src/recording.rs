use vstd::prelude::*;
use crate::capture::CaptureRect;
use crate::text::{chars_of, decimal, decimal_chars, extend_chars, own, string_of};

verus! {

/// The lowest recording frame rate.
pub const RECORDING_MIN_FPS: u8 = 10;
/// The highest recording frame rate.
pub const RECORDING_MAX_FPS: u8 = 15;

/// A frame rate accepted for GIF recording.
#[derive(Debug, Clone, Copy, PartialEq, Eq, Structural)]
pub struct GifFrameRate {
    pub frames_per_second: u8,
}

/// The delay between two frames at `fps` frames per second, at least one millisecond.
pub open spec fn frame_delay_ms(fps: u8) -> u32 {
    if fps == 0 || 1000int / (fps as int) < 1 { 1 } else { (1000int / (fps as int)) as u32 }
}

impl GifFrameRate {
    /// Accepts a frame rate from 10 to 15 frames per second.
    pub fn new(frames_per_second: u8) -> (r: Result<Self, String>)
        ensures
            r is Ok <==> RECORDING_MIN_FPS <= frames_per_second <= RECORDING_MAX_FPS,
            r is Ok ==> r->Ok_0.frames_per_second == frames_per_second,
            r is Err ==> r->Err_0@ == "GIF 帧率必须在 10~15fps 之间，收到 "@ + decimal(frames_per_second as nat),
    {
        if !(RECORDING_MIN_FPS <= frames_per_second && frames_per_second <= RECORDING_MAX_FPS) {
            let mut m = chars_of("GIF 帧率必须在 10~15fps 之间，收到 ");
            let d = decimal_chars(frames_per_second as u64);
            extend_chars(&mut m, d.as_slice());
            return Err(string_of(m.as_slice()));
        }
        Ok(GifFrameRate { frames_per_second })
    }

    /// The delay between frames in milliseconds.
    pub fn delay_ms(self) -> (r: u32)
        ensures
            r == frame_delay_ms(self.frames_per_second),
    {
        if self.frames_per_second == 0 {
            return 1;
        }
        let d = 1000 / self.frames_per_second as u32;
        if d < 1 { 1 } else { d }
    }
}

/// What the image crate's GIF encoder writes for frames of `width` by
/// `height` RGBA pixels shown `delay_ms` each; `None` when it fails.
pub uninterp spec fn gif_encoding(width: u32, height: u32, frames: Seq<Seq<u8>>, delay_ms: u32) -> Option<Seq<u8>>;

/// The pixel data of a list of frames.
pub open spec fn frame_bytes(frames: Seq<Vec<u8>>) -> Seq<Seq<u8>> {
    frames.map_values(|f: Vec<u8>| f@)
}

/// The signature every GIF file starts with.
pub open spec fn gif_signature() -> Seq<u8> {
    seq![0x47u8, 0x49u8, 0x46u8, 0x38u8, 0x39u8, 0x61u8]
}

/// Encodes equally sized RGBA frames as a GIF with `image::codecs::gif::GifEncoder`
/// (`encode_frames`, each frame built by `RgbaImage::from_raw` and
/// `Frame::from_parts` with the given delay). Its result is named by
/// `gif_encoding`; the error text is the encoder's own message.
///
/// The image crate converts each frame with `gif_dimensions`, which refuses
/// a side above 65535, and the gif crate's `Encoder::new` writes the
/// `GIF89a` screen descriptor before the first frame; writing into a `Vec`
/// does not fail, and a frame built by `Frame::from_rgba_speed` has at most
/// 256 colours and a buffer of its own size. So at least one frame with
/// sides from 1 to 65535 is encoded, and a side above 65535 is refused. Left
/// unsaid: the gif crate reserves its compression buffer with `try_reserve`
/// and reports `OutOfMemory` when that fails; like every other allocation of
/// this library, that is taken not to happen.
#[verifier::external_body]
fn encode_gif(width: u32, height: u32, frames: &Vec<Vec<u8>>, delay_ms: u32) -> (r: Result<Vec<u8>, String>)
    requires
        forall|i: int| 0 <= i < frames@.len() ==> (#[trigger] frames@[i])@.len() == width as nat * height as nat * 4,
    ensures
        match r {
            Ok(b) => gif_encoding(width, height, frame_bytes(frames@), delay_ms) == Some(b@),
            Err(_) => gif_encoding(width, height, frame_bytes(frames@), delay_ms) is None,
        },
        frames@.len() > 0 && 1 <= width <= 65535 && 1 <= height <= 65535 ==> r is Ok,
        frames@.len() > 0 && (width > 65535 || height > 65535) ==> r is Err,
        frames@.len() > 0 && r is Ok ==> r->Ok_0@.len() >= 6 && r->Ok_0@.take(6) == gif_signature(),
{
    let delay = image::Delay::from_numer_denom_ms(delay_ms, 1);
    let mut converted = Vec::new();
    for f in frames {
        converted.push(image::Frame::from_parts(image::RgbaImage::from_raw(width, height, f.clone()).unwrap(), 0, 0, delay));
    }
    let mut bytes = Vec::new();
    let result = image::codecs::gif::GifEncoder::new(&mut bytes).encode_frames(converted);
    match result {
        Ok(()) => Ok(bytes),
        Err(e) => Err(e.to_string()),
    }
}

/// Why a list of frames cannot be encoded, checked frame by frame: no
/// frame, an empty first frame, a frame of another size, or pixel data of
/// the wrong length.
pub open spec fn frames_error(frames: Seq<(u32, u32, Seq<u8>)>) -> Option<Seq<char>> {
    if frames.len() == 0 {
        Some("GIF 至少需要 1 帧"@)
    } else if frames[0].0 == 0 || frames[0].1 == 0 {
        Some("GIF 帧尺寸无效"@)
    } else {
        first_frame_error(frames, frames[0].0, frames[0].1, 0)
    }
}

/// The first problem among the frames from position `k` on.
pub open spec fn first_frame_error(frames: Seq<(u32, u32, Seq<u8>)>, width: u32, height: u32, k: int) -> Option<Seq<char>>
    decreases frames.len() - k,
{
    if k < 0 || k >= frames.len() {
        None
    } else if frames[k].0 != width || frames[k].1 != height {
        Some("GIF 各帧尺寸必须一致"@)
    } else if frames[k].2.len() != width as nat * height as nat * 4 {
        Some("GIF 帧像素数据长度无效"@)
    } else {
        first_frame_error(frames, width, height, k + 1)
    }
}

/// The position of the first frame from `k` on that has another size or
/// pixel data of the wrong length; the number of frames when there is none.
pub open spec fn bad_frame_index(frames: Seq<(u32, u32, Seq<u8>)>, width: u32, height: u32, k: int) -> int
    decreases frames.len() - k,
{
    if k < 0 || k >= frames.len() {
        frames.len() as int
    } else if frames[k].0 != width || frames[k].1 != height || frames[k].2.len() != width as nat * height as nat * 4 {
        k
    } else {
        bad_frame_index(frames, width, height, k + 1)
    }
}

/// The pixel data of the first `k` frames.
pub open spec fn frame_prefix(frames: Seq<(u32, u32, Seq<u8>)>, k: int) -> Seq<Seq<u8>> {
    Seq::new(k as nat, |i: int| frames[i].2)
}

/// The frames as plain values.
pub open spec fn frames_view(frames: Seq<(u32, u32, &[u8])>) -> Seq<(u32, u32, Seq<u8>)> {
    frames.map_values(|f: (u32, u32, &[u8])| (f.0, f.1, f.2@))
}

/// Encodes a list of RGBA frames of one size as a GIF at the given frame rate.
pub fn encode_rgba_frames(frames: &[(u32, u32, &[u8])], frame_rate: GifFrameRate) -> (r: Result<Vec<u8>, String>)
    ensures
        ({
            let fv = frames_view(frames@);
            let delay = frame_delay_ms(frame_rate.frames_per_second);
            match frames_error(fv) {
                Some(m) => if fv.len() == 0 || fv[0].0 == 0 || fv[0].1 == 0 {
                    r is Err && r->Err_0@ == m
                } else {
                    // Frames are encoded one by one as they are checked: a
                    // failure to encode an earlier frame comes first.
                    let k = bad_frame_index(fv, fv[0].0, fv[0].1, 0);
                    if k > 0 && gif_encoding(fv[0].0, fv[0].1, frame_prefix(fv, k), delay) is None {
                        r is Err && crate::text::starts_with(r->Err_0@, "GIF 编码失败: "@)
                    } else {
                        r is Err && r->Err_0@ == m
                    }
                },
                None => match gif_encoding(fv[0].0, fv[0].1, frame_prefix(fv, fv.len() as int), delay) {
                    Some(b) => r is Ok && r->Ok_0@ == b,
                    None => r is Err && crate::text::starts_with(r->Err_0@, "GIF 编码失败: "@),
                },
            }
        }),
        frames_error(frames_view(frames@)) is None && frames@[0].0 <= 65535 && frames@[0].1 <= 65535 ==> r is Ok
            && r->Ok_0@.len() >= 6 && r->Ok_0@.take(6) == gif_signature(),
{
    let ghost fv = frames_view(frames@);
    if frames.len() == 0 {
        return Err(own("GIF 至少需要 1 帧"));
    }
    let (width, height, _) = frames[0];
    if width == 0 || height == 0 {
        return Err(own("GIF 帧尺寸无效"));
    }
    assert(width as nat * height as nat * 4 <= 0x4_0000_0000_0000_0000) by (nonlinear_arith)
        requires width <= u32::MAX, height <= u32::MAX;
    let expected: u128 = width as u128 * height as u128 * 4;
    let delay = frame_rate.delay_ms();
    let mut data: Vec<Vec<u8>> = Vec::new();
    let mut k: usize = 0;
    while k < frames.len()
        invariant
            fv == frames_view(frames@),
            fv.len() == frames@.len(),
            k <= frames@.len(),
            width == fv[0].0,
            height == fv[0].1,
            width != 0 && height != 0,
            expected == width as nat * height as nat * 4,
            delay == frame_delay_ms(frame_rate.frames_per_second),
            first_frame_error(fv, width, height, 0) == first_frame_error(fv, width, height, k as int),
            bad_frame_index(fv, width, height, 0) == bad_frame_index(fv, width, height, k as int),
            data@.len() == k,
            forall|i: int| 0 <= i < k ==> (#[trigger] data@[i])@ == fv[i].2,
            forall|i: int| 0 <= i < k ==> (#[trigger] data@[i])@.len() == width as nat * height as nat * 4,
        decreases frames.len() - k,
    {
        let (w, h, rgba) = frames[k];
        assert(fv[k as int] == (w, h, rgba@));
        if w != width || h != height || rgba.len() as u128 != expected {
            assert(bad_frame_index(fv, width, height, k as int) == k);
            if k > 0 {
                assert(frame_bytes(data@) =~= frame_prefix(fv, k as int));
                match encode_gif(width, height, &data, delay) {
                    Err(e) => return Err(encode_error(e.as_str())),
                    Ok(_) => {},
                }
            }
            if w != width || h != height {
                return Err(own("GIF 各帧尺寸必须一致"));
            }
            return Err(own("GIF 帧像素数据长度无效"));
        }
        let mut copy: Vec<u8> = Vec::new();
        let mut j: usize = 0;
        while j < rgba.len()
            invariant
                j <= rgba@.len(),
                copy@ == rgba@.take(j as int),
            decreases rgba.len() - j,
        {
            copy.push(rgba[j]);
            j = j + 1;
            assert(copy@ =~= rgba@.take(j as int));
        }
        assert(rgba@.take(rgba@.len() as int) =~= rgba@);
        data.push(copy);
        k = k + 1;
    }
    assert(first_frame_error(fv, width, height, k as int) is None);
    assert(frame_bytes(data@) =~= frame_prefix(fv, fv.len() as int));
    match encode_gif(width, height, &data, delay) {
        Ok(bytes) => Ok(bytes),
        Err(e) => Err(encode_error(e.as_str())),
    }
}

fn encode_error(e: &str) -> (r: String)
    ensures
        crate::text::starts_with(r@, "GIF 编码失败: "@),
        r@ == "GIF 编码失败: "@ + e@,
{
    let mut m = chars_of("GIF 编码失败: ");
    let ghost p = m@;
    let ec = chars_of(e);
    extend_chars(&mut m, ec.as_slice());
    let out = string_of(m.as_slice());
    assert(out@.subrange(0, p.len() as int) =~= p);
    out
}

/// A recording in progress: stopping raises the stop flag and advances the
/// generation so that a capture in flight sees it is stale.
pub struct RecordingSession {
    pub stop_flag: bool,
    pub generation: u64,
}

impl RecordingSession {
    /// A session that runs, at generation zero.
    pub fn new() -> (s: Self)
        ensures
            !s.stop_flag,
            s.generation == 0,
    {
        RecordingSession { stop_flag: false, generation: 0 }
    }

    /// Stops the recording.
    pub fn stop(&mut self)
        ensures
            final(self).stop_flag,
            final(self).generation == old(self).generation.wrapping_add(1),
    {
        self.stop_flag = true;
        self.generation = self.generation.wrapping_add(1);
    }

    /// Whether the capture loop takes another frame.
    pub fn should_capture(&self) -> (r: bool)
        ensures
            r == !self.stop_flag,
    {
        !self.stop_flag
    }
}

/// The pause between two captures of the recording loop: one frame period,
/// at least sixteen milliseconds.
pub fn capture_interval_ms(frame_rate: GifFrameRate) -> (r: u64)
    ensures
        frame_rate.frames_per_second == 0 ==> r == 16,
        frame_rate.frames_per_second != 0 ==> r == (if 1000int / (frame_rate.frames_per_second as int) < 16 { 16 } else { 1000int / (frame_rate.frames_per_second as int) }),
{
    if frame_rate.frames_per_second == 0 {
        return 16;
    }
    let d = 1000 / frame_rate.frames_per_second as u64;
    if d < 16 { 16 } else { d }
}

/// The point whose monitor is recorded: the centre of the region, saturating.
pub fn recording_center(monitor: CaptureRect) -> (r: (u32, u32))
    ensures
        r.0 == crate::capture::sat_add_u32(monitor.left, monitor.width / 2),
        r.1 == crate::capture::sat_add_u32(monitor.top, monitor.height / 2),
{
    (monitor.left.saturating_add(monitor.width / 2), monitor.top.saturating_add(monitor.height / 2))
}

/// What a recording produced.
#[derive(Debug, Clone, PartialEq, Eq)]
pub struct RecordingResult {
    pub gif_bytes: Vec<u8>,
    pub width: u32,
    pub height: u32,
    pub rgba: Vec<u8>,
}

impl RecordingResult {
    /// Whether the recording produced nothing usable: no GIF bytes or no size.
    pub fn is_empty(&self) -> (r: bool)
        ensures
            r == (self.gif_bytes@.len() == 0 || self.width == 0 || self.height == 0),
    {
        self.gif_bytes.len() == 0 || self.width == 0 || self.height == 0
    }
}

/// Rejects an empty recording, and one whose frame is not `width` by
/// `height` RGBA pixels, before anything is stored.
pub fn validate_result(result: &RecordingResult) -> (r: Result<(), String>)
    ensures
        (result.gif_bytes@.len() == 0 || result.width == 0 || result.height == 0) ==> r is Err && r->Err_0@ == "录制结果为空"@,
        !(result.gif_bytes@.len() == 0 || result.width == 0 || result.height == 0) ==> (r is Ok <==> result.rgba@.len() == result.width as nat * result.height as nat * 4),
        !(result.gif_bytes@.len() == 0 || result.width == 0 || result.height == 0) && r is Err ==> r->Err_0@ == "录制帧像素数据长度无效"@,
{
    if result.is_empty() {
        return Err(own("录制结果为空"));
    }
    assert(result.width as nat * result.height as nat * 4 <= 0x4_0000_0000_0000_0000) by (nonlinear_arith)
        requires result.width <= u32::MAX, result.height <= u32::MAX;
    let expected: u128 = result.width as u128 * result.height as u128 * 4;
    if result.rgba.len() as u128 != expected {
        return Err(own("录制帧像素数据长度无效"));
    }
    Ok(())
}

/// Encodes the last frame of a recording as PNG for the history entry.
pub fn encode_snapshot(result: &RecordingResult) -> (r: Result<Vec<u8>, String>)
    requires
        crate::imaging::is_rgba_image(result.width, result.height, result.rgba@),
    ensures
        match crate::imaging::png_encoding(result.width, result.height, result.rgba@) {
            Some(b) => r is Ok && r->Ok_0@ == b,
            None => r is Err && crate::text::starts_with(r->Err_0@, "录制帧 PNG 编码失败: "@),
        },
{
    match crate::imaging::encode_png_rgba(result.width, result.height, result.rgba.as_slice()) {
        Ok(b) => Ok(b),
        Err(e) => {
            let mut v = crate::text::chars_of("录制帧 PNG 编码失败: ");
            let ghost p = v@;
            let w = crate::text::chars_of(e.as_str());
            crate::text::extend_chars(&mut v, w.as_slice());
            let out = crate::text::string_of(v.as_slice());
            assert(out@.subrange(0, p.len() as int) =~= p);
            Err(out)
        },
    }
}

} // verus!
