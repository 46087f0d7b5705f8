use vstd::prelude::*;
use crate::text::{chars_of, extend_chars, string_of};

verus! {

/// A region of a monitor, in pixels of its captured frame.
#[derive(Debug, Clone, Copy, PartialEq, Eq, Structural)]
pub struct CaptureRect {
    pub left: u32,
    pub top: u32,
    pub width: u32,
    pub height: u32,
}

/// `a + b`, or `u32::MAX` when that overflows.
pub open spec fn sat_add_u32(a: u32, b: u32) -> u32 {
    if a + b > u32::MAX { u32::MAX } else { (a + b) as u32 }
}

/// Why a capture failed.
#[derive(Debug, Clone, PartialEq, Eq)]
pub enum CaptureError {
    InvalidMonitor,
    InvalidSelection,
    UnsupportedFormat(i32),
    Win32(String),
    FrameUnavailable,
    DeviceUnavailable,
}

/// Whether a selection lies inside a frame of the given size and is not empty.
pub open spec fn selection_fits(r: CaptureRect, content_width: u32, content_height: u32) -> bool {
    r.width != 0 && r.height != 0 && r.left < content_width && r.top < content_height
        && sat_add_u32(r.left, r.width) <= content_width && sat_add_u32(r.top, r.height) <= content_height
}

impl CaptureRect {
    /// The right edge, saturating at `u32::MAX`.
    pub fn right(self) -> (r: u32)
        ensures
            r == sat_add_u32(self.left, self.width),
    {
        self.left.saturating_add(self.width)
    }

    /// The bottom edge, saturating at `u32::MAX`.
    pub fn bottom(self) -> (r: u32)
        ensures
            r == sat_add_u32(self.top, self.height),
    {
        self.top.saturating_add(self.height)
    }

    /// Accepts a selection only when it is not empty and lies inside a frame
    /// of `content_width` by `content_height`.
    pub fn validate(self, content_width: u32, content_height: u32) -> (r: Result<(), CaptureError>)
        ensures
            r is Ok <==> selection_fits(self, content_width, content_height),
            r is Err ==> r == Err::<(), CaptureError>(CaptureError::InvalidSelection),
    {
        if self.width == 0 || self.height == 0 || self.left >= content_width || self.top >= content_height
            || self.right() > content_width || self.bottom() > content_height {
            return Err(CaptureError::InvalidSelection);
        }
        Ok(())
    }
}

impl CaptureError {
    /// The message shown for this error.
    pub fn message(&self) -> (r: String)
        ensures
            match self {
                CaptureError::InvalidMonitor => r@ == "显示器句柄无效"@,
                CaptureError::InvalidSelection => r@ == "截图选区无效"@,
                CaptureError::UnsupportedFormat(v) => r@ == "捕获像素格式不支持: "@ + crate::database::signed_decimal(*v as int),
                CaptureError::Win32(e) => r@ == "Windows 捕获失败: "@ + e@,
                CaptureError::FrameUnavailable => r@ == "未能取得显示器捕获帧"@,
                CaptureError::DeviceUnavailable => r@ == "无法创建 D3D11 设备"@,
            },
    {
        match self {
            CaptureError::InvalidMonitor => String::from_str("显示器句柄无效"),
            CaptureError::InvalidSelection => String::from_str("截图选区无效"),
            CaptureError::UnsupportedFormat(v) => {
                let mut m = chars_of("捕获像素格式不支持: ");
                let n = crate::database::i64_to_string(*v as i64);
                let nc = chars_of(n.as_str());
                extend_chars(&mut m, nc.as_slice());
                string_of(m.as_slice())
            },
            CaptureError::Win32(e) => {
                let mut m = chars_of("Windows 捕获失败: ");
                let ec = chars_of(e.as_str());
                extend_chars(&mut m, ec.as_slice());
                string_of(m.as_slice())
            },
            CaptureError::FrameUnavailable => String::from_str("未能取得显示器捕获帧"),
            CaptureError::DeviceUnavailable => String::from_str("无法创建 D3D11 设备"),
        }
    }
}

/// Rejects an empty selection before any capture resource is created.
pub fn check_capture_selection(selection: CaptureRect) -> (r: Result<(), CaptureError>)
    ensures
        r is Ok <==> (selection.width != 0 && selection.height != 0),
        r is Err ==> r == Err::<(), CaptureError>(CaptureError::InvalidSelection),
{
    if selection.width == 0 || selection.height == 0 {
        return Err(CaptureError::InvalidSelection);
    }
    Ok(())
}

/// Checks a selection against the size a capture item or frame reports:
/// a negative size means no frame, otherwise the selection must fit.
pub fn validate_against_size(selection: CaptureRect, width: i32, height: i32) -> (r: Result<(), CaptureError>)
    ensures
        (width < 0 || height < 0) ==> r == Err::<(), CaptureError>(CaptureError::FrameUnavailable),
        (width >= 0 && height >= 0) ==> (r is Ok <==> selection_fits(selection, width as u32, height as u32)),
        (width >= 0 && height >= 0 && r is Err) ==> r == Err::<(), CaptureError>(CaptureError::InvalidSelection),
{
    if width < 0 || height < 0 {
        return Err(CaptureError::FrameUnavailable);
    }
    selection.validate(width as u32, height as u32)
}

/// The RGBA image of a mapped BGRA surface: row `y` of the surface starts at
/// `y * row_pitch`; each pixel's blue and red bytes are swapped.
pub open spec fn rgba_of_bgra(data: Seq<u8>, row_pitch: nat, width: nat, height: nat) -> Seq<u8> {
    Seq::new(width * height * 4, |i: int| {
        let row = i / (width * 4) as int;
        let col = i % (width * 4) as int;
        let pixel = col / 4;
        let channel = col % 4;
        let base = row * row_pitch + pixel * 4;
        if channel == 0 {
            data[base + 2]
        } else if channel == 2 {
            data[base]
        } else {
            data[base + channel]
        }
    })
}

/// Converts a mapped BGRA surface into tightly packed RGBA rows.
pub fn bgra_to_rgba(data: &[u8], row_pitch: usize, width: u32, height: u32) -> (r: Vec<u8>)
    requires
        width as nat * 4 <= row_pitch,
        height == 0 || (height - 1) * row_pitch + width * 4 <= data@.len(),
        width as nat * height as nat * 4 <= usize::MAX,
    ensures
        r@ == rgba_of_bgra(data@, row_pitch as nat, width as nat, height as nat),
{
    let row_bytes: usize = width as usize * 4;
    let n = data.len();
    let mut out: Vec<u8> = Vec::new();
    let mut y: usize = 0;
    let ghost total = width as nat * height as nat * 4;
    let ghost target = rgba_of_bgra(data@, row_pitch as nat, width as nat, height as nat);
    while y < height as usize
        invariant
            row_bytes == width * 4,
            n == data@.len(),
            width as nat * 4 <= row_pitch,
            height == 0 || (height - 1) * row_pitch + width * 4 <= data@.len(),
            width as nat * height as nat * 4 <= usize::MAX,
            target == rgba_of_bgra(data@, row_pitch as nat, width as nat, height as nat),
            y <= height,
            out@.len() == y * row_bytes,
            forall|i: int| 0 <= i < out@.len() ==> out@[i] == #[trigger] target[i],
        decreases height - y,
    {
        proof {
            assert(y * row_bytes + row_bytes <= height * row_bytes) by (nonlinear_arith)
                requires y < height;
            assert(y * row_pitch + row_bytes <= data@.len()) by (nonlinear_arith)
                requires y < height, (height - 1) * row_pitch + row_bytes <= data@.len(), row_bytes <= row_pitch;
        }
        let base: usize = y * row_pitch;
        let mut x: usize = 0;
        while x < width as usize
            invariant
                row_bytes == width * 4,
                n == data@.len(),
                base == y * row_pitch,
                base + row_bytes <= data@.len(),
                y < height,
                width as nat * height as nat * 4 <= usize::MAX,
                y * row_bytes + row_bytes <= height * row_bytes,
                target == rgba_of_bgra(data@, row_pitch as nat, width as nat, height as nat),
                x <= width,
                out@.len() == y * row_bytes + x * 4,
                forall|i: int| 0 <= i < out@.len() ==> out@[i] == #[trigger] target[i],
            decreases width - x,
        {
            assert(x * 4 + 4 <= row_bytes) by (nonlinear_arith)
                requires x < width, row_bytes == width * 4;
            let p: usize = base + x * 4;
            let ghost start = out@.len() as int;
            let ghost before = out@;
            out.push(data[p + 2]);
            out.push(data[p + 1]);
            out.push(data[p]);
            out.push(data[p + 3]);
            proof {
                assert(width * height * 4 == height * row_bytes) by (nonlinear_arith)
                    requires row_bytes == width * 4;
                assert forall|c: int| 0 <= c < 4 implies out@[start + c] == #[trigger] target[start + c] by {
                    let i = start + c;
                    assert(i / (width * 4) as int == y as int && i % (width * 4) as int == x * 4 + c) by (nonlinear_arith)
                        requires i == y * row_bytes + x * 4 + c, row_bytes == width * 4, 0 <= c < 4, x < width;
                    assert((x * 4 + c) / 4 == x as int && (x * 4 + c) % 4 == c) by (nonlinear_arith)
                        requires 0 <= c < 4, x >= 0;
                    assert(i < width * height * 4) by (nonlinear_arith)
                        requires i == y * row_bytes + x * 4 + c, row_bytes == width * 4, 0 <= c < 4, x < width, y < height;
                }
                assert forall|i: int| 0 <= i < out@.len() implies out@[i] == #[trigger] target[i] by {
                    if i < start {
                        assert(out@[i] == before[i]);
                    } else {
                        let c = i - start;
                        assert(out@[start + c] == target[start + c]);
                    }
                }
            }
            x = x + 1;
        }
        assert(out@.len() == (y + 1) * row_bytes) by (nonlinear_arith)
            requires out@.len() == y * row_bytes + x * 4, x == width, row_bytes == width * 4;
        y = y + 1;
    }
    proof {
        assert(out@.len() == total) by (nonlinear_arith)
            requires out@.len() == y * row_bytes, y == height, row_bytes == width * 4, total == width * height * 4;
    }
    assert(out@ =~= target);
    out
}

/// A window's rectangle in screen coordinates.
#[derive(Debug, Clone, Copy, PartialEq, Eq, Structural)]
pub struct WindowRect {
    pub left: i32,
    pub top: i32,
    pub right: i32,
    pub bottom: i32,
}

/// Whether a window rectangle is not empty and holds the point.
pub open spec fn window_hit(r: WindowRect, x: i32, y: i32) -> bool {
    r.right > r.left && r.bottom > r.top && x >= r.left && x < r.right && y >= r.top && y < r.bottom
}

/// The first window, in top-to-bottom order, whose rectangle holds the point.
pub fn first_window_at_point(rects: &Vec<WindowRect>, x: i32, y: i32) -> (r: Option<WindowRect>)
    ensures
        match r {
            Some(w) => exists|i: int| 0 <= i < rects@.len() && rects@[i] == w && window_hit(w, x, y)
                && forall|j: int| 0 <= j < i ==> !window_hit(#[trigger] rects@[j], x, y),
            None => forall|j: int| 0 <= j < rects@.len() ==> !window_hit(#[trigger] rects@[j], x, y),
        },
{
    let mut i: usize = 0;
    while i < rects.len()
        invariant
            i <= rects@.len(),
            forall|j: int| 0 <= j < i ==> !window_hit(#[trigger] rects@[j], x, y),
        decreases rects.len() - i,
    {
        let w = rects[i];
        if w.right > w.left && w.bottom > w.top && x >= w.left && x < w.right && y >= w.top && y < w.bottom {
            assert(rects@[i as int] == w);
            return Some(w);
        }
        i = i + 1;
    }
    None
}

/// Window style bits that decide whether a window can be picked.
pub const WS_EX_TRANSPARENT: u32 = 0x20;
pub const WS_EX_TOOLWINDOW: u32 = 0x80;
pub const WS_EX_LAYERED: u32 = 0x80000;
pub const WS_EX_NOACTIVATE: u32 = 0x0800_0000;

/// Whether a top-level window can be picked by a click: visible, not
/// minimised, owned by another live process, not click-through, not a
/// non-activating tool window, and not a fully transparent layered window.
/// `layered_alpha` is the alpha the window reports, when it reports one.
pub open spec fn capture_candidate(
    visible: bool,
    iconic: bool,
    process_id: u32,
    current_process_id: u32,
    extended_style: u32,
    layered_alpha: Option<u8>,
) -> bool {
    let transparent = extended_style & WS_EX_TRANSPARENT != 0;
    let tool = extended_style & WS_EX_TOOLWINDOW != 0 && extended_style & WS_EX_NOACTIVATE != 0;
    let invisible_layered = extended_style & WS_EX_LAYERED != 0 && layered_alpha == Some(0u8);
    visible && !iconic && process_id != 0 && process_id != current_process_id && !transparent && !tool
        && !invisible_layered
}

/// Decides whether a window can be picked by a click.
pub fn is_capture_candidate(
    visible: bool,
    iconic: bool,
    process_id: u32,
    current_process_id: u32,
    extended_style: u32,
    layered_alpha: Option<u8>,
) -> (r: bool)
    ensures
        r == capture_candidate(visible, iconic, process_id, current_process_id, extended_style, layered_alpha),
{
    if !visible || iconic {
        return false;
    }
    if process_id == 0 || process_id == current_process_id {
        return false;
    }
    let transparent = extended_style & WS_EX_TRANSPARENT != 0;
    let tool = extended_style & WS_EX_TOOLWINDOW != 0 && extended_style & WS_EX_NOACTIVATE != 0;
    let invisible_layered = if extended_style & WS_EX_LAYERED != 0 {
        match layered_alpha {
            Some(a) => a == 0,
            None => false,
        }
    } else {
        false
    };
    !transparent && !tool && !invisible_layered
}

/// Law (picking a window): a visible, not minimised window of another live
/// process that does not let clicks through and is not a non-activating
/// tool window can be picked whenever it is visible on screen: a layered
/// window is passed over only when its alpha is zero, and is picked at any
/// other alpha or when its alpha cannot be read.
pub proof fn lemma_opaque_windows_are_candidates(
    process_id: u32,
    current_process_id: u32,
    extended_style: u32,
    layered_alpha: Option<u8>,
)
    requires
        process_id != 0,
        process_id != current_process_id,
        extended_style & WS_EX_TRANSPARENT == 0,
        !(extended_style & WS_EX_TOOLWINDOW != 0 && extended_style & WS_EX_NOACTIVATE != 0),
    ensures
        layered_alpha != Some(0u8) ==> capture_candidate(true, false, process_id, current_process_id, extended_style, layered_alpha),
        extended_style & WS_EX_LAYERED != 0 && layered_alpha == Some(0u8)
            ==> !capture_candidate(true, false, process_id, current_process_id, extended_style, layered_alpha),
        extended_style & WS_EX_LAYERED == 0 ==> capture_candidate(true, false, process_id, current_process_id, extended_style, layered_alpha),
{
}

/// Law (windows never picked): a hidden or minimised window, a window of
/// this process or of no process, a window that lets clicks through and a
/// non-activating tool window are never picked, whatever else holds.
pub proof fn lemma_excluded_windows_are_not_candidates(
    visible: bool,
    iconic: bool,
    process_id: u32,
    current_process_id: u32,
    extended_style: u32,
    layered_alpha: Option<u8>,
)
    ensures
        !visible || iconic || process_id == 0 || process_id == current_process_id
            || extended_style & WS_EX_TRANSPARENT != 0
            || (extended_style & WS_EX_TOOLWINDOW != 0 && extended_style & WS_EX_NOACTIVATE != 0)
            ==> !capture_candidate(visible, iconic, process_id, current_process_id, extended_style, layered_alpha),
{
}

/// Whether this thread's COM initialisation must be undone when the capture ends.
pub struct ComInitialization {
    pub should_uninitialize: bool,
}

/// The result code COM gives when the thread already uses another apartment model.
pub const RPC_E_CHANGED_MODE: i32 = -2147417850;

/// Only a successful initialisation (a non-negative result code) is paired
/// with an uninitialisation.
pub fn com_initialization_requires_uninitialize(result: i32) -> (r: bool)
    ensures
        r == (result >= 0),
{
    result >= 0
}

/// What an initialisation result code means: `Some` when the capture may
/// go on, saying whether to uninitialise; `None` when it failed.
pub fn com_initialization_for(result: i32) -> (r: Option<ComInitialization>)
    ensures
        result >= 0 ==> r is Some && r->0.should_uninitialize,
        result == RPC_E_CHANGED_MODE ==> r is Some && !r->0.should_uninitialize,
        result < 0 && result != RPC_E_CHANGED_MODE ==> r is None,
{
    if com_initialization_requires_uninitialize(result) {
        return Some(ComInitialization { should_uninitialize: true });
    }
    if result == RPC_E_CHANGED_MODE {
        return Some(ComInitialization { should_uninitialize: false });
    }
    None
}

/// One captured region, as RGBA bytes.
#[derive(Debug, Clone, PartialEq, Eq)]
pub struct CapturedFrame {
    pub width: u32,
    pub height: u32,
    pub rgba: Vec<u8>,
}

} // verus!
