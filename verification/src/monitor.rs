use vstd::prelude::*;
use vstd::string::StringSliceAdditionalSpecFns;
use crate::hashing::{extend_bytes, hash_plain_text, sha256_hex, sha256_hex_string, utf8_bytes};
use crate::paste::{payload_view, PayloadEntry, PayloadView};
use crate::paths::{normalize_path_for_hash, path_for_hash};

verus! {

/// The clipboard monitor's shared state: whether it runs, its generation,
/// the pauses in force, the capture worker's flags and the hashes of the
/// last captured contents.
pub struct MonitorState {
    pub running: bool,
    pub generation: u64,
    pub pause_count: u64,
    pub suppress_until_ms: u64,
    pub capture_in_flight: bool,
    pub capture_pending: bool,
    pub last_content_hashes: Vec<String>,
}

/// The mathematical state of the monitor.
pub struct MonitorView {
    pub running: bool,
    pub generation: u64,
    pub pause_count: u64,
    pub suppress_until_ms: u64,
    pub capture_in_flight: bool,
    pub capture_pending: bool,
    pub last_content_hashes: Seq<Seq<char>>,
}

impl View for MonitorState {
    type V = MonitorView;

    open spec fn view(&self) -> MonitorView {
        MonitorView {
            running: self.running,
            generation: self.generation,
            pause_count: self.pause_count,
            suppress_until_ms: self.suppress_until_ms,
            capture_in_flight: self.capture_in_flight,
            capture_pending: self.capture_pending,
            last_content_hashes: self.last_content_hashes@.map_values(|h: String| h@),
        }
    }
}

/// A pause of the monitor; releasing it may start a deferred capture.
pub struct ClipboardMonitorPauseGuard;

/// The handler registered with a watcher of one generation.
pub struct ClipboardMonitorManager {
    pub generation: u64,
}

/// What happened to a clipboard change notification.
#[derive(Debug, Clone, Copy, PartialEq, Eq, Structural)]
pub enum ChangeOutcome {
    /// The monitor is paused: the change is remembered for later.
    DeferredWhilePaused,
    /// The foreground application is filtered out: nothing is captured.
    Filtered,
    /// A capture was requested; `spawn_worker` tells whether a worker must be started.
    CaptureScheduled { spawn_worker: bool },
}

/// `a + b`, or `u64::MAX` when that overflows.
pub open spec fn sat_add(a: u64, b: u64) -> u64 {
    if a + b > u64::MAX { u64::MAX } else { (a + b) as u64 }
}

/// A counter advanced by one, wrapping to zero past its largest value as
/// the process-wide atomic counters do.
pub open spec fn wrapping_next(x: u64) -> u64 {
    if x == u64::MAX { 0 } else { (x + 1) as u64 }
}

/// The state after a pause of `duration_ms` taken at `now_ms`.
pub open spec fn paused(s: MonitorView, now_ms: u64, duration_ms: u64) -> MonitorView {
    let until = sat_add(now_ms, duration_ms);
    MonitorView {
        pause_count: wrapping_next(s.pause_count),
        suppress_until_ms: if s.suppress_until_ms >= until { s.suppress_until_ms } else { until },
        ..s
    }
}

/// Scheduling a capture: start a worker unless one is in flight, in which
/// case the capture is left pending for it.
pub open spec fn scheduled(s: MonitorView) -> (MonitorView, bool) {
    if !s.capture_in_flight {
        (MonitorView { capture_in_flight: true, ..s }, true)
    } else {
        (MonitorView { capture_pending: true, ..s }, false)
    }
}

/// A deferred capture starts only when the last pause ends, the monitor
/// runs and a change arrived during the pause.
pub open spec fn deferred_capture_due(remaining: u64, running: bool, pending: bool) -> bool {
    remaining == 1 && running && pending
}

/// The state after a pause guard is released, and whether a worker must start.
pub open spec fn released(s: MonitorView) -> (MonitorView, bool) {
    let t = MonitorView { pause_count: (s.pause_count - 1) as u64, ..s };
    if s.pause_count == 1 {
        let cleared = MonitorView { capture_pending: false, ..t };
        if deferred_capture_due(s.pause_count, s.running, s.capture_pending) {
            scheduled(cleared)
        } else {
            (cleared, false)
        }
    } else {
        (t, false)
    }
}

/// The monitor is paused while a guard is held or a suppression window lasts.
pub open spec fn is_paused(s: MonitorView, now_ms: u64) -> bool {
    s.pause_count > 0 || now_ms < s.suppress_until_ms
}

/// The state after the monitor stops.
pub open spec fn stopped(s: MonitorView) -> MonitorView {
    MonitorView {
        running: false,
        generation: wrapping_next(s.generation),
        capture_in_flight: false,
        capture_pending: if s.running { false } else { s.capture_pending },
        ..s
    }
}

/// A worker of generation `g` may capture another round.
pub open spec fn worker_may_run(s: MonitorView, g: u64) -> bool {
    s.running && s.generation == g
}

/// The state after a worker of generation `g` ends, and whether another
/// worker must start for changes that arrived meanwhile.
pub open spec fn worker_finished(s: MonitorView, g: u64) -> (MonitorView, bool) {
    let t = if s.generation == g { MonitorView { capture_in_flight: false, ..s } } else { s };
    if t.capture_pending {
        let u = MonitorView { capture_pending: false, ..t };
        if !u.capture_in_flight {
            (MonitorView { capture_in_flight: true, ..u }, true)
        } else {
            (u, false)
        }
    } else {
        (t, false)
    }
}

impl MonitorState {
    /// A stopped monitor with nothing pending.
    pub fn new() -> (s: Self)
        ensures
            !s@.running,
            s@.generation == 0,
            s@.pause_count == 0,
            s@.suppress_until_ms == 0,
            !s@.capture_in_flight,
            !s@.capture_pending,
            s@.last_content_hashes.len() == 0,
    {
        let s = MonitorState {
            running: false,
            generation: 0,
            pause_count: 0,
            suppress_until_ms: 0,
            capture_in_flight: false,
            capture_pending: false,
            last_content_hashes: Vec::new(),
        };
        assert(s@.last_content_hashes =~= Seq::<Seq<char>>::empty());
        s
    }
}

/// Pauses the monitor for `duration_ms` from `now_ms`; the guard holds the
/// pause until it is released.
pub fn pause_clipboard_monitor_for(state: &mut MonitorState, now_ms: u64, duration_ms: u64) -> (g: ClipboardMonitorPauseGuard)
    ensures
        final(state)@ == paused(old(state)@, now_ms, duration_ms),
{
    state.pause_count = state.pause_count.wrapping_add(1);
    let until = now_ms.saturating_add(duration_ms);
    if state.suppress_until_ms < until {
        state.suppress_until_ms = until;
    }
    ClipboardMonitorPauseGuard
}

/// Whether a change notification must be deferred now.
pub fn is_clipboard_monitor_paused(state: &MonitorState, now_ms: u64) -> (r: bool)
    ensures
        r == is_paused(state@, now_ms),
{
    state.pause_count > 0 || now_ms < state.suppress_until_ms
}

/// Decides whether releasing a pause guard starts a deferred capture.
pub fn should_schedule_deferred_capture(
    remaining_pause_guards: u64,
    monitor_running: bool,
    has_pending_capture: bool,
) -> (r: bool)
    ensures
        r == deferred_capture_due(remaining_pause_guards, monitor_running, has_pending_capture),
{
    remaining_pause_guards == 1 && monitor_running && has_pending_capture
}

/// Takes the pending-capture flag, clearing it.
pub fn take_capture_pending(state: &mut MonitorState) -> (r: bool)
    ensures
        r == old(state).capture_pending,
        final(state)@ == (MonitorView { capture_pending: false, ..old(state)@ }),
{
    let r = state.capture_pending;
    state.capture_pending = false;
    r
}

/// Starts a capture worker unless one is in flight; returns whether the
/// caller must spawn it.
pub fn schedule_capture_worker(state: &mut MonitorState) -> (spawn: bool)
    ensures
        (final(state)@, spawn) == scheduled(old(state)@),
{
    if !state.capture_in_flight {
        state.capture_in_flight = true;
        true
    } else {
        state.capture_pending = true;
        false
    }
}

/// Releases a pause guard; returns whether a deferred capture worker must
/// be spawned now.
pub fn release_pause_guard(state: &mut MonitorState, guard: ClipboardMonitorPauseGuard) -> (spawn: bool)
    requires
        old(state).pause_count > 0,
    ensures
        (final(state)@, spawn) == released(old(state)@),
{
    let remaining = state.pause_count;
    state.pause_count = state.pause_count - 1;
    if remaining == 1 {
        let has_pending = take_capture_pending(state);
        if should_schedule_deferred_capture(remaining, state.running, has_pending) {
            return schedule_capture_worker(state);
        }
    }
    false
}

/// Handles a clipboard change notification: deferred while paused, dropped
/// when `capture_allowed` is false (the foreground application is filtered),
/// else scheduled.
pub fn handle_clipboard_change(state: &mut MonitorState, now_ms: u64, capture_allowed: bool) -> (r: ChangeOutcome)
    ensures
        is_paused(old(state)@, now_ms) ==> r == ChangeOutcome::DeferredWhilePaused
            && final(state)@ == (MonitorView { capture_pending: true, ..old(state)@ }),
        !is_paused(old(state)@, now_ms) && !capture_allowed ==> r == ChangeOutcome::Filtered
            && final(state)@ == old(state)@,
        !is_paused(old(state)@, now_ms) && capture_allowed ==> r == (ChangeOutcome::CaptureScheduled {
            spawn_worker: scheduled(old(state)@).1,
        }) && final(state)@ == scheduled(old(state)@).0,
{
    if is_clipboard_monitor_paused(state, now_ms) {
        state.capture_pending = true;
        return ChangeOutcome::DeferredWhilePaused;
    }
    if !capture_allowed {
        return ChangeOutcome::Filtered;
    }
    let spawn = schedule_capture_worker(state);
    ChangeOutcome::CaptureScheduled { spawn_worker: spawn }
}

impl ClipboardMonitorManager {
    /// The handler of watcher generation `generation`.
    pub fn new(generation: u64) -> (r: Result<Self, String>)
        ensures
            r matches Ok(m) && m.generation == generation,
    {
        Ok(ClipboardMonitorManager { generation })
    }

    /// A notification reaches this handler's capture logic only while the
    /// monitor runs and this handler belongs to the current generation.
    pub fn accepts_change(&self, state: &MonitorState) -> (r: bool)
        ensures
            r == (state.running && state.generation == self.generation),
    {
        state.running && state.generation == self.generation
    }
}

/// Marks the monitor running and opens a new generation; `None` when it was
/// already running (nothing changes then).
pub fn start_clipboard_monitor(state: &mut MonitorState) -> (r: Option<u64>)
    ensures
        old(state).running ==> r is None && final(state)@ == old(state)@,
        !old(state).running ==> r == Some(wrapping_next(old(state).generation))
            && final(state)@ == (MonitorView { running: true, generation: wrapping_next(old(state).generation), ..old(state)@ }),
{
    if state.running {
        return None;
    }
    state.running = true;
    state.generation = state.generation.wrapping_add(1);
    Some(state.generation)
}

/// Rolls back the running flag when the watcher could not be created.
pub fn abort_start(state: &mut MonitorState)
    ensures
        final(state)@ == (MonitorView { running: false, ..old(state)@ }),
{
    state.running = false;
}

/// Stops the monitor: it stops running, the generation advances so that
/// in-flight workers stop, and the in-flight flag is reset so that a later
/// start can spawn workers again. Returns whether it was running.
pub fn stop_clipboard_monitor(state: &mut MonitorState) -> (was_running: bool)
    ensures
        was_running == old(state).running,
        final(state)@ == stopped(old(state)@),
{
    let was_running = state.running;
    state.running = false;
    state.generation = state.generation.wrapping_add(1);
    state.capture_in_flight = false;
    if was_running {
        state.capture_pending = false;
    }
    was_running
}

/// Whether the monitor runs.
pub fn is_monitor_running(state: &MonitorState) -> (r: bool)
    ensures
        r == state.running,
{
    state.running
}

/// Whether a worker of generation `worker_generation` may capture one more round.
pub fn worker_round_allowed(state: &MonitorState, worker_generation: u64) -> (r: bool)
    ensures
        r == worker_may_run(state@, worker_generation),
{
    state.running && state.generation == worker_generation
}

/// Starts a worker round: changes seen so far are covered by it.
pub fn begin_worker_round(state: &mut MonitorState)
    ensures
        final(state)@ == (MonitorView { capture_pending: false, ..old(state)@ }),
{
    state.capture_pending = false;
}

/// Ends a worker round; returns whether changes arrived meanwhile, so that
/// the worker captures again.
pub fn end_worker_round(state: &mut MonitorState) -> (again: bool)
    ensures
        again == old(state).capture_pending,
        final(state)@ == (MonitorView { capture_pending: false, ..old(state)@ }),
{
    take_capture_pending(state)
}

/// Ends a worker of generation `worker_generation`; returns whether a new
/// worker must be spawned for changes that raced with its exit.
pub fn finish_worker(state: &mut MonitorState, worker_generation: u64) -> (spawn: bool)
    ensures
        (final(state)@, spawn) == worker_finished(old(state)@, worker_generation),
{
    if state.generation == worker_generation {
        state.capture_in_flight = false;
    }
    if take_capture_pending(state) {
        if !state.capture_in_flight {
            state.capture_in_flight = true;
            return true;
        }
    }
    false
}

/// Forgets the last captured contents, so the same content can be recorded again.
pub fn clear_last_content_cache(state: &mut MonitorState)
    ensures
        final(state)@ == (MonitorView { last_content_hashes: Seq::empty(), ..old(state)@ }),
{
    state.last_content_hashes = Vec::new();
    assert(state@.last_content_hashes =~= Seq::<Seq<char>>::empty());
}

/// Positions of `current` whose hash is not in `last`.
pub open spec fn new_positions(last: Seq<Seq<char>>, current: Seq<Seq<char>>) -> Seq<int>
    decreases current.len(),
{
    if current.len() == 0 {
        Seq::empty()
    } else {
        let prev = new_positions(last, current.drop_last());
        if last.contains(current.last()) {
            prev
        } else {
            prev.push(current.len() - 1)
        }
    }
}

fn strings_equal(a: &Vec<String>, b: &Vec<String>) -> (r: bool)
    ensures
        r == (a@.map_values(|h: String| h@) == b@.map_values(|h: String| h@)),
{
    if a.len() != b.len() {
        assert(a@.map_values(|h: String| h@).len() != b@.map_values(|h: String| h@).len());
        return false;
    }
    let mut i: usize = 0;
    while i < a.len()
        invariant
            a@.len() == b@.len(),
            i <= a@.len(),
            forall|k: int| 0 <= k < i ==> a@[k]@ == b@[k]@,
        decreases a.len() - i,
    {
        if a[i] != b[i] {
            assert(a@.map_values(|h: String| h@)[i as int] != b@.map_values(|h: String| h@)[i as int]);
            return false;
        }
        i = i + 1;
    }
    assert(a@.map_values(|h: String| h@) =~= b@.map_values(|h: String| h@));
    true
}

fn strings_contain(v: &Vec<String>, x: &String) -> (r: bool)
    ensures
        r == v@.map_values(|h: String| h@).contains(x@),
{
    let mut i: usize = 0;
    while i < v.len()
        invariant
            i <= v@.len(),
            forall|k: int| 0 <= k < i ==> v@[k]@ != x@,
        decreases v.len() - i,
    {
        if v[i] == *x {
            assert(v@.map_values(|h: String| h@)[i as int] == x@);
            return true;
        }
        i = i + 1;
    }
    false
}

/// De-duplicates a capture against the last one: when the hashes equal the
/// last capture's nothing is new; else the positions whose hash the last
/// capture lacks are new, and the current hashes become the last ones.
pub fn dedup_captured_hashes(state: &mut MonitorState, current: Vec<String>) -> (fresh: Vec<usize>)
    ensures
        old(state)@.last_content_hashes == current@.map_values(|h: String| h@) ==> fresh@.len() == 0
            && final(state)@ == old(state)@,
        old(state)@.last_content_hashes != current@.map_values(|h: String| h@) ==> {
            &&& fresh@.map_values(|i: usize| i as int) == new_positions(old(state)@.last_content_hashes, current@.map_values(|h: String| h@))
            &&& final(state)@ == (MonitorView { last_content_hashes: current@.map_values(|h: String| h@), ..old(state)@ })
        },
{
    if strings_equal(&state.last_content_hashes, &current) {
        return Vec::new();
    }
    let mut fresh: Vec<usize> = Vec::new();
    let mut i: usize = 0;
    while i < current.len()
        invariant
            i <= current@.len(),
            fresh@.map_values(|k: usize| k as int) == new_positions(state@.last_content_hashes, current@.subrange(0, i as int).map_values(|h: String| h@)),
        decreases current.len() - i,
    {
        let ghost pre = current@.subrange(0, i as int).map_values(|h: String| h@);
        let ghost nxt = current@.subrange(0, i + 1).map_values(|h: String| h@);
        assert(nxt.drop_last() =~= pre);
        assert(nxt.last() == current@[i as int]@);
        if !strings_contain(&state.last_content_hashes, &current[i]) {
            let ghost before = fresh@;
            fresh.push(i);
            assert(fresh@.map_values(|k: usize| k as int) =~= before.map_values(|k: usize| k as int).push(i as int));
        }
        i = i + 1;
    }
    assert(current@.subrange(0, current@.len() as int) =~= current@);
    state.last_content_hashes = current;
    fresh
}

/// Presets the de-duplication cache with the hash of a text about to be
/// written to the clipboard.
pub fn set_last_hash_text(state: &mut MonitorState, text: &str)
    ensures
        final(state)@ == (MonitorView { last_content_hashes: seq![sha256_hex(text.spec_bytes())], ..old(state)@ }),
{
    let h = hash_plain_text(text);
    let mut v: Vec<String> = Vec::new();
    v.push(h);
    state.last_content_hashes = v;
    assert(state@.last_content_hashes =~= seq![sha256_hex(text.spec_bytes())]);
}

/// The bytes hashed for a list of paths: the UTF-8 of each normalised path,
/// each followed by a zero byte when `separated`.
pub open spec fn path_hash_input(paths: Seq<Seq<char>>, separated: bool) -> Seq<u8>
    decreases paths.len(),
{
    if paths.len() == 0 {
        Seq::empty()
    } else {
        path_hash_input(paths.drop_last(), separated)
            + vstd::utf8::encode_utf8(path_for_hash(paths.last()))
            + (if separated { seq![0u8] } else { Seq::empty() })
    }
}

/// The hash of a list of file paths.
pub fn hash_paths(paths: &Vec<String>, separated: bool) -> (h: String)
    ensures
        h@ == sha256_hex(path_hash_input(paths@.map_values(|p: String| p@), separated)),
{
    let mut bytes: Vec<u8> = Vec::new();
    let mut i: usize = 0;
    while i < paths.len()
        invariant
            i <= paths@.len(),
            bytes@ == path_hash_input(paths@.subrange(0, i as int).map_values(|p: String| p@), separated),
        decreases paths.len() - i,
    {
        let ghost pre = paths@.subrange(0, i as int).map_values(|p: String| p@);
        let ghost nxt = paths@.subrange(0, i + 1).map_values(|p: String| p@);
        assert(nxt.drop_last() =~= pre);
        assert(nxt.last() == paths@[i as int]@);
        let normalized = normalize_path_for_hash(paths[i].as_str());
        let b = utf8_bytes(normalized.as_str());
        extend_bytes(&mut bytes, b.as_slice());
        if separated {
            bytes.push(0u8);
        }
        i = i + 1;
        assert(bytes@ =~= path_hash_input(nxt, separated));
    }
    assert(paths@.subrange(0, paths@.len() as int) =~= paths@);
    sha256_hex_string(bytes.as_slice())
}

/// Presets the de-duplication cache for a single file path.
pub fn set_last_hash_file(state: &mut MonitorState, file_path: &str)
    ensures
        final(state)@ == (MonitorView {
            last_content_hashes: seq![sha256_hex(vstd::utf8::encode_utf8(path_for_hash(file_path@)))],
            ..old(state)@
        }),
{
    let normalized = normalize_path_for_hash(file_path);
    let b = utf8_bytes(normalized.as_str());
    let h = sha256_hex_string(b.as_slice());
    let mut v: Vec<String> = Vec::new();
    v.push(h);
    state.last_content_hashes = v;
    assert(state@.last_content_hashes =~= seq![sha256_hex(vstd::utf8::encode_utf8(path_for_hash(file_path@)))]);
}

/// Presets the de-duplication cache for a list of files (the paths of a
/// `files:` content), hashed together without separators.
pub fn set_last_hash_files(state: &mut MonitorState, paths: &Vec<String>)
    ensures
        final(state)@ == (MonitorView {
            last_content_hashes: seq![sha256_hex(path_hash_input(paths@.map_values(|p: String| p@), false))],
            ..old(state)@
        }),
{
    let h = hash_paths(paths, false);
    let mut v: Vec<String> = Vec::new();
    v.push(h);
    state.last_content_hashes = v;
    assert(state@.last_content_hashes =~= seq![sha256_hex(path_hash_input(paths@.map_values(|p: String| p@), false))]);
}

/// The de-duplication hash of a clipboard format: of its text; of its
/// normalised paths, each followed by a zero byte; or of a raw format's
/// name, a zero byte and its bytes.
pub open spec fn entry_hash(e: PayloadView) -> Seq<char> {
    match e {
        PayloadView::Text(t) => sha256_hex(vstd::utf8::encode_utf8(t)),
        PayloadView::Html(t) => sha256_hex(vstd::utf8::encode_utf8(t)),
        PayloadView::Rtf(t) => sha256_hex(vstd::utf8::encode_utf8(t)),
        PayloadView::Files(p) => sha256_hex(path_hash_input(p, true)),
        PayloadView::Other(n, d) => sha256_hex(vstd::utf8::encode_utf8(n) + seq![0u8] + d),
    }
}

fn text_hash(t: &String) -> (h: String)
    ensures
        h@ == sha256_hex(vstd::utf8::encode_utf8(t@)),
{
    let b = utf8_bytes(t.as_str());
    assert(b@ == vstd::utf8::encode_utf8(t@));
    sha256_hex_string(b.as_slice())
}

fn raw_format_hash(name: &String, data: &Vec<u8>) -> (h: String)
    ensures
        h@ == sha256_hex(vstd::utf8::encode_utf8(name@) + seq![0u8] + data@),
{
    let mut bytes = utf8_bytes(name.as_str());
    assert(bytes@ == vstd::utf8::encode_utf8(name@));
    bytes.push(0u8);
    extend_bytes(&mut bytes, data.as_slice());
    assert(bytes@ =~= vstd::utf8::encode_utf8(name@) + seq![0u8] + data@);
    sha256_hex_string(bytes.as_slice())
}

/// Hashes one clipboard format the way a capture of it is hashed.
pub fn hash_clipboard_content(content: &PayloadEntry) -> (h: String)
    ensures
        h@ == entry_hash(content@),
{
    match content {
        PayloadEntry::Text(t) => text_hash(t),
        PayloadEntry::Html(t) => text_hash(t),
        PayloadEntry::Rtf(t) => text_hash(t),
        PayloadEntry::Files(paths) => {
            assert(crate::database::texts(paths@) =~= paths@.map_values(|p: String| p@));
            hash_paths(paths, true)
        },
        PayloadEntry::Other(name, data) => raw_format_hash(name, data),
    }
}

/// Presets the de-duplication cache with the hashes of the formats about
/// to be written to the clipboard, so that capturing them back is skipped.
pub fn set_last_hash_contents(state: &mut MonitorState, contents: &[PayloadEntry])
    ensures
        final(state)@ == (MonitorView {
            last_content_hashes: payload_view(contents@).map_values(|e: PayloadView| entry_hash(e)),
            ..old(state)@
        }),
{
    let mut hashes: Vec<String> = Vec::new();
    let mut i: usize = 0;
    while i < contents.len()
        invariant
            i <= contents@.len(),
            hashes@.map_values(|h: String| h@) == payload_view(contents@.take(i as int)).map_values(|e: PayloadView| entry_hash(e)),
        decreases contents.len() - i,
    {
        let ghost before = hashes@;
        let h = hash_clipboard_content(&contents[i]);
        hashes.push(h);
        proof {
            assert(contents@.take(i + 1) =~= contents@.take(i as int).push(contents@[i as int]));
            assert(payload_view(contents@.take(i + 1)) =~= payload_view(contents@.take(i as int)).push(contents@[i as int]@));
            assert(hashes@.map_values(|h: String| h@) =~= before.map_values(|h: String| h@).push(entry_hash(contents@[i as int]@)));
        }
        i = i + 1;
    }
    assert(contents@.take(contents@.len() as int) =~= contents@);
    state.last_content_hashes = hashes;
}

/// Whether a failure to store a captured format is an expected refusal
/// that is passed over silently: a duplicate, or an image while saving
/// images is off.
pub open spec fn is_expected_rejection(err: Seq<char>) -> bool {
    crate::text::contains(err, "重复内容"@) || crate::text::contains(err, "已禁止保存图片"@)
}

/// Tells an expected refusal to store a capture from a real failure.
pub fn is_expected_store_rejection(err: &str) -> (r: bool)
    ensures
        r == is_expected_rejection(err@),
{
    let e = crate::text::chars_of(err);
    let dup = crate::text::chars_of("重复内容");
    let img = crate::text::chars_of("已禁止保存图片");
    crate::text::chars_contains(e.as_slice(), dup.as_slice()) || crate::text::chars_contains(e.as_slice(), img.as_slice())
}

/// The notification of a stored capture: `created` with the entry as read
/// back, its position and the entry count; `unknown` with nothing when the
/// entry could not be read back.
pub fn stored_capture_event(
    item: Option<crate::models::ClipboardItem>,
    insert_index: Option<i64>,
    total_count: Option<i64>,
) -> (r: crate::events::ClipboardUpdatedEvent)
    ensures
        item is Some ==> r.kind@ == "created"@ && r.item == item && r.insert_index == insert_index
            && r.total_count == total_count,
        item is None ==> r.kind@ == "unknown"@ && r.item is None && r.insert_index is None && r.total_count is None,
{
    match item {
        Some(i) => crate::events::ClipboardUpdatedEvent {
            kind: crate::text::own("created"),
            item: Some(i),
            insert_index,
            total_count,
        },
        None => crate::events::ClipboardUpdatedEvent {
            kind: crate::text::own("unknown"),
            item: None,
            insert_index: None,
            total_count: None,
        },
    }
}

/// Law: the formats whose hashes are all known are never reported new.
pub proof fn lemma_known_hashes_are_not_new(last: Seq<Seq<char>>, current: Seq<Seq<char>>)
    requires
        forall|i: int| 0 <= i < current.len() ==> last.contains(#[trigger] current[i]),
    ensures
        new_positions(last, current).len() == 0,
    decreases current.len(),
{
    if current.len() > 0 {
        assert(last.contains(current[current.len() - 1]));
        lemma_known_hashes_are_not_new(last, current.drop_last());
    }
}

/// Law (paste fast path): after the hashes of a payload are preset, a
/// capture of those very formats finds nothing new and changes nothing.
pub proof fn lemma_preset_payload_is_not_recaptured(s: MonitorView, p: Seq<PayloadView>)
    ensures
        ({
            let hashes = p.map_values(|e: PayloadView| entry_hash(e));
            let preset = MonitorView { last_content_hashes: hashes, ..s };
            &&& preset.last_content_hashes == hashes
            &&& new_positions(preset.last_content_hashes, hashes).len() == 0
        }),
{
    let hashes = p.map_values(|e: PayloadView| entry_hash(e));
    assert forall|i: int| 0 <= i < hashes.len() implies hashes.contains(#[trigger] hashes[i]) by {}
    lemma_known_hashes_are_not_new(hashes, hashes);
}

/// Law: while a pause guard lives the monitor is paused, its suppression
/// window ends at the later of the old end and the pause's own end, and
/// releasing the guard restores the pause count. (At the largest pause
/// count the counter wraps, as the atomic counter does, and the law stops.)
pub proof fn lemma_pause_release_balanced(s: MonitorView, now_ms: u64, duration_ms: u64)
    requires
        s.pause_count < u64::MAX,
    ensures
        paused(s, now_ms, duration_ms).pause_count == s.pause_count + 1,
        forall|t: u64| is_paused(#[trigger] paused(s, now_ms, duration_ms), t),
        paused(s, now_ms, duration_ms).suppress_until_ms == (if s.suppress_until_ms >= sat_add(now_ms, duration_ms) {
            s.suppress_until_ms
        } else {
            sat_add(now_ms, duration_ms)
        }),
        released(paused(s, now_ms, duration_ms)).0.pause_count == s.pause_count,
        released(paused(s, now_ms, duration_ms)).0.suppress_until_ms >= s.suppress_until_ms,
{
}

/// Law: releasing a guard starts a worker only when it was the last guard,
/// the monitor runs, a change is pending and no worker is in flight; and at
/// most one worker is ever in flight, since every start sets the flag.
pub proof fn lemma_release_spawns_only_last(s: MonitorView)
    requires
        s.pause_count > 0,
    ensures
        released(s).1 ==> s.pause_count == 1 && s.running && s.capture_pending && !s.capture_in_flight,
        released(s).1 ==> released(s).0.capture_in_flight,
        s.pause_count > 1 ==> released(s).0.capture_pending == s.capture_pending,
{
}

/// Law: after a stop the monitor does not run and its generation has moved
/// on, so no worker may capture another round; the in-flight flag is reset,
/// so the next scheduling spawns a worker; and a second stop does the same.
pub proof fn lemma_stop_invalidates_workers(s: MonitorView, g: u64)
    ensures
        !worker_may_run(stopped(s), g),
        stopped(s).generation != s.generation,
        !stopped(s).running,
        !stopped(s).capture_in_flight,
        scheduled(stopped(s)).1,
        stopped(stopped(s)).generation != stopped(s).generation && !stopped(stopped(s)).running,
{
}

/// Law: a worker of an outdated generation never clears the in-flight flag
/// of the current one.
pub proof fn lemma_stale_worker_keeps_flag(s: MonitorView, g: u64)
    requires
        s.generation != g,
        s.capture_in_flight,
    ensures
        worker_finished(s, g).0.capture_in_flight,
        !worker_finished(s, g).1,
{
}

} // verus!
