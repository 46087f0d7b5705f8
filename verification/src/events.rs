use vstd::prelude::*;
use crate::models::ClipboardItem;

verus! {

/// The payload of a history update notification.
#[derive(Debug, Clone)]
pub struct ClipboardUpdatedEvent {
    pub kind: String,
    pub item: Option<ClipboardItem>,
    pub insert_index: Option<i64>,
    pub total_count: Option<i64>,
}

/// A notification from the core to the user interface.
#[derive(Debug, Clone)]
pub enum AppEvent {
    ClipboardUpdated(ClipboardUpdatedEvent),
    PasteCountUpdated(i64),
    FavoritePasteCountUpdated(String),
    /// The tray menu must be rebuilt.
    TrayMenuRefresh,
}

/// The event queue between the threads that post notifications and the
/// interface thread that drains them each frame. It never drops an event.
pub struct EventBus {
    queue: Vec<AppEvent>,
    repaint_hook: bool,
}

impl View for EventBus {
    type V = Seq<AppEvent>;

    closed spec fn view(&self) -> Seq<AppEvent> {
        self.queue@
    }
}

impl EventBus {
    /// Whether a repaint hook was registered.
    pub closed spec fn has_repaint_hook(&self) -> bool {
        self.repaint_hook
    }

    /// An empty queue without a repaint hook.
    pub fn new() -> (b: Self)
        ensures
            b@ == Seq::<AppEvent>::empty(),
            !b.has_repaint_hook(),
    {
        EventBus { queue: Vec::new(), repaint_hook: false }
    }
}

/// Registers the interface's repaint hook; from then on every posted event
/// asks for a repaint.
pub fn set_repaint_hook(bus: &mut EventBus)
    ensures
        final(bus)@ == old(bus)@,
        final(bus).has_repaint_hook(),
{
    bus.repaint_hook = true;
}

/// Queues an event at the back. Returns whether the repaint hook must be
/// called, which is whenever one is registered.
pub fn post(bus: &mut EventBus, event: AppEvent) -> (repaint: bool)
    ensures
        final(bus)@ == old(bus)@.push(event),
        final(bus).has_repaint_hook() == old(bus).has_repaint_hook(),
        repaint == old(bus).has_repaint_hook(),
{
    bus.queue.push(event);
    bus.repaint_hook
}

/// Takes every queued event, oldest first, and leaves the queue empty.
pub fn drain(bus: &mut EventBus) -> (out: Vec<AppEvent>)
    ensures
        out@ == old(bus)@,
        final(bus)@ == Seq::<AppEvent>::empty(),
        final(bus).has_repaint_hook() == old(bus).has_repaint_hook(),
{
    let mut out: Vec<AppEvent> = Vec::new();
    std::mem::swap(&mut out, &mut bus.queue);
    out
}

/// What publishing a history update did.
#[derive(Debug, Clone, Copy, PartialEq, Eq, Structural)]
pub enum ClipboardUpdateDelivery {
    /// The event was queued; `repaint` tells whether the hook must be called.
    Posted { repaint: bool },
    /// The main window does not show updates: only a refresh is marked pending.
    MarkedPending,
}

/// Publishes a history update: queued when the main window shows updates,
/// otherwise nothing is queued and a refresh is marked pending.
pub fn emit_clipboard_updated(bus: &mut EventBus, event: ClipboardUpdatedEvent, main_window_visible: bool) -> (r: ClipboardUpdateDelivery)
    ensures
        main_window_visible ==> final(bus)@ == old(bus)@.push(AppEvent::ClipboardUpdated(event))
            && r == (ClipboardUpdateDelivery::Posted { repaint: old(bus).has_repaint_hook() }),
        !main_window_visible ==> final(bus)@ == old(bus)@ && r == ClipboardUpdateDelivery::MarkedPending,
        final(bus).has_repaint_hook() == old(bus).has_repaint_hook(),
{
    if !main_window_visible {
        return ClipboardUpdateDelivery::MarkedPending;
    }
    let repaint = post(bus, AppEvent::ClipboardUpdated(event));
    ClipboardUpdateDelivery::Posted { repaint }
}

/// Law (first in, first out): two events posted one after the other come
/// out of the next drain in that order, after the events queued before.
pub proof fn lemma_events_fifo(queued: Seq<AppEvent>, a: AppEvent, b: AppEvent)
    ensures
        queued.push(a).push(b) == queued + seq![a, b],
        queued.push(a).push(b)[queued.len() as int] == a,
        queued.push(a).push(b)[queued.len() + 1int] == b,
{
    assert(queued.push(a).push(b) =~= queued + seq![a, b]);
}

} // verus!
