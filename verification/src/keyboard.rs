use vstd::prelude::*;
use crate::text::{chars_of, split_char, split_chars, to_uppercase, trim, trim_chars, unicode_uppercase};

verus! {

/// Whether a character is an ASCII decimal digit.
pub open spec fn is_digit(c: char) -> bool {
    '0' <= c && c <= '9'
}

/// The value of a string of decimal digits.
pub open spec fn digits_value(s: Seq<char>) -> nat
    decreases s.len(),
{
    if s.len() == 0 {
        0
    } else {
        digits_value(s.drop_last()) * 10 + ((s.last() as u32) - ('0' as u32)) as nat
    }
}

/// What `u16::from_str` accepts: an optional `+`, then at least one digit,
/// with a value that fits in 16 bits.
pub open spec fn parse_u16_of(s: Seq<char>) -> Option<u16> {
    let body = sign_stripped(s);
    if body.len() > 0 && all_digits(body) && digits_value(body) <= 65535 {
        Some(digits_value(body) as u16)
    } else {
        None
    }
}

/// The text without one leading `+`.
pub open spec fn sign_stripped(s: Seq<char>) -> Seq<char> {
    if s.len() > 0 && s[0] == '+' { s.drop_first() } else { s }
}

/// Whether a text is made of decimal digits only.
pub open spec fn all_digits(s: Seq<char>) -> bool {
    forall|i: int| 0 <= i < s.len() ==> is_digit(#[trigger] s[i])
}

proof fn lemma_digits_value_grows(s: Seq<char>, i: int, j: int)
    requires
        0 <= i <= j <= s.len(),
        forall|k: int| 0 <= k < s.len() ==> is_digit(#[trigger] s[k]),
    ensures
        digits_value(s.take(i)) <= digits_value(s.take(j)),
    decreases j - i,
{
    if i < j {
        lemma_digits_value_grows(s, i, j - 1);
        assert(s.take(j).drop_last() =~= s.take(j - 1));
    }
}

/// Parses a decimal number as `u16::from_str` does.
pub fn parse_u16(s: &[char]) -> (r: Option<u16>)
    ensures
        r == parse_u16_of(s@),
{
    let start: usize = if s.len() > 0 && s[0] == '+' { 1 } else { 0 };
    let ghost body = sign_stripped(s@);
    assert(body =~= s@.subrange(start as int, s@.len() as int));
    if start >= s.len() {
        return None;
    }
    let mut value: u32 = 0;
    let mut i: usize = start;
    while i < s.len()
        invariant
            start <= i <= s@.len(),
            body == sign_stripped(s@),
            body =~= s@.subrange(start as int, s@.len() as int),
            forall|k: int| 0 <= k < i - start ==> is_digit(#[trigger] body[k]),
            value as nat == digits_value(body.take(i - start)),
            value <= 65535,
        decreases s.len() - i,
    {
        let c = s[i];
        assert(body[i - start] == c);
        if !('0' <= c && c <= '9') {
            assert(!is_digit(body[i - start]));
            assert(!all_digits(body));
            return None;
        }
        let d = (c as u32) - ('0' as u32);
        proof {
            assert(body.take(i - start + 1).drop_last() =~= body.take(i - start));
            assert(body.take(i - start + 1).last() == c);
        }
        let next = value * 10 + d;
        if next > 65535 {
            proof {
                assert(digits_value(body.take(i - start + 1)) == next);
                if all_digits(body) {
                    lemma_digits_value_grows(body, i - start + 1, body.len() as int);
                    assert(body.take(body.len() as int) =~= body);
                    assert(digits_value(body) > 65535);
                }
            }
            return None;
        }
        value = next;
        i = i + 1;
    }
    assert(body.take(body.len() as int) =~= body);
    Some(value as u16)
}

/// The last `+`-separated piece of a shortcut, trimmed: the key that triggers it.
pub open spec fn shortcut_key(shortcut: Seq<char>) -> Seq<char> {
    trim(split_char(shortcut, '+').last())
}

/// The virtual-key code of a named key, given its name in upper case:
/// `INSERT`, or a function key `F1` to `F24`.
pub open spec fn named_key_vk_of(upper: Seq<char>) -> Option<u16> {
    if upper == "INSERT"@ {
        Some(0x2Du16)
    } else if upper.len() > 0 && upper[0] == 'F' && parse_u16_of(upper.drop_first()) is Some
        && 1 <= parse_u16_of(upper.drop_first())->0 <= 24 {
        Some((0x6F + parse_u16_of(upper.drop_first())->0) as u16)
    } else {
        None
    }
}

/// The virtual-key code of a shortcut's key, where `upper` is that key in
/// upper case: an ASCII capital letter or digit stands for itself; a longer
/// key is looked up by name. Anything else has none.
pub open spec fn shortcut_vk_of(key: Seq<char>, upper: Seq<char>) -> Option<u16> {
    if key.len() == 0 {
        None
    } else if key.len() == 1 && (key[0] as u32) < 128 {
        if ('A' <= key[0] && key[0] <= 'Z') || is_digit(key[0]) {
            Some(key[0] as u16)
        } else {
            None
        }
    } else {
        named_key_vk_of(upper)
    }
}

/// The virtual-key code of a named key, from its upper-case name.
pub fn named_key_vk(upper: &[char]) -> (r: Option<u16>)
    ensures
        r == named_key_vk_of(upper@),
{
    let insert = chars_of("INSERT");
    let mut is_insert = insert.len() == upper.len();
    let mut i: usize = 0;
    while is_insert && i < upper.len()
        invariant
            insert@ == "INSERT"@,
            i <= upper@.len(),
            is_insert ==> insert@.len() == upper@.len() && forall|k: int| 0 <= k < i ==> insert@[k] == upper@[k],
            !is_insert ==> insert@ != upper@,
        decreases upper.len() - i,
    {
        if insert[i] != upper[i] {
            is_insert = false;
        }
        i = i + 1;
    }
    if is_insert {
        assert(insert@ =~= upper@);
        return Some(0x2D);
    }
    if upper.len() > 0 && upper[0] == 'F' {
        let mut rest: Vec<char> = Vec::new();
        let mut k: usize = 1;
        while k < upper.len()
            invariant
                1 <= k <= upper@.len(),
                rest@ == upper@.subrange(1, k as int),
            decreases upper.len() - k,
        {
            rest.push(upper[k]);
            k = k + 1;
        }
        assert(rest@ =~= upper@.drop_first());
        match parse_u16(rest.as_slice()) {
            Some(n) => {
                if 1 <= n && n <= 24 {
                    return Some(0x6F + n);
                }
            },
            None => {},
        }
    }
    None
}

proof fn lemma_pieces_last(pieces: Seq<Vec<char>>, s: Seq<char>)
    requires
        pieces.len() == split_char(s, '+').len(),
        forall|i: int| 0 <= i < pieces.len() ==> (#[trigger] pieces[i])@ == split_char(s, '+')[i],
    ensures
        pieces.len() >= 1,
        pieces.last()@ == split_char(s, '+').last(),
{
    crate::text::lemma_split_nonempty(s, '+');
}

/// The virtual-key code of the key that ends a shortcut such as `Ctrl+V`.
pub fn parse_shortcut_key_vk(shortcut: &str) -> (r: Option<u16>)
    ensures
        r == shortcut_vk_of(shortcut_key(shortcut@), unicode_uppercase(shortcut_key(shortcut@))),
{
    let cs = chars_of(shortcut);
    let pieces = split_chars(cs.as_slice(), '+');
    proof { lemma_pieces_last(pieces@, shortcut@); }
    let key = trim_chars(pieces[pieces.len() - 1].as_slice());
    if key.len() == 0 {
        return None;
    }
    let key_text = crate::text::string_of(key.as_slice());
    let upper = to_uppercase(key_text.as_str());
    if key.len() == 1 && (key[0] as u32) < 128 {
        let ch = key[0];
        if ('A' <= ch && ch <= 'Z') || ('0' <= ch && ch <= '9') {
            return Some(ch as u32 as u16);
        }
        return None;
    }
    let uc = chars_of(upper.as_str());
    named_key_vk(uc.as_slice())
}

/// The key that the paste shortcut's trigger leaves pressed, released before
/// a simulated paste.
pub struct TriggerKey {
    pub vk: Option<u16>,
}

impl TriggerKey {
    /// No trigger key recorded.
    pub fn new() -> (t: Self)
        ensures
            t.vk is None,
    {
        TriggerKey { vk: None }
    }
}

/// Records the trigger key of a shortcut; a shortcut without a valid key
/// leaves the recorded key as it was.
pub fn set_trigger_key_from_shortcut(state: &mut TriggerKey, shortcut: &str)
    ensures
        ({
            let parsed = shortcut_vk_of(shortcut_key(shortcut@), unicode_uppercase(shortcut_key(shortcut@)));
            final(state).vk == if parsed is Some { parsed } else { old(state).vk }
        }),
{
    match parse_shortcut_key_vk(shortcut) {
        Some(vk) => state.vk = Some(vk),
        None => {},
    }
}

/// Records a trigger key by its virtual-key code.
pub fn set_trigger_key_raw(state: &mut TriggerKey, vk: u16)
    ensures
        final(state).vk == Some(vk),
{
    state.vk = Some(vk);
}

/// Takes the recorded trigger key, leaving none.
pub fn take_trigger_key(state: &mut TriggerKey) -> (r: Option<u16>)
    ensures
        r == old(state).vk,
        final(state).vk is None,
{
    let r = state.vk;
    state.vk = None;
    r
}

/// Virtual-key codes used by the paste sequence.
pub const VK_SHIFT: u16 = 0x10;
pub const VK_CONTROL: u16 = 0x11;
pub const VK_MENU: u16 = 0x12;
pub const VK_INSERT: u16 = 0x2D;
pub const VK_V: u16 = 0x56;
pub const VK_LWIN: u16 = 0x5B;
pub const VK_RWIN: u16 = 0x5C;

/// The modifier keys held when a paste starts.
#[derive(Debug, Clone, Copy, PartialEq, Eq, Structural)]
pub struct ModifierState {
    pub ctrl: bool,
    pub shift: bool,
    pub alt: bool,
    pub lwin: bool,
    pub rwin: bool,
}

/// One step of a simulated paste.
#[derive(Debug, Clone, Copy, PartialEq, Eq, Structural)]
pub enum PasteStep {
    Key { vk: u16, up: bool, extended: bool },
    PauseMs(u64),
}

/// A key release.
pub open spec fn release(vk: u16) -> PasteStep {
    PasteStep::Key { vk, up: true, extended: false }
}

/// A key press.
pub open spec fn press(vk: u16) -> PasteStep {
    PasteStep::Key { vk, up: false, extended: false }
}

/// The releases of the held modifiers that would change the pasted chord,
/// followed by a short pause when there was any.
pub open spec fn release_conflicting_steps(m: ModifierState) -> Seq<PasteStep> {
    let a: Seq<PasteStep> = if m.ctrl { seq![release(VK_CONTROL)] } else { Seq::empty() };
    let b: Seq<PasteStep> = if m.shift { seq![release(VK_SHIFT)] } else { Seq::empty() };
    let c: Seq<PasteStep> = if m.lwin { seq![release(VK_LWIN)] } else { Seq::empty() };
    let d: Seq<PasteStep> = if m.rwin { seq![release(VK_RWIN)] } else { Seq::empty() };
    let p: Seq<PasteStep> = if m.ctrl || m.shift || m.lwin || m.rwin { seq![PasteStep::PauseMs(10)] } else { Seq::empty() };
    a + b + c + d + p
}

/// The full key sequence of a paste: held modifiers and the trigger key are
/// released, then `Ctrl+V` or `Shift+Insert` is typed cleanly.
pub open spec fn paste_steps(ctrl_v: bool, m: ModifierState, trigger: Option<u16>) -> Seq<PasteStep> {
    let t: Seq<PasteStep> = if trigger is Some { seq![release(trigger->0)] } else { Seq::empty() };
    let alt: Seq<PasteStep> = if m.alt { seq![release(VK_MENU)] } else { Seq::empty() };
    let chord: Seq<PasteStep> = if ctrl_v {
        seq![press(VK_CONTROL), press(VK_V), PasteStep::PauseMs(8), release(VK_V), release(VK_CONTROL)]
    } else {
        seq![
            press(VK_SHIFT),
            PasteStep::Key { vk: VK_INSERT, up: false, extended: true },
            PasteStep::PauseMs(8),
            PasteStep::Key { vk: VK_INSERT, up: true, extended: true },
            release(VK_SHIFT),
        ]
    };
    release_conflicting_steps(m) + t + alt + chord
}

fn release_conflicting(mods: ModifierState) -> (r: Vec<PasteStep>)
    ensures
        r@ == release_conflicting_steps(mods),
{
    let mut r: Vec<PasteStep> = Vec::new();
    if mods.ctrl {
        r.push(PasteStep::Key { vk: VK_CONTROL, up: true, extended: false });
    }
    if mods.shift {
        r.push(PasteStep::Key { vk: VK_SHIFT, up: true, extended: false });
    }
    if mods.lwin {
        r.push(PasteStep::Key { vk: VK_LWIN, up: true, extended: false });
    }
    if mods.rwin {
        r.push(PasteStep::Key { vk: VK_RWIN, up: true, extended: false });
    }
    if mods.ctrl || mods.shift || mods.lwin || mods.rwin {
        r.push(PasteStep::PauseMs(10));
    }
    assert(r@ =~= release_conflicting_steps(mods));
    r
}

fn chord_steps(ctrl_v: bool) -> (r: Vec<PasteStep>)
    ensures
        r@ == (if ctrl_v {
            seq![press(VK_CONTROL), press(VK_V), PasteStep::PauseMs(8), release(VK_V), release(VK_CONTROL)]
        } else {
            seq![
                press(VK_SHIFT),
                PasteStep::Key { vk: VK_INSERT, up: false, extended: true },
                PasteStep::PauseMs(8),
                PasteStep::Key { vk: VK_INSERT, up: true, extended: true },
                release(VK_SHIFT),
            ]
        }),
{
    let mut r: Vec<PasteStep> = Vec::new();
    if ctrl_v {
        r.push(PasteStep::Key { vk: VK_CONTROL, up: false, extended: false });
        r.push(PasteStep::Key { vk: VK_V, up: false, extended: false });
        r.push(PasteStep::PauseMs(8));
        r.push(PasteStep::Key { vk: VK_V, up: true, extended: false });
        r.push(PasteStep::Key { vk: VK_CONTROL, up: true, extended: false });
    } else {
        r.push(PasteStep::Key { vk: VK_SHIFT, up: false, extended: false });
        r.push(PasteStep::Key { vk: VK_INSERT, up: false, extended: true });
        r.push(PasteStep::PauseMs(8));
        r.push(PasteStep::Key { vk: VK_INSERT, up: true, extended: true });
        r.push(PasteStep::Key { vk: VK_SHIFT, up: true, extended: false });
    }
    r
}

/// The steps of a simulated paste in `Ctrl+V` mode or `Shift+Insert` mode.
pub fn paste_keystrokes(ctrl_v: bool, mods: ModifierState, trigger: Option<u16>) -> (r: Vec<PasteStep>)
    ensures
        r@ == paste_steps(ctrl_v, mods, trigger),
{
    let mut r = release_conflicting(mods);
    let ghost r0 = r@;
    match trigger {
        Some(vk) => r.push(PasteStep::Key { vk, up: true, extended: false }),
        None => {},
    }
    let ghost r1 = r@;
    if mods.alt {
        r.push(PasteStep::Key { vk: VK_MENU, up: true, extended: false });
    }
    let ghost r2 = r@;
    let mut chord = chord_steps(ctrl_v);
    r.append(&mut chord);
    assert(r@ =~= paste_steps(ctrl_v, mods, trigger));
    r
}

} // verus!
