//! Key presses as the chat front end sees them, and the key bindings that map them to actions.

use vstd::prelude::*;

verus! {

/// A key, as far as the front end tells keys apart.
#[derive(Debug, Clone, Copy, PartialEq, Eq, Structural)]
pub enum KeyCode {
    Char(char),
    Enter,
    Esc,
    Tab,
    BackTab,
    Backspace,
    Delete,
    Insert,
    Up,
    Down,
    Left,
    Right,
    PageUp,
    PageDown,
    Home,
    End,
    F(u8),
    /// Any other key.
    Other,
}

/// Modifier keys held with a key, as a set of bits.
#[derive(Debug, Clone, Copy, PartialEq, Eq, Structural)]
pub struct KeyModifiers {
    pub bits: u8,
}

impl KeyModifiers {
    pub fn none() -> (m: Self)
        ensures
            m.bits == 0,
    {
        KeyModifiers { bits: 0 }
    }

    pub fn shift() -> (m: Self)
        ensures
            m.bits == 1,
    {
        KeyModifiers { bits: 1 }
    }

    pub fn control() -> (m: Self)
        ensures
            m.bits == 2,
    {
        KeyModifiers { bits: 2 }
    }

    pub fn alt() -> (m: Self)
        ensures
            m.bits == 4,
    {
        KeyModifiers { bits: 4 }
    }

    /// The modifiers held in both sets together.
    pub fn union(self, other: Self) -> (m: Self)
        ensures
            m.bits == self.bits | other.bits,
    {
        KeyModifiers { bits: self.bits | other.bits }
    }

    /// Whether every modifier of `other` is held.
    pub fn contains(self, other: Self) -> (b: bool)
        ensures
            b == (self.bits & other.bits == other.bits),
    {
        self.bits & other.bits == other.bits
    }
}

/// A key press: the key and the modifiers held.
#[derive(Debug, Clone, Copy, PartialEq, Eq, Structural)]
pub struct KeyEvent {
    pub code: KeyCode,
    pub modifiers: KeyModifiers,
}

impl KeyEvent {
    pub fn new(code: KeyCode, modifiers: KeyModifiers) -> (e: Self)
        ensures
            e.code == code,
            e.modifiers == modifiers,
    {
        KeyEvent { code, modifiers }
    }
}

/// Action names used throughout the TUI
#[derive(Debug, Clone, Copy, PartialEq, Eq, Structural)]
pub enum Action {
    Quit,
    Send,
    Newline,
    HistoryUp,
    HistoryDown,
    ScrollUp,
    ScrollDown,
    Redraw,
    CancelStream,
    HistorySearch,
    ExternalEditor,
    Autocomplete,
    DismissOverlay,
    ConfirmOverlay,
    NavigateLeft,
    NavigateRight,
    ToggleThinking,
    Noop,
}

/// Context determines which bindings are active
#[derive(Debug, Clone, Copy, PartialEq, Eq, Structural)]
pub enum KeyContext {
    Global,
    Input,
    Streaming,
    Overlay,
}

#[derive(Debug, Clone, Copy, PartialEq, Eq, Structural)]
pub struct KeyBinding {
    pub key: KeyCode,
    pub modifiers: KeyModifiers,
    pub action: Action,
    pub context: KeyContext,
}

/// The action of the first binding in `bs` for this context, key and modifiers.
pub open spec fn lookup(bs: Seq<KeyBinding>, ctx: KeyContext, key: KeyEvent) -> Option<Action>
    decreases bs.len(),
{
    if bs.len() == 0 {
        None
    } else if bs[0].context == ctx && bs[0].key == key.code && bs[0].modifiers == key.modifiers {
        Some(bs[0].action)
    } else {
        lookup(bs.drop_first(), ctx, key)
    }
}

/// Bindings of the context win; then global bindings; otherwise nothing happens.
pub open spec fn resolve_spec(bs: Seq<KeyBinding>, key: KeyEvent, ctx: KeyContext) -> Action {
    match lookup(bs, ctx, key) {
        Some(a) => a,
        None => match lookup(bs, KeyContext::Global, key) {
            Some(a) => a,
            None => Action::Noop,
        },
    }
}

fn find_binding(bs: &Vec<KeyBinding>, ctx: KeyContext, key: &KeyEvent) -> (r: Option<Action>)
    ensures
        r == lookup(bs@, ctx, *key),
{
    let mut i: usize = 0;
    assert(bs@.skip(0) =~= bs@);
    while i < bs.len()
        invariant
            i <= bs.len(),
            lookup(bs@, ctx, *key) == lookup(bs@.skip(i as int), ctx, *key),
        decreases bs.len() - i,
    {
        let b = bs[i];
        assert(bs@.skip(i as int)[0] == b);
        assert(bs@.skip(i as int).drop_first() =~= bs@.skip(i + 1));
        if b.context == ctx && b.key == key.code && b.modifiers == key.modifiers {
            return Some(b.action);
        }
        i = i + 1;
    }
    assert(bs@.skip(i as int).len() == 0);
    None
}

#[derive(Debug, Clone)]
pub struct ResolvedKeymap {
    bindings: Vec<KeyBinding>,
}

impl ResolvedKeymap {
    pub closed spec fn bindings(&self) -> Seq<KeyBinding> {
        self.bindings@
    }

    /// A keymap with the given bindings, earlier ones taking precedence.
    pub fn from_bindings(bindings: Vec<KeyBinding>) -> (k: Self)
        ensures
            k.bindings() == bindings@,
    {
        ResolvedKeymap { bindings }
    }

    pub fn default() -> (k: Self)
        ensures
            k.bindings() == default_bindings_spec(),
    {
        ResolvedKeymap { bindings: default_bindings() }
    }

    pub fn resolve(&self, key: &KeyEvent, context: KeyContext) -> (a: Action)
        ensures
            a == resolve_spec(self.bindings(), *key, context),
    {
        match find_binding(&self.bindings, context, key) {
            Some(a) => a,
            None => match find_binding(&self.bindings, KeyContext::Global, key) {
                Some(a) => a,
                None => Action::Noop,
            },
        }
    }
}

pub open spec fn bind(key: KeyCode, modifiers: KeyModifiers, action: Action, context: KeyContext) -> KeyBinding {
    KeyBinding { key, modifiers, action, context }
}

/// The bindings the front end starts with.
pub open spec fn default_bindings_spec() -> Seq<KeyBinding> {
    seq![
        bind(KeyCode::Char('c'), KeyModifiers { bits: 2 }, Action::Quit, KeyContext::Global),
        bind(KeyCode::Char('l'), KeyModifiers { bits: 2 }, Action::Redraw, KeyContext::Global),
        bind(KeyCode::PageUp, KeyModifiers { bits: 0 }, Action::ScrollUp, KeyContext::Global),
        bind(KeyCode::PageDown, KeyModifiers { bits: 0 }, Action::ScrollDown, KeyContext::Global),
        bind(KeyCode::Enter, KeyModifiers { bits: 0 }, Action::Send, KeyContext::Input),
        bind(KeyCode::Enter, KeyModifiers { bits: 1 }, Action::Newline, KeyContext::Input),
        bind(KeyCode::Tab, KeyModifiers { bits: 0 }, Action::Autocomplete, KeyContext::Input),
        bind(KeyCode::Char('j'), KeyModifiers { bits: 2 }, Action::Newline, KeyContext::Input),
        bind(KeyCode::Up, KeyModifiers { bits: 0 }, Action::HistoryUp, KeyContext::Input),
        bind(KeyCode::Down, KeyModifiers { bits: 0 }, Action::HistoryDown, KeyContext::Input),
        bind(KeyCode::Char('r'), KeyModifiers { bits: 2 }, Action::HistorySearch, KeyContext::Input),
        bind(KeyCode::Char('g'), KeyModifiers { bits: 2 }, Action::ExternalEditor, KeyContext::Input),
        bind(KeyCode::Char('o'), KeyModifiers { bits: 2 }, Action::ToggleThinking, KeyContext::Global),
        bind(KeyCode::Char('c'), KeyModifiers { bits: 2 }, Action::CancelStream, KeyContext::Streaming),
        bind(KeyCode::Esc, KeyModifiers { bits: 0 }, Action::CancelStream, KeyContext::Streaming),
        bind(KeyCode::Esc, KeyModifiers { bits: 0 }, Action::DismissOverlay, KeyContext::Overlay),
        bind(KeyCode::Enter, KeyModifiers { bits: 0 }, Action::ConfirmOverlay, KeyContext::Overlay),
        bind(KeyCode::Left, KeyModifiers { bits: 0 }, Action::NavigateLeft, KeyContext::Overlay),
        bind(KeyCode::Right, KeyModifiers { bits: 0 }, Action::NavigateRight, KeyContext::Overlay),
    ]
}

/// With the default bindings, Page Up scrolls up and Page Down scrolls down (without
/// modifiers), whatever the context, so the two keys never do the same.
pub proof fn law_default_paging(ctx: KeyContext)
    ensures
        resolve_spec(default_bindings_spec(), KeyEvent { code: KeyCode::PageUp, modifiers: KeyModifiers { bits: 0 } }, ctx)
            == Action::ScrollUp,
        resolve_spec(default_bindings_spec(), KeyEvent { code: KeyCode::PageDown, modifiers: KeyModifiers { bits: 0 } }, ctx)
            == Action::ScrollDown,
{
    reveal_with_fuel(lookup, 20);
    let bs = default_bindings_spec();
    let up = KeyEvent { code: KeyCode::PageUp, modifiers: KeyModifiers { bits: 0 } };
    let down = KeyEvent { code: KeyCode::PageDown, modifiers: KeyModifiers { bits: 0 } };
    assert(lookup(bs, KeyContext::Global, up) == Some(Action::ScrollUp)) by {
        assert(lookup(bs, KeyContext::Global, up) == lookup(bs.drop_first(), KeyContext::Global, up));
        assert(lookup(bs.drop_first(), KeyContext::Global, up) == lookup(bs.drop_first().drop_first(), KeyContext::Global, up));
        assert(bs.drop_first().drop_first()[0] == bind(KeyCode::PageUp, KeyModifiers { bits: 0 }, Action::ScrollUp, KeyContext::Global));
    }
    assert(lookup(bs, KeyContext::Global, down) == Some(Action::ScrollDown)) by {
        assert(lookup(bs, KeyContext::Global, down) == lookup(bs.drop_first(), KeyContext::Global, down));
        assert(lookup(bs.drop_first(), KeyContext::Global, down) == lookup(bs.drop_first().drop_first(), KeyContext::Global, down));
        assert(lookup(bs.drop_first().drop_first(), KeyContext::Global, down) == lookup(bs.drop_first().drop_first().drop_first(), KeyContext::Global, down));
        assert(bs.drop_first().drop_first().drop_first()[0] == bind(KeyCode::PageDown, KeyModifiers { bits: 0 }, Action::ScrollDown, KeyContext::Global));
    }
    if ctx != KeyContext::Global {
        lemma_no_paging_outside_global(bs, ctx, up);
        lemma_no_paging_outside_global(bs, ctx, down);
    }
}

/// Only global bindings use the paging keys, so a lookup in another context finds none.
proof fn lemma_no_paging_outside_global(bs: Seq<KeyBinding>, ctx: KeyContext, key: KeyEvent)
    requires
        ctx != KeyContext::Global,
        key.code == KeyCode::PageUp || key.code == KeyCode::PageDown,
        forall|i: int| 0 <= i < bs.len() && (bs[i].key == KeyCode::PageUp || bs[i].key == KeyCode::PageDown) ==> (#[trigger] bs[i]).context
            == KeyContext::Global,
    ensures
        lookup(bs, ctx, key) is None,
    decreases bs.len(),
{
    if bs.len() > 0 {
        let d = bs.drop_first();
        assert forall|i: int| 0 <= i < d.len() && (d[i].key == KeyCode::PageUp || d[i].key == KeyCode::PageDown) implies (#[trigger] d[i]).context
            == KeyContext::Global by {
            assert(d[i] == bs[i + 1]);
        }
        lemma_no_paging_outside_global(d, ctx, key);
    }
}

fn push_binding(v: &mut Vec<KeyBinding>, key: KeyCode, modifiers: KeyModifiers, action: Action, context: KeyContext)
    ensures
        final(v)@ == old(v)@.push(bind(key, modifiers, action, context)),
{
    v.push(KeyBinding { key, modifiers, action, context });
}

pub fn default_bindings() -> (v: Vec<KeyBinding>)
    ensures
        v@ == default_bindings_spec(),
{
    let mut v: Vec<KeyBinding> = Vec::new();
    let ctrl = KeyModifiers::control();
    let none = KeyModifiers::none();
    push_binding(&mut v, KeyCode::Char('c'), ctrl, Action::Quit, KeyContext::Global);
    push_binding(&mut v, KeyCode::Char('l'), ctrl, Action::Redraw, KeyContext::Global);
    push_binding(&mut v, KeyCode::PageUp, none, Action::ScrollUp, KeyContext::Global);
    push_binding(&mut v, KeyCode::PageDown, none, Action::ScrollDown, KeyContext::Global);
    push_binding(&mut v, KeyCode::Enter, none, Action::Send, KeyContext::Input);
    push_binding(&mut v, KeyCode::Enter, KeyModifiers::shift(), Action::Newline, KeyContext::Input);
    push_binding(&mut v, KeyCode::Tab, none, Action::Autocomplete, KeyContext::Input);
    push_binding(&mut v, KeyCode::Char('j'), ctrl, Action::Newline, KeyContext::Input);
    push_binding(&mut v, KeyCode::Up, none, Action::HistoryUp, KeyContext::Input);
    push_binding(&mut v, KeyCode::Down, none, Action::HistoryDown, KeyContext::Input);
    push_binding(&mut v, KeyCode::Char('r'), ctrl, Action::HistorySearch, KeyContext::Input);
    push_binding(&mut v, KeyCode::Char('g'), ctrl, Action::ExternalEditor, KeyContext::Input);
    push_binding(&mut v, KeyCode::Char('o'), ctrl, Action::ToggleThinking, KeyContext::Global);
    push_binding(&mut v, KeyCode::Char('c'), ctrl, Action::CancelStream, KeyContext::Streaming);
    push_binding(&mut v, KeyCode::Esc, none, Action::CancelStream, KeyContext::Streaming);
    push_binding(&mut v, KeyCode::Esc, none, Action::DismissOverlay, KeyContext::Overlay);
    push_binding(&mut v, KeyCode::Enter, none, Action::ConfirmOverlay, KeyContext::Overlay);
    push_binding(&mut v, KeyCode::Left, none, Action::NavigateLeft, KeyContext::Overlay);
    push_binding(&mut v, KeyCode::Right, none, Action::NavigateRight, KeyContext::Overlay);
    assert(v@ =~= default_bindings_spec());
    v
}

/// A binding of the context takes precedence over a global binding of the same key.
pub proof fn law_context_binding_wins(bs: Seq<KeyBinding>, key: KeyEvent, ctx: KeyContext, a: Action)
    requires
        lookup(bs, ctx, key) == Some(a),
    ensures
        resolve_spec(bs, key, ctx) == a,
{
}

/// A key bound only globally acts the same in every context.
pub proof fn law_global_binding_applies(bs: Seq<KeyBinding>, key: KeyEvent, ctx: KeyContext, a: Action)
    requires
        lookup(bs, ctx, key) is None,
        lookup(bs, KeyContext::Global, key) == Some(a),
    ensures
        resolve_spec(bs, key, ctx) == a,
{
}

/// A key bound nowhere does nothing.
pub proof fn law_unbound_key_is_noop(bs: Seq<KeyBinding>, key: KeyEvent, ctx: KeyContext)
    requires
        lookup(bs, ctx, key) is None,
        lookup(bs, KeyContext::Global, key) is None,
    ensures
        resolve_spec(bs, key, ctx) == Action::Noop,
{
}

} // verus!
