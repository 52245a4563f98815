//! The decisions of the input recorder: what a raw hook payload means, which
//! events are forwarded, and which hooks are held.

use tokio::sync::mpsc::UnboundedSender;
use vstd::prelude::*;
use vstd::string::*;
use crate::element::Rect;
use crate::errors::WorkflowRecorderError;
use crate::events::{
    KeyboardEvent,
    MouseButton,
    MouseEvent,
    MouseEventType,
    Position,
    UiElement,
    WorkflowEvent,
    WorkflowRecorderConfig,
};

verus! {

/// The message code of a key going down.
pub const WM_KEYDOWN: u32 = 0x0100;

/// The message code of a key going up.
pub const WM_KEYUP: u32 = 0x0101;

/// The message code of a pointer move.
pub const WM_MOUSEMOVE: u32 = 0x0200;

/// The message code of the left button going down.
pub const WM_LBUTTONDOWN: u32 = 0x0201;

/// The message code of the left button going up.
pub const WM_LBUTTONUP: u32 = 0x0202;

/// The message code of the right button going down.
pub const WM_RBUTTONDOWN: u32 = 0x0204;

/// The message code of the right button going up.
pub const WM_RBUTTONUP: u32 = 0x0205;

/// The message code of the middle button going down.
pub const WM_MBUTTONDOWN: u32 = 0x0207;

/// The message code of the middle button going up.
pub const WM_MBUTTONUP: u32 = 0x0208;

/// The message code of a turn of the wheel.
pub const WM_MOUSEWHEEL: u32 = 0x020A;

/// Of this many pointer moves, one is forwarded.
pub const MOVE_SAMPLING: u32 = 10;

/// Whether a key code is one of the control keys: the generic code, the
/// left key or the right key.
pub open spec fn is_ctrl_key(key_code: u32) -> bool {
    key_code == 17 || key_code == 162 || key_code == 163
}

/// Whether a key code is one of the alt keys.
pub open spec fn is_alt_key(key_code: u32) -> bool {
    key_code == 18 || key_code == 164 || key_code == 165
}

/// Whether a key code is one of the shift keys.
pub open spec fn is_shift_key(key_code: u32) -> bool {
    key_code == 16 || key_code == 160 || key_code == 161
}

/// Whether a key code is one of the two windows keys.
pub open spec fn is_win_key(key_code: u32) -> bool {
    key_code == 91 || key_code == 92
}

/// The event that a keyboard hook payload stands for; none unless the
/// message says that a key went down or up. A modifier counts as pressed
/// where the payload's flag bit for it is set, and also where the key of the
/// event is that modifier itself: the flag bit lags one event behind.
pub open spec fn keyboard_event_of(message: u32, key_code: u32, flags: u32) -> Option<
    KeyboardEvent,
> {
    if message == WM_KEYDOWN || message == WM_KEYUP {
        Some(
            KeyboardEvent {
                key_code,
                is_key_down: message == WM_KEYDOWN,
                ctrl_pressed: (flags & 0x8) != 0 || is_ctrl_key(key_code),
                alt_pressed: (flags & 0x20) != 0 || is_alt_key(key_code),
                shift_pressed: (flags & 0x1) != 0 || is_shift_key(key_code),
                win_pressed: is_win_key(key_code),
            },
        )
    } else {
        None
    }
}

/// Decodes the payload of a keyboard hook.
pub fn decode_keyboard(message: u32, key_code: u32, flags: u32) -> (e: Option<KeyboardEvent>)
    ensures
        e == keyboard_event_of(message, key_code, flags),
        e is Some <==> message == WM_KEYDOWN || message == WM_KEYUP,
        e is Some && is_ctrl_key(key_code) ==> e.unwrap().ctrl_pressed,
        e is Some && is_alt_key(key_code) ==> e.unwrap().alt_pressed,
        e is Some && is_shift_key(key_code) ==> e.unwrap().shift_pressed,
{
    if message == WM_KEYDOWN || message == WM_KEYUP {
        Some(
            KeyboardEvent {
                key_code,
                is_key_down: message == WM_KEYDOWN,
                ctrl_pressed: (flags & 0x8) != 0 || key_code == 17 || key_code == 162 || key_code
                    == 163,
                alt_pressed: (flags & 0x20) != 0 || key_code == 18 || key_code == 164 || key_code
                    == 165,
                shift_pressed: (flags & 0x1) != 0 || key_code == 16 || key_code == 160 || key_code
                    == 161,
                win_pressed: key_code == 91 || key_code == 92,
            },
        )
    } else {
        None
    }
}

/// The kind and button that a mouse message code stands for; none for any
/// other code. A move counts for the left button and the wheel for the
/// middle one.
pub open spec fn mouse_kind_of(message: u32) -> Option<(MouseEventType, MouseButton)> {
    if message == WM_LBUTTONDOWN {
        Some((MouseEventType::Down, MouseButton::Left))
    } else if message == WM_LBUTTONUP {
        Some((MouseEventType::Up, MouseButton::Left))
    } else if message == WM_RBUTTONDOWN {
        Some((MouseEventType::Down, MouseButton::Right))
    } else if message == WM_RBUTTONUP {
        Some((MouseEventType::Up, MouseButton::Right))
    } else if message == WM_MBUTTONDOWN {
        Some((MouseEventType::Down, MouseButton::Middle))
    } else if message == WM_MBUTTONUP {
        Some((MouseEventType::Up, MouseButton::Middle))
    } else if message == WM_MOUSEMOVE {
        Some((MouseEventType::Move, MouseButton::Left))
    } else if message == WM_MOUSEWHEEL {
        Some((MouseEventType::Wheel, MouseButton::Middle))
    } else {
        None
    }
}

/// Decodes the message code of a mouse hook.
pub fn decode_mouse(message: u32) -> (k: Option<(MouseEventType, MouseButton)>)
    ensures
        k == mouse_kind_of(message),
{
    if message == WM_LBUTTONDOWN {
        Some((MouseEventType::Down, MouseButton::Left))
    } else if message == WM_LBUTTONUP {
        Some((MouseEventType::Up, MouseButton::Left))
    } else if message == WM_RBUTTONDOWN {
        Some((MouseEventType::Down, MouseButton::Right))
    } else if message == WM_RBUTTONUP {
        Some((MouseEventType::Up, MouseButton::Right))
    } else if message == WM_MBUTTONDOWN {
        Some((MouseEventType::Down, MouseButton::Middle))
    } else if message == WM_MBUTTONUP {
        Some((MouseEventType::Up, MouseButton::Middle))
    } else if message == WM_MOUSEMOVE {
        Some((MouseEventType::Move, MouseButton::Left))
    } else if message == WM_MOUSEWHEEL {
        Some((MouseEventType::Wheel, MouseButton::Middle))
    } else {
        None
    }
}

/// The sampler's phase after one more move.
pub open spec fn next_phase(phase: nat) -> nat {
    (phase + 1) % (MOVE_SAMPLING as nat)
}

/// Whether the move that arrives in `phase` is forwarded: it is the one
/// that completes a group of ten.
pub open spec fn move_forwarded(phase: nat) -> bool {
    next_phase(phase) == 0
}

/// How many of the next `n` moves are forwarded, from `phase` on.
pub open spec fn moves_forwarded(phase: nat, n: nat) -> nat
    decreases n,
{
    if n == 0 {
        0
    } else {
        (if move_forwarded(phase) {
            1nat
        } else {
            0nat
        }) + moves_forwarded(next_phase(phase), (n - 1) as nat)
    }
}

/// The sampler's phase after `n` moves, from `phase` on.
pub open spec fn phase_after(phase: nat, n: nat) -> nat
    decreases n,
{
    if n == 0 {
        phase
    } else {
        phase_after(next_phase(phase), (n - 1) as nat)
    }
}

/// Of any run of moves, every tenth is forwarded and no other: from a
/// fresh sampler, `n` moves forward `n / 10` events, and the `n`-th move is
/// forwarded exactly if `n` is a multiple of ten.
pub proof fn lemma_every_tenth_move(phase: nat, n: nat)
    requires
        phase < MOVE_SAMPLING,
    ensures
        moves_forwarded(phase, n) == (phase + n) / (MOVE_SAMPLING as nat),
        phase_after(phase, n) == (phase + n) % (MOVE_SAMPLING as nat),
    decreases n,
{
    if n > 0 {
        lemma_every_tenth_move(next_phase(phase), (n - 1) as nat);
    }
}

/// Decimates pointer moves: counts them and lets every tenth through.
#[derive(Debug, Clone, Copy, PartialEq, Eq, Structural)]
pub struct MoveSampler {
    phase: u32,
}

impl MoveSampler {
    #[verifier::type_invariant]
    spec fn inv(self) -> bool {
        self.phase < MOVE_SAMPLING
    }

    /// How many moves the sampler has seen since the last one that it let
    /// through.
    pub closed spec fn phase(self) -> nat {
        self.phase as nat
    }

    /// A sampler that has seen no move.
    pub fn new() -> (s: MoveSampler)
        ensures
            s.phase() == 0,
    {
        MoveSampler { phase: 0 }
    }

    /// Whether an event of the given kind is forwarded. A move is counted,
    /// and forwarded if it is the tenth since the last forwarded one. No
    /// other event is ever held back, and none but a move is counted.
    pub fn lets_through(&mut self, kind: MouseEventType) -> (forward: bool)
        ensures
            final(self).phase() < MOVE_SAMPLING,
            kind == MouseEventType::Move ==> final(self).phase() == next_phase(old(self).phase())
                && forward == move_forwarded(old(self).phase()),
            kind != MouseEventType::Move ==> forward && *final(self) == *old(self),
    {
        proof {
            use_type_invariant(&*self);
        }
        match kind {
            MouseEventType::Move => {
                let next = if self.phase + 1 == MOVE_SAMPLING {
                    0
                } else {
                    self.phase + 1
                };
                self.phase = next;
                next == 0
            },
            _ => true,
        }
    }
}

/// What the mouse hook does with one payload.
#[derive(Debug, Clone, Copy, PartialEq, Eq, Structural)]
pub enum MouseAction {
    /// Nothing is forwarded.
    Ignore,
    /// An event is forwarded. Where `capture_element` is set, the element
    /// at `position` is looked up first and attached if it is found.
    Forward { event_type: MouseEventType, button: MouseButton, position: Position, capture_element: bool },
}

/// Whether an event of this kind carries the element under the pointer:
/// only a button going down or up, and only where capture is switched on.
pub open spec fn captures_element(config: WorkflowRecorderConfig, kind: MouseEventType) -> bool {
    config.capture_ui_elements && (kind == MouseEventType::Down || kind == MouseEventType::Up)
}

/// What the mouse hook does with a payload, for a sampler in `phase`.
pub open spec fn mouse_action_of(
    config: WorkflowRecorderConfig,
    phase: nat,
    message: u32,
    x: i32,
    y: i32,
) -> MouseAction {
    match mouse_kind_of(message) {
        None => MouseAction::Ignore,
        Some((kind, button)) => if kind == MouseEventType::Move && !move_forwarded(phase) {
            MouseAction::Ignore
        } else {
            MouseAction::Forward {
                event_type: kind,
                button,
                position: Position { x, y },
                capture_element: captures_element(config, kind),
            }
        },
    }
}

/// The state that the mouse hook keeps between two payloads.
#[derive(Debug, Clone, Copy)]
pub struct MouseTracker {
    pub config: WorkflowRecorderConfig,
    pub sampler: MoveSampler,
    /// Where the pointer was at the last payload, whatever its message.
    pub last_position: Option<Position>,
}

impl MouseTracker {
    /// A tracker that has seen nothing.
    pub fn new(config: WorkflowRecorderConfig) -> (t: MouseTracker)
        ensures
            t.config == config,
            t.sampler.phase() == 0,
            t.last_position is None,
    {
        MouseTracker { config, sampler: MoveSampler::new(), last_position: None }
    }

    /// Takes one payload of the mouse hook and says what to forward.
    ///
    /// The pointer's position is remembered in every case. A payload with
    /// an unknown message code is ignored and not counted. Of the moves
    /// every tenth is forwarded; every other event is forwarded always.
    pub fn on_mouse(&mut self, message: u32, x: i32, y: i32) -> (action: MouseAction)
        ensures
            action == mouse_action_of(old(self).config, old(self).sampler.phase(), message, x, y),
            final(self).config == old(self).config,
            final(self).last_position == Some(Position { x, y }),
            final(self).sampler.phase() == if mouse_kind_of(message) is Some && mouse_kind_of(
                message,
            ).unwrap().0 == MouseEventType::Move {
                next_phase(old(self).sampler.phase())
            } else {
                old(self).sampler.phase()
            },
    {
        self.last_position = Some(Position { x, y });
        match decode_mouse(message) {
            None => MouseAction::Ignore,
            Some((kind, button)) => {
                if !self.sampler.lets_through(kind) {
                    return MouseAction::Ignore;
                }
                let capture_element = self.config.capture_ui_elements && (match kind {
                    MouseEventType::Down => true,
                    MouseEventType::Up => true,
                    _ => false,
                });
                MouseAction::Forward {
                    event_type: kind,
                    button,
                    position: Position { x, y },
                    capture_element,
                }
            },
        }
    }
}

/// The event to forward for an action of the mouse hook, with the element
/// that was found under the pointer. An ignored payload gives no event. An
/// element is attached only where the action asked for one; a lookup that
/// found nothing gives an event without element, never a dropped event.
pub fn mouse_event(action: MouseAction, element: Option<UiElement>) -> (e: Option<WorkflowEvent>)
    ensures
        match action {
            MouseAction::Ignore => e is None,
            MouseAction::Forward { event_type, button, position, capture_element } => e == Some(
                WorkflowEvent::Mouse(
                    MouseEvent {
                        event_type,
                        button,
                        position,
                        ui_element: if capture_element {
                            element
                        } else {
                            None
                        },
                    },
                ),
            ),
        },
{
    match action {
        MouseAction::Ignore => None,
        MouseAction::Forward { event_type, button, position, capture_element } => {
            let ui_element = if capture_element {
                element
            } else {
                None
            };
            Some(WorkflowEvent::Mouse(MouseEvent { event_type, button, position, ui_element }))
        },
    }
}

/// The event to forward for a payload of the keyboard hook, if any.
pub fn keyboard_event(message: u32, key_code: u32, flags: u32) -> (e: Option<WorkflowEvent>)
    ensures
        e == match keyboard_event_of(message, key_code, flags) {
            Some(k) => Some(WorkflowEvent::Keyboard(k)),
            None => None,
        },
{
    match decode_keyboard(message, key_code, flags) {
        Some(k) => Some(WorkflowEvent::Keyboard(k)),
        None => None,
    }
}

/// The sending half of tokio's unbounded channel, through which the hooks
/// hand their events on. Nothing inside it is visible here.
#[verifier::external_type_specification]
#[verifier::external_body]
#[verifier::reject_recursive_types(T)]
pub struct ExUnboundedSender<T>(tokio::sync::mpsc::UnboundedSender<T>);

/// Queues an event with `tokio::sync::mpsc::UnboundedSender::send`, which
/// never waits. The answer is whether the channel took the event. It refuses
/// once its receiving half is closed or dropped; when that is, nothing here
/// can tell, so nothing is claimed of the answer.
#[verifier::external_body]
fn send_event(event_tx: &UnboundedSender<WorkflowEvent>, event: WorkflowEvent) -> (taken: bool) {
    event_tx.send(event).is_ok()
}

/// Decodes a payload of the keyboard hook and queues the event that it
/// stands for. Returns whether an event was queued: never where the payload
/// stands for none, and otherwise as the channel decides.
pub fn forward_keyboard(
    event_tx: &UnboundedSender<WorkflowEvent>,
    message: u32,
    key_code: u32,
    flags: u32,
) -> (taken: bool)
    ensures
        taken ==> keyboard_event_of(message, key_code, flags) is Some,
{
    match keyboard_event(message, key_code, flags) {
        Some(event) => send_event(event_tx, event),
        None => false,
    }
}

/// Queues the event for an action of the mouse hook, with the element that
/// was found under the pointer. Returns whether an event was queued: never
/// for an ignored payload, and otherwise as the channel decides.
pub fn forward_mouse(
    event_tx: &UnboundedSender<WorkflowEvent>,
    action: MouseAction,
    element: Option<UiElement>,
) -> (taken: bool)
    ensures
        taken ==> action != MouseAction::Ignore,
{
    match mouse_event(action, element) {
        Some(event) => send_event(event_tx, event),
        None => false,
    }
}

/// The nearest `i32` to an integer.
pub open spec fn clamp_i32(v: int) -> i32 {
    if v < i32::MIN {
        i32::MIN
    } else if v > i32::MAX {
        i32::MAX
    } else {
        v as i32
    }
}

/// The distance from one edge to the other, cut to fit.
fn span(from: i32, to: i32) -> (d: i32)
    ensures
        d == clamp_i32(to - from),
{
    let wide: i64 = to as i64 - from as i64;
    if wide < i32::MIN as i64 {
        i32::MIN
    } else if wide > i32::MAX as i64 {
        i32::MAX
    } else {
        wide as i32
    }
}

/// The rectangle between four edges; a width or height that does not fit
/// is cut to the nearest value that does.
pub fn rect_from_edges(left: i32, top: i32, right: i32, bottom: i32) -> (r: Rect)
    ensures
        r == (Rect {
            x: left,
            y: top,
            width: clamp_i32(right - left),
            height: clamp_i32(bottom - top),
        }),
{
    Rect {
        x: left,
        y: top,
        width: span(left, right),
        height: span(top, bottom),
    }
}

/// One step of the way from an element up to the root of its tree.
#[derive(Debug, Clone, PartialEq, Eq)]
pub struct PathNode {
    pub control_type: String,
    pub automation_id: String,
    pub name: String,
}

/// How far up a hierarchy path is followed at most. The tree is foreign and
/// may be damaged; the bound ends the climb even where parent links run in
/// a circle.
pub const MAX_HIERARCHY_DEPTH: usize = 64;

/// The token of a node in a hierarchy path: its control type, followed in
/// square brackets by its automation id or, where it has none, by its name;
/// the bare control type where it has neither.
pub open spec fn path_token_of(node: PathNode) -> Seq<char> {
    if node.automation_id@.len() > 0 {
        node.control_type@ + seq!['['] + node.automation_id@ + seq![']']
    } else if node.name@.len() > 0 {
        node.control_type@ + seq!['['] + node.name@ + seq![']']
    } else {
        node.control_type@
    }
}

/// The path through `chain[k]`, `chain[k + 1]`, ... read from the far end:
/// where the chain runs from an element up to the root, the path runs from
/// the root down to the element, with `/` between the tokens.
pub open spec fn path_of(chain: Seq<PathNode>, k: int) -> Seq<char>
    decreases chain.len() - k,
    when 0 <= k
{
    if k >= chain.len() {
        Seq::empty()
    } else if k + 1 == chain.len() {
        path_token_of(chain[k])
    } else {
        path_of(chain, k + 1) + seq!['/'] + path_token_of(chain[k])
    }
}

/// Adds a step to the chain that leads from an element up to the root,
/// unless the chain has reached the depth bound already, and says whether
/// the climb may go on: whether the chain is still below the bound.
pub fn push_path_node(chain: &mut Vec<PathNode>, node: PathNode) -> (more: bool)
    ensures
        old(chain)@.len() < MAX_HIERARCHY_DEPTH ==> final(chain)@ == old(chain)@.push(node),
        old(chain)@.len() >= MAX_HIERARCHY_DEPTH ==> final(chain)@ == old(chain)@,
        more == (final(chain)@.len() < MAX_HIERARCHY_DEPTH),
{
    if chain.len() < MAX_HIERARCHY_DEPTH {
        chain.push(node);
    }
    chain.len() < MAX_HIERARCHY_DEPTH
}

/// Whether a window is the main window of the wanted process: it belongs
/// to that process, is visible, and has no owner.
pub fn is_main_window(owner_pid: u32, wanted_pid: u32, visible: bool, owned: bool) -> (b: bool)
    ensures
        b == (owner_pid == wanted_pid && visible && !owned),
{
    owner_pid == wanted_pid && visible && !owned
}

/// The token of a node in a hierarchy path.
pub fn path_token(node: &PathNode) -> (token: String)
    ensures
        token@ == path_token_of(*node),
{
    proof {
        reveal_strlit("[");
        reveal_strlit("]");
        assert("["@ =~= seq!['[']);
        assert("]"@ =~= seq![']']);
    }
    let mut token = node.control_type.clone();
    if node.automation_id.as_str().unicode_len() > 0 {
        token.append("[");
        token.append(node.automation_id.as_str());
        token.append("]");
    } else if node.name.as_str().unicode_len() > 0 {
        token.append("[");
        token.append(node.name.as_str());
        token.append("]");
    }
    token
}

/// The hierarchy path of an element, from the chain of nodes that leads
/// from the element up to the root: the tokens from the root down, joined
/// by `/`. An empty chain has no path.
pub fn hierarchy_path(chain: &Vec<PathNode>) -> (path: Option<String>)
    ensures
        path is Some <==> chain@.len() > 0,
        path is Some ==> path.unwrap()@ == path_of(chain@, 0),
{
    let n = chain.len();
    if n == 0 {
        return None;
    }
    proof {
        reveal_strlit("/");
        assert("/"@ =~= seq!['/']);
    }
    let mut path = path_token(&chain[n - 1]);
    let mut k: usize = n - 1;
    while k > 0
        invariant
            n == chain@.len(),
            k < n,
            path@ == path_of(chain@, k as int),
            "/"@ == seq!['/'],
        decreases k,
    {
        k -= 1;
        let token = path_token(&chain[k]);
        path.append("/");
        path.append(token.as_str());
    }
    Some(path)
}

/// A request to the system's hooks.
pub ghost enum HookCall {
    InstallKeyboard,
    InstallMouse,
    /// Remove the hook with this handle.
    Remove(isize),
}

/// What the system answers to a request.
pub ghost enum HookAnswer {
    /// The handle of the installed hook, or `None` where the system
    /// refused.
    Installed(Option<isize>),
    /// Whether the system removed the hook.
    Removed(bool),
}

/// Installs and removes the operating system's input hooks.
///
/// The library fixes what it asks of the system and goes by what the system
/// answers. The spec function names the answers that a source may give; the
/// source defines it, and may admit every answer.
pub trait EventHookSource {
    /// Whether a source in this state may answer `call` with `answer`, and
    /// be in the state `after` then.
    open spec fn answers(&self, call: HookCall, answer: HookAnswer, after: &Self) -> bool {
        true
    }

    /// Installs the keyboard hook and returns its handle, or `None` where
    /// the system refuses.
    fn install_keyboard_hook(&mut self) -> (handle: Option<isize>)
        ensures
            old(self).answers(HookCall::InstallKeyboard, HookAnswer::Installed(handle), &*final(self)),
    ;

    /// Installs the mouse hook and returns its handle, or `None` where the
    /// system refuses.
    fn install_mouse_hook(&mut self) -> (handle: Option<isize>)
        ensures
            old(self).answers(HookCall::InstallMouse, HookAnswer::Installed(handle), &*final(self)),
    ;

    /// Removes a hook and says whether the system did so.
    fn remove_hook(&mut self, handle: isize) -> (removed: bool)
        ensures
            old(self).answers(HookCall::Remove(handle), HookAnswer::Removed(removed), &*final(self)),
    ;
}

/// Whether the keyboard hook was asked for as `config` says: a source that
/// is to install it answered with `keyboard`; any other was left alone, and
/// there is no handle.
pub open spec fn keyboard_asked<H: EventHookSource>(
    before: H,
    config: WorkflowRecorderConfig,
    keyboard: Option<isize>,
    after: H,
) -> bool {
    if config.record_keyboard {
        before.answers(HookCall::InstallKeyboard, HookAnswer::Installed(keyboard), &after)
    } else {
        keyboard is None && after == before
    }
}

/// Whether the mouse hook was asked for as `config` says, after the
/// keyboard hook: a source that is to install it answered with `mouse`,
/// unless the keyboard hook was refused before; then, and where no mouse
/// hook is wanted, the source was left alone, and there is no handle.
pub open spec fn mouse_asked<H: EventHookSource>(
    before: H,
    config: WorkflowRecorderConfig,
    keyboard: Option<isize>,
    mouse: Option<isize>,
    after: H,
) -> bool {
    if config.record_mouse && !(config.record_keyboard && keyboard is None) {
        before.answers(HookCall::InstallMouse, HookAnswer::Installed(mouse), &after)
    } else {
        mouse is None && after == before
    }
}

/// Whether a source in the state `before` was asked for the hooks that
/// `config` names, the keyboard hook first, answered with `keyboard` and
/// `mouse`, and is in the state `after` then.
pub open spec fn installs<H: EventHookSource>(
    before: H,
    config: WorkflowRecorderConfig,
    keyboard: Option<isize>,
    mouse: Option<isize>,
    after: H,
) -> bool {
    exists|mid: H| #[trigger]
        keyboard_asked(before, config, keyboard, mid) && mouse_asked(
            mid,
            config,
            keyboard,
            mouse,
            after,
        )
}

/// Whether a source in the state `before` was asked to remove the hook
/// with the given handle, whatever it answered, and is in the state `after`
/// then. Without a handle nothing is asked.
pub open spec fn removal_asked<H: EventHookSource>(before: H, handle: Option<isize>, after: H) -> bool {
    match handle {
        Some(h) => exists|removed: bool| #[trigger]
            before.answers(HookCall::Remove(h), HookAnswer::Removed(removed), &after),
        None => after == before,
    }
}

/// Whether a source in the state `before` was asked to remove the keyboard
/// hook and then the mouse hook, each where there is a handle, and is in
/// the state `after` then. The second request is made whatever the answer
/// to the first.
pub open spec fn removals_asked<H: EventHookSource>(
    before: H,
    keyboard: Option<isize>,
    mouse: Option<isize>,
    after: H,
) -> bool {
    exists|mid: H| #[trigger]
        removal_asked(before, keyboard, mid) && removal_asked(mid, mouse, after)
}

/// The message of the error for a keyboard hook that could not be set.
pub open spec fn keyboard_hook_failure() -> Seq<char> {
    "Failed to set keyboard hook"@
}

/// The message of the error for a mouse hook that could not be set.
pub open spec fn mouse_hook_failure() -> Seq<char> {
    "Failed to set mouse hook"@
}

/// How the installation of a recorder's hooks ended.
#[derive(Debug, Clone, Copy, PartialEq, Eq, Structural)]
pub enum HookOutcome {
    /// Every hook that was asked for is installed.
    Complete,
    /// The system refused the keyboard hook.
    KeyboardRefused,
    /// The system refused the mouse hook.
    MouseRefused,
}

/// How an installation ended, from what the configuration asks for and the
/// handles that the system gave. The keyboard hook is judged first; a hook
/// that is not asked for cannot be refused.
pub open spec fn hook_outcome_of(
    config: WorkflowRecorderConfig,
    keyboard: Option<isize>,
    mouse: Option<isize>,
) -> HookOutcome {
    if config.record_keyboard && keyboard is None {
        HookOutcome::KeyboardRefused
    } else if config.record_mouse && mouse is None {
        HookOutcome::MouseRefused
    } else {
        HookOutcome::Complete
    }
}

/// Judges an installation by the handles that the system gave.
pub fn hook_outcome(
    config: WorkflowRecorderConfig,
    keyboard: Option<isize>,
    mouse: Option<isize>,
) -> (outcome: HookOutcome)
    ensures
        outcome == hook_outcome_of(config, keyboard, mouse),
{
    if config.record_keyboard && keyboard.is_none() {
        HookOutcome::KeyboardRefused
    } else if config.record_mouse && mouse.is_none() {
        HookOutcome::MouseRefused
    } else {
        HookOutcome::Complete
    }
}

/// A recorder: the hooks that it holds, and the state of the mouse hook.
pub struct WorkflowRecorder<H: EventHookSource> {
    pub hooks: H,
    pub keyboard_hook: Option<isize>,
    pub mouse_hook: Option<isize>,
    pub config: WorkflowRecorderConfig,
    pub tracker: MouseTracker,
}

impl<H: EventHookSource> WorkflowRecorder<H> {
    /// Whether the recorder holds exactly the hooks that `config` asks for.
    pub open spec fn holds_hooks_of(&self, config: WorkflowRecorderConfig) -> bool {
        &&& self.keyboard_hook is Some <==> config.record_keyboard
        &&& self.mouse_hook is Some <==> config.record_mouse
    }

    /// What installing returns for the handles `keyboard` and `mouse` that
    /// the system gave, with the source in the state `installed` then.
    ///
    /// Where no wanted hook was refused, the result is a recorder that
    /// holds the source in that state, those handles, the configuration and
    /// a fresh mouse tracker. A refused keyboard hook gives the keyboard
    /// error. A refused mouse hook gives the mouse error, after the source
    /// was asked to remove the keyboard hook again, if it had given one.
    pub open spec fn settles(
        config: WorkflowRecorderConfig,
        keyboard: Option<isize>,
        mouse: Option<isize>,
        installed: H,
        r: Result<WorkflowRecorder<H>, WorkflowRecorderError>,
    ) -> bool {
        match hook_outcome_of(config, keyboard, mouse) {
            HookOutcome::Complete => match r {
                Ok(recorder) => recorder.hooks == installed && recorder.keyboard_hook == keyboard
                    && recorder.mouse_hook == mouse && recorder.config == config
                    && recorder.tracker.config == config && recorder.tracker.sampler.phase() == 0
                    && recorder.tracker.last_position is None,
                Err(_) => false,
            },
            HookOutcome::KeyboardRefused => match r {
                Err(WorkflowRecorderError::InitializationError(m)) => m@
                    == keyboard_hook_failure(),
                _ => false,
            },
            HookOutcome::MouseRefused => match r {
                Err(WorkflowRecorderError::InitializationError(m)) => m@ == mouse_hook_failure()
                    && exists|after: H| #[trigger] removal_asked(installed, keyboard, after),
                _ => false,
            },
        }
    }

    /// Installs the hooks that `config` asks for, the keyboard hook first.
    ///
    /// The source is asked for the keyboard hook if it is wanted, and then
    /// for the mouse hook if it is wanted and the keyboard hook was not
    /// refused. The call succeeds exactly if no wanted hook was refused;
    /// the recorder then holds the handles that the system gave. Where the
    /// system refuses a hook, the call fails with `InitializationError`,
    /// and a keyboard hook that was installed before is removed again: a
    /// recorder never holds a part of its hooks. A configuration that asks
    /// for no hook cannot fail.
    pub fn new(config: WorkflowRecorderConfig, hooks: H) -> (r: Result<
        WorkflowRecorder<H>,
        WorkflowRecorderError,
    >)
        ensures
            exists|keyboard: Option<isize>, mouse: Option<isize>, installed: H| #[trigger]
                installs(hooks, config, keyboard, mouse, installed) && Self::settles(
                    config,
                    keyboard,
                    mouse,
                    installed,
                    r,
                ),
            !config.record_keyboard && !config.record_mouse ==> r is Ok,
            match r {
                Ok(recorder) => recorder.config == config && recorder.holds_hooks_of(config)
                    && recorder.tracker.config == config && recorder.tracker.sampler.phase() == 0
                    && recorder.tracker.last_position is None,
                Err(WorkflowRecorderError::InitializationError(m)) => m@ == keyboard_hook_failure()
                    && config.record_keyboard || m@ == mouse_hook_failure() && config.record_mouse,
                Err(_) => false,
            },
    {
        let mut source = hooks;
        let keyboard_hook = if config.record_keyboard {
            source.install_keyboard_hook()
        } else {
            None
        };
        let ghost mid = source;
        let mouse_hook = if config.record_mouse && !(config.record_keyboard
            && keyboard_hook.is_none()) {
            source.install_mouse_hook()
        } else {
            None
        };
        let ghost installed = source;
        proof {
            assert(keyboard_asked(hooks, config, keyboard_hook, mid));
            assert(mouse_asked(mid, config, keyboard_hook, mouse_hook, installed));
            assert(installs(hooks, config, keyboard_hook, mouse_hook, installed));
        }
        let r = match hook_outcome(config, keyboard_hook, mouse_hook) {
            HookOutcome::Complete => Ok(
                WorkflowRecorder {
                    hooks: source,
                    keyboard_hook,
                    mouse_hook,
                    config,
                    tracker: MouseTracker::new(config),
                },
            ),
            HookOutcome::KeyboardRefused => Err(
                WorkflowRecorderError::InitializationError(
                    "Failed to set keyboard hook".to_owned(),
                ),
            ),
            HookOutcome::MouseRefused => {
                match keyboard_hook {
                    Some(handle) => {
                        let _ = source.remove_hook(handle);
                    },
                    None => {},
                }
                assert(removal_asked(installed, keyboard_hook, source));
                Err(
                    WorkflowRecorderError::InitializationError(
                        "Failed to set mouse hook".to_owned(),
                    ),
                )
            },
        };
        assert(Self::settles(config, keyboard_hook, mouse_hook, installed, r));
        r
    }

    /// Takes one payload of the mouse hook and says what to forward, as
    /// the recorder's tracker decides. The hooks are left alone.
    pub fn on_mouse(&mut self, message: u32, x: i32, y: i32) -> (action: MouseAction)
        ensures
            action == mouse_action_of(
                old(self).tracker.config,
                old(self).tracker.sampler.phase(),
                message,
                x,
                y,
            ),
            final(self).tracker.config == old(self).tracker.config,
            final(self).tracker.last_position == Some(Position { x, y }),
            final(self).tracker.sampler.phase() == if mouse_kind_of(message) is Some
                && mouse_kind_of(message).unwrap().0 == MouseEventType::Move {
                next_phase(old(self).tracker.sampler.phase())
            } else {
                old(self).tracker.sampler.phase()
            },
            final(self).hooks == old(self).hooks,
            final(self).keyboard_hook == old(self).keyboard_hook,
            final(self).mouse_hook == old(self).mouse_hook,
            final(self).config == old(self).config,
    {
        self.tracker.on_mouse(message, x, y)
    }

    /// Removes the hooks that the recorder holds: the source is asked to
    /// remove the keyboard hook, then the mouse hook, each with the handle
    /// that the recorder holds, and the second whatever the answer to the
    /// first. Always succeeds: a hook that the system does not remove is
    /// given up all the same. Afterwards the recorder holds no hook, so a
    /// second call asks for nothing.
    pub fn stop(&mut self) -> (r: Result<(), WorkflowRecorderError>)
        ensures
            r is Ok,
            removals_asked(
                old(self).hooks,
                old(self).keyboard_hook,
                old(self).mouse_hook,
                final(self).hooks,
            ),
            final(self).keyboard_hook is None,
            final(self).mouse_hook is None,
            final(self).config == old(self).config,
            final(self).tracker == old(self).tracker,
            old(self).keyboard_hook is None && old(self).mouse_hook is None ==> *final(self)
                == *old(self),
    {
        let ghost before = self.hooks;
        match self.keyboard_hook {
            Some(handle) => {
                let _ = self.hooks.remove_hook(handle);
                self.keyboard_hook = None;
            },
            None => {},
        }
        let ghost mid = self.hooks;
        match self.mouse_hook {
            Some(handle) => {
                let _ = self.hooks.remove_hook(handle);
                self.mouse_hook = None;
            },
            None => {},
        }
        proof {
            assert(removal_asked(before, old(self).keyboard_hook, mid));
            assert(removal_asked(mid, old(self).mouse_hook, self.hooks));
        }
        Ok(())
    }
}

} // verus!
