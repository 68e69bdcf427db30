//! The stack of open UI screens, the actions that change it, the keys that ask
//! for those actions, and what the rest of the game derives from the top screen.

use vstd::prelude::*;
use crate::text::chars_of;

verus! {

/// A UI screen. `Machine` carries the id of the machine whose window is open.
#[derive(Clone, Copy, Debug, PartialEq, Eq, Structural)]
pub enum UIContext {
    Gameplay,
    Inventory,
    GlobalInventory,
    CommandInput,
    PauseMenu,
    Settings,
    Machine(u64),
}

/// A request to change the screen stack.
#[derive(Clone, Copy, Debug, PartialEq, Eq, Structural)]
pub enum UIAction {
    Push(UIContext),
    Pop,
    Clear,
    Replace(UIContext),
    /// Close the screen when it is on top, else open it.
    Toggle(UIContext),
}

/// The stack of open screens; with nothing open the player is in gameplay.
pub struct UIState {
    pub stack: Vec<UIContext>,
}

pub open spec fn spec_current(stack: Seq<UIContext>) -> UIContext {
    if stack.len() == 0 {
        UIContext::Gameplay
    } else {
        stack.last()
    }
}

impl Default for UIState {
    /// No screen open: gameplay.
    fn default() -> (s: UIState)
        ensures
            s.stack@ == Seq::<UIContext>::empty(),
    {
        UIState { stack: Vec::new() }
    }
}

pub open spec fn spec_apply(stack: Seq<UIContext>, a: UIAction) -> Seq<UIContext> {
    match a {
        UIAction::Push(c) => stack.push(c),
        UIAction::Pop => if stack.len() > 0 { stack.drop_last() } else { stack },
        UIAction::Clear => Seq::empty(),
        UIAction::Replace(c) => (if stack.len() > 0 { stack.drop_last() } else { stack }).push(c),
        UIAction::Toggle(c) => if spec_current(stack) == c {
            if stack.len() > 0 { stack.drop_last() } else { stack }
        } else {
            stack.push(c)
        },
    }
}

pub open spec fn spec_apply_all(stack: Seq<UIContext>, actions: Seq<UIAction>) -> Seq<UIContext>
    decreases actions.len(),
{
    if actions.len() == 0 {
        stack
    } else {
        spec_apply(spec_apply_all(stack, actions.drop_last()), actions.last())
    }
}

impl UIState {
    pub open spec fn view(&self) -> Seq<UIContext> {
        self.stack@
    }

    pub fn new() -> (s: UIState)
        ensures
            s.view() == Seq::<UIContext>::empty(),
    {
        UIState { stack: Vec::new() }
    }

    /// The screen on top, or gameplay when none is open.
    pub fn current(&self) -> (c: UIContext)
        ensures
            c == spec_current(self.view()),
    {
        if self.stack.len() == 0 {
            UIContext::Gameplay
        } else {
            self.stack[self.stack.len() - 1]
        }
    }

    pub fn is_gameplay(&self) -> (r: bool)
        ensures
            r == (spec_current(self.view()) == UIContext::Gameplay),
    {
        self.current() == UIContext::Gameplay
    }

    /// The screen is the one on top.
    pub fn is_active(&self, c: &UIContext) -> (r: bool)
        ensures
            r == (spec_current(self.view()) == *c),
    {
        self.current() == *c
    }

    pub fn push(&mut self, c: UIContext)
        ensures
            final(self).view() == old(self).view().push(c),
    {
        self.stack.push(c);
    }

    /// Close the top screen (nothing happens when none is open).
    pub fn pop(&mut self)
        ensures
            final(self).view() == spec_apply(old(self).view(), UIAction::Pop),
    {
        if self.stack.len() > 0 {
            self.stack.pop();
        }
    }

    pub fn clear(&mut self)
        ensures
            final(self).view() == Seq::<UIContext>::empty(),
    {
        self.stack = Vec::new();
    }

    /// Swap the top screen for `c` (or open `c` when none is open).
    pub fn replace(&mut self, c: UIContext)
        ensures
            final(self).view() == spec_apply(old(self).view(), UIAction::Replace(c)),
    {
        self.pop();
        self.push(c);
    }

    pub fn apply(&mut self, a: UIAction)
        ensures
            final(self).view() == spec_apply(old(self).view(), a),
    {
        match a {
            UIAction::Push(c) => self.push(c),
            UIAction::Pop => self.pop(),
            UIAction::Clear => self.clear(),
            UIAction::Replace(c) => self.replace(c),
            UIAction::Toggle(c) => {
                if self.is_active(&c) {
                    self.pop();
                } else {
                    self.push(c);
                }
            },
        }
    }
}

/// Apply the frame's UI actions in order.
pub fn ui_action_handler(state: &mut UIState, actions: &Vec<UIAction>)
    ensures
        final(state).view() == spec_apply_all(old(state).view(), actions@),
{
    let mut i: usize = 0;
    while i < actions.len()
        invariant
            i <= actions.len(),
            state.view() == spec_apply_all(old(state).view(), actions@.take(i as int)),
        decreases actions.len() - i,
    {
        proof {
            assert(actions@.take(i as int + 1).drop_last() =~= actions@.take(i as int));
        }
        state.apply(actions[i]);
        i = i + 1;
    }
    assert(actions@.take(i as int) =~= actions@);
}

/// Opening a screen and closing it again leaves the stack as it was.
pub proof fn law_push_pop(stack: Seq<UIContext>, c: UIContext)
    ensures
        spec_apply(spec_apply(stack, UIAction::Push(c)), UIAction::Pop) == stack,
        spec_current(spec_apply(stack, UIAction::Push(c))) == c,
{
    assert(stack.push(c).drop_last() =~= stack);
}

/// Toggling a screen that is not on top opens it, and toggling it again closes it,
/// leaving the stack as it was.
pub proof fn law_toggle_twice(stack: Seq<UIContext>, c: UIContext)
    requires
        spec_current(stack) != c,
    ensures
        spec_current(spec_apply(stack, UIAction::Toggle(c))) == c,
        spec_apply(spec_apply(stack, UIAction::Toggle(c)), UIAction::Toggle(c)) == stack,
{
    assert(stack.push(c).drop_last() =~= stack);
}

/// Replacing keeps the number of open screens (when one is open) and puts the new
/// screen on top; clearing returns to gameplay.
pub proof fn law_replace_and_clear(stack: Seq<UIContext>, c: UIContext)
    ensures
        stack.len() > 0 ==> spec_apply(stack, UIAction::Replace(c)).len() == stack.len(),
        spec_current(spec_apply(stack, UIAction::Replace(c))) == c,
        spec_current(spec_apply(stack, UIAction::Clear)) == UIContext::Gameplay,
{
}

/// The name a screen has in the UI element registry.
pub open spec fn spec_context_name(c: UIContext) -> Seq<char> {
    match c {
        UIContext::Gameplay => "Gameplay"@,
        UIContext::Inventory => "Inventory"@,
        UIContext::GlobalInventory => "GlobalInventory"@,
        UIContext::CommandInput => "CommandInput"@,
        UIContext::PauseMenu => "PauseMenu"@,
        UIContext::Settings => "Settings"@,
        UIContext::Machine(_) => "MachineUI"@,
    }
}

pub fn ui_context_to_string(c: &UIContext) -> (s: &'static str)
    ensures
        s@ == spec_context_name(*c),
{
    match c {
        UIContext::Gameplay => "Gameplay",
        UIContext::Inventory => "Inventory",
        UIContext::GlobalInventory => "GlobalInventory",
        UIContext::CommandInput => "CommandInput",
        UIContext::PauseMenu => "PauseMenu",
        UIContext::Settings => "Settings",
        UIContext::Machine(_) => "MachineUI",
    }
}

/// Escape: nothing while the command line is open (it handles Escape itself);
/// in gameplay it opens the pause menu; on any screen it closes that screen.
pub fn ui_escape_handler(escape_pressed: bool, state: &UIState, command_open: bool) -> (a: Option<UIAction>)
    ensures
        a == (if !escape_pressed || command_open {
            None
        } else if spec_current(state.view()) == UIContext::Gameplay {
            Some(UIAction::Push(UIContext::PauseMenu))
        } else {
            Some(UIAction::Pop)
        }),
{
    if !escape_pressed {
        return None;
    }
    if command_open {
        return None;
    }
    if state.is_gameplay() {
        Some(UIAction::Push(UIContext::PauseMenu))
    } else {
        Some(UIAction::Pop)
    }
}

/// E: opens the inventory from gameplay, closes it, or swaps a machine window for
/// the inventory; ignored on other screens.
pub fn ui_inventory_handler(e_pressed: bool, state: &UIState) -> (a: Option<UIAction>)
    ensures
        a == (if !e_pressed {
            None
        } else {
            match spec_current(state.view()) {
                UIContext::Gameplay => Some(UIAction::Push(UIContext::Inventory)),
                UIContext::Inventory => Some(UIAction::Pop),
                UIContext::Machine(_) => Some(UIAction::Replace(UIContext::Inventory)),
                _ => None,
            }
        }),
{
    if !e_pressed {
        return None;
    }
    match state.current() {
        UIContext::Gameplay => Some(UIAction::Push(UIContext::Inventory)),
        UIContext::Inventory => Some(UIAction::Pop),
        UIContext::Machine(_) => Some(UIAction::Replace(UIContext::Inventory)),
        _ => None,
    }
}

/// Tab: toggles the global inventory from gameplay; nothing while the command
/// line is open (it uses Tab for completion) or on other screens.
pub fn ui_global_inventory_handler(tab_pressed: bool, state: &UIState, command_open: bool) -> (a:
    Option<UIAction>)
    ensures
        a == (if !tab_pressed || command_open {
            None
        } else {
            match spec_current(state.view()) {
                UIContext::Gameplay => Some(UIAction::Push(UIContext::GlobalInventory)),
                UIContext::GlobalInventory => Some(UIAction::Pop),
                _ => None,
            }
        }),
{
    if !tab_pressed {
        return None;
    }
    if command_open {
        return None;
    }
    match state.current() {
        UIContext::Gameplay => Some(UIAction::Push(UIContext::GlobalInventory)),
        UIContext::GlobalInventory => Some(UIAction::Pop),
        _ => None,
    }
}

/// The older per-window flags, derived from the top screen.
#[derive(Clone, Copy, Debug, PartialEq, Eq, Structural)]
pub struct LegacyUiState {
    pub inventory_open: bool,
    pub global_inventory_open: bool,
    pub command_open: bool,
    pub machine: Option<u64>,
    pub paused: bool,
}

pub open spec fn spec_legacy(c: UIContext) -> LegacyUiState {
    LegacyUiState {
        inventory_open: c == UIContext::Inventory,
        global_inventory_open: c == UIContext::GlobalInventory,
        command_open: c == UIContext::CommandInput,
        machine: match c {
            UIContext::Machine(e) => Some(e),
            _ => None,
        },
        paused: c != UIContext::Gameplay,
    }
}

/// The window flags for the top screen: exactly the flag of that screen is set,
/// and the game counts as paused on every screen but gameplay.
pub fn sync_legacy_ui_state(state: &UIState) -> (l: LegacyUiState)
    ensures
        l == spec_legacy(spec_current(state.view())),
{
    let mut l = LegacyUiState {
        inventory_open: false,
        global_inventory_open: false,
        command_open: false,
        machine: None,
        paused: false,
    };
    match state.current() {
        UIContext::Gameplay => {
            l.paused = false;
        },
        UIContext::Inventory => {
            l.inventory_open = true;
            l.paused = true;
        },
        UIContext::GlobalInventory => {
            l.global_inventory_open = true;
            l.paused = true;
        },
        UIContext::CommandInput => {
            l.command_open = true;
            l.paused = true;
        },
        UIContext::PauseMenu => {
            l.paused = true;
        },
        UIContext::Settings => {
            l.paused = true;
        },
        UIContext::Machine(e) => {
            l.paused = true;
            l.machine = Some(e);
        },
    }
    l
}

/// The pause screen shows exactly when the pause menu is on top.
pub fn pause_ui_visible(state: &UIState) -> (r: bool)
    ensures
        r == (spec_current(state.view()) == UIContext::PauseMenu),
{
    state.is_active(&UIContext::PauseMenu)
}

#[derive(Clone, Copy, Debug, PartialEq, Eq, Structural)]
pub enum PauseMenuButton {
    Resume,
    Settings,
    Quit,
}

/// What pressing a pause-menu button does.
#[derive(Clone, Copy, Debug, PartialEq, Eq, Structural)]
pub struct PauseMenuEffect {
    /// Clear the paused flag.
    pub unpause: bool,
    pub action: Option<UIAction>,
    /// Leave the application.
    pub exit: bool,
}

/// Resume unpauses and closes the menu; Settings opens the settings screen; Quit
/// leaves the application.
pub fn pause_menu_press(b: PauseMenuButton) -> (e: PauseMenuEffect)
    ensures
        e == (match b {
            PauseMenuButton::Resume => PauseMenuEffect { unpause: true, action: Some(UIAction::Pop), exit: false },
            PauseMenuButton::Settings => PauseMenuEffect {
                unpause: false,
                action: Some(UIAction::Push(UIContext::Settings)),
                exit: false,
            },
            PauseMenuButton::Quit => PauseMenuEffect { unpause: false, action: None, exit: true },
        }),
{
    match b {
        PauseMenuButton::Resume => PauseMenuEffect { unpause: true, action: Some(UIAction::Pop), exit: false },
        PauseMenuButton::Settings => PauseMenuEffect {
            unpause: false,
            action: Some(UIAction::Push(UIContext::Settings)),
            exit: false,
        },
        PauseMenuButton::Quit => PauseMenuEffect { unpause: false, action: None, exit: true },
    }
}

/// How the window holds the mouse cursor.
#[derive(Clone, Copy, Debug, PartialEq, Eq, Structural)]
pub enum GrabMode {
    /// Not grabbed.
    Free,
    Confined,
    Locked,
}

#[derive(Clone, Copy, Debug, PartialEq, Eq, Structural)]
pub struct CursorOptions {
    pub grab_mode: GrabMode,
    pub visible: bool,
}

/// Confine the cursor to the window during camera rotation; it stays visible.
pub fn lock_cursor(c: &mut CursorOptions)
    ensures
        *final(c) == (CursorOptions { grab_mode: GrabMode::Confined, visible: true }),
{
    c.grab_mode = GrabMode::Confined;
    c.visible = true;
}

/// Free and show the cursor for a UI screen.
pub fn unlock_cursor(c: &mut CursorOptions)
    ensures
        *final(c) == (CursorOptions { grab_mode: GrabMode::Free, visible: true }),
{
    c.grab_mode = GrabMode::Free;
    c.visible = true;
}

/// Return the cursor to its normal free, visible state.
pub fn release_cursor(c: &mut CursorOptions)
    ensures
        *final(c) == (CursorOptions { grab_mode: GrabMode::Free, visible: true }),
{
    c.grab_mode = GrabMode::Free;
    c.visible = true;
}

pub fn is_locked(c: &CursorOptions) -> (r: bool)
    ensures
        r == (c.grab_mode != GrabMode::Free),
{
    c.grab_mode != GrabMode::Free
}

pub fn is_unlocked(c: &CursorOptions) -> (r: bool)
    ensures
        r == (c.grab_mode == GrabMode::Free),
{
    c.grab_mode == GrabMode::Free
}

/// Keep the cursor visible, and release any grab while a screen is open.
pub fn sync_cursor_to_ui_state(state: &UIState, c: &mut CursorOptions)
    ensures
        final(c).visible,
        final(c).grab_mode == (if spec_current(state.view()) != UIContext::Gameplay {
            GrabMode::Free
        } else {
            old(c).grab_mode
        }),
{
    if !c.visible {
        c.visible = true;
    }
    if !state.is_gameplay() && is_locked(c) {
        release_cursor(c);
    }
}

/// The declaration of one UI element: its id, display name, the screens it shows on.
pub struct UIElementSpec {
    pub id: String,
    pub name: String,
    pub show_in: Vec<String>,
    pub interactable: bool,
    pub dynamic: bool,
}

/// The registered UI elements; an element's numeric id is its registration order.
pub struct UIElementRegistry {
    pub specs: Vec<UIElementSpec>,
}

impl UIElementRegistry {
    pub fn new() -> (r: UIElementRegistry)
        ensures
            r.specs@.len() == 0,
    {
        UIElementRegistry { specs: Vec::new() }
    }

    /// Register an element; returns its numeric id.
    pub fn register_spec(&mut self, spec: UIElementSpec) -> (id: usize)
        requires
            old(self).specs@.len() < usize::MAX,
        ensures
            id == old(self).specs@.len(),
            final(self).specs@ == old(self).specs@.push(spec),
    {
        let id = self.specs.len();
        self.specs.push(spec);
        id
    }

    /// The element is registered and lists the screen named `context`.
    pub fn should_show(&self, id: usize, context: &str) -> (r: bool)
        ensures
            r == (id < self.specs@.len() && exists|k: int|
                0 <= k < self.specs@[id as int].show_in@.len() && (#[trigger] self.specs@[id as int].show_in@[k])@
                    == context@),
    {
        if id >= self.specs.len() {
            return false;
        }
        let ctx = chars_of(context);
        let shows = &self.specs[id].show_in;
        let mut k: usize = 0;
        while k < shows.len()
            invariant
                k <= shows.len(),
                id < self.specs@.len(),
                *shows == self.specs@[id as int].show_in,
                ctx@ == context@,
                forall|j: int| 0 <= j < k ==> (#[trigger] shows@[j])@ != context@,
            decreases shows.len() - k,
        {
            let name = chars_of(shows[k].as_str());
            if crate::text::chars_eq_vec(&name, &ctx) {
                assert(self.specs@[id as int].show_in@[k as int]@ == context@);
                return true;
            }
            k = k + 1;
        }
        false
    }

    /// The string id of a registered element.
    pub fn resolve_id(&self, id: usize) -> (r: Option<&String>)
        ensures
            r is Some <==> id < self.specs@.len(),
            r matches Some(s) ==> *s == self.specs@[id as int].id,
    {
        if id < self.specs.len() {
            Some(&self.specs[id].id)
        } else {
            None
        }
    }
}

/// Whether an element should be visible on the current screen.
pub fn element_visible(registry: &UIElementRegistry, id: usize, state: &UIState) -> (r: bool)
    ensures
        r == (id < registry.specs@.len() && exists|k: int|
            0 <= k < registry.specs@[id as int].show_in@.len() && (#[trigger] registry.specs@[id as int].show_in@[k])@
                == spec_context_name(spec_current(state.view()))),
{
    let c = state.current();
    registry.should_show(id, ui_context_to_string(&c))
}

/// What the test interface reports of one UI element.
pub struct UIElementInfo {
    pub id: String,
    pub visible: bool,
    pub interactable: bool,
}

/// One spawned UI element: its registry id, whether it is hidden, whether it
/// takes clicks.
#[derive(Clone, Copy, Debug, PartialEq, Eq, Structural)]
pub struct UIElementEntity {
    pub tag: usize,
    pub hidden: bool,
    pub has_interaction: bool,
}

/// The spawned elements whose id is registered (among `n` registered), in order.
pub open spec fn known_elements(es: Seq<UIElementEntity>, n: nat) -> Seq<UIElementEntity>
    decreases es.len(),
{
    if es.len() == 0 {
        Seq::empty()
    } else {
        let rest = known_elements(es.drop_last(), n);
        if es.last().tag < n {
            rest.push(es.last())
        } else {
            rest
        }
    }
}

/// Report every spawned element whose id the registry knows, in order: its string
/// id, whether it is shown, whether it takes clicks.
pub fn collect_ui_element_states(registry: &UIElementRegistry, entities: &Vec<UIElementEntity>) -> (v:
    Vec<UIElementInfo>)
    ensures
        v@.len() == known_elements(entities@, registry.specs@.len()).len(),
        forall|i: int| 0 <= i < v@.len() ==> {
            let e = #[trigger] known_elements(entities@, registry.specs@.len())[i];
            &&& v@[i].id == registry.specs@[e.tag as int].id
            &&& v@[i].visible == !e.hidden
            &&& v@[i].interactable == e.has_interaction
        },
{
    let ghost n = registry.specs@.len();
    let mut v: Vec<UIElementInfo> = Vec::new();
    let mut i: usize = 0;
    while i < entities.len()
        invariant
            i <= entities.len(),
            n == registry.specs@.len(),
            v@.len() == known_elements(entities@.take(i as int), n).len(),
            forall|k: int| 0 <= k < v@.len() ==> {
                let e = #[trigger] known_elements(entities@.take(i as int), n)[k];
                &&& v@[k].id == registry.specs@[e.tag as int].id
                &&& v@[k].visible == !e.hidden
                &&& v@[k].interactable == e.has_interaction
            },
        decreases entities.len() - i,
    {
        proof {
            assert(entities@.take(i as int + 1).drop_last() =~= entities@.take(i as int));
        }
        let e = entities[i];
        match registry.resolve_id(e.tag) {
            Some(id) => {
                let info = UIElementInfo { id: id.clone(), visible: !e.hidden, interactable: e.has_interaction };
                v.push(info);
            },
            None => {},
        }
        i = i + 1;
    }
    assert(entities@.take(i as int) =~= entities@);
    v
}

/// Startup cursor set-up waits for the window: the frame counter goes up each
/// frame, and on the fifth frame only the cursor is released (shown, not grabbed).
pub fn initialize_cursor(frame_count: &mut u32, c: &mut CursorOptions) -> (released: bool)
    requires
        *old(frame_count) < u32::MAX,
    ensures
        *final(frame_count) == *old(frame_count) + 1,
        released == (*final(frame_count) == 5),
        released ==> final(c).grab_mode == GrabMode::Free && final(c).visible,
        !released ==> *final(c) == *old(c),
{
    *frame_count = *frame_count + 1;
    if *frame_count == 5 {
        release_cursor(c);
        true
    } else {
        false
    }
}

} // verus!
