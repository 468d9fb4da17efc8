use vstd::prelude::*;

verus! {

use crate::vector_i32::Vec3i;

/// The keys the game reacts to; every other key is told apart by a code of its own.
#[derive(Debug, Clone, Copy, PartialEq, Eq, Structural)]
pub enum Key {
    A,
    D,
    W,
    S,
    Space,
    LShift,
    Escape,
    Other(u32),
}

/// What the window system reports to the game.
#[derive(Debug, Clone, Copy, PartialEq, Eq, Structural)]
pub enum InputEvent {
    /// The window was asked to close, or the event loop is being torn down.
    Quit,
    /// The cursor left the window.
    CursorLeft,
    /// A key went down.
    KeyPressed(Key),
    /// A key came up.
    KeyReleased(Key),
    /// The window's inner size changed to this width and height.
    Resized(u32, u32),
    /// The mouse moved (the movement itself stays with the caller).
    MouseMotion,
    /// All pending events were handled: time to draw a frame.
    MainEventsCleared,
    /// Any other event.
    Ignored,
}

/// What the game's event handler asks its caller to do.
#[derive(Debug, Clone, Copy, PartialEq, Eq, Structural)]
pub enum Action {
    /// Terminate the program.
    Exit,
    /// Set the drawing viewport to this width and height.
    SetViewport(i32, i32),
    /// Turn the camera by the mouse movement of the event.
    TurnCamera,
    /// Simulate and draw one frame.
    Frame,
    /// Nothing to do.
    Nothing,
}

/// How the cursor should be shown.
#[derive(Debug, Clone, Copy, PartialEq, Eq, Structural)]
pub enum CursorMode {
    /// Hidden, grabbed, drawn as a crosshair and kept at this window position.
    Locked(i32, i32),
    /// Visible, free, drawn as the default arrow.
    Free,
}

/// The game's input state: window resolution, whether the cursor is locked to the window,
/// and the keys held down.
pub struct InputState {
    xres: i32,
    yres: i32,
    lock_cursor: bool,
    held_keys: Vec<Key>,
}

/// The contents of an `InputState`.
pub struct InputModel {
    pub xres: i32,
    pub yres: i32,
    pub lock_cursor: bool,
    pub held: Set<Key>,
}

/// How the input state changes on an event, and what the caller is asked to do.
pub open spec fn step(m: InputModel, e: InputEvent) -> (InputModel, Action) {
    match e {
        InputEvent::Quit => (m, Action::Exit),
        InputEvent::CursorLeft => (InputModel { lock_cursor: false, ..m }, Action::Nothing),
        InputEvent::KeyPressed(k) => (
            InputModel {
                held: m.held.insert(k),
                lock_cursor: if k == Key::Escape {
                    !m.lock_cursor
                } else {
                    m.lock_cursor
                },
                ..m
            },
            Action::Nothing,
        ),
        InputEvent::KeyReleased(k) => (InputModel { held: m.held.remove(k), ..m }, Action::Nothing),
        InputEvent::Resized(w, h) => (
            InputModel { xres: w as i32, yres: h as i32, ..m },
            Action::SetViewport(w as i32, h as i32),
        ),
        InputEvent::MouseMotion => (
            m,
            if m.lock_cursor {
                Action::TurnCamera
            } else {
                Action::Nothing
            },
        ),
        InputEvent::MainEventsCleared => (m, Action::Frame),
        InputEvent::Ignored => (m, Action::Nothing),
    }
}

/// One axis of movement: `1` when the positive key is held, else `-1` when the negative key
/// is held, else `0`.
pub open spec fn axis(pos: bool, neg: bool) -> i32 {
    if pos {
        1i32
    } else if neg {
        -1i32
    } else {
        0i32
    }
}

/// The movement direction the held keys ask for: `A`/`D` along x, `Space`/`LShift` along
/// y, `W`/`S` along z.
pub open spec fn movement_of(held: Set<Key>) -> Vec3i {
    Vec3i {
        x: axis(held.contains(Key::A), held.contains(Key::D)),
        y: axis(held.contains(Key::Space), held.contains(Key::LShift)),
        z: axis(held.contains(Key::W), held.contains(Key::S)),
    }
}

impl View for InputState {
    type V = InputModel;

    closed spec fn view(&self) -> InputModel {
        InputModel {
            xres: self.xres,
            yres: self.yres,
            lock_cursor: self.lock_cursor,
            held: self.held_keys@.to_set(),
        }
    }
}

impl InputState {
    #[verifier::type_invariant]
    spec fn held_keys_distinct(&self) -> bool {
        self.held_keys@.no_duplicates()
    }

    /// A window of `xres` by `yres` pixels, with a free cursor and no key held.
    pub fn new(xres: i32, yres: i32) -> (s: Self)
        ensures
            s@.xres == xres,
            s@.yres == yres,
            !s@.lock_cursor,
            s@.held == Set::<Key>::empty(),
    {
        let s = InputState { xres, yres, lock_cursor: false, held_keys: Vec::new() };
        assert(s@.held =~= Set::<Key>::empty());
        s
    }

    /// Window width in pixels.
    pub fn xres(&self) -> (r: i32)
        ensures
            r == self@.xres,
    {
        self.xres
    }

    /// Window height in pixels.
    pub fn yres(&self) -> (r: i32)
        ensures
            r == self@.yres,
    {
        self.yres
    }

    /// Whether the cursor is locked to the window.
    pub fn lock_cursor(&self) -> (r: bool)
        ensures
            r == self@.lock_cursor,
    {
        self.lock_cursor
    }

    /// Position of `key` among the held keys, if it is held.
    fn find_key(&self, key: Key) -> (r: Option<usize>)
        ensures
            r is None <==> !self@.held.contains(key),
            r matches Some(i) ==> i < self.held_keys.len() && self.held_keys@[i as int] == key,
    {
        let mut i: usize = 0;
        while i < self.held_keys.len()
            invariant
                i <= self.held_keys.len(),
                forall|j: int| 0 <= j < i ==> self.held_keys@[j] != key,
            decreases self.held_keys.len() - i,
        {
            if self.held_keys[i] == key {
                return Some(i);
            }
            i += 1;
        }
        None
    }

    /// Whether `key` is held down.
    pub fn is_held(&self, key: Key) -> (r: bool)
        ensures
            r == self@.held.contains(key),
    {
        self.find_key(key).is_some()
    }

    fn press(&mut self, key: Key)
        ensures
            final(self)@ == (InputModel { held: old(self)@.held.insert(key), ..old(self)@ }),
    {
        proof {
            use_type_invariant(&*self);
        }
        if self.find_key(key).is_none() {
            let mut keys = Vec::new();
            std::mem::swap(&mut keys, &mut self.held_keys);
            let ghost before = keys@;
            keys.push(key);
            proof {
                assert(keys@ == before.push(key));
                assert(forall|j: int| 0 <= j < before.len() ==> before[j] != key);
                assert(keys@.no_duplicates());
                assert(keys@.to_set() =~= before.to_set().insert(key)) by {
                    assert forall|k: Key| keys@.contains(k) <==> before.contains(k) || k == key by {
                        if keys@.contains(k) {
                            let a = choose|a: int| 0 <= a < keys@.len() && keys@[a] == k;
                            if a < before.len() {
                                assert(before[a] == k);
                            }
                        }
                        if before.contains(k) {
                            let b = choose|b: int| 0 <= b < before.len() && before[b] == k;
                            assert(keys@[b] == k);
                        }
                        if k == key {
                            assert(keys@[before.len() as int] == key);
                        }
                    }
                }
            }
            self.held_keys = keys;
        } else {
            assert(old(self)@.held.insert(key) =~= old(self)@.held);
        }
    }

    fn release(&mut self, key: Key)
        ensures
            final(self)@ == (InputModel { held: old(self)@.held.remove(key), ..old(self)@ }),
    {
        proof {
            use_type_invariant(&*self);
        }
        match self.find_key(key) {
            Some(i) => {
                let mut keys = Vec::new();
                std::mem::swap(&mut keys, &mut self.held_keys);
                let ghost before = keys@;
                keys.remove(i);
                proof {
                    assert(keys@ == before.remove(i as int));
                    assert(keys@.no_duplicates()) by {
                        assert forall|a: int, b: int|
                            0 <= a < keys@.len() && 0 <= b < keys@.len() && a != b implies keys@[a]
                            != keys@[b] by {
                            let a1 = if a < i { a } else { a + 1 };
                            let b1 = if b < i { b } else { b + 1 };
                            assert(keys@[a] == before[a1]);
                            assert(keys@[b] == before[b1]);
                        }
                    }
                    assert(keys@.to_set() =~= before.to_set().remove(key)) by {
                        assert forall|k: Key| keys@.contains(k) <==> before.contains(k) && k
                            != key by {
                            if keys@.contains(k) {
                                let a = choose|a: int| 0 <= a < keys@.len() && keys@[a] == k;
                                let a1 = if a < i { a } else { a + 1 };
                                assert(before[a1] == k);
                                assert(a1 != i);
                            }
                            if before.contains(k) && k != key {
                                let b = choose|b: int| 0 <= b < before.len() && before[b] == k;
                                assert(b != i);
                                let b1 = if b < i { b } else { b - 1 };
                                assert(keys@[b1] == k);
                            }
                        }
                    }
                }
                self.held_keys = keys;
            },
            None => {
                assert(old(self)@.held.remove(key) =~= old(self)@.held);
            },
        }
    }

    /// Updates the state for `event` and tells the caller what to do about it.
    pub fn handle_event(&mut self, event: InputEvent) -> (a: Action)
        ensures
            (final(self)@, a) == step(old(self)@, event),
    {
        proof {
            use_type_invariant(&*self);
        }
        match event {
            InputEvent::Quit => Action::Exit,
            InputEvent::CursorLeft => {
                self.lock_cursor = false;
                Action::Nothing
            },
            InputEvent::KeyPressed(code) => {
                self.press(code);
                proof {
                    use_type_invariant(&*self);
                }
                if code == Key::Escape {
                    self.lock_cursor = !self.lock_cursor;
                }
                Action::Nothing
            },
            InputEvent::KeyReleased(code) => {
                self.release(code);
                Action::Nothing
            },
            InputEvent::Resized(width, height) => {
                self.xres = width as i32;
                self.yres = height as i32;
                Action::SetViewport(width as i32, height as i32)
            },
            InputEvent::MouseMotion => {
                if self.lock_cursor {
                    Action::TurnCamera
                } else {
                    Action::Nothing
                }
            },
            InputEvent::MainEventsCleared => Action::Frame,
            InputEvent::Ignored => Action::Nothing,
        }
    }

    /// The direction of movement the held keys ask for, one of -1, 0, 1 on each axis.
    pub fn movement_direction(&self) -> (d: Vec3i)
        ensures
            d == movement_of(self@.held),
    {
        let x = if self.is_held(Key::A) {
            1
        } else if self.is_held(Key::D) {
            -1
        } else {
            0
        };
        let z = if self.is_held(Key::W) {
            1
        } else if self.is_held(Key::S) {
            -1
        } else {
            0
        };
        let y = if self.is_held(Key::Space) {
            1
        } else if self.is_held(Key::LShift) {
            -1
        } else {
            0
        };
        Vec3i { x, y, z }
    }
}

/// Half of `v`, rounded toward zero.
pub open spec fn half(v: i32) -> i32 {
    if v >= 0 {
        (v / 2) as i32
    } else {
        -((-v) / 2) as i32
    }
}

/// The cursor presentation for an input state: locked at the window's centre while the
/// cursor is locked, free otherwise.
pub open spec fn cursor_of(m: InputModel) -> CursorMode {
    if m.lock_cursor {
        CursorMode::Locked(half(m.xres), half(m.yres))
    } else {
        CursorMode::Free
    }
}

impl InputState {
    /// How the cursor should be shown this frame.
    pub fn cursor_mode(&self) -> (c: CursorMode)
        ensures
            c == cursor_of(self@),
    {
        if self.lock_cursor {
            CursorMode::Locked(self.xres / 2, self.yres / 2)
        } else {
            CursorMode::Free
        }
    }
}

/// Releasing a key right after pressing it leaves it not held, and leaves every other key
/// and the resolution as they were.
pub proof fn lemma_press_then_release(m: InputModel, k: Key)
    ensures
        ({
            let after = step(step(m, InputEvent::KeyPressed(k)).0, InputEvent::KeyReleased(k)).0;
            &&& !after.held.contains(k)
            &&& after.held == m.held.remove(k)
            &&& after.xres == m.xres
            &&& after.yres == m.yres
        }),
{
    let after = step(step(m, InputEvent::KeyPressed(k)).0, InputEvent::KeyReleased(k)).0;
    assert(after.held =~= m.held.remove(k));
}

/// Pressing a key that is already held changes nothing but the cursor lock, which each
/// press of `Escape` flips.
pub proof fn lemma_press_held_key(m: InputModel, k: Key)
    requires
        m.held.contains(k),
    ensures
        step(m, InputEvent::KeyPressed(k)).0.held == m.held,
        step(m, InputEvent::KeyPressed(k)).0.lock_cursor == (if k == Key::Escape {
            !m.lock_cursor
        } else {
            m.lock_cursor
        }),
{
    assert(m.held.insert(k) =~= m.held);
}

/// Pressing `Escape` twice, with a release in between, restores the cursor lock.
pub proof fn lemma_escape_twice_restores_lock(m: InputModel)
    ensures
        ({
            let s1 = step(m, InputEvent::KeyPressed(Key::Escape)).0;
            let s2 = step(s1, InputEvent::KeyReleased(Key::Escape)).0;
            let s3 = step(s2, InputEvent::KeyPressed(Key::Escape)).0;
            s3.lock_cursor == m.lock_cursor
        }),
{
}

/// The camera turns with the mouse exactly while the cursor is locked.
pub proof fn lemma_mouse_turns_camera_iff_locked(m: InputModel)
    ensures
        (step(m, InputEvent::MouseMotion).1 == Action::TurnCamera) == m.lock_cursor,
        step(m, InputEvent::MouseMotion).0 == m,
{
}

/// Each movement component is -1, 0 or 1, and opposite keys held together resolve to the
/// positive one.
pub proof fn lemma_movement_unit_axes(held: Set<Key>)
    ensures
        -1 <= movement_of(held).x <= 1,
        -1 <= movement_of(held).y <= 1,
        -1 <= movement_of(held).z <= 1,
        held.contains(Key::A) ==> movement_of(held).x == 1,
        held.contains(Key::W) ==> movement_of(held).z == 1,
        held.contains(Key::Space) ==> movement_of(held).y == 1,
{
}

/// Releasing a key only removes it from the held keys: the cursor lock and the resolution
/// stay as they were, and the caller is asked to do nothing.
pub proof fn lemma_release_only_changes_held(m: InputModel, k: Key)
    ensures
        step(m, InputEvent::KeyReleased(k)).0.held == m.held.remove(k),
        step(m, InputEvent::KeyReleased(k)).0.lock_cursor == m.lock_cursor,
        step(m, InputEvent::KeyReleased(k)).0.xres == m.xres,
        step(m, InputEvent::KeyReleased(k)).0.yres == m.yres,
        step(m, InputEvent::KeyReleased(k)).1 == Action::Nothing,
{
}

/// What each event may change: the cursor lock is cleared by the cursor leaving the window
/// and flipped by pressing `Escape`, and kept by every other event; the held keys change
/// only on key presses (the key is added) and releases (the key is removed); the resolution
/// changes only on a resize, to the new size.
pub proof fn lemma_event_effects(m: InputModel, e: InputEvent)
    ensures
        step(m, e).0.lock_cursor == match e {
            InputEvent::CursorLeft => false,
            InputEvent::KeyPressed(Key::Escape) => !m.lock_cursor,
            _ => m.lock_cursor,
        },
        step(m, e).0.held == match e {
            InputEvent::KeyPressed(k) => m.held.insert(k),
            InputEvent::KeyReleased(k) => m.held.remove(k),
            _ => m.held,
        },
        step(m, e).0.xres == match e {
            InputEvent::Resized(w, h) => w as i32,
            _ => m.xres,
        },
        step(m, e).0.yres == match e {
            InputEvent::Resized(w, h) => h as i32,
            _ => m.yres,
        },
{
}

} // verus!
