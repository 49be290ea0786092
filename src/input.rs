//! What a screen keeps between frames of the input it was given, and the model
//! lists that it trades with the renderer.

use vstd::prelude::*;
use crate::geometry::{Vec3, Vec3View};

verus! {

pub enum MouseButton {
    Left,
    Right,
    Middle,
    Other,
}

/// A window event, as far as the editor reads it.
pub enum InputEvent {
    KeyPressed(u32),
    KeyReleased(u32),
    MousePressed(MouseButton),
    MouseReleased(MouseButton),
    Other,
}

/// Which mouse buttons are held, and which count as dragged.
#[derive(Clone, Copy)]
pub struct MouseView {
    pub left: bool,
    pub right: bool,
    pub middle: bool,
    pub left_dragged: bool,
    pub right_dragged: bool,
    pub middle_dragged: bool,
}

/// A held button counts as dragged.
pub open spec fn dragged(m: MouseView) -> MouseView {
    MouseView {
        left_dragged: m.left_dragged || m.left,
        right_dragged: m.right_dragged || m.right,
        middle_dragged: m.middle_dragged || m.middle,
        ..m
    }
}

/// The mouse buttons after an event: what was held counts as dragged, then a
/// press holds a button (the middle one is not dragged by it) and a release
/// frees it.
pub open spec fn mouse_after(m: MouseView, event: InputEvent) -> MouseView {
    let d = dragged(m);
    match event {
        InputEvent::MousePressed(MouseButton::Left) => MouseView { left: true, left_dragged: true, ..d },
        InputEvent::MousePressed(MouseButton::Right) => MouseView { right: true, right_dragged: true, ..d },
        InputEvent::MousePressed(MouseButton::Middle) => MouseView { middle: true, ..d },
        InputEvent::MouseReleased(MouseButton::Left) => MouseView { left: false, left_dragged: false, ..d },
        InputEvent::MouseReleased(MouseButton::Right) => MouseView {
            right: false,
            right_dragged: false,
            ..d
        },
        InputEvent::MouseReleased(MouseButton::Middle) => MouseView {
            middle: false,
            middle_dragged: false,
            ..d
        },
        _ => d,
    }
}

/// The mouse buttons after `event`.
pub fn next_mouse(m: MouseView, event: &InputEvent) -> (r: MouseView)
    ensures
        r == mouse_after(m, *event),
{
    let d = MouseView {
        left_dragged: m.left_dragged || m.left,
        right_dragged: m.right_dragged || m.right,
        middle_dragged: m.middle_dragged || m.middle,
        ..m
    };
    match event {
        InputEvent::MousePressed(MouseButton::Left) => MouseView { left: true, left_dragged: true, ..d },
        InputEvent::MousePressed(MouseButton::Right) => MouseView { right: true, right_dragged: true, ..d },
        InputEvent::MousePressed(MouseButton::Middle) => MouseView { middle: true, ..d },
        InputEvent::MouseReleased(MouseButton::Left) => MouseView { left: false, left_dragged: false, ..d },
        InputEvent::MouseReleased(MouseButton::Right) => MouseView {
            right: false,
            right_dragged: false,
            ..d
        },
        InputEvent::MouseReleased(MouseButton::Middle) => MouseView {
            middle: false,
            middle_dragged: false,
            ..d
        },
        _ => d,
    }
}

/// Whether the UI wants the mouse or the keyboard this frame.
#[derive(Clone, Copy)]
pub struct ImGuiInfo {
    pub wants_mouse: bool,
    pub wants_keyboard: bool,
}

pub struct SceneData {
    pub should_close: bool,
    pub next_scene: bool,
    pub window_resized: bool,
    pub mouse: MouseView,
    pub currently_pressed: Vec<u32>,
    pub released_this_render: Vec<u32>,
    pub model_sizes: Vec<(String, Vec3)>,
    pub imgui_info: ImGuiInfo,
    pub models_to_load: Vec<(String, String)>,
    pub models_to_unload: Vec<String>,
}

pub open spec fn pairs_view(v: Seq<(String, String)>) -> Seq<(Seq<char>, Seq<char>)> {
    v.map_values(|p: (String, String)| (p.0@, p.1@))
}

pub open spec fn sizes_view(v: Seq<(String, Vec3)>) -> Seq<(Seq<char>, Vec3View)> {
    v.map_values(|p: (String, Vec3)| (p.0@, p.1@))
}

pub open spec fn strings_view(v: Seq<String>) -> Seq<Seq<char>> {
    v.map_values(|s: String| s@)
}

pub open spec fn no_duplicates(s: Seq<u32>) -> bool {
    forall|i: int, j: int| 0 <= i < s.len() && 0 <= j < s.len() && i != j ==> s[i] != s[j]
}

/// The loaded models whose name is not in `gone`, in order.
pub open spec fn kept_sizes(sizes: Seq<(Seq<char>, Vec3View)>, gone: Seq<Seq<char>>) -> Seq<
    (Seq<char>, Vec3View),
>
    decreases sizes.len(),
{
    if sizes.len() == 0 {
        Seq::empty()
    } else {
        let prev = kept_sizes(sizes.drop_last(), gone);
        if gone.contains(sizes.last().0) {
            prev
        } else {
            prev.push(sizes.last())
        }
    }
}

fn holds_key(keys: &Vec<u32>, key: u32) -> (r: Option<usize>)
    ensures
        r matches Some(i) ==> i < keys@.len() && keys@[i as int] == key,
        r.is_none() ==> !keys@.contains(key),
{
    let mut i: usize = 0;
    while i < keys.len()
        invariant
            i <= keys@.len(),
            forall|j: int| 0 <= j < i ==> keys@[j] != key,
        decreases keys@.len() - i,
    {
        if keys[i] == key {
            return Some(i);
        }
        i += 1;
    }
    None
}

fn press_key(keys: &mut Vec<u32>, key: u32)
    requires
        no_duplicates(old(keys)@),
    ensures
        no_duplicates(final(keys)@),
        final(keys)@ == if old(keys)@.contains(key) {
            old(keys)@
        } else {
            old(keys)@.push(key)
        },
{
    if holds_key(keys, key).is_some() {
        return;
    }
    let ghost before = keys@;
    keys.push(key);
    proof {
        let now = keys@;
        assert forall|i: int, j: int|
            0 <= i < now.len() && 0 <= j < now.len() && i != j implies now[i] != now[j] by {
            if i == now.len() - 1 {
                assert(before[j] == now[j]);
            } else if j == now.len() - 1 {
                assert(before[i] == now[i]);
            }
        }
    }
}

fn release_key(keys: &mut Vec<u32>, key: u32)
    requires
        no_duplicates(old(keys)@),
    ensures
        no_duplicates(final(keys)@),
        !final(keys)@.contains(key),
        forall|x: u32| x != key ==> (final(keys)@.contains(x) <==> old(keys)@.contains(x)),
{
    match holds_key(keys, key) {
        Some(i) => {
            let ghost before = keys@;
            keys.remove(i);
            proof {
                let now = keys@;
                assert(now =~= before.remove(i as int));
                assert forall|a: int, b: int|
                    0 <= a < now.len() && 0 <= b < now.len() && a != b implies now[a] != now[b] by {
                    let ba = if a < i { a } else { a + 1 };
                    let bb = if b < i { b } else { b + 1 };
                    assert(now[a] == before[ba]);
                    assert(now[b] == before[bb]);
                }
                assert(!now.contains(key)) by {
                    if now.contains(key) {
                        let a = choose|a: int| 0 <= a < now.len() && now[a] == key;
                        let ba = if a < i { a } else { a + 1 };
                        assert(now[a] == before[ba]);
                    }
                }
                assert forall|x: u32| x != key implies (now.contains(x) <==> before.contains(x)) by {
                    if now.contains(x) {
                        let a = choose|a: int| 0 <= a < now.len() && now[a] == x;
                        let ba = if a < i { a } else { a + 1 };
                        assert(now[a] == before[ba]);
                    }
                    if before.contains(x) {
                        let b = choose|b: int| 0 <= b < before.len() && before[b] == x;
                        assert(b != i);
                        if b < i {
                            assert(now[b] == before[b]);
                        } else {
                            assert(now[b - 1] == before[b]);
                        }
                    }
                }
            }
        },
        None => {},
    }
}

fn names_contain(names: &Vec<String>, name: &String) -> (r: bool)
    ensures
        r == strings_view(names@).contains(name@),
{
    let mut i: usize = 0;
    while i < names.len()
        invariant
            i <= names@.len(),
            forall|j: int| 0 <= j < i ==> names@[j]@ != name@,
        decreases names@.len() - i,
    {
        if names[i] == *name {
            assert(strings_view(names@)[i as int] == name@);
            return true;
        }
        i += 1;
    }
    assert(!strings_view(names@).contains(name@)) by {
        if strings_view(names@).contains(name@) {
            let j = choose|j: int| 0 <= j < names@.len() && strings_view(names@)[j] == name@;
            assert(names@[j]@ == name@);
        }
    }
    false
}

/// What one window event does to a screen's input state: the closing flag
/// and the model lists stay, the mouse buttons follow `mouse_after`, a pressed
/// key is held once, and a released key is let go.
pub open spec fn input_step(a: SceneData, b: SceneData, event: InputEvent) -> bool {
    &&& b.should_close == a.should_close
    &&& b.next_scene == a.next_scene
    &&& b.sizes() == a.sizes()
    &&& b.to_load() == a.to_load()
    &&& b.to_unload() == a.to_unload()
    &&& b.mouse() == mouse_after(a.mouse(), event)
    &&& match event {
        InputEvent::KeyPressed(k) => {
            &&& b.released() == Seq::<u32>::empty()
            &&& b.pressed() == if a.pressed().contains(k) {
                a.pressed()
            } else {
                a.pressed().push(k)
            }
        },
        InputEvent::KeyReleased(k) => {
            &&& b.released() == seq![k]
            &&& !b.pressed().contains(k)
            &&& forall|x: u32| x != k ==> (b.pressed().contains(x) <==> a.pressed().contains(x))
        },
        _ => {
            &&& b.released() == Seq::<u32>::empty()
            &&& b.pressed() == a.pressed()
        },
    }
}

impl SceneData {
    pub open spec fn wf(&self) -> bool {
        no_duplicates(self.pressed())
    }

    pub open spec fn pressed(&self) -> Seq<u32> {
        self.currently_pressed@
    }

    pub open spec fn released(&self) -> Seq<u32> {
        self.released_this_render@
    }

    pub open spec fn mouse(&self) -> MouseView {
        self.mouse
    }

    pub open spec fn sizes(&self) -> Seq<(Seq<char>, Vec3View)> {
        sizes_view(self.model_sizes@)
    }

    pub open spec fn to_load(&self) -> Seq<(Seq<char>, Seq<char>)> {
        pairs_view(self.models_to_load@)
    }

    pub open spec fn to_unload(&self) -> Seq<Seq<char>> {
        strings_view(self.models_to_unload@)
    }

    /// Nothing pressed, nothing queued, with the given loaded models and their
    /// sizes.
    pub fn new(model_sizes: Vec<(String, Vec3)>) -> (r: SceneData)
        ensures
            r.wf(),
            !r.should_close && !r.next_scene && !r.window_resized,
            r.pressed() == Seq::<u32>::empty(),
            r.released() == Seq::<u32>::empty(),
            r.mouse() == (MouseView {
                left: false,
                right: false,
                middle: false,
                left_dragged: false,
                right_dragged: false,
                middle_dragged: false,
            }),
            r.sizes() == sizes_view(model_sizes@),
            r.to_load() == Seq::<(Seq<char>, Seq<char>)>::empty(),
            r.to_unload() == Seq::<Seq<char>>::empty(),
            !r.imgui_info.wants_mouse && !r.imgui_info.wants_keyboard,
    {
        let r = SceneData {
            should_close: false,
            next_scene: false,
            window_resized: false,
            mouse: MouseView {
                left: false,
                right: false,
                middle: false,
                left_dragged: false,
                right_dragged: false,
                middle_dragged: false,
            },
            currently_pressed: Vec::new(),
            released_this_render: Vec::new(),
            model_sizes,
            imgui_info: ImGuiInfo { wants_mouse: false, wants_keyboard: false },
            models_to_load: Vec::new(),
            models_to_unload: Vec::new(),
        };
        assert(r.to_load() =~= Seq::<(Seq<char>, Seq<char>)>::empty());
        assert(r.to_unload() =~= Seq::<Seq<char>>::empty());
        r
    }

    /// Like `new`, with no model loaded.
    pub fn new_default() -> (r: SceneData)
        ensures
            r.wf(),
            !r.should_close && !r.next_scene && !r.window_resized,
            r.pressed() == Seq::<u32>::empty(),
            r.sizes() == Seq::<(Seq<char>, Vec3View)>::empty(),
            r.to_load() == Seq::<(Seq<char>, Seq<char>)>::empty(),
            r.to_unload() == Seq::<Seq<char>>::empty(),
    {
        let r = SceneData::new(Vec::new());
        assert(r.sizes() =~= Seq::<(Seq<char>, Vec3View)>::empty());
        r
    }

    pub fn left_mouse(&self) -> (r: bool)
        ensures
            r == self.mouse().left,
    {
        self.mouse.left
    }

    pub fn right_mouse(&self) -> (r: bool)
        ensures
            r == self.mouse().right,
    {
        self.mouse.right
    }

    /// The keys held down, each once, in the order they went down.
    pub fn currently_pressed(&self) -> (r: Vec<u32>)
        ensures
            r@ == self.pressed(),
    {
        self.currently_pressed.clone()
    }

    /// The keys let go at the last event.
    pub fn released_this_render(&self) -> (r: Vec<u32>)
        ensures
            r@ == self.released(),
    {
        self.released_this_render.clone()
    }

    /// Takes in one window event; says whether the screen asked to close.
    /// A key goes down once however long it is held, and a held mouse button
    /// counts as dragged from the next event on.
    pub fn handle_input(&mut self, event: InputEvent) -> (r: bool)
        requires
            old(self).wf(),
        ensures
            final(self).wf(),
            r == final(self).should_close,
            input_step(*old(self), *final(self), event),
    {
        self.released_this_render.clear();
        self.mouse = next_mouse(self.mouse, &event);
        match event {
            InputEvent::KeyPressed(key) => {
                press_key(&mut self.currently_pressed, key);
            },
            InputEvent::KeyReleased(key) => {
                self.released_this_render.push(key);
                release_key(&mut self.currently_pressed, key);
            },
            _ => {},
        }
        proof {
            match event {
                InputEvent::KeyReleased(k) => {
                    assert(self.released() =~= seq![k]);
                },
                _ => {
                    assert(self.released() =~= Seq::<u32>::empty());
                },
            }
        }
        self.should_close
    }

    /// The loaded models with their sizes, in the order they loaded.
    pub fn model_sizes(&self) -> (r: &Vec<(String, Vec3)>)
        ensures
            sizes_view(r@) == self.sizes(),
    {
        &self.model_sizes
    }

    /// A model has finished loading, with this size.
    pub fn add_model_size(&mut self, reference: String, size: Vec3)
        ensures
            final(self).sizes() == old(self).sizes().push((reference@, size@)),
            final(self).pressed() == old(self).pressed(),
            final(self).to_load() == old(self).to_load(),
            final(self).to_unload() == old(self).to_unload(),
            final(self).should_close == old(self).should_close,
    {
        let ghost before = self.model_sizes@;
        self.model_sizes.push((reference, size));
        assert(self.sizes() =~= sizes_view(before).push((reference@, size@)));
    }

    /// Asks the renderer to load a model.
    pub fn queue_model_load(&mut self, reference: String, location: String)
        ensures
            final(self).to_load() == old(self).to_load().push((reference@, location@)),
            final(self).sizes() == old(self).sizes(),
            final(self).pressed() == old(self).pressed(),
            final(self).to_unload() == old(self).to_unload(),
            final(self).should_close == old(self).should_close,
    {
        let ghost before = self.models_to_load@;
        self.models_to_load.push((reference, location));
        assert(self.to_load() =~= pairs_view(before).push((reference@, location@)));
    }

    /// Replaces the models that the renderer is asked to load.
    pub fn set_models_to_load(&mut self, models: Vec<(String, String)>)
        ensures
            final(self).to_load() == pairs_view(models@),
            final(self).sizes() == old(self).sizes(),
            final(self).pressed() == old(self).pressed(),
            final(self).to_unload() == old(self).to_unload(),
            final(self).should_close == old(self).should_close,
    {
        self.models_to_load = models;
    }

    /// Asks the renderer to drop a model.
    pub fn queue_model_unload(&mut self, reference: String)
        ensures
            final(self).to_unload() == old(self).to_unload().push(reference@),
            final(self).sizes() == old(self).sizes(),
            final(self).pressed() == old(self).pressed(),
            final(self).to_load() == old(self).to_load(),
            final(self).should_close == old(self).should_close,
    {
        let ghost before = self.models_to_unload@;
        self.models_to_unload.push(reference);
        assert(self.to_unload() =~= strings_view(before).push(reference@));
    }

    /// Hands over the models to load, and forgets them.
    pub fn get_models_to_load(&mut self) -> (r: Vec<(String, String)>)
        ensures
            pairs_view(r@) == old(self).to_load(),
            final(self).to_load() == Seq::<(Seq<char>, Seq<char>)>::empty(),
            final(self).sizes() == old(self).sizes(),
            final(self).pressed() == old(self).pressed(),
            final(self).to_unload() == old(self).to_unload(),
            final(self).should_close == old(self).should_close,
    {
        let mut r: Vec<(String, String)> = Vec::new();
        std::mem::swap(&mut r, &mut self.models_to_load);
        assert(self.to_load() =~= Seq::<(Seq<char>, Seq<char>)>::empty());
        r
    }

    /// Hands over the models to drop, and forgets them; the dropped models
    /// leave the list of loaded ones.
    pub fn get_models_to_unload(&mut self) -> (r: Vec<String>)
        ensures
            strings_view(r@) == old(self).to_unload(),
            final(self).to_unload() == Seq::<Seq<char>>::empty(),
            final(self).sizes() == kept_sizes(old(self).sizes(), old(self).to_unload()),
            final(self).pressed() == old(self).pressed(),
            final(self).to_load() == old(self).to_load(),
            final(self).should_close == old(self).should_close,
    {
        let mut gone: Vec<String> = Vec::new();
        std::mem::swap(&mut gone, &mut self.models_to_unload);
        let mut sizes: Vec<(String, Vec3)> = Vec::new();
        std::mem::swap(&mut sizes, &mut self.model_sizes);
        let ghost all = sizes_view(sizes@);
        let ghost g = strings_view(gone@);
        let mut kept: Vec<(String, Vec3)> = Vec::new();
        let mut i: usize = 0;
        assert(sizes_view(kept@) =~= kept_sizes(all.subrange(0, 0), g));
        while i < sizes.len()
            invariant
                i <= sizes@.len(),
                all == sizes_view(sizes@),
                g == strings_view(gone@),
                sizes_view(kept@) == kept_sizes(all.subrange(0, i as int), g),
            decreases sizes@.len() - i,
        {
            let ghost next = all.subrange(0, i + 1);
            assert(next.drop_last() =~= all.subrange(0, i as int));
            assert(next.last() == (sizes@[i as int].0@, sizes@[i as int].1@));
            if !names_contain(&gone, &sizes[i].0) {
                let entry = (sizes[i].0.clone(), sizes[i].1.clone());
                let ghost before = kept@;
                kept.push(entry);
                assert(sizes_view(kept@) =~= sizes_view(before).push((entry.0@, entry.1@)));
            }
            i += 1;
        }
        let ghost n = all.len();
        assert(all.subrange(0, n as int) =~= all);
        self.model_sizes = kept;
        assert(self.to_unload() =~= Seq::<Seq<char>>::empty());
        gone
    }
}

} // verus!
