//! The view/registry shim: the sole owner of every visual handle.  It maps
//! object ids to sprite handles and keeps the named display layers; actions
//! only borrow handles and change layer membership.

use vstd::prelude::*;
use crate::geom::Point;
use crate::geom::Color;
use crate::geom::point_wf;
use crate::geom::color_wf;
use crate::geom::TILE_LIMIT;
use crate::action::Layer;

verus! {

/// The drawable state of one sprite: position, color, and its label text
/// (empty for image sprites).
pub struct SpriteState {
    pub pos: Point,
    pub color: Color,
    pub label: String,
}

pub open spec fn sprite_wf(s: SpriteState) -> bool {
    &&& point_wf(s.pos)
    &&& color_wf(s.color)
}

/// The abstract drawing state that playback acts on: the sprites and the
/// two display layers.  Advancing actions never touches the registry or the
/// tile size, so those stay outside the model.
pub struct SceneModel {
    pub sprites: Seq<SpriteState>,
    pub fg: Seq<usize>,
    pub text: Seq<usize>,
}

/// The handles of one layer of the model.
pub open spec fn scene_layer(m: SceneModel, layer: Layer) -> Seq<usize> {
    match layer {
        Layer::Fg => m.fg,
        Layer::Text => m.text,
    }
}

/// The model with one layer replaced.
pub open spec fn scene_with_layer(m: SceneModel, layer: Layer, s: Seq<usize>) -> SceneModel {
    match layer {
        Layer::Fg => SceneModel { sprites: m.sprites, fg: s, text: m.text },
        Layer::Text => SceneModel { sprites: m.sprites, fg: m.fg, text: s },
    }
}

/// Attaching a handle to a layer: a no-op when it is already attached.
pub open spec fn scene_attach(m: SceneModel, layer: Layer, h: usize) -> SceneModel {
    if scene_layer(m, layer).contains(h) {
        m
    } else {
        scene_with_layer(m, layer, scene_layer(m, layer).push(h))
    }
}

/// Detaching a handle from a layer: the first occurrence is removed.
pub open spec fn scene_detach(m: SceneModel, layer: Layer, h: usize) -> SceneModel {
    scene_with_layer(m, layer, remove_value(scene_layer(m, layer), h))
}

/// The model with one sprite moved.
pub open spec fn scene_set_pos(m: SceneModel, h: int, p: Point) -> SceneModel {
    SceneModel {
        sprites: m.sprites.update(
            h,
            SpriteState { pos: p, color: m.sprites[h].color, label: m.sprites[h].label },
        ),
        fg: m.fg,
        text: m.text,
    }
}

/// The model with one sprite repainted.
pub open spec fn scene_set_color(m: SceneModel, h: int, c: Color) -> SceneModel {
    SceneModel {
        sprites: m.sprites.update(
            h,
            SpriteState { pos: m.sprites[h].pos, color: c, label: m.sprites[h].label },
        ),
        fg: m.fg,
        text: m.text,
    }
}

/// A sequence with the first occurrence of `h` removed, if any.
pub open spec fn remove_value(s: Seq<usize>, h: usize) -> Seq<usize>
    decreases s.len(),
{
    if s.len() == 0 {
        s
    } else if s.first() == h {
        s.drop_first()
    } else {
        seq![s.first()] + remove_value(s.drop_first(), h)
    }
}

/// Removing an absent value changes nothing.
pub proof fn lemma_remove_value_absent(s: Seq<usize>, h: usize)
    requires
        forall|k: int| 0 <= k < s.len() ==> s[k] != h,
    ensures
        remove_value(s, h) == s,
    decreases s.len(),
{
    if s.len() > 0 {
        assert(forall|k: int| 0 <= k < s.drop_first().len() ==> s.drop_first()[k] == s[k + 1]);
        lemma_remove_value_absent(s.drop_first(), h);
        assert(seq![s.first()] + s.drop_first() =~= s);
    }
}

/// Removing a value found first at index `i` removes exactly that index.
pub proof fn lemma_remove_value_found(s: Seq<usize>, h: usize, i: int)
    requires
        0 <= i < s.len(),
        s[i] == h,
        forall|k: int| 0 <= k < i ==> s[k] != h,
    ensures
        remove_value(s, h) == s.remove(i),
    decreases i,
{
    if i == 0 {
        assert(remove_value(s, h) == s.drop_first());
        assert(s.remove(0) =~= s.drop_first());
    } else {
        assert(s.first() != h);
        assert(forall|k: int| 0 <= k < s.drop_first().len() ==> s.drop_first()[k] == s[k + 1]);
        lemma_remove_value_found(s.drop_first(), h, i - 1);
        assert(seq![s.first()] + s.drop_first().remove(i - 1) =~= s.remove(i));
    }
}

/// The registry owning the sprites, the object-id mapping, and the two
/// display layers (foreground and text).
pub struct GameView {
    pub sprites: Vec<SpriteState>,
    pub objs: Vec<(u64, usize)>,
    pub fg: Vec<usize>,
    pub text: Vec<usize>,
    pub tile_size: i64,
}

impl GameView {
    /// The view's drawing state as the playback model sees it.
    pub open spec fn scene(self) -> SceneModel {
        SceneModel { sprites: self.sprites@, fg: self.fg@, text: self.text@ }
    }

    /// The handles attached to a display layer, in attachment order.
    pub open spec fn layer_handles(self, layer: Layer) -> Seq<usize> {
        match layer {
            Layer::Fg => self.fg@,
            Layer::Text => self.text@,
        }
    }

    /// Whether the handle is currently attached to the layer.
    pub open spec fn on_layer(self, layer: Layer, handle: usize) -> bool {
        self.layer_handles(layer).contains(handle)
    }

    /// Whether some sprite is registered under the object id.
    pub open spec fn registered(self, id: u64) -> bool {
        exists|i: int| 0 <= i < self.objs@.len() && (#[trigger] self.objs@[i]).0 == id
    }

    pub open spec fn wf(self) -> bool {
        &&& 1 <= self.tile_size <= TILE_LIMIT
        &&& forall|i: int|
            0 <= i < self.sprites@.len() ==> sprite_wf(#[trigger] self.sprites@[i])
        &&& forall|i: int|
            0 <= i < self.objs@.len() ==> (#[trigger] self.objs@[i]).1 < self.sprites@.len()
        &&& forall|i: int, j: int|
            0 <= i < j < self.objs@.len() ==> (#[trigger] self.objs@[i]).0 != (
            #[trigger] self.objs@[j]).0
        &&& forall|i: int| 0 <= i < self.fg@.len() ==> #[trigger] self.fg@[i] < self.sprites@.len()
        &&& forall|i: int, j: int| 0 <= i < j < self.fg@.len() ==> self.fg@[i] != self.fg@[j]
        &&& forall|i: int|
            0 <= i < self.text@.len() ==> #[trigger] self.text@[i] < self.sprites@.len()
        &&& forall|i: int, j: int| 0 <= i < j < self.text@.len() ==> self.text@[i] != self.text@[j]
    }

    /// An empty view with the given tile size.
    pub fn new(tile_size: i64) -> (v: GameView)
        requires
            1 <= tile_size <= TILE_LIMIT,
        ensures
            v.wf(),
            v.sprites@.len() == 0,
            v.objs@.len() == 0,
            v.fg@.len() == 0,
            v.text@.len() == 0,
            v.tile_size == tile_size,
    {
        GameView { sprites: Vec::new(), objs: Vec::new(), fg: Vec::new(), text: Vec::new(), tile_size }
    }

    /// Creates a fresh sprite and returns its handle (the index it now
    /// occupies); the sprite starts attached to no layer.
    pub fn new_sprite(&mut self, pos: Point, color: Color, label: &str) -> (h: usize)
        requires
            old(self).wf(),
            point_wf(pos),
            color_wf(color),
        ensures
            final(self).wf(),
            h == old(self).sprites@.len(),
            final(self).sprites@.len() == old(self).sprites@.len() + 1,
            forall|i: int|
                0 <= i < old(self).sprites@.len() ==> final(self).sprites@[i] == old(
                    self,
                ).sprites@[i],
            final(self).sprites@[h as int].pos == pos,
            final(self).sprites@[h as int].color == color,
            final(self).sprites@[h as int].label@ == label@,
            final(self).objs == old(self).objs,
            final(self).fg == old(self).fg,
            final(self).text == old(self).text,
            final(self).tile_size == old(self).tile_size,
    {
        let h = self.sprites.len();
        let owned = label.to_string();
        self.sprites.push(SpriteState { pos, color, label: owned });
        h
    }

    /// The sprite's current position.
    pub fn sprite_pos(&self, handle: usize) -> (p: Point)
        requires
            handle < self.sprites@.len(),
        ensures
            p == self.sprites@[handle as int].pos,
    {
        self.sprites[handle].pos
    }

    /// The sprite's current color.
    pub fn sprite_color(&self, handle: usize) -> (c: Color)
        requires
            handle < self.sprites@.len(),
        ensures
            c == self.sprites@[handle as int].color,
    {
        self.sprites[handle].color
    }

    /// Moves the sprite to `pos`, leaving its color and label alone.
    pub fn set_sprite_pos(&mut self, handle: usize, pos: Point)
        requires
            old(self).wf(),
            handle < old(self).sprites@.len(),
            point_wf(pos),
        ensures
            final(self).wf(),
            final(self).sprites@ == old(self).sprites@.update(
                handle as int,
                SpriteState {
                    pos,
                    color: old(self).sprites@[handle as int].color,
                    label: old(self).sprites@[handle as int].label,
                },
            ),
            final(self).objs == old(self).objs,
            final(self).fg == old(self).fg,
            final(self).text == old(self).text,
            final(self).tile_size == old(self).tile_size,
    {
        let mut s = self.sprites.remove(handle);
        s.pos = pos;
        self.sprites.insert(handle, s);
        proof {
            assert(self.sprites@ =~= old(self).sprites@.update(
                handle as int,
                SpriteState {
                    pos,
                    color: old(self).sprites@[handle as int].color,
                    label: old(self).sprites@[handle as int].label,
                },
            ));
        }
    }

    /// Repaints the sprite to `color`, leaving its position and label alone.
    pub fn set_sprite_color(&mut self, handle: usize, color: Color)
        requires
            old(self).wf(),
            handle < old(self).sprites@.len(),
            color_wf(color),
        ensures
            final(self).wf(),
            final(self).sprites@ == old(self).sprites@.update(
                handle as int,
                SpriteState {
                    pos: old(self).sprites@[handle as int].pos,
                    color,
                    label: old(self).sprites@[handle as int].label,
                },
            ),
            final(self).objs == old(self).objs,
            final(self).fg == old(self).fg,
            final(self).text == old(self).text,
            final(self).tile_size == old(self).tile_size,
    {
        let mut s = self.sprites.remove(handle);
        s.color = color;
        self.sprites.insert(handle, s);
        proof {
            assert(self.sprites@ =~= old(self).sprites@.update(
                handle as int,
                SpriteState {
                    pos: old(self).sprites@[handle as int].pos,
                    color,
                    label: old(self).sprites@[handle as int].label,
                },
            ));
        }
    }

    /// Registers the sprite under the object id.  Registering an id twice is
    /// a contract violation of the upstream simulation.
    pub fn add_object(&mut self, id: u64, handle: usize)
        requires
            old(self).wf(),
            handle < old(self).sprites@.len(),
            !old(self).registered(id),
        ensures
            final(self).wf(),
            final(self).objs@ == old(self).objs@.push((id, handle)),
            final(self).registered(id),
            final(self).sprites == old(self).sprites,
            final(self).fg == old(self).fg,
            final(self).text == old(self).text,
            final(self).tile_size == old(self).tile_size,
    {
        self.objs.push((id, handle));
        proof {
            assert(self.objs@[self.objs@.len() - 1].0 == id);
            assert forall|i: int, j: int| 0 <= i < j < self.objs@.len() implies (
            #[trigger] self.objs@[i]).0 != (#[trigger] self.objs@[j]).0 by {
                if j == self.objs@.len() - 1 {
                    assert(self.objs@[i] == old(self).objs@[i]);
                }
            }
        }
    }

    /// The handle registered under the object id.  Looking up an id that was
    /// never registered is a contract violation and is excluded up front.
    #[verifier::loop_isolation(false)]
    pub fn id_to_sprite(&self, id: u64) -> (h: usize)
        requires
            self.wf(),
            self.registered(id),
        ensures
            self.objs@.contains((id, h)),
            h < self.sprites@.len(),
    {
        let mut i: usize = 0;
        loop
            invariant
                self.wf(),
                self.registered(id),
                i <= self.objs@.len(),
                forall|k: int| 0 <= k < i ==> (#[trigger] self.objs@[k]).0 != id,
            decreases self.objs@.len() - i,
        {
            if i == self.objs.len() {
                proof {
                    let w = choose|k: int|
                        0 <= k < self.objs@.len() && (#[trigger] self.objs@[k]).0 == id;
                    assert(false);
                }
            }
            let pair = self.objs[i];
            if pair.0 == id {
                proof {
                    assert(self.objs@[i as int] == (id, pair.1));
                }
                return pair.1;
            }
            i = i + 1;
        }
    }

    /// Whether some sprite is registered under the object id.
    #[verifier::loop_isolation(false)]
    pub fn is_registered(&self, id: u64) -> (r: bool)
        ensures
            r == self.registered(id),
    {
        let mut i: usize = 0;
        while i < self.objs.len()
            invariant
                i <= self.objs@.len(),
                forall|k: int| 0 <= k < i ==> (#[trigger] self.objs@[k]).0 != id,
            decreases self.objs@.len() - i,
        {
            if self.objs[i].0 == id {
                proof {
                    assert((self.objs@[i as int]).0 == id);
                }
                return true;
            }
            i = i + 1;
        }
        false
    }

    /// Unregisters the object id; its sprite itself stays alive.
    #[verifier::loop_isolation(false)]
    pub fn remove_object(&mut self, id: u64)
        requires
            old(self).wf(),
            old(self).registered(id),
        ensures
            final(self).wf(),
            !final(self).registered(id),
            final(self).objs@.len() + 1 == old(self).objs@.len(),
            forall|p: (u64, usize)| final(self).objs@.contains(p) ==> old(self).objs@.contains(p),
            forall|p: (u64, usize)|
                old(self).objs@.contains(p) && p.0 != id ==> final(self).objs@.contains(p),
            final(self).sprites == old(self).sprites,
            final(self).fg == old(self).fg,
            final(self).text == old(self).text,
            final(self).tile_size == old(self).tile_size,
    {
        let mut i: usize = 0;
        loop
            invariant
                *self == *old(self),
                i <= self.objs@.len(),
                forall|k: int| 0 <= k < i ==> (#[trigger] self.objs@[k]).0 != id,
            decreases self.objs@.len() - i,
        {
            if i == self.objs.len() {
                proof {
                    let w = choose|k: int|
                        0 <= k < self.objs@.len() && (#[trigger] self.objs@[k]).0 == id;
                    assert(false);
                }
            }
            let pair = self.objs[i];
            if pair.0 == id {
                break;
            }
            i = i + 1;
        }
        let ghost pre = self.objs@;
        self.objs.remove(i);
        proof {
            assert forall|p: (u64, usize)| self.objs@.contains(p) implies old(
                self,
            ).objs@.contains(p) by {
                let k = choose|k: int|
                    0 <= k < self.objs@.len() && self.objs@[k] == p;
                if k < i {
                    assert(pre[k] == p);
                } else {
                    assert(pre[k + 1] == p);
                }
            }
            assert forall|p: (u64, usize)|
                old(self).objs@.contains(p) && p.0 != id implies self.objs@.contains(p) by {
                let k = choose|k: int| 0 <= k < pre.len() && pre[k] == p;
                if k < i {
                    assert(self.objs@[k] == p);
                } else {
                    assert(k > i);
                    assert(self.objs@[k - 1] == p);
                }
            }
            assert forall|j: int|
                0 <= j < self.objs@.len() implies (#[trigger] self.objs@[j]).0
                != id by {
                if j < i {
                } else {
                    assert(self.objs@[j] == pre[j + 1]);
                }
            }
        }
    }

    /// Attaches the sprite to the layer; attaching an already attached
    /// sprite changes nothing.
    pub fn attach(&mut self, layer: Layer, handle: usize)
        requires
            old(self).wf(),
            handle < old(self).sprites@.len(),
        ensures
            final(self).wf(),
            final(self).on_layer(layer, handle),
            forall|x: usize|
                final(self).layer_handles(layer).contains(x) <==> (old(self).layer_handles(
                    layer,
                ).contains(x) || x == handle),
            final(self).layer_handles(other_layer(layer)) == old(self).layer_handles(
                other_layer(layer),
            ),
            final(self).layer_handles(layer) == (if old(self).on_layer(layer, handle) {
                old(self).layer_handles(layer)
            } else {
                old(self).layer_handles(layer).push(handle)
            }),
            final(self).scene() == scene_attach(old(self).scene(), layer, handle),
            final(self).sprites == old(self).sprites,
            final(self).objs == old(self).objs,
            final(self).tile_size == old(self).tile_size,
    {
        match layer {
            Layer::Fg => {
                if !contains_handle(&self.fg, handle) {
                    self.fg.push(handle);
                    proof {
                        lemma_push_membership(old(self).fg@, self.fg@, handle, self.sprites@.len() as int);
                    }
                }
            },
            Layer::Text => {
                if !contains_handle(&self.text, handle) {
                    self.text.push(handle);
                    proof {
                        lemma_push_membership(old(self).text@, self.text@, handle, self.sprites@.len() as int);
                    }
                }
            },
        }
    }

    /// Detaches the sprite from the layer; detaching an absent sprite
    /// changes nothing.
    pub fn detach(&mut self, layer: Layer, handle: usize)
        requires
            old(self).wf(),
        ensures
            final(self).wf(),
            !final(self).on_layer(layer, handle),
            forall|x: usize|
                final(self).layer_handles(layer).contains(x) <==> (old(self).layer_handles(
                    layer,
                ).contains(x) && x != handle),
            final(self).layer_handles(other_layer(layer)) == old(self).layer_handles(
                other_layer(layer),
            ),
            final(self).layer_handles(layer) == remove_value(
                old(self).layer_handles(layer),
                handle,
            ),
            final(self).scene() == scene_detach(old(self).scene(), layer, handle),
            final(self).sprites == old(self).sprites,
            final(self).objs == old(self).objs,
            final(self).tile_size == old(self).tile_size,
    {
        match layer {
            Layer::Fg => {
                remove_handle(&mut self.fg, handle);
                proof {
                    lemma_contained_below(old(self).fg@, self.fg@, old(self).sprites@.len() as int);
                }
            },
            Layer::Text => {
                remove_handle(&mut self.text, handle);
                proof {
                    lemma_contained_below(
                        old(self).text@,
                        self.text@,
                        old(self).sprites@.len() as int,
                    );
                }
            },
        }
    }
}

/// Pushing one absent handle adds exactly that handle to the membership, and
/// keeps the handles distinct and in range.
proof fn lemma_push_membership(pre: Seq<usize>, post: Seq<usize>, handle: usize, n: int)
    requires
        post == pre.push(handle),
        !pre.contains(handle),
        forall|i: int, j: int| 0 <= i < j < pre.len() ==> pre[i] != pre[j],
        forall|i: int| 0 <= i < pre.len() ==> #[trigger] pre[i] < n,
        handle < n,
    ensures
        forall|x: usize| post.contains(x) <==> (pre.contains(x) || x == handle),
        forall|i: int, j: int| 0 <= i < j < post.len() ==> post[i] != post[j],
        forall|i: int| 0 <= i < post.len() ==> #[trigger] post[i] < n,
{
    assert(post[post.len() - 1] == handle);
    assert forall|x: usize| post.contains(x) implies (pre.contains(x) || x == handle) by {
        let k = choose|k: int| 0 <= k < post.len() && post[k] == x;
        if k < pre.len() {
            assert(pre[k] == x);
        }
    }
    assert forall|x: usize| pre.contains(x) implies post.contains(x) by {
        let k = choose|k: int| 0 <= k < pre.len() && pre[k] == x;
        assert(post[k] == x);
    }
}

/// Handles that stay members of a shrunken layer keep their range bound.
proof fn lemma_contained_below(pre: Seq<usize>, post: Seq<usize>, n: int)
    requires
        forall|x: usize| post.contains(x) ==> pre.contains(x),
        forall|i: int| 0 <= i < pre.len() ==> #[trigger] pre[i] < n,
    ensures
        forall|i: int| 0 <= i < post.len() ==> #[trigger] post[i] < n,
{
    assert forall|i: int| 0 <= i < post.len() implies #[trigger] post[i] < n by {
        assert(post.contains(post[i]));
        let k = choose|k: int| 0 <= k < pre.len() && pre[k] == post[i];
    }
}

/// The layer that is not `layer`.
pub open spec fn other_layer(layer: Layer) -> Layer {
    match layer {
        Layer::Fg => Layer::Text,
        Layer::Text => Layer::Fg,
    }
}

/// Whether the handle occurs in the vector.
#[verifier::loop_isolation(false)]
fn contains_handle(v: &Vec<usize>, handle: usize) -> (r: bool)
    ensures
        r == v@.contains(handle),
{
    let mut i: usize = 0;
    while i < v.len()
        invariant
            i <= v@.len(),
            forall|k: int| 0 <= k < i ==> v@[k] != handle,
        decreases v@.len() - i,
    {
        if v[i] == handle {
            proof {
                assert(v@[i as int] == handle);
            }
            return true;
        }
        i = i + 1;
    }
    false
}

/// Removes the handle from a duplicate-free vector, if present.
#[verifier::loop_isolation(false)]
fn remove_handle(v: &mut Vec<usize>, handle: usize)
    requires
        forall|i: int, j: int| 0 <= i < j < old(v)@.len() ==> old(v)@[i] != old(v)@[j],
    ensures
        forall|x: usize| final(v)@.contains(x) <==> (old(v)@.contains(x) && x != handle),
        forall|i: int, j: int| 0 <= i < j < final(v)@.len() ==> final(v)@[i] != final(v)@[j],
        forall|x: usize| final(v)@.contains(x) ==> old(v)@.contains(x),
        final(v)@ == remove_value(old(v)@, handle),
    {
        let ghost pre = v@;
        let mut i: usize = 0;
        loop
            invariant
                v@ == pre,
                i <= pre.len(),
                forall|k: int| 0 <= k < i ==> pre[k] != handle,
                forall|ii: int, jj: int| 0 <= ii < jj < pre.len() ==> pre[ii] != pre[jj],
            decreases pre.len() - i,
        {
            if i == v.len() {
                proof {
                    assert(forall|k: int| 0 <= k < pre.len() ==> pre[k] != handle);
                    lemma_remove_value_absent(pre, handle);
                    assert forall|x: usize| v@.contains(x) implies (pre.contains(x) && x
                        != handle) by {
                        let k = choose|k: int| 0 <= k < v@.len() && v@[k] == x;
                    }
                }
                return;
            }
            if v[i] == handle {
                break;
            }
            i = i + 1;
        }
        proof {
            assert(pre[i as int] == handle);
            lemma_remove_value_found(pre, handle, i as int);
        }
        v.remove(i);
        proof {
            assert forall|x: usize| v@.contains(x) implies (pre.contains(x) && x
                != handle) by {
                let k = choose|k: int| 0 <= k < v@.len() && v@[k] == x;
                if k < i {
                    assert(pre[k] == x);
                } else {
                    assert(pre[k + 1] == x);
                }
            }
            assert forall|x: usize| pre.contains(x) && x != handle implies v@.contains(
                x,
            ) by {
                let k = choose|k: int| 0 <= k < pre.len() && pre[k] == x;
                if k < i {
                    assert(v@[k] == x);
                } else {
                    assert(k != i);
                    assert(v@[k - 1] == x);
                }
            }
            assert forall|ii: int, jj: int|
                0 <= ii < jj < v@.len() implies v@[ii] != v@[jj] by {
                let a = if ii < i { pre[ii] } else { pre[ii + 1] };
                let b = if jj < i { pre[jj] } else { pre[jj + 1] };
                assert(v@[ii] == a);
                assert(v@[jj] == b);
            }
        }
    }

} // verus!
