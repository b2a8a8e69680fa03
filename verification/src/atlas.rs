use vstd::prelude::*;
use std::collections::HashMap;
use crate::assets::{TextureKey, TextureOrMissing};
use crate::layer::RenderLayer;

verus! {

broadcast use vstd::std_specs::hash::group_hash_axioms;

/// The instances of one layer queued for drawing, one queue per atlas
/// texture.
struct TextureQueues<I> {
    buckets: HashMap<u64, Vec<I>>,
}

/// What drawing one queue takes.
#[derive(Clone, Copy, Debug, PartialEq, Eq, Structural)]
pub struct DrawPlan {
    /// Bytes the instances take in the instance buffer.
    pub bytes: u64,
    /// `Some(size)` when the queue's instance buffer is missing or too small
    /// and a new one of `size` bytes must be made.
    pub new_buffer: Option<u64>,
    /// Whether the texture is missing, so that every instance is drawn with
    /// the whole of the missing texture.
    pub full_uv: bool,
    /// Number of instances to draw.
    pub instances: u32,
}

/// The plan for drawing `count` instances of `instance_size` bytes each, with
/// an instance buffer of `buffer_size` bytes if there is one, from a texture
/// that was found or is missing; no plan for an empty queue.
pub open spec fn draw_plan(
    count: nat,
    instance_size: nat,
    buffer_size: Option<u64>,
    texture: TextureOrMissing,
) -> Option<DrawPlan> {
    if count == 0 {
        None
    } else {
        let bytes = (count * instance_size) as u64;
        Some(
            DrawPlan {
                bytes,
                new_buffer: match buffer_size {
                    Some(size) if size >= bytes => None,
                    _ => Some(bytes),
                },
                full_uv: texture is Missing,
                instances: count as u32,
            },
        )
    }
}

/// Every queue that holds an instance is drawn, and only an empty one is
/// not: the plan for `count` instances exists exactly when `count` is at
/// least one, draws all `count` of them, takes `count * instance_size` bytes,
/// asks for a new buffer of that size exactly when there is no buffer or the
/// one there is smaller, and draws with the whole of the missing texture
/// exactly when the texture is missing.
pub proof fn lemma_draw_plan_draws_every_queued_instance(
    count: nat,
    instance_size: nat,
    buffer_size: Option<u64>,
    texture: TextureOrMissing,
)
    requires
        count * instance_size <= u64::MAX,
    ensures
        draw_plan(count, instance_size, buffer_size, texture) is None <==> count == 0,
        count >= 1 ==> (draw_plan(count, instance_size, buffer_size, texture) matches Some(dp) && {
            &&& dp.bytes == count * instance_size
            &&& (dp.new_buffer is None <==> (buffer_size matches Some(size) && size >= count * instance_size))
            &&& (dp.new_buffer matches Some(n) ==> n == count * instance_size)
            &&& dp.full_uv == (texture is Missing)
            &&& (count <= u32::MAX ==> dp.instances == count)
        }),
{
}

impl<I> TextureQueues<I> {
    /// The queue of each texture that has one.
    spec fn queued(&self) -> Map<u64, Seq<I>> {
        Map::new(|k: u64| self.buckets@.contains_key(k), |k: u64| self.buckets@[k]@)
    }

    /// No queues.
    fn new() -> (b: TextureQueues<I>)
        ensures
            b.queued() == Map::<u64, Seq<I>>::empty(),
    {
        let b = TextureQueues { buckets: HashMap::new() };
        assert(b.queued() =~= Map::<u64, Seq<I>>::empty());
        b
    }

    /// Queues `instance` behind the others of the texture `tkey`.
    fn push(&mut self, tkey: TextureKey, instance: I)
        ensures
            final(self).queued() == old(self).queued().insert(
                tkey@,
                old(self).queued().get(tkey@).unwrap_or(Seq::empty()).push(instance),
            ),
    {
        let k = tkey.as_ffi();
        let mut queue = match self.buckets.remove(&k) {
            Some(q) => q,
            None => Vec::new(),
        };
        queue.push(instance);
        self.buckets.insert(k, queue);
        assert(self.queued() =~= old(self).queued().insert(
            tkey@,
            old(self).queued().get(tkey@).unwrap_or(Seq::empty()).push(instance),
        ));
    }

    /// The textures that have a queue, each once.
    fn texture_keys(&self) -> (keys: Vec<TextureKey>)
        ensures
            keys@.map_values(|k: TextureKey| k@).to_set() == self.queued().dom(),
            keys@.map_values(|k: TextureKey| k@).no_duplicates(),
    {
        let mut keys: Vec<TextureKey> = Vec::new();
        for k in it: self.buckets.keys()
            invariant
                it.seq().unref().to_set() == self.buckets@.dom(),
                it.seq().no_duplicates(),
                keys@.map_values(|t: TextureKey| t@) == it.seq().unref().take(it.index()),
                it.index() == it.seq().len() ==> keys@.map_values(|t: TextureKey| t@) == it.seq().unref(),
        {
            assert(it.seq()[it.index()] == k);
            assert(it.index() < it.seq().len());
            assert(it.seq().unref()[it.index()] == *k);
            let ghost before = keys@;
            let nk = TextureKey::from_ffi(*k);
            keys.push(nk);
            assert(keys@.map_values(|t: TextureKey| t@) =~= before.map_values(|t: TextureKey| t@).push(*k));
            assert(keys@.map_values(|t: TextureKey| t@) =~= it.seq().unref().take(it.index() + 1));
            assert(it.seq().unref().take(it.seq().len() as int) =~= it.seq().unref());
        }
        assert(self.queued().dom() =~= self.buckets@.dom());
        keys
    }

    /// The instances queued for the texture `tkey`, in the order they were
    /// queued.
    fn instances(&self, tkey: TextureKey) -> (q: Option<&Vec<I>>)
        ensures
            match q {
                Some(v) => self.queued().contains_key(tkey@) && v@ == self.queued()[tkey@],
                None => !self.queued().contains_key(tkey@),
            },
    {
        self.buckets.get(&tkey.as_ffi())
    }

    /// Empties every queue; each texture keeps its (now empty) queue.
    fn clear(&mut self)
        ensures
            final(self).queued().dom() == old(self).queued().dom(),
            forall|k: u64| #[trigger] final(self).queued().contains_key(k) ==> final(self).queued()[k]
                == Seq::<I>::empty(),
    {
        let keys = self.texture_keys();
        let ghost key_bits = keys@.map_values(|t: TextureKey| t@);
        let n = keys.len();
        let mut i: usize = 0;
        while i < n
            invariant
                n == keys@.len(),
                i <= n,
                key_bits == keys@.map_values(|t: TextureKey| t@),
                key_bits.to_set() == old(self).queued().dom(),
                self.queued().dom() == old(self).queued().dom(),
                forall|j: int| 0 <= j < i ==> #[trigger] self.queued()[key_bits[j]] == Seq::<I>::empty(),
            decreases n - i,
        {
            let k = keys[i].as_ffi();
            assert(key_bits[i as int] == k);
            assert(key_bits.to_set().contains(k));
            let ghost prev = self.queued();
            self.buckets.insert(k, Vec::new());
            assert(self.queued() =~= prev.insert(k, Seq::<I>::empty()));
            assert(self.queued().dom() =~= old(self).queued().dom());
            i = i + 1;
        }
        assert forall|k: u64| #[trigger] self.queued().contains_key(k) implies self.queued()[k]
            == Seq::<I>::empty() by {
            assert(key_bits.to_set().contains(k));
            let j = choose|j: int| 0 <= j < key_bits.len() && key_bits[j] == k;
            assert(self.queued()[key_bits[j]] == Seq::<I>::empty());
        }
    }

    /// How to draw the queue of `tkey`: none when it is empty; else its size
    /// in bytes, a new instance buffer when the current one (of
    /// `buffer_size` bytes, if any) is too small, whether to draw it with the
    /// whole of the missing texture, and the instance count.
    fn plan(
        &self,
        tkey: TextureKey,
        instance_size: usize,
        buffer_size: Option<u64>,
        texture: TextureOrMissing,
    ) -> (p: Option<DrawPlan>)
        requires
            self.queued().get(tkey@).unwrap_or(Seq::empty()).len() * instance_size <= usize::MAX,
        ensures
            p == draw_plan(
                self.queued().get(tkey@).unwrap_or(Seq::empty()).len(),
                instance_size as nat,
                buffer_size,
                texture,
            ),
    {
        let count: usize = match self.buckets.get(&tkey.as_ffi()) {
            Some(q) => q.len(),
            None => 0,
        };
        if count == 0 {
            None
        } else {
            let bytes = (count * instance_size) as u64;
            let new_buffer = match buffer_size {
                Some(size) => if size >= bytes {
                    None
                } else {
                    Some(bytes)
                },
                None => Some(bytes),
            };
            let full_uv = match texture {
                TextureOrMissing::Missing(_) => true,
                TextureOrMissing::Texture(_) => false,
            };
            Some(DrawPlan { bytes, new_buffer, full_uv, instances: count as u32 })
        }
    }
}

/// The order of a list of queues: each as its layer's number and its
/// texture key.
pub open spec fn order_view(order: Seq<(RenderLayer, TextureKey)>) -> Seq<(u8, u64)> {
    order.map_values(|p: (RenderLayer, TextureKey)| (p.0.number(), p.1@))
}

/// The instances queued for drawing, one queue per layer and atlas texture.
/// Each queue is drawn with one instanced draw call, every queue of a layer
/// before any queue of a later layer, so that blending mixes the layers back
/// to front. A queue stays, emptied, from one frame to the next.
pub struct AtlasBuckets<I> {
    clear_layer: TextureQueues<I>,
    top_layer: TextureQueues<I>,
}

impl<I> AtlasBuckets<I> {
    /// The queue of each layer (by number) and texture that has one.
    pub closed spec fn queued(&self) -> Map<(u8, u64), Seq<I>> {
        Map::new(
            |p: (u8, u64)|
                (p.0 == 0 && self.clear_layer.queued().contains_key(p.1)) || (p.0 == 1
                    && self.top_layer.queued().contains_key(p.1)),
            |p: (u8, u64)|
                if p.0 == 0 {
                    self.clear_layer.queued()[p.1]
                } else {
                    self.top_layer.queued()[p.1]
                },
        )
    }

    /// The queue of `layer` and `tkey`, empty when there is none.
    pub open spec fn queue_of(&self, layer: RenderLayer, tkey: TextureKey) -> Seq<I> {
        self.queued().get((layer.number(), tkey@)).unwrap_or(Seq::empty())
    }

    /// No queues.
    pub fn new() -> (b: AtlasBuckets<I>)
        ensures
            b.queued() == Map::<(u8, u64), Seq<I>>::empty(),
    {
        let b = AtlasBuckets { clear_layer: TextureQueues::new(), top_layer: TextureQueues::new() };
        assert(b.queued() =~= Map::<(u8, u64), Seq<I>>::empty());
        b
    }

    /// Queues `instance`, drawn on `layer` from the texture `tkey`, behind the
    /// others of that layer and texture.
    pub fn draw_atlas(&mut self, layer: RenderLayer, tkey: TextureKey, instance: I)
        ensures
            final(self).queued() == old(self).queued().insert(
                (layer.number(), tkey@),
                old(self).queue_of(layer, tkey).push(instance),
            ),
    {
        match layer {
            RenderLayer::CLEAR => self.clear_layer.push(tkey, instance),
            RenderLayer::TOP => self.top_layer.push(tkey, instance),
        }
        assert(self.queued() =~= old(self).queued().insert(
            (layer.number(), tkey@),
            old(self).queue_of(layer, tkey).push(instance),
        ));
    }

    /// Every queue, each once, those of a layer before those of any later
    /// layer: the order in which the queues are drawn.
    pub fn draw_order(&self) -> (order: Vec<(RenderLayer, TextureKey)>)
        ensures
            forall|p: (u8, u64)| order_view(order@).contains(p) <==> self.queued().contains_key(p),
            order_view(order@).no_duplicates(),
            forall|i: int, j: int|
                0 <= i < j < order@.len() ==> #[trigger] order_view(order@)[i].0 <= #[trigger] order_view(
                    order@,
                )[j].0,
    {
        let back = self.clear_layer.texture_keys();
        let front = self.top_layer.texture_keys();
        let ghost bv = back@.map_values(|k: TextureKey| k@);
        let ghost fv = front@.map_values(|k: TextureKey| k@);
        let mut order: Vec<(RenderLayer, TextureKey)> = Vec::new();
        let mut i: usize = 0;
        while i < back.len()
            invariant
                i <= back@.len(),
                order@.len() == i,
                forall|j: int| 0 <= j < i ==> #[trigger] order@[j] == (RenderLayer::CLEAR, back@[j]),
            decreases back.len() - i,
        {
            order.push((RenderLayer::CLEAR, back[i]));
            i = i + 1;
        }
        let mut i: usize = 0;
        while i < front.len()
            invariant
                i <= front@.len(),
                order@.len() == back@.len() + i,
                forall|j: int| 0 <= j < back@.len() ==> #[trigger] order@[j] == (RenderLayer::CLEAR, back@[j]),
                forall|j: int| 0 <= j < i ==> #[trigger] order@[back@.len() + j] == (RenderLayer::TOP, front@[j]),
            decreases front.len() - i,
        {
            order.push((RenderLayer::TOP, front[i]));
            assert(order@[back@.len() + i] == (RenderLayer::TOP, front@[i as int]));
            i = i + 1;
        }
        proof {
            let v = order_view(order@);
            let nb = back@.len() as int;
            assert forall|j: int| 0 <= j < v.len() implies #[trigger] v[j] == if j < nb {
                (0u8, bv[j])
            } else {
                (1u8, fv[j - nb])
            } by {
                if j >= nb {
                    assert(order@[nb + (j - nb)] == (RenderLayer::TOP, front@[j - nb]));
                }
            }
            assert forall|p: (u8, u64)| v.contains(p) implies self.queued().contains_key(p) by {
                let j = choose|j: int| 0 <= j < v.len() && v[j] == p;
                if j < nb {
                    assert(bv.to_set().contains(bv[j]));
                } else {
                    assert(fv.to_set().contains(fv[j - nb]));
                }
            }
            assert forall|p: (u8, u64)| self.queued().contains_key(p) implies v.contains(p) by {
                if p.0 == 0 {
                    assert(bv.to_set().contains(p.1));
                    let j = choose|j: int| 0 <= j < bv.len() && bv[j] == p.1;
                    assert(v[j] == p);
                } else {
                    assert(fv.to_set().contains(p.1));
                    let j = choose|j: int| 0 <= j < fv.len() && fv[j] == p.1;
                    assert(v[nb + j] == p);
                }
            }
            assert forall|a: int, b: int| 0 <= a < v.len() && 0 <= b < v.len() && a != b implies v[a] != v[b] by {
                if a < nb && b < nb {
                    assert(bv[a] != bv[b]);
                } else if a >= nb && b >= nb {
                    assert(fv[a - nb] != fv[b - nb]);
                }
            }
        }
        order
    }

    /// The instances queued on `layer` for the texture `tkey`, in the order
    /// they were queued.
    pub fn instances(&self, layer: RenderLayer, tkey: TextureKey) -> (q: Option<&Vec<I>>)
        ensures
            match q {
                Some(v) => self.queued().contains_key((layer.number(), tkey@)) && v@ == self.queued()[(
                    layer.number(),
                    tkey@,
                )],
                None => !self.queued().contains_key((layer.number(), tkey@)),
            },
    {
        match layer {
            RenderLayer::CLEAR => self.clear_layer.instances(tkey),
            RenderLayer::TOP => self.top_layer.instances(tkey),
        }
    }

    /// Empties every queue; each keeps its place (now empty).
    pub fn clear(&mut self)
        ensures
            final(self).queued().dom() == old(self).queued().dom(),
            forall|p: (u8, u64)| #[trigger] final(self).queued().contains_key(p) ==> final(self).queued()[p]
                == Seq::<I>::empty(),
    {
        self.clear_layer.clear();
        self.top_layer.clear();
        assert(self.queued().dom() =~= old(self).queued().dom());
    }

    /// How to draw the queue of `layer` and `tkey`: none when it is empty;
    /// else its size in bytes, a new instance buffer when the current one (of
    /// `buffer_size` bytes, if any) is too small, whether to draw it with the
    /// whole of the missing texture, and the instance count.
    pub fn plan(
        &self,
        layer: RenderLayer,
        tkey: TextureKey,
        instance_size: usize,
        buffer_size: Option<u64>,
        texture: TextureOrMissing,
    ) -> (p: Option<DrawPlan>)
        requires
            self.queue_of(layer, tkey).len() * instance_size <= usize::MAX,
        ensures
            p == draw_plan(self.queue_of(layer, tkey).len(), instance_size as nat, buffer_size, texture),
            p is None <==> self.queue_of(layer, tkey).len() == 0,
            p matches Some(dp) ==> {
                &&& dp.bytes == self.queue_of(layer, tkey).len() * instance_size
                &&& dp.full_uv == (texture is Missing)
                &&& (self.queue_of(layer, tkey).len() <= u32::MAX ==> dp.instances == self.queue_of(layer, tkey).len())
            },
    {
        proof {
            lemma_draw_plan_draws_every_queued_instance(
                self.queue_of(layer, tkey).len(),
                instance_size as nat,
                buffer_size,
                texture,
            );
        }
        match layer {
            RenderLayer::CLEAR => self.clear_layer.plan(tkey, instance_size, buffer_size, texture),
            RenderLayer::TOP => self.top_layer.plan(tkey, instance_size, buffer_size, texture),
        }
    }
}

} // verus!
