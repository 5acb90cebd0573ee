use vstd::prelude::*;

use crate::entity::Entity;
use crate::textured_model::TexturedModel;

verus! {

/// One step of a frame's draw plan: bind a model's vertex, index and
/// texture state, or draw one entity under the model bound last.
#[derive(Clone, Copy, Debug)]
pub enum DrawCommand {
    Bind(TexturedModel),
    Draw(Entity),
}

/// The batching layer: the entities submitted for one frame, grouped into
/// buckets by their model's texture identity, buckets in order of first
/// submission and entities within a bucket in submission order.
pub struct MasterRenderer {
    entities: Vec<(TexturedModel, Vec<Entity>)>,
}

/// The buckets with their entity lists as sequences.
pub open spec fn bucket_views(b: Seq<(TexturedModel, Vec<Entity>)>) -> Seq<
    (TexturedModel, Seq<Entity>),
> {
    b.map_values(|p: (TexturedModel, Vec<Entity>)| (p.0, p.1@))
}

impl View for MasterRenderer {
    type V = Seq<(TexturedModel, Seq<Entity>)>;

    closed spec fn view(&self) -> Seq<(TexturedModel, Seq<Entity>)> {
        bucket_views(self.entities@)
    }
}

/// Buckets are keyed by texture identity: no two buckets share one.
pub open spec fn buckets_wf(b: Seq<(TexturedModel, Seq<Entity>)>) -> bool {
    forall|i: int, j: int|
        0 <= i < j < b.len() ==> (#[trigger] b[i]).0.texture.id != (#[trigger] b[j]).0.texture.id
}

pub open spec fn has_bucket(b: Seq<(TexturedModel, Seq<Entity>)>, id: u32) -> bool {
    exists|i: int| 0 <= i < b.len() && (#[trigger] b[i]).0.texture.id == id
}

/// Rank of the first bucket keyed by `id`.
pub open spec fn bucket_index(b: Seq<(TexturedModel, Seq<Entity>)>, id: u32) -> int
    decreases b.len(),
{
    if b.len() == 0 {
        0
    } else if b[0].0.texture.id == id {
        0
    } else {
        1 + bucket_index(b.skip(1), id)
    }
}

proof fn lemma_bucket_index(b: Seq<(TexturedModel, Seq<Entity>)>, id: u32, r: int)
    requires
        0 <= r < b.len(),
        b[r].0.texture.id == id,
        forall|j: int| 0 <= j < r ==> (#[trigger] b[j]).0.texture.id != id,
    ensures
        bucket_index(b, id) == r,
    decreases r,
{
    if r > 0 {
        assert(b.skip(1)[r - 1] == b[r]);
        assert(forall|j: int| 0 <= j < r - 1 ==> #[trigger] b.skip(1)[j] == b[j + 1]);
        lemma_bucket_index(b.skip(1), id, r - 1);
    }
}

/// Submitting one entity: append it to the bucket of its model's texture
/// identity, creating that bucket behind the existing ones on first use.
pub open spec fn spec_add_entity(b: Seq<(TexturedModel, Seq<Entity>)>, e: Entity) -> Seq<
    (TexturedModel, Seq<Entity>),
> {
    if has_bucket(b, e.model.texture.id) {
        let i = bucket_index(b, e.model.texture.id);
        b.update(i, (b[i].0, b[i].1.push(e)))
    } else {
        b.push((e.model, seq![e]))
    }
}

/// The frame's draw plan: for each bucket, bind its model once, then draw
/// each of its entities.
pub open spec fn spec_plan(b: Seq<(TexturedModel, Seq<Entity>)>) -> Seq<DrawCommand>
    decreases b.len(),
{
    if b.len() == 0 {
        Seq::empty()
    } else {
        (seq![DrawCommand::Bind(b[0].0)] + b[0].1.map_values(|e: Entity| DrawCommand::Draw(e)))
            + spec_plan(b.skip(1))
    }
}

/// Where bucket `i` starts within the plan: one bind and one draw per
/// entity for each bucket before it.
pub open spec fn plan_offset(b: Seq<(TexturedModel, Seq<Entity>)>, i: int) -> int
    decreases i,
{
    if i <= 0 {
        0
    } else {
        plan_offset(b, i - 1) + 1 + b[i - 1].1.len()
    }
}

proof fn lemma_plan_offset_skip(b: Seq<(TexturedModel, Seq<Entity>)>, i: int)
    requires
        1 <= i <= b.len(),
    ensures
        plan_offset(b, i) == 1 + b[0].1.len() + plan_offset(b.skip(1), i - 1),
    decreases i,
{
    if i > 1 {
        lemma_plan_offset_skip(b, i - 1);
        assert(b.skip(1)[i - 2] == b[i - 1]);
    } else {
        assert(plan_offset(b, 1) == plan_offset(b, 0) + 1 + b[0].1.len());
        assert(plan_offset(b, 0) == 0);
        assert(plan_offset(b.skip(1), 0) == 0);
    }
}

/// Entities that share one textured model render under a single bind: in
/// the plan, each bucket's model is bound once, at the bucket's offset, and
/// the draws of exactly its entities follow immediately, so no other bind
/// stands between two draws of one bucket.
pub proof fn lemma_plan_batches(b: Seq<(TexturedModel, Seq<Entity>)>, i: int)
    requires
        0 <= i < b.len(),
    ensures
        0 <= plan_offset(b, i),
        plan_offset(b, i) + 1 + b[i].1.len() <= spec_plan(b).len(),
        spec_plan(b)[plan_offset(b, i)] == DrawCommand::Bind(b[i].0),
        forall|k: int|
            0 <= k < b[i].1.len() ==> spec_plan(b)[plan_offset(b, i) + 1 + k] == DrawCommand::Draw(
                b[i].1[k],
            ),
    decreases i,
{
    let head = seq![DrawCommand::Bind(b[0].0)] + b[0].1.map_values(
        |e: Entity| DrawCommand::Draw(e),
    );
    assert(spec_plan(b) == head + spec_plan(b.skip(1)));
    if i == 0 {
        assert(spec_plan(b)[0] == head[0]);
        assert(forall|k: int|
            0 <= k < b[0].1.len() ==> spec_plan(b)[1 + k] == #[trigger] head[1 + k]);
        assert(forall|k: int|
            0 <= k < b[0].1.len() ==> #[trigger] head[1 + k] == b[0].1.map_values(
                |e: Entity| DrawCommand::Draw(e),
            )[k]);
    } else {
        lemma_plan_batches(b.skip(1), i - 1);
        lemma_plan_offset_skip(b, i);
        assert(b.skip(1)[i - 1] == b[i]);
        let off = plan_offset(b.skip(1), i - 1);
        assert(plan_offset(b, i) == head.len() + off);
        assert(spec_plan(b)[head.len() + off] == spec_plan(b.skip(1))[off]);
        assert(forall|k: int|
            0 <= k < b[i].1.len() ==> spec_plan(b)[head.len() + off + 1 + k] == #[trigger]
            spec_plan(b.skip(1))[off + 1 + k]);
    }
}

/// Position `p` of the plan falls inside bucket `i`'s block: the bind at
/// the bucket's offset, one of its draws after it.
pub open spec fn plan_slot(b: Seq<(TexturedModel, Seq<Entity>)>, i: int, p: int) -> bool {
    &&& 0 <= i < b.len()
    &&& plan_offset(b, i) <= p <= plan_offset(b, i) + b[i].1.len()
    &&& (p == plan_offset(b, i) ==> spec_plan(b)[p] == DrawCommand::Bind(b[i].0))
    &&& (p != plan_offset(b, i) ==> spec_plan(b)[p] == DrawCommand::Draw(
        b[i].1[p - plan_offset(b, i) - 1],
    ))
}

proof fn lemma_plan_position(b: Seq<(TexturedModel, Seq<Entity>)>, p: int)
    requires
        0 <= p < spec_plan(b).len(),
    ensures
        exists|i: int| #[trigger] plan_slot(b, i, p),
    decreases b.len(),
{
    let head = seq![DrawCommand::Bind(b[0].0)] + b[0].1.map_values(
        |e: Entity| DrawCommand::Draw(e),
    );
    assert(spec_plan(b) == head + spec_plan(b.skip(1)));
    if p < head.len() {
        assert(plan_offset(b, 0) == 0);
        if p > 0 {
            assert(spec_plan(b)[p] == head[p]);
            assert(head[p] == b[0].1.map_values(|e: Entity| DrawCommand::Draw(e))[p - 1]);
        }
        assert(plan_slot(b, 0, p));
    } else {
        lemma_plan_position(b.skip(1), p - head.len());
        let i0 = choose|i: int| #[trigger] plan_slot(b.skip(1), i, p - head.len());
        lemma_plan_offset_skip(b, i0 + 1);
        assert(b.skip(1)[i0] == b[i0 + 1]);
        assert(spec_plan(b)[p] == spec_plan(b.skip(1))[p - head.len()]);
        assert(plan_slot(b, i0 + 1, p));
    }
}

/// A model is bound at most once per frame: two distinct bind steps of the
/// plan of well-formed buckets never carry one texture identity.
pub proof fn lemma_bind_at_most_once(b: Seq<(TexturedModel, Seq<Entity>)>, p: int, q: int)
    requires
        buckets_wf(b),
        0 <= p < q < spec_plan(b).len(),
        spec_plan(b)[p] is Bind,
        spec_plan(b)[q] is Bind,
    ensures
        spec_plan(b)[p]->Bind_0.texture.id != spec_plan(b)[q]->Bind_0.texture.id,
{
    lemma_plan_position(b, p);
    lemma_plan_position(b, q);
    let i = choose|i: int| #[trigger] plan_slot(b, i, p);
    let j = choose|j: int| #[trigger] plan_slot(b, j, q);
    assert(p == plan_offset(b, i));
    assert(q == plan_offset(b, j));
    assert(i != j);
    assert(spec_plan(b)[p] == DrawCommand::Bind(b[i].0));
    assert(spec_plan(b)[q] == DrawCommand::Bind(b[j].0));
}

fn bucket_commands(model: &TexturedModel, list: &Vec<Entity>) -> (r: Vec<DrawCommand>)
    ensures
        r@ == seq![DrawCommand::Bind(*model)] + list@.map_values(
            |e: Entity| DrawCommand::Draw(e),
        ),
{
    let mut r: Vec<DrawCommand> = Vec::new();
    r.push(DrawCommand::Bind(*model));
    let n = list.len();
    let mut k: usize = 0;
    while k < n
        invariant
            0 <= k <= n == list@.len(),
            r@.len() == 1 + k,
            r@[0] == DrawCommand::Bind(*model),
            forall|j: int| 0 <= j < k ==> r@[j + 1] == DrawCommand::Draw(list@[j]),
        decreases n - k,
    {
        r.push(DrawCommand::Draw(list[k]));
        k += 1;
    }
    proof {
        assert(r@ =~= seq![DrawCommand::Bind(*model)] + list@.map_values(
            |e: Entity| DrawCommand::Draw(e),
        ));
    }
    r
}

impl MasterRenderer {
    /// No two buckets share a texture identity.
    pub open spec fn wf(&self) -> bool {
        buckets_wf(self@)
    }

    pub fn new() -> (r: MasterRenderer)
        ensures
            r@ == Seq::<(TexturedModel, Seq<Entity>)>::empty(),
            r.wf(),
    {
        let r = MasterRenderer { entities: Vec::new() };
        proof {
            assert(r@ =~= Seq::<(TexturedModel, Seq<Entity>)>::empty());
        }
        r
    }

    /// Empty every bucket, ahead of a frame's fresh submissions.
    pub fn clear_entities(&mut self)
        ensures
            final(self)@ == Seq::<(TexturedModel, Seq<Entity>)>::empty(),
            final(self).wf(),
    {
        self.entities.clear();
        proof {
            assert(self@ =~= Seq::<(TexturedModel, Seq<Entity>)>::empty());
        }
    }

    /// Submit one entity for this frame, into the bucket of its model.
    pub fn add_entity(&mut self, entity: Entity)
        requires
            old(self).wf(),
        ensures
            final(self)@ == spec_add_entity(old(self)@, entity),
            final(self).wf(),
    {
        let tid = entity.model.texture.id;
        let n = self.entities.len();
        let mut i: usize = 0;
        while i < n
            invariant
                0 <= i <= n == self.entities@.len(),
                *self == *old(self),
                buckets_wf(old(self)@),
                tid == entity.model.texture.id,
                forall|j: int|
                    0 <= j < i ==> (#[trigger] bucket_views(
                        self.entities@,
                    )[j]).0.texture.id != entity.model.texture.id,
            decreases n - i,
        {
            let found = self.entities[i].0.texture.id == tid;
            proof {
                assert(bucket_views(self.entities@)[i as int].0 == self.entities@[i as int].0);
            }
            if found {
                proof {
                    assert(forall|j: int|
                        0 <= j < i ==> (#[trigger] old(self)@[j]).0.texture.id != tid);
                    assert(old(self)@[i as int].0.texture.id == tid);
                }
                let mut pair = self.entities.remove(i);
                pair.1.push(entity);
                self.entities.insert(i, pair);
                proof {
                    assert(old(self)@[i as int].0.texture.id == tid);
                    assert(has_bucket(old(self)@, tid));
                    lemma_bucket_index(old(self)@, tid, i as int);
                    assert(self@ =~~= old(self)@.update(
                        i as int,
                        (old(self)@[i as int].0, old(self)@[i as int].1.push(entity)),
                    ));
                    assert forall|a: int, c: int| 0 <= a < c < self@.len() implies (
                    self@[a]).0.texture.id != (self@[c]).0.texture.id by {
                        assert(self@[a].0 == old(self)@[a].0);
                        assert(self@[c].0 == old(self)@[c].0);
                        assert(old(self)@[a].0.texture.id != old(self)@[c].0.texture.id);
                    }
                    assert(buckets_wf(self@));
                }
                return;
            }
            i += 1;
        }
        proof {
            assert(forall|j: int|
                0 <= j < old(self)@.len() ==> (#[trigger] old(self)@[j]).0.texture.id != tid);
            assert(!has_bucket(old(self)@, tid));
        }
        let mut list: Vec<Entity> = Vec::new();
        list.push(entity);
        let model = entity.model;
        self.entities.push((model, list));
        proof {
            assert(self@ =~~= old(self)@.push((entity.model, seq![entity])));
            assert forall|a: int, c: int| 0 <= a < c < self@.len() implies (
            self@[a]).0.texture.id != (self@[c]).0.texture.id by {
                if c < old(self)@.len() {
                    assert(self@[a] == old(self)@[a]);
                    assert(self@[c] == old(self)@[c]);
                    assert(old(self)@[a].0.texture.id != old(self)@[c].0.texture.id);
                } else {
                    assert(self@[a] == old(self)@[a]);
                    assert(old(self)@[a].0.texture.id != tid);
                    assert(self@[c].0.texture.id == tid);
                }
            }
            assert(buckets_wf(self@));
        }
    }

    fn plan_from(&self, bi: usize) -> (r: Vec<DrawCommand>)
        requires
            bi <= self.entities@.len(),
        ensures
            r@ == spec_plan(self@.skip(bi as int)),
        decreases self.entities@.len() - bi,
    {
        if bi == self.entities.len() {
            let r: Vec<DrawCommand> = Vec::new();
            proof {
                assert(self@.skip(bi as int) =~= Seq::<(TexturedModel, Seq<Entity>)>::empty());
            }
            r
        } else {
            let pair = &self.entities[bi];
            let mut head = bucket_commands(&pair.0, &pair.1);
            let mut rest = self.plan_from(bi + 1);
            head.append(&mut rest);
            proof {
                assert(self@.skip(bi as int).skip(1) =~= self@.skip(bi + 1));
                assert(self@.skip(bi as int)[0] == self@[bi as int]);
                assert(self@[bi as int] == (
                    self.entities@[bi as int].0,
                    self.entities@[bi as int].1@,
                ));
                assert(head@ =~= spec_plan(self@.skip(bi as int)));
            }
            head
        }
    }

    /// The frame's draw plan, for the host to run in order on its pass: per
    /// bucket one bind of the model's buffers and texture, then for each of
    /// the bucket's entities one transform upload and one indexed draw.
    pub fn render(&self) -> (plan: Vec<DrawCommand>)
        ensures
            plan@ == spec_plan(self@),
    {
        let plan = self.plan_from(0);
        proof {
            assert(self@.skip(0) =~= self@);
        }
        plan
    }
}

} // verus!
