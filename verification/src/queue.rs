//! The per-frame draw queue.
//!
//! Draw submissions accumulate per `MeshDescriptor`: repeated submissions
//! with the same descriptor extend one entry's parallel per-instance color
//! and transform arrays, so that equal mesh-and-material combinations
//! become a single instanced draw. The two arrays of an entry have equal
//! length at every observation point, and no two entries share a
//! descriptor.

use vstd::prelude::*;

verus! {

use crate::descriptor::MeshDescriptor;
use crate::descriptor::same_descriptor;
use crate::material::ONE_BITS;

/// A per-instance color: three component bit patterns.
pub type Color = [u32; 3];

/// A per-instance transform: a column-major 4x4 matrix of bit patterns.
pub type Transform = [u32; 16];

/// The accumulated instances for one descriptor.
#[derive(Debug)]
pub struct QueueEntry {
    pub md: MeshDescriptor,
    pub colors: Vec<Color>,
    pub transforms: Vec<Transform>,
}

/// A draw queue: one entry per distinct descriptor submitted this frame.
#[derive(Debug)]
pub struct DrawQueue {
    pub entries: Vec<QueueEntry>,
}

/// The parallel-array invariant of one entry.
pub open spec fn entry_wf(e: QueueEntry) -> bool {
    e.colors@.len() == e.transforms@.len()
}

/// The queue invariant: parallel arrays everywhere, and pairwise distinct
/// descriptors.
pub open spec fn queue_wf(q: DrawQueue) -> bool {
    &&& forall|i: int| 0 <= i < q.entries@.len() ==> entry_wf(#[trigger] q.entries@[i])
    &&& forall|i: int, j: int|
        0 <= i < j < q.entries@.len() ==> !same_descriptor(q.entries@[i].md, q.entries@[j].md)
}

/// Whether the queue already has an entry for `md`.
pub open spec fn has_entry(es: Seq<QueueEntry>, md: MeshDescriptor) -> bool {
    exists|i: int| 0 <= i < es.len() && same_descriptor(es[i].md, md)
}

/// The index of the first entry for `md` (or `es.len()` when none exists).
pub open spec fn entry_index(es: Seq<QueueEntry>, md: MeshDescriptor) -> int
    decreases es.len(),
{
    if es.len() == 0 {
        0
    } else if same_descriptor(es[0].md, md) {
        0
    } else {
        1 + entry_index(es.drop_first(), md)
    }
}

/// A first match at `i` (nothing earlier matches) is what `entry_index`
/// returns.
pub proof fn lemma_entry_index_first(es: Seq<QueueEntry>, md: MeshDescriptor, i: int)
    requires
        0 <= i < es.len(),
        same_descriptor(es[i].md, md),
        forall|j: int| 0 <= j < i ==> !same_descriptor((#[trigger] es[j]).md, md),
    ensures
        entry_index(es, md) == i,
    decreases es.len(),
{
    if i > 0 {
        assert(es.drop_first()[i - 1] == es[i]);
        assert forall|j: int| 0 <= j < i - 1 implies !same_descriptor(
            (#[trigger] es.drop_first()[j]).md,
            md,
        ) by {
            assert(es.drop_first()[j] == es[j + 1]);
        }
        lemma_entry_index_first(es.drop_first(), md, i - 1);
    }
}

/// The opaque-white default instance color.
pub open spec fn white_color() -> Color {
    [ONE_BITS, ONE_BITS, ONE_BITS]
}

/// The colors a batch submission resolves to: the supplied colors cycled
/// (repeated from the start) to match the transform count, or opaque white
/// throughout when none were supplied.
pub open spec fn cycled_colors(colors: Seq<Color>, n: int) -> Seq<Color> {
    Seq::new(
        n as nat,
        |k: int|
            if colors.len() == 0 {
                white_color()
            } else {
                colors[k % colors.len() as int]
            },
    )
}

/// An element-for-element copy of a vector of plain values.
pub fn copy_vec<T: Copy>(v: &Vec<T>) -> (r: Vec<T>)
    ensures
        r@ == v@,
{
    let mut out: Vec<T> = Vec::new();
    let n = v.len();
    let mut i: usize = 0;
    while i < n
        invariant
            i <= n,
            n == v@.len(),
            out@ =~= v@.take(i as int),
        decreases n - i,
    {
        out.push(v[i]);
        i += 1;
    }
    proof {
        assert(v@.take(n as int) =~= v@);
    }
    out
}

/// What a submission does to the queue: the instances are appended to the
/// entry for `md` (created at the back when absent), in submission order,
/// and no other entry moves.
pub open spec fn submitted(
    pre: DrawQueue,
    post: DrawQueue,
    md: MeshDescriptor,
    colors_added: Seq<Color>,
    transforms_added: Seq<Transform>,
) -> bool {
    if has_entry(pre.entries@, md) {
        let i = entry_index(pre.entries@, md);
        &&& post.entries@.len() == pre.entries@.len()
        &&& forall|j: int|
            0 <= j < pre.entries@.len() && j != i ==> #[trigger] post.entries@[j]
                == pre.entries@[j]
        &&& post.entries@[i].md == pre.entries@[i].md
        &&& post.entries@[i].colors@ == pre.entries@[i].colors@ + colors_added
        &&& post.entries@[i].transforms@ == pre.entries@[i].transforms@ + transforms_added
    } else {
        &&& post.entries@.len() == pre.entries@.len() + 1
        &&& forall|j: int|
            0 <= j < pre.entries@.len() ==> #[trigger] post.entries@[j] == pre.entries@[j]
        &&& same_descriptor(post.entries@.last().md, md)
        &&& post.entries@.last().colors@ == colors_added
        &&& post.entries@.last().transforms@ == transforms_added
    }
}

impl DrawQueue {
    /// An empty queue.
    pub fn new() -> (r: DrawQueue)
        ensures
            r.entries@ == Seq::<QueueEntry>::empty(),
            queue_wf(r),
    {
        DrawQueue { entries: Vec::new() }
    }

    /// Append one instance (a color and a transform) to the entry for
    /// `md`, creating the entry when absent.
    pub fn submit(&mut self, md: &MeshDescriptor, color: Color, transform: Transform)
        requires
            queue_wf(*old(self)),
        ensures
            queue_wf(*final(self)),
            submitted(*old(self), *final(self), *md, seq![color], seq![transform]),
    {
        let ghost es = self.entries@;
        let n = self.entries.len();
        let mut i: usize = 0;
        while i < n
            invariant
                i <= n,
                n == es.len(),
                es == self.entries@,
                es == old(self).entries@,
                queue_wf(*self),
                forall|j: int| 0 <= j < i ==> !same_descriptor((#[trigger] es[j]).md, *md),
            decreases n - i,
        {
            let hit = self.entries[i].md.same_as(md);
            if hit {
                proof {
                    lemma_entry_index_first(es, *md, i as int);
                }
                let e = &mut self.entries[i];
                e.colors.push(color);
                e.transforms.push(transform);
                proof {
                    assert(has_entry(es, *md));
                    assert(self.entries@[i as int].colors@ =~= es[i as int].colors@ + seq![color]);
                    assert(self.entries@[i as int].transforms@ =~= es[i as int].transforms@
                        + seq![transform]);
                    assert forall|a: int, b: int|
                        0 <= a < b < self.entries@.len() implies !same_descriptor(
                        self.entries@[a].md,
                        self.entries@[b].md,
                    ) by {
                        assert(self.entries@[a].md == es[a].md);
                        assert(self.entries@[b].md == es[b].md);
                    }
                }
                return ;
            }
            i += 1;
        }
        proof {
            assert(!has_entry(es, *md));
        }
        let mut colors: Vec<Color> = Vec::new();
        colors.push(color);
        let mut transforms: Vec<Transform> = Vec::new();
        transforms.push(transform);
        let entry = QueueEntry { md: md.duplicate(), colors, transforms };
        self.entries.push(entry);
        proof {
            assert(self.entries@.last().colors@ =~= seq![color]);
            assert(self.entries@.last().transforms@ =~= seq![transform]);
            assert forall|a: int, b: int|
                0 <= a < b < self.entries@.len() implies !same_descriptor(
                self.entries@[a].md,
                self.entries@[b].md,
            ) by {
                if b < es.len() {
                    assert(self.entries@[a] == es[a] && self.entries@[b] == es[b]);
                } else {
                    assert(self.entries@[a] == es[a]);
                    assert(same_descriptor(self.entries@[b].md, *md));
                    if same_descriptor(self.entries@[a].md, self.entries@[b].md) {
                        assert(same_descriptor(es[a].md, *md));
                        assert(has_entry(es, *md));
                    }
                }
            }
        }
    }

    /// Append a batch of instances for `md`: the transforms as given, and
    /// the colors cycled to match the transform count (opaque white when
    /// none are supplied).
    pub fn submit_many(&mut self, md: &MeshDescriptor, transforms: Vec<Transform>, colors: Vec<
        Color,
    >)
        requires
            queue_wf(*old(self)),
        ensures
            queue_wf(*final(self)),
            submitted(
                *old(self),
                *final(self),
                *md,
                cycled_colors(colors@, transforms@.len() as int),
                transforms@,
            ),
    {
        let ghost es = self.entries@;
        let n = transforms.len();
        let mut cyc: Vec<Color> = Vec::new();
        let mut k: usize = 0;
        while k < n
            invariant
                k <= n,
                n == transforms@.len(),
                cyc@ =~= cycled_colors(colors@, k as int),
            decreases n - k,
        {
            let c: Color = if colors.len() == 0 {
                [ONE_BITS, ONE_BITS, ONE_BITS]
            } else {
                colors[k % colors.len()]
            };
            cyc.push(c);
            proof {
                assert(cyc@ =~= cycled_colors(colors@, k + 1));
            }
            k += 1;
        }
        proof {
            assert(cyc@ =~= cycled_colors(colors@, transforms@.len() as int));
        }
        let mut tr = copy_vec(&transforms);
        let m = self.entries.len();
        let mut i: usize = 0;
        while i < m
            invariant
                i <= m,
                m == es.len(),
                es == self.entries@,
                es == old(self).entries@,
                queue_wf(*self),
                cyc@ == cycled_colors(colors@, transforms@.len() as int),
                tr@ == transforms@,
                forall|j: int| 0 <= j < i ==> !same_descriptor((#[trigger] es[j]).md, *md),
            decreases m - i,
        {
            let hit = self.entries[i].md.same_as(md);
            if hit {
                proof {
                    lemma_entry_index_first(es, *md, i as int);
                }
                let e = &mut self.entries[i];
                e.colors.append(&mut cyc);
                e.transforms.append(&mut tr);
                proof {
                    assert(has_entry(es, *md));
                    assert forall|a: int, b: int|
                        0 <= a < b < self.entries@.len() implies !same_descriptor(
                        self.entries@[a].md,
                        self.entries@[b].md,
                    ) by {
                        assert(self.entries@[a].md == es[a].md);
                        assert(self.entries@[b].md == es[b].md);
                    }
                }
                return ;
            }
            i += 1;
        }
        proof {
            assert(!has_entry(es, *md));
        }
        let entry = QueueEntry { md: md.duplicate(), colors: cyc, transforms: tr };
        self.entries.push(entry);
        proof {
            assert forall|a: int, b: int|
                0 <= a < b < self.entries@.len() implies !same_descriptor(
                self.entries@[a].md,
                self.entries@[b].md,
            ) by {
                if b < es.len() {
                    assert(self.entries@[a] == es[a] && self.entries@[b] == es[b]);
                } else {
                    assert(self.entries@[a] == es[a]);
                    assert(same_descriptor(self.entries@[b].md, *md));
                    if same_descriptor(self.entries@[a].md, self.entries@[b].md) {
                        assert(same_descriptor(es[a].md, *md));
                        assert(has_entry(es, *md));
                    }
                }
            }
        }
    }
}

} // verus!
