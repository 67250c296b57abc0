//! In-memory buffers for logging output, one per log id.

use vstd::prelude::*;
use crate::text::str_eq;

verus! {

/// The bytes held for each log id, in the order the ids were first used.
#[derive(Debug)]
pub struct LogBuffers {
    /// The buffers, each with its id
    pub buffers: Vec<(String, Vec<u8>)>,
}

/// The model of the buffers.
pub open spec fn buffers_view(b: Seq<(String, Vec<u8>)>) -> Seq<(Seq<char>, Seq<u8>)> {
    b.map_values(|e: (String, Vec<u8>)| (e.0@, e.1@))
}

/// The bytes held for an id: those of its first buffer, none when it has none.
pub open spec fn held(b: Seq<(Seq<char>, Seq<u8>)>, id: Seq<char>) -> Seq<u8>
    decreases b.len(),
{
    if b.len() == 0 {
        Seq::empty()
    } else if b[0].0 == id {
        b[0].1
    } else {
        held(b.drop_first(), id)
    }
}

/// The position of the first buffer of an id.
pub open spec fn buffer_index(b: Seq<(Seq<char>, Seq<u8>)>, id: Seq<char>) -> Option<int>
    decreases b.len(),
{
    if b.len() == 0 {
        None
    } else if b[0].0 == id {
        Some(0)
    } else {
        match buffer_index(b.drop_first(), id) {
            Some(i) => Some(i + 1),
            None => None,
        }
    }
}

/// Where the first buffer of an id is, and what it holds.
proof fn lemma_buffer_index(b: Seq<(Seq<char>, Seq<u8>)>, id: Seq<char>, i: int)
    requires
        0 <= i <= b.len(),
        forall|j: int| 0 <= j < i ==> b[j].0 != id,
        i < b.len() ==> b[i].0 == id,
    ensures
        buffer_index(b, id) == if i < b.len() { Some(i) } else { None::<int> },
        held(b, id) == if i < b.len() { b[i].1 } else { Seq::<u8>::empty() },
    decreases i,
{
    if i > 0 {
        assert forall|j: int| 0 <= j < i - 1 implies b.drop_first()[j].0 != id by {
            assert(b.drop_first()[j] == b[j + 1]);
        }
        if i < b.len() {
            assert(b.drop_first()[i - 1] == b[i]);
        }
        lemma_buffer_index(b.drop_first(), id, i - 1);
    }
}

/// Changing the first buffer of an id changes what that id holds, and nothing else.
proof fn lemma_held_update(b: Seq<(Seq<char>, Seq<u8>)>, i: int, x: (Seq<char>, Seq<u8>), id: Seq<char>)
    requires
        0 <= i < b.len(),
        b[i].0 == x.0,
        forall|j: int| 0 <= j < i ==> b[j].0 != x.0,
    ensures
        held(b.update(i, x), id) == if id == x.0 { x.1 } else { held(b, id) },
    decreases i,
{
    let u = b.update(i, x);
    if i > 0 {
        assert(u.drop_first() =~= b.drop_first().update(i - 1, x));
        assert forall|j: int| 0 <= j < i - 1 implies b.drop_first()[j].0 != x.0 by {
            assert(b.drop_first()[j] == b[j + 1]);
        }
        lemma_held_update(b.drop_first(), i - 1, x, id);
        assert(u[0] == b[0]);
    } else {
        assert(u.drop_first() =~= b.drop_first());
    }
}

/// A new buffer for an id that has none changes what that id holds, and nothing else.
proof fn lemma_held_push(b: Seq<(Seq<char>, Seq<u8>)>, x: (Seq<char>, Seq<u8>), id: Seq<char>)
    requires
        forall|j: int| 0 <= j < b.len() ==> b[j].0 != x.0,
    ensures
        held(b.push(x), id) == if id == x.0 { x.1 } else { held(b, id) },
    decreases b.len(),
{
    let p = b.push(x);
    if b.len() > 0 {
        assert(p.drop_first() =~= b.drop_first().push(x));
        assert forall|j: int| 0 <= j < b.drop_first().len() implies b.drop_first()[j].0 != x.0 by {
            assert(b.drop_first()[j] == b[j + 1]);
        }
        lemma_held_push(b.drop_first(), x, id);
        assert(p[0] == b[0]);
        assert(b[0].0 != x.0);
    } else {
        assert(p.drop_first() =~= Seq::<(Seq<char>, Seq<u8>)>::empty());
        assert(held(p.drop_first(), id) == Seq::<u8>::empty());
        assert(p[0] == x);
    }
}

impl LogBuffers {
    /// No buffers.
    pub fn new() -> (r: LogBuffers)
        ensures
            forall|id: Seq<char>| #[trigger] held(buffers_view(r.buffers@), id) == Seq::<u8>::empty(),
    {
        let r = LogBuffers { buffers: Vec::new() };
        assert(buffers_view(r.buffers@) =~= Seq::<(Seq<char>, Seq<u8>)>::empty());
        r
    }

    /// The position of the buffer of an id, creating an empty one when there is none.
    fn buffer_for(&mut self, id: &str) -> (i: usize)
        ensures
            i < final(self).buffers@.len(),
            final(self).buffers@[i as int].0@ == id@,
            forall|j: int| 0 <= j < i ==> final(self).buffers@[j].0@ != id@,
            forall|other: Seq<char>| #[trigger] held(buffers_view(final(self).buffers@), other) == held(buffers_view(old(self).buffers@), other),
    {
        let ghost b = buffers_view(self.buffers@);
        let mut i: usize = 0;
        while i < self.buffers.len() && !str_eq(self.buffers[i].0.as_str(), id)
            invariant
                i <= self.buffers.len(),
                b == buffers_view(self.buffers@),
                self.buffers@ == old(self).buffers@,
                forall|j: int| 0 <= j < i ==> self.buffers@[j].0@ != id@,
            decreases self.buffers.len() - i,
        {
            i = i + 1;
        }
        if i == self.buffers.len() {
            proof { lemma_buffer_index(b, id@, i as int); }
            let ghost empty = Seq::<u8>::empty();
            self.buffers.push((id.to_string(), Vec::new()));
            proof {
                assert(buffers_view(self.buffers@) =~= b.push((id@, empty)));
                assert forall|other: Seq<char>| #[trigger] held(buffers_view(self.buffers@), other) == held(b, other) by {
                    lemma_held_push(b, (id@, empty), other);
                }
            }
        }
        i
    }

    /// Appends the bytes to the buffer of the id.
    pub fn write_to_log_buffer(&mut self, id: &str, buf: &[u8])
        ensures
            held(buffers_view(final(self).buffers@), id@) == held(buffers_view(old(self).buffers@), id@) + buf@,
            forall|other: Seq<char>| other != id@ ==> #[trigger] held(buffers_view(final(self).buffers@), other) == held(buffers_view(old(self).buffers@), other),
    {
        let i = self.buffer_for(id);
        let ghost b = buffers_view(self.buffers@);
        proof { lemma_buffer_index(b, id@, i as int); }
        let (name, mut bytes) = self.buffers.remove(i);
        let mut k: usize = 0;
        let ghost start = bytes@;
        while k < buf.len()
            invariant
                k <= buf.len(),
                bytes@ == start + buf@.subrange(0, k as int),
            decreases buf.len() - k,
        {
            bytes.push(buf[k]);
            k = k + 1;
            assert(bytes@ =~= start + buf@.subrange(0, k as int));
        }
        assert(buf@.subrange(0, buf.len() as int) =~= buf@);
        let ghost x = (name@, bytes@);
        self.buffers.insert(i, (name, bytes));
        proof {
            assert(buffers_view(self.buffers@) =~= b.update(i as int, x));
            assert forall|other: Seq<char>| #[trigger] held(buffers_view(self.buffers@), other) == if other == id@ { x.1 } else { held(b, other) } by {
                lemma_held_update(b, i as int, x, other);
            }
        }
    }

    /// Takes the contents of the buffer of the id, leaving it empty.
    pub fn fetch_buffer_contents(&mut self, id: &str) -> (r: Vec<u8>)
        ensures
            r@ == held(buffers_view(old(self).buffers@), id@),
            held(buffers_view(final(self).buffers@), id@) == Seq::<u8>::empty(),
            forall|other: Seq<char>| other != id@ ==> #[trigger] held(buffers_view(final(self).buffers@), other) == held(buffers_view(old(self).buffers@), other),
    {
        let i = self.buffer_for(id);
        let ghost b = buffers_view(self.buffers@);
        proof { lemma_buffer_index(b, id@, i as int); }
        let (name, bytes) = self.buffers.remove(i);
        let ghost x = (name@, Seq::<u8>::empty());
        self.buffers.insert(i, (name, Vec::new()));
        proof {
            assert(buffers_view(self.buffers@) =~= b.update(i as int, x));
            assert forall|other: Seq<char>| #[trigger] held(buffers_view(self.buffers@), other) == if other == id@ { x.1 } else { held(b, other) } by {
                lemma_held_update(b, i as int, x, other);
            }
        }
        bytes
    }
}

} // verus!
