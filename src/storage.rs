//! Wire layouts of the records uploaded to the device. All words are
//! little-endian; float fields travel as their IEEE-754 bit patterns.
use vstd::prelude::*;

verus! {

/// The four bytes of `x`, least significant first.
pub open spec fn le32(x: u32) -> Seq<u8> {
    seq![
        (x % 256) as u8,
        (x / 256 % 256) as u8,
        (x / 65536 % 256) as u8,
        (x / 16777216) as u8,
    ]
}

/// Appends the four bytes of `x`, least significant first.
pub fn push_le32(out: &mut Vec<u8>, x: u32)
    ensures
        final(out)@ == old(out)@ + le32(x),
{
    out.push((x % 256) as u8);
    out.push((x / 256 % 256) as u8);
    out.push((x / 65536 % 256) as u8);
    out.push((x / 16777216) as u8);
    assert(out@ =~= old(out)@ + le32(x));
}

/// Simulation globals as the kernels read them: `dt` and `time` are the bit
/// patterns of `f32` seconds, `work_group_size` the side of the agent grid.
#[derive(Clone, Copy, Debug, PartialEq, Eq)]
pub struct Globals {
    pub dt_bits: u32,
    pub time_bits: u32,
    pub work_group_size: u32,
}

/// One agent as the update kernel reads it: bit patterns of two `f32`
/// vectors.
#[derive(Clone, Copy, Debug, PartialEq, Eq)]
pub struct Agent {
    pub position: (u32, u32),
    pub velocity: (u32, u32),
}

/// Globals packed tightly: `dt`, `time`, `work_group_size`, four bytes each.
pub open spec fn globals_bytes(g: Globals) -> Seq<u8> {
    le32(g.dt_bits) + le32(g.time_bits) + le32(g.work_group_size)
}

/// One agent: position x, y, then velocity x, y, four bytes each.
pub open spec fn agent_bytes(a: Agent) -> Seq<u8> {
    le32(a.position.0) + le32(a.position.1) + le32(a.velocity.0) + le32(a.velocity.1)
}

/// The agents one after the other.
pub open spec fn agents_bytes(s: Seq<Agent>) -> Seq<u8>
    decreases s.len(),
{
    if s.len() == 0 {
        Seq::empty()
    } else {
        agents_bytes(s.drop_last()) + agent_bytes(s.last())
    }
}

/// A length-prefixed agent array: the count as a 32-bit word, four bytes of
/// padding that align the records to eight bytes, then the records.
pub open spec fn agent_array_bytes(s: Seq<Agent>) -> Seq<u8> {
    le32(s.len() as u32) + seq![0u8, 0u8, 0u8, 0u8] + agents_bytes(s)
}

/// Something that can be turned into the bytes a device buffer holds.
pub trait Storable {
    /// Whether the value has a wire form.
    spec fn storable(&self) -> bool;

    /// The bytes of the value's wire form.
    spec fn bytes(&self) -> Seq<u8>;

    fn into_bytes(&self) -> (r: Vec<u8>)
        requires
            self.storable(),
        ensures
            r@ == self.bytes(),
    ;
}

/// A record uploaded whole into a uniform buffer.
pub struct Uniform<'a, T>(pub &'a T);

/// A run of records uploaded into a storage buffer behind their count.
pub struct Buffer<'a, T>(pub &'a [T]);

impl<'a> Storable for Uniform<'a, Globals> {
    open spec fn storable(&self) -> bool {
        true
    }

    open spec fn bytes(&self) -> Seq<u8> {
        globals_bytes(*self.0)
    }

    fn into_bytes(&self) -> (r: Vec<u8>) {
        let mut out: Vec<u8> = Vec::new();
        push_le32(&mut out, self.0.dt_bits);
        push_le32(&mut out, self.0.time_bits);
        push_le32(&mut out, self.0.work_group_size);
        assert(out@ =~= globals_bytes(*self.0));
        out
    }
}

impl<'a> Storable for Buffer<'a, Agent> {
    open spec fn storable(&self) -> bool {
        self.0@.len() <= u32::MAX
    }

    open spec fn bytes(&self) -> Seq<u8> {
        agent_array_bytes(self.0@)
    }

    fn into_bytes(&self) -> (r: Vec<u8>) {
        let s = self.0;
        let mut out: Vec<u8> = Vec::new();
        push_le32(&mut out, s.len() as u32);
        push_le32(&mut out, 0);
        assert(le32(0) =~= seq![0u8, 0u8, 0u8, 0u8]);
        let ghost head = out@;
        let mut i: usize = 0;
        while i < s.len()
            invariant
                i <= s@.len(),
                out@ == head + agents_bytes(s@.subrange(0, i as int)),
            decreases s@.len() - i,
        {
            let a = s[i];
            push_le32(&mut out, a.position.0);
            push_le32(&mut out, a.position.1);
            push_le32(&mut out, a.velocity.0);
            push_le32(&mut out, a.velocity.1);
            proof {
                let next = s@.subrange(0, i + 1);
                assert(next.drop_last() =~= s@.subrange(0, i as int));
                assert(next.last() == a);
            }
            i = i + 1;
            assert(out@ =~= head + agents_bytes(s@.subrange(0, i as int)));
        }
        assert(s@.subrange(0, s@.len() as int) =~= s@);
        assert(out@ =~= agent_array_bytes(s@));
        out
    }
}

/// Each agent takes sixteen bytes.
pub proof fn lemma_agents_bytes_len(s: Seq<Agent>)
    ensures
        agents_bytes(s).len() == 16 * s.len(),
    decreases s.len(),
{
    if s.len() > 0 {
        lemma_agents_bytes_len(s.drop_last());
    }
}

/// Two agent arrays of one length have wire forms of one length and one
/// header: only the records' contents can differ.
pub proof fn lemma_same_count_same_layout(a: Seq<Agent>, b: Seq<Agent>)
    requires
        a.len() == b.len(),
        a.len() <= u32::MAX,
    ensures
        agent_array_bytes(a).len() == agent_array_bytes(b).len(),
        agent_array_bytes(a).len() == 8 + 16 * a.len(),
        agent_array_bytes(a).subrange(0, 8) == agent_array_bytes(b).subrange(0, 8),
{
    lemma_agents_bytes_len(a);
    lemma_agents_bytes_len(b);
    assert(agent_array_bytes(a).subrange(0, 8) =~= le32(a.len() as u32) + seq![0u8, 0u8, 0u8, 0u8]);
    assert(agent_array_bytes(b).subrange(0, 8) =~= le32(b.len() as u32) + seq![0u8, 0u8, 0u8, 0u8]);
}

/// The index list of the full-screen quad: two triangles over four corners.
pub fn quad_indices() -> (r: Vec<u32>)
    ensures
        r@ == seq![0u32, 1, 2, 2, 3, 0],
{
    let r: Vec<u32> = vec![0, 1, 2, 2, 3, 0];
    assert(r@ =~= seq![0u32, 1, 2, 2, 3, 0]);
    r
}

} // verus!
