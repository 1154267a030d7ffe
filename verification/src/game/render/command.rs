//! Unpack commands and their encoding into the word stream read by the unpack shader.
use vstd::prelude::*;

verus! {

/// A change of one grid cell, to be carried out on the GPU.
#[derive(Debug, Clone, Copy)]
pub enum UnpackCommand {
    /// The cell becomes empty.
    Clear { grid_idx: u32 },
    /// The cell gets map `map_idx`, filled with one material where `mask` is set.
    SetUniform { grid_idx: u32, map_idx: u32, material_idx: u32, mask: [u32; 16] },
    /// The cell gets map `map_idx`, with per-voxel materials stored in pallete `pallete_idx`.
    SetPallete {
        grid_idx: u32,
        map_idx: u32,
        pallete_idx: u32,
        mask: [u32; 16],
        pallete: [u32; 512],
    },
}

/// The words that stand for one command: its operation code, then its fields in order.
pub open spec fn encode(c: UnpackCommand) -> Seq<u32> {
    match c {
        UnpackCommand::Clear { grid_idx } => seq![0u32, grid_idx],
        UnpackCommand::SetUniform { grid_idx, map_idx, material_idx, mask } => seq![
            1u32,
            grid_idx,
            map_idx,
            material_idx,
        ] + mask@,
        UnpackCommand::SetPallete { grid_idx, map_idx, pallete_idx, mask, pallete } => seq![
            2u32,
            grid_idx,
            map_idx,
            pallete_idx,
        ] + mask@ + pallete@,
    }
}

/// The words of a list of commands, one after another.
pub open spec fn encode_all(cs: Seq<UnpackCommand>) -> Seq<u32>
    decreases cs.len(),
{
    if cs.len() == 0 {
        Seq::empty()
    } else {
        encode_all(cs.drop_last()) + encode(cs.last())
    }
}

/// For each command of the list, the position of its first word in `encode_all`, as a `u32`.
pub open spec fn offsets_of(cs: Seq<UnpackCommand>) -> Seq<u32>
    decreases cs.len(),
{
    if cs.len() == 0 {
        Seq::empty()
    } else {
        offsets_of(cs.drop_last()).push(encode_all(cs.drop_last()).len() as u32)
    }
}

/// The operation code of a command.
pub open spec fn opcode(c: UnpackCommand) -> u32 {
    match c {
        UnpackCommand::Clear { .. } => 0,
        UnpackCommand::SetUniform { .. } => 1,
        UnpackCommand::SetPallete { .. } => 2,
    }
}

/// Builds the word stream of a frame's unpack commands and the offset of each command.
#[derive(Debug)]
pub struct UnpackCommandEncoder {
    data: Vec<u32>,
    offsets: Vec<u32>,
}

impl UnpackCommandEncoder {
    /// Operation code of a clear command.
    pub const OP_CLEAR: u32 = 0;
    /// Operation code of a uniform set command.
    pub const OP_SET_UNIFORM: u32 = 1;
    /// Operation code of a pallete set command.
    pub const OP_SET_PALLETE: u32 = 2;

    /// The words written so far.
    pub closed spec fn data(&self) -> Seq<u32> {
        self.data@
    }

    /// The offsets written so far, one per command.
    pub closed spec fn offsets(&self) -> Seq<u32> {
        self.offsets@
    }

    /// An encoder with nothing written.
    pub fn new() -> (e: UnpackCommandEncoder)
        ensures
            e.data() == Seq::<u32>::empty(),
            e.offsets() == Seq::<u32>::empty(),
            e.data() == encode_all(Seq::empty()),
            e.offsets() == offsets_of(Seq::empty()),
    {
        UnpackCommandEncoder { data: Vec::new(), offsets: Vec::new() }
    }

    /// The words and the offsets.
    pub fn finish(self) -> (r: (Vec<u32>, Vec<u32>))
        ensures
            r.0@ == self.data(),
            r.1@ == self.offsets(),
    {
        (self.data, self.offsets)
    }

    /// Records the offset of `command`, the number of words written so far, and appends its
    /// words.
    pub fn write_command(&mut self, command: UnpackCommand)
        ensures
            final(self).data() == old(self).data() + encode(command),
            final(self).offsets() == old(self).offsets().push(old(self).data().len() as u32),
            forall|cs: Seq<UnpackCommand>|
                #![trigger encode_all(cs)]
                old(self).data() == encode_all(cs) && old(self).offsets() == offsets_of(cs)
                    ==> final(self).data() == encode_all(cs.push(command))
                    && final(self).offsets() == offsets_of(cs.push(command)),
    {
        let ghost start = self.data@;
        self.offsets.push(self.data.len() as u32);
        match command {
            UnpackCommand::Clear { grid_idx } => {
                self.data.push(Self::OP_CLEAR);
                self.data.push(grid_idx);
                assert(self.data@ =~= start + encode(command));
            },
            UnpackCommand::SetUniform { grid_idx, map_idx, material_idx, mask } => {
                self.data.push(Self::OP_SET_UNIFORM);
                self.data.push(grid_idx);
                self.data.push(map_idx);
                self.data.push(material_idx);
                extend_words(&mut self.data, &mask);
                assert(self.data@ =~= start + encode(command));
            },
            UnpackCommand::SetPallete { grid_idx, map_idx, pallete_idx, mask, pallete } => {
                self.data.push(Self::OP_SET_PALLETE);
                self.data.push(grid_idx);
                self.data.push(map_idx);
                self.data.push(pallete_idx);
                extend_words(&mut self.data, &mask);
                extend_words(&mut self.data, &pallete);
                assert(self.data@ =~= start + encode(command));
            },
        }
        proof {
            assert forall|cs: Seq<UnpackCommand>|
                #![trigger encode_all(cs)]
                old(self).data() == encode_all(cs) && old(self).offsets() == offsets_of(cs)
                    implies self.data() == encode_all(cs.push(command))
                    && self.offsets() == offsets_of(cs.push(command)) by {
                lemma_write_extends(cs, command, old(self).data(), old(self).offsets());
            }
        }
    }
}

/// Encodes the commands in order: the words of all of them, and the offset of each.
pub fn encode_commands(commands: &Vec<UnpackCommand>) -> (r: (Vec<u32>, Vec<u32>))
    ensures
        r.0@ == encode_all(commands@),
        r.1@ == offsets_of(commands@),
{
    let mut encoder = UnpackCommandEncoder::new();
    let mut i: usize = 0;
    while i < commands.len()
        invariant
            i <= commands@.len(),
            encoder.data() == encode_all(commands@.take(i as int)),
            encoder.offsets() == offsets_of(commands@.take(i as int)),
        decreases commands@.len() - i,
    {
        let c = commands[i];
        proof {
            assert(commands@.take(i as int).push(c) =~= commands@.take(i + 1));
        }
        encoder.write_command(c);
        i = i + 1;
    }
    proof {
        assert(commands@.take(commands@.len() as int) =~= commands@);
    }
    encoder.finish()
}

/// Appends `words` to `data`.
fn extend_words(data: &mut Vec<u32>, words: &[u32])
    ensures
        final(data)@ == old(data)@ + words@,
{
    let ghost start = data@;
    let mut i: usize = 0;
    while i < words.len()
        invariant
            i <= words@.len(),
            start == old(data)@,
            data@ == start + words@.subrange(0, i as int),
        decreases words@.len() - i,
    {
        data.push(words[i]);
        i = i + 1;
        assert(data@ =~= start + words@.subrange(0, i as int));
    }
    assert(words@.subrange(0, words@.len() as int) =~= words@);
}

/// Writing one more command keeps the encoder's words and offsets equal to the encoding of
/// all commands written so far.
pub proof fn lemma_write_extends(
    cs: Seq<UnpackCommand>,
    c: UnpackCommand,
    data: Seq<u32>,
    offsets: Seq<u32>,
)
    requires
        data == encode_all(cs),
        offsets == offsets_of(cs),
    ensures
        data + encode(c) == encode_all(cs.push(c)),
        offsets.push(data.len() as u32) == offsets_of(cs.push(c)),
{
    assert(cs.push(c).drop_last() =~= cs);
}

/// The offsets list has one entry per command, and when the stream fits `u32` offsets the
/// entry of command `i` is where its words start in the stream.
pub proof fn lemma_offsets_locate(cs: Seq<UnpackCommand>, i: int)
    requires
        0 <= i < cs.len(),
        encode_all(cs).len() <= u32::MAX,
    ensures
        offsets_of(cs).len() == cs.len(),
        offsets_of(cs)[i] + encode(cs[i]).len() <= encode_all(cs).len(),
        encode_all(cs).subrange(
            offsets_of(cs)[i] as int,
            offsets_of(cs)[i] + encode(cs[i]).len(),
        ) == encode(cs[i]),
        encode_all(cs)[offsets_of(cs)[i] as int] == opcode(cs[i]),
    decreases cs.len(),
{
    let init = cs.drop_last();
    lemma_offsets_len(init);
    if i == cs.len() - 1 {
        assert(encode_all(cs) == encode_all(init) + encode(cs.last()));
        assert(encode_all(cs).subrange(
            encode_all(init).len() as int,
            (encode_all(init).len() + encode(cs[i]).len()) as int,
        ) =~= encode(cs[i]));
    } else {
        lemma_offsets_locate(init, i);
        assert(init[i] == cs[i]);
        assert(encode_all(cs) == encode_all(init) + encode(cs.last()));
        assert(offsets_of(cs)[i] == offsets_of(init)[i]);
        assert(encode_all(cs).subrange(
            offsets_of(cs)[i] as int,
            offsets_of(cs)[i] + encode(cs[i]).len(),
        ) =~= encode_all(init).subrange(
            offsets_of(init)[i] as int,
            offsets_of(init)[i] + encode(init[i]).len(),
        ));
    }
    assert(encode(cs[i])[0] == opcode(cs[i]));
}

proof fn lemma_offsets_len(cs: Seq<UnpackCommand>)
    ensures
        offsets_of(cs).len() == cs.len(),
    decreases cs.len(),
{
    if cs.len() > 0 {
        lemma_offsets_len(cs.drop_last());
    }
}

/// The number of words of the commands together.
pub open spec fn words_len(cs: Seq<UnpackCommand>) -> int
    decreases cs.len(),
{
    if cs.len() == 0 {
        0
    } else {
        words_len(cs.drop_last()) + encode(cs.last()).len()
    }
}

/// The stream of the commands is as long as their encodings together, there is one offset
/// per command, and the first command starts at word 0.
pub proof fn lemma_stream_shape(cs: Seq<UnpackCommand>)
    ensures
        encode_all(cs).len() == words_len(cs),
        offsets_of(cs).len() == cs.len(),
        cs.len() > 0 ==> offsets_of(cs)[0] == 0,
    decreases cs.len(),
{
    if cs.len() > 0 {
        lemma_stream_shape(cs.drop_last());
        if cs.len() > 1 {
            assert(offsets_of(cs)[0] == offsets_of(cs.drop_last())[0]);
        }
    }
}

/// When the stream fits `u32` offsets, each command starts where the one before it ends:
/// its offset is the previous offset plus the previous command's words.
pub proof fn lemma_offsets_consecutive(cs: Seq<UnpackCommand>, i: int)
    requires
        0 <= i,
        i + 1 < cs.len(),
        encode_all(cs).len() <= u32::MAX,
    ensures
        offsets_of(cs)[i + 1] == offsets_of(cs)[i] + encode(cs[i]).len(),
    decreases cs.len(),
{
    let init = cs.drop_last();
    lemma_offsets_len(init);
    assert(encode_all(cs) == encode_all(init) + encode(cs.last()));
    if i + 1 == cs.len() - 1 {
        let pre = init.drop_last();
        assert(encode_all(init) == encode_all(pre) + encode(init.last()));
        assert(init.last() == cs[i]);
        assert(offsets_of(cs)[i] == offsets_of(init)[i]);
    } else {
        lemma_offsets_consecutive(init, i);
        assert(offsets_of(cs)[i] == offsets_of(init)[i]);
        assert(offsets_of(cs)[i + 1] == offsets_of(init)[i + 1]);
        assert(init[i] == cs[i]);
    }
}

/// The words of a command, field by field: a clear is `0` and the grid index; a uniform set
/// is `1`, the grid index, the map index, the material index and the 16 mask words; a pallete
/// set is `2`, the grid index, the map index, the pallete index, the 16 mask words and the
/// 512 pallete words.
pub proof fn lemma_encode_fields(c: UnpackCommand)
    ensures
        match c {
            UnpackCommand::Clear { grid_idx } => {
                &&& encode(c).len() == 2
                &&& encode(c)[0] == 0u32
                &&& encode(c)[1] == grid_idx
            },
            UnpackCommand::SetUniform { grid_idx, map_idx, material_idx, mask } => {
                &&& encode(c).len() == 20
                &&& encode(c)[0] == 1u32
                &&& encode(c)[1] == grid_idx
                &&& encode(c)[2] == map_idx
                &&& encode(c)[3] == material_idx
                &&& forall|j: int| 0 <= j < 16 ==> encode(c)[4 + j] == mask@[j]
            },
            UnpackCommand::SetPallete { grid_idx, map_idx, pallete_idx, mask, pallete } => {
                &&& encode(c).len() == 532
                &&& encode(c)[0] == 2u32
                &&& encode(c)[1] == grid_idx
                &&& encode(c)[2] == map_idx
                &&& encode(c)[3] == pallete_idx
                &&& forall|j: int| 0 <= j < 16 ==> encode(c)[4 + j] == mask@[j]
                &&& forall|j: int| 0 <= j < 512 ==> encode(c)[20 + j] == pallete@[j]
            },
        },
{
}

/// In the stream of the commands, when it fits `u32` offsets, command `i` is found at its
/// offset field by field: its opcode, then its grid index, its map index, its material or
/// pallete index, then its mask and pallete words.
pub proof fn lemma_stream_fields(cs: Seq<UnpackCommand>, i: int)
    requires
        0 <= i < cs.len(),
        encode_all(cs).len() <= u32::MAX,
    ensures
        ({
            let d = encode_all(cs);
            let o = offsets_of(cs)[i] as int;
            match cs[i] {
                UnpackCommand::Clear { grid_idx } => {
                    &&& o + 2 <= d.len()
                    &&& d[o] == 0u32
                    &&& d[o + 1] == grid_idx
                },
                UnpackCommand::SetUniform { grid_idx, map_idx, material_idx, mask } => {
                    &&& o + 20 <= d.len()
                    &&& d[o] == 1u32
                    &&& d[o + 1] == grid_idx
                    &&& d[o + 2] == map_idx
                    &&& d[o + 3] == material_idx
                    &&& forall|j: int| 0 <= j < 16 ==> d[o + 4 + j] == mask@[j]
                },
                UnpackCommand::SetPallete { grid_idx, map_idx, pallete_idx, mask, pallete } => {
                    &&& o + 532 <= d.len()
                    &&& d[o] == 2u32
                    &&& d[o + 1] == grid_idx
                    &&& d[o + 2] == map_idx
                    &&& d[o + 3] == pallete_idx
                    &&& forall|j: int| 0 <= j < 16 ==> d[o + 4 + j] == mask@[j]
                    &&& forall|j: int| 0 <= j < 512 ==> d[o + 20 + j] == pallete@[j]
                },
            }
        }),
{
    lemma_offsets_locate(cs, i);
    lemma_encode_fields(cs[i]);
    let d = encode_all(cs);
    let o = offsets_of(cs)[i] as int;
    let e = encode(cs[i]);
    assert forall|k: int| 0 <= k < e.len() implies d[o + k] == e[k] by {
        assert(d.subrange(o, o + e.len())[k] == d[o + k]);
    }
    match cs[i] {
        UnpackCommand::Clear { .. } => {
            assert(d[o + 1] == e[1]);
        },
        UnpackCommand::SetUniform { mask, .. } => {
            assert(d[o + 1] == e[1] && d[o + 2] == e[2] && d[o + 3] == e[3]);
            assert forall|j: int| 0 <= j < 16 implies d[o + 4 + j] == mask@[j] by {
                assert(d[o + (4 + j)] == e[4 + j]);
            }
        },
        UnpackCommand::SetPallete { mask, pallete, .. } => {
            assert(d[o + 1] == e[1] && d[o + 2] == e[2] && d[o + 3] == e[3]);
            assert forall|j: int| 0 <= j < 16 implies d[o + 4 + j] == mask@[j] by {
                assert(d[o + (4 + j)] == e[4 + j]);
            }
            assert forall|j: int| 0 <= j < 512 implies d[o + 20 + j] == pallete@[j] by {
                assert(d[o + (20 + j)] == e[20 + j]);
            }
        },
    }
}

} // verus!
