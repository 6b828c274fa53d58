//! Tensor arena: one contiguous block of 32-bit words split into three
//! sections.
//!
//! 1. Weights: model parameters, loaded once from a byte buffer.
//! 2. Activations: workspace for layer outputs, zeroed before each run.
//! 3. IO: the gateway through which requests enter and results leave.
//!
//! Each word holds the bit pattern of one `f32` element; the arena itself
//! never does arithmetic on the elements, it only stores, copies and zeroes
//! them.
use vstd::prelude::*;
use vstd::endian::{endianness, Endian};

verus! {

/// Memory section of the arena.
#[derive(Debug, Clone, Copy, PartialEq, Eq, Structural)]
pub enum Section {
    Weights,
    Activations,
    IO,
}

/// A read-only view of a run of arena words, with the shape it is read as.
#[derive(Debug)]
pub struct TensorView<'a, T> {
    data: &'a [T],
    shape: Vec<usize>,
}

/// A writable view of a run of arena words, with the shape it is read as.
///
/// Writes through `data` land in the arena once the view is dropped. The
/// fields are public so that contracts can speak of the final value of the
/// borrowed words.
#[derive(Debug)]
pub struct TensorViewMut<'a, T> {
    pub data: &'a mut [T],
    pub shape: Vec<usize>,
}

impl<'a, T> TensorView<'a, T> {
    /// The elements of the view.
    pub closed spec fn elems(&self) -> Seq<T> {
        self.data@
    }

    /// The shape the view was taken with.
    pub closed spec fn dims(&self) -> Seq<usize> {
        self.shape@
    }

    #[inline]
    pub fn data(&self) -> (r: &[T])
        ensures
            r@ == self.elems(),
    {
        self.data
    }

    #[inline]
    pub fn shape(&self) -> (r: &[usize])
        ensures
            r@ == self.dims(),
    {
        self.shape.as_slice()
    }

    #[inline]
    pub fn len(&self) -> (r: usize)
        ensures
            r == self.elems().len(),
    {
        self.data.len()
    }

    #[inline]
    pub fn is_empty(&self) -> (r: bool)
        ensures
            r == (self.elems().len() == 0),
    {
        self.data.is_empty()
    }
}

impl<'a, T> TensorViewMut<'a, T> {
    /// The elements the view currently holds.
    pub open spec fn elems(&self) -> Seq<T> {
        self.data@
    }

    #[inline]
    pub fn data(&self) -> (r: &[T])
        ensures
            r@ == self.elems(),
    {
        self.data
    }

    /// Hands out the view's elements for writing; what is written ends up in
    /// the view, and through it in the arena.
    #[inline]
    pub fn data_mut(&mut self) -> (r: &mut [T])
        ensures
            r@ == old(self).data@,
            final(self).data@ == final(r)@,
            final(final(self).data)@ == final(old(self).data)@,
            final(self).shape@ == old(self).shape@,
    {
        self.data
    }

    #[inline]
    pub fn shape(&self) -> (r: &[usize])
        ensures
            r@ == self.shape@,
    {
        self.shape.as_slice()
    }
}

/// Where one section lies in the arena.
#[derive(Debug, Clone, Copy)]
struct SectionLayout {
    offset: usize,
    size: usize,
    section: Section,
}

/// The contents of an arena, section by section.
pub struct ArenaModel {
    pub weights: Seq<u32>,
    pub activations: Seq<u32>,
    pub io: Seq<u32>,
}

impl ArenaModel {
    pub open spec fn section(self, s: Section) -> Seq<u32> {
        match s {
            Section::Weights => self.weights,
            Section::Activations => self.activations,
            Section::IO => self.io,
        }
    }

    /// The same contents with section `s` replaced by `words`.
    pub open spec fn with_section(self, s: Section, words: Seq<u32>) -> ArenaModel {
        match s {
            Section::Weights => ArenaModel { weights: words, ..self },
            Section::Activations => ArenaModel { activations: words, ..self },
            Section::IO => ArenaModel { io: words, ..self },
        }
    }

    /// The same contents with `words` written into section `s` from `offset` on.
    pub open spec fn write(self, s: Section, offset: int, words: Seq<u32>) -> ArenaModel {
        let old_words = self.section(s);
        self.with_section(
            s,
            old_words.subrange(0, offset) + words + old_words.subrange(
                offset + words.len(),
                old_words.len() as int,
            ),
        )
    }
}

/// `n` zero words: the bit pattern of `n` elements equal to `0.0`.
pub open spec fn zeros(n: nat) -> Seq<u32> {
    Seq::new(n, |i: int| 0u32)
}

/// The word whose little-endian bytes are `b`.
pub open spec fn le_word(b: Seq<u8>) -> u32 {
    (b[0] as int + 0x100 * b[1] + 0x1_0000 * b[2] + 0x100_0000 * b[3]) as u32
}

/// The word whose big-endian bytes are `b`.
pub open spec fn be_word(b: Seq<u8>) -> u32 {
    (b[3] as int + 0x100 * b[2] + 0x1_0000 * b[1] + 0x100_0000 * b[0]) as u32
}

/// The word that the four bytes `b` hold in this machine's byte order.
pub open spec fn native_word(b: Seq<u8>) -> u32 {
    match endianness() {
        Endian::Little => le_word(b),
        Endian::Big => be_word(b),
    }
}

/// The words that `bytes` hold, four bytes each, in this machine's byte order.
pub open spec fn words_of_bytes(bytes: Seq<u8>) -> Seq<u32> {
    Seq::new(bytes.len() / 4, |i: int| native_word(bytes.subrange(4 * i, 4 * i + 4)))
}

/// Reads one word from four bytes in the machine's byte order.
///
/// Calls `bytemuck::pod_read_unaligned::<u32>`, which copies the four bytes
/// into a `u32`; its contract says that the result is the native-order word.
#[verifier::external_body]
fn read_word(bytes: &[u8]) -> (w: u32)
    requires
        bytes@.len() == 4,
    ensures
        w == native_word(bytes@),
{
    bytemuck::pod_read_unaligned::<u32>(bytes)
}

/// The arena: a single contiguous block for all inference memory.
pub struct Arena {
    data: Vec<u32>,
    capacity: usize,
    sections: Vec<SectionLayout>,
}

/// Largest number of elements an arena can hold: its size in bytes must fit
/// an `isize`.
pub open spec fn max_arena_elems() -> int {
    isize::MAX / 4
}

impl Arena {
    /// The arena's contents, section by section.
    pub closed spec fn model(&self) -> ArenaModel {
        model_of(self.data@, self.sections@)
    }
}

impl Arena {
    /// The sections lie back to back in the order weights, activations, IO,
    /// and fill the whole block.
    pub closed spec fn wf(&self) -> bool {
        &&& layout_wf(self.sections@, self.data@.len())
        &&& self.data@.len() == self.capacity
        &&& self.capacity <= max_arena_elems()
    }

    /// Total number of elements across the three sections.
    pub closed spec fn spec_capacity(&self) -> nat {
        self.capacity as nat
    }


    spec fn layout_of(&self, s: Section) -> SectionLayout {
        match s {
            Section::Weights => self.sections@[0],
            Section::Activations => self.sections@[1],
            Section::IO => self.sections@[2],
        }
    }

    /// Creates an arena with the given section sizes, every element zero.
    pub fn new(weights_size: usize, activations_size: usize, io_size: usize) -> (r: Self)
        requires
            weights_size + activations_size + io_size <= max_arena_elems(),
        ensures
            r.wf(),
            r.model().weights == zeros(weights_size as nat),
            r.model().activations == zeros(activations_size as nat),
            r.model().io == zeros(io_size as nat),
            r.spec_capacity() == weights_size + activations_size + io_size,
    {
        let total_capacity = weights_size + activations_size + io_size;
        let mut data: Vec<u32> = Vec::with_capacity(total_capacity);
        let mut i: usize = 0;
        while i < total_capacity
            invariant
                i <= total_capacity,
                data@ == zeros(i as nat),
            decreases total_capacity - i,
        {
            data.push(0);
            i = i + 1;
        }
        let mut sections: Vec<SectionLayout> = Vec::with_capacity(3);
        let mut offset: usize = 0;
        sections.push(SectionLayout { offset, size: weights_size, section: Section::Weights });
        offset = offset + weights_size;
        sections.push(
            SectionLayout { offset, size: activations_size, section: Section::Activations },
        );
        offset = offset + activations_size;
        sections.push(SectionLayout { offset, size: io_size, section: Section::IO });
        let r = Arena { data, capacity: total_capacity, sections };
        assert(r.model().weights =~= zeros(weights_size as nat));
        assert(r.model().activations =~= zeros(activations_size as nat));
        assert(r.model().io =~= zeros(io_size as nat));
        r
    }

    /// Total number of elements across the three sections.
    pub fn capacity(&self) -> (r: usize)
        ensures
            r == self.spec_capacity(),
    {
        self.capacity
    }

    #[inline]
    fn get_section(&self, section: Section) -> (r: &SectionLayout)
        requires
            self.wf(),
        ensures
            *r == self.layout_of(section),
    {
        let mut i: usize = 0;
        while i < self.sections.len()
            invariant
                self.wf(),
                i <= 3,
                forall|j: int| 0 <= j < i ==> self.sections@[j].section != section,
            decreases 3 - i,
        {
            if self.sections[i].section == section {
                return &self.sections[i];
            }
            i = i + 1;
        }
        proof {
            assert(self.sections@[(section_index(section)) as int].section == section);
        }
        &self.sections[0]
    }

    /// A view of `len` elements of `section`, starting `offset` elements in.
    pub fn view(&self, section: Section, offset: usize, len: usize, shape: Vec<usize>) -> (r:
        TensorView<'_, u32>)
        requires
            self.wf(),
            offset + len <= self.model().section(section).len(),
        ensures
            r.elems() == self.model().section(section).subrange(offset as int, offset + len),
            r.dims() == shape@,
    {
        let section_layout = self.get_section(section);
        let absolute_offset = section_layout.offset + offset;
        let whole = self.data.as_slice();
        let data = &whole[absolute_offset..absolute_offset + len];
        assert(data@ =~= self.model().section(section).subrange(offset as int, offset + len));
        TensorView { data, shape }
    }

    /// A writable view of `len` elements of `section`, starting `offset`
    /// elements in. What is written through it replaces those elements; the
    /// rest of the arena is left as it was.
    pub fn view_mut(&mut self, section: Section, offset: usize, len: usize, shape: Vec<usize>) -> (r:
        TensorViewMut<'_, u32>)
        requires
            old(self).wf(),
            offset + len <= old(self).model().section(section).len(),
        ensures
            r.data@ == old(self).model().section(section).subrange(offset as int, offset + len),
            r.shape@ == shape@,
            final(r.data)@.len() == len ==> {
                &&& final(self).wf()
                &&& final(self).spec_capacity() == old(self).spec_capacity()
                &&& final(self).model() == old(self).model().write(section, offset as int, final(r.data)@)
            },
    {
        let ghost old_data = self.data@;
        let section_layout = self.get_section(section);
        let absolute_offset = section_layout.offset + offset;
        let ghost lay = *section_layout;
        let whole = self.data.as_mut_slice();
        let ghost final_whole = final(whole)@;
        let (_before, rest) = whole.split_at_mut(absolute_offset);
        let (data, _after) = rest.split_at_mut(len);
        assert(data@ =~= old(self).model().section(section).subrange(offset as int, offset + len));
        proof {
            lemma_model_write(old_data, final_whole, old(self).sections@, section, offset as int, final(data)@);
        }
        TensorViewMut { data, shape }
    }

    /// All elements of `section`.
    pub fn section_slice(&self, section: Section) -> (r: &[u32])
        requires
            self.wf(),
        ensures
            r@ == self.model().section(section),
    {
        let layout = self.get_section(section);
        let whole = self.data.as_slice();
        let r = &whole[layout.offset..layout.offset + layout.size];
        assert(r@ =~= self.model().section(section));
        r
    }

    /// All elements of `section`, for writing.
    pub fn section_slice_mut(&mut self, section: Section) -> (r: &mut [u32])
        requires
            old(self).wf(),
        ensures
            r@ == old(self).model().section(section),
            final(r)@.len() == r@.len() ==> {
                &&& final(self).wf()
                &&& final(self).spec_capacity() == old(self).spec_capacity()
                &&& final(self).model() == old(self).model().with_section(section, final(r)@)
            },
    {
        let ghost old_data = self.data@;
        let layout = self.get_section(section);
        let ghost lay = *layout;
        let start = layout.offset;
        let size = layout.size;
        let whole = self.data.as_mut_slice();
        let ghost final_whole = final(whole)@;
        let (_before, rest) = whole.split_at_mut(start);
        let (data, _after) = rest.split_at_mut(size);
        assert(data@ =~= old(self).model().section(section));
        proof {
            lemma_model_write(old_data, final_whole, old(self).sections@, section, 0, final(data)@);
            lemma_write_whole(old(self).model(), section, final(data)@);
        }
        data
    }

    /// Zeroes the activation section, leaving weights and IO as they were.
    #[inline]
    pub fn clear_activations(&mut self)
        requires
            old(self).wf(),
        ensures
            final(self).wf(),
            final(self).spec_capacity() == old(self).spec_capacity(),
            final(self).model() == old(self).model().with_section(
                Section::Activations,
                zeros(old(self).model().activations.len()),
            ),
    {
        let layout = self.get_section(Section::Activations);
        let start = layout.offset;
        let end = layout.offset + layout.size;
        let ghost old_data = self.data@;
        let mut i = start;
        while i < end
            invariant
                self.wf(),
                self.sections@ == old(self).sections@,
                self.capacity == old(self).capacity,
                start == self.sections@[1].offset,
                end == self.sections@[1].offset + self.sections@[1].size,
                start <= i <= end,
                self.data@.len() == old_data.len(),
                forall|j: int| 0 <= j < start ==> self.data@[j] == old_data[j],
                forall|j: int| end <= j < old_data.len() ==> self.data@[j] == old_data[j],
                forall|j: int| start <= j < i ==> self.data@[j] == 0u32,
            decreases end - i,
        {
            self.data.set(i, 0);
            i = i + 1;
        }
        assert(self.model().weights =~= old(self).model().weights);
        assert(self.model().io =~= old(self).model().io);
        assert(self.model().activations =~= zeros(old(self).model().activations.len()));
    }

    /// Fills the weight section from a byte buffer, four bytes per element in
    /// the machine's byte order.
    ///
    /// Fails with `SizeMismatch` when the buffer's length is not the weight
    /// section's size in bytes; the arena is then left as it was.
    pub fn load_weights(&mut self, data: &[u8]) -> (r: Result<(), ArenaError>)
        requires
            old(self).wf(),
        ensures
            final(self).wf(),
            final(self).spec_capacity() == old(self).spec_capacity(),
            data@.len() == 4 * old(self).model().weights.len() <==> r is Ok,
            r is Ok ==> final(self).model() == old(self).model().with_section(
                Section::Weights,
                words_of_bytes(data@),
            ),
            r is Err ==> final(self).model() == old(self).model() && r == Err::<(), ArenaError>(
                ArenaError::SizeMismatch {
                    expected: (4 * old(self).model().weights.len()) as usize,
                    actual: data@.len() as usize,
                },
            ),
    {
        let layout = self.get_section(Section::Weights);
        let start = layout.offset;
        let size = layout.size;
        let expected = size * 4;
        if data.len() != expected {
            return Err(ArenaError::SizeMismatch { expected, actual: data.len() });
        }
        let ghost old_data = self.data@;
        let ghost target = words_of_bytes(data@);
        let mut i: usize = 0;
        while i < size
            invariant
                self.wf(),
                self.sections@ == old(self).sections@,
                self.capacity == old(self).capacity,
                start == 0,
                start == self.sections@[0].offset,
                size == self.sections@[0].size,
                data@.len() == 4 * size,
                target == words_of_bytes(data@),
                i <= size,
                self.data@.len() == old_data.len(),
                forall|j: int| size <= j < old_data.len() ==> self.data@[j] == old_data[j],
                forall|j: int| 0 <= j < i ==> self.data@[j] == target[j],
            decreases size - i,
        {
            let chunk = &data[4 * i..4 * i + 4];
            let word = read_word(chunk);
            assert(chunk@ =~= data@.subrange(4 * i, 4 * i + 4));
            self.data.set(start + i, word);
            i = i + 1;
        }
        assert(self.model().weights =~= target);
        assert(self.model().activations =~= old(self).model().activations);
        assert(self.model().io =~= old(self).model().io);
        Ok(())
    }
}

spec fn model_of(data: Seq<u32>, sections: Seq<SectionLayout>) -> ArenaModel {
    let w = sections[0];
    let a = sections[1];
    let io = sections[2];
    ArenaModel {
        weights: data.subrange(w.offset as int, w.offset + w.size),
        activations: data.subrange(a.offset as int, a.offset + a.size),
        io: data.subrange(io.offset as int, io.offset + io.size),
    }
}

spec fn layout_wf(sections: Seq<SectionLayout>, len: nat) -> bool {
    let w = sections[0];
    let a = sections[1];
    let io = sections[2];
    &&& sections.len() == 3
    &&& w.section == Section::Weights
    &&& a.section == Section::Activations
    &&& io.section == Section::IO
    &&& w.offset == 0
    &&& a.offset == w.offset + w.size
    &&& io.offset == a.offset + a.size
    &&& len == io.offset + io.size
}

/// Overwriting part of one section's words changes that section as a write
/// does and leaves the other two sections alone.
proof fn lemma_model_write(
    data: Seq<u32>,
    new_data: Seq<u32>,
    sections: Seq<SectionLayout>,
    s: Section,
    off: int,
    w: Seq<u32>,
)
    requires
        layout_wf(sections, data.len()),
        0 <= off <= model_of(data, sections).section(s).len(),
    ensures
        ({
            let base = sections[section_index(s)].offset + off;
            (off + w.len() <= model_of(data, sections).section(s).len() && new_data =~= data.subrange(0, base) + w + data.subrange(
                base + w.len(),
                data.len() as int,
            )) ==> {
                &&& new_data.len() == data.len()
                &&& layout_wf(sections, new_data.len())
                &&& model_of(new_data, sections) == model_of(data, sections).write(s, off, w)
            }
        }),
{
    let m = model_of(data, sections);
    let base = sections[section_index(s)].offset + off;
    if off + w.len() > m.section(s).len() || !(new_data =~= data.subrange(0, base) + w
        + data.subrange(base + w.len(), data.len() as int)) {
        return;
    }
    let n = model_of(new_data, sections);
    let t = m.write(s, off, w);
    assert(n.weights =~= t.weights);
    assert(n.activations =~= t.activations);
    assert(n.io =~= t.io);
}

/// Writing a whole section's worth of words at its start replaces it.
proof fn lemma_write_whole(m: ArenaModel, s: Section, w: Seq<u32>)
    ensures
        w.len() == m.section(s).len() ==> m.write(s, 0, w) == m.with_section(s, w),
{
    if w.len() == m.section(s).len() {
        assert(m.write(s, 0, w).section(s) =~= w);
        assert(m.write(s, 0, w).weights =~= m.with_section(s, w).weights);
        assert(m.write(s, 0, w).activations =~= m.with_section(s, w).activations);
        assert(m.write(s, 0, w).io =~= m.with_section(s, w).io);
    }
}

spec fn section_index(s: Section) -> int {
    match s {
        Section::Weights => 0,
        Section::Activations => 1,
        Section::IO => 2,
    }
}

/// Errors of arena operations.
#[derive(Debug, Clone, PartialEq, Eq, Structural)]
pub enum ArenaError {
    SizeMismatch { expected: usize, actual: usize },
    SectionNotFound(Section),
}


// ---------------------------------------------------------------------------
// Laws
// ---------------------------------------------------------------------------
/// The arena's capacity is the sum of its three sections' sizes.
pub proof fn law_capacity_is_sum(arena: &Arena)
    requires
        arena.wf(),
    ensures
        arena.spec_capacity() == arena.model().weights.len() + arena.model().activations.len()
            + arena.model().io.len(),
{
}

/// Reading back what was written: after `words` are written into section `s`
/// at `offset`, that range of the section holds `words`, the section keeps
/// its size, and the other two sections are untouched.
pub proof fn law_read_after_write(m: ArenaModel, s: Section, offset: int, words: Seq<u32>)
    requires
        0 <= offset,
        offset + words.len() <= m.section(s).len(),
    ensures
        m.write(s, offset, words).section(s).subrange(offset, offset + words.len()) == words,
        m.write(s, offset, words).section(s).len() == m.section(s).len(),
        forall|t: Section| t != s ==> #[trigger] m.write(s, offset, words).section(t) == m.section(t),
{
    assert(m.write(s, offset, words).section(s).subrange(offset, offset + words.len()) =~= words);
}

/// Clearing the activations is idempotent and leaves weights and IO alone.
pub proof fn law_clear_activations(m: ArenaModel)
    ensures
        ({
            let cleared = m.with_section(Section::Activations, zeros(m.activations.len()));
            &&& cleared.weights == m.weights
            &&& cleared.io == m.io
            &&& cleared.with_section(Section::Activations, zeros(cleared.activations.len())) == cleared
        }),
{
}

} // verus!
