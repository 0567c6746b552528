//! The state of a frame and the contents of the uniform block.
use vstd::prelude::*;
use vstd::bytes::{
    lemma_auto_spec_u16_to_from_le_bytes, lemma_auto_spec_u32_to_from_le_bytes,
    spec_u16_to_le_bytes, spec_u32_to_le_bytes, u16_to_le_bytes, u32_to_le_bytes,
};
use crate::pp::strings_view;
use crate::precision::{clamp_unit, half_of, to_half, unit_clamped};
use crate::utils::{find_named, names_of, position, Named};

verus! {

/// The size in bytes of the uniform block: four scalars of four bytes, then
/// the custom uniforms, four bytes each in full precision and two bytes each,
/// padded to a whole word, in reduced precision.
pub open spec fn block_bytes(customs: nat, full: bool) -> nat {
    if full {
        16 + 4 * customs
    } else {
        16 + 4 * ((customs + 1) / 2)
    }
}

/// Computes [`block_bytes`].
pub fn uniform_block_bytes(customs: usize, full: bool) -> (bytes: u32)
    requires
        block_bytes(customs as nat, full) <= u32::MAX,
    ensures
        bytes == block_bytes(customs as nat, full),
{
    let n: u64 = customs as u64;
    let wide: u64 = if full {
        16 + 4 * n
    } else {
        16 + 4 * ((n + 1) / 2)
    };
    wide as u32
}

/// One custom uniform and its current value, a single-precision float given
/// by its bits.
#[derive(Debug)]
pub struct CustomFloat {
    pub name: String,
    pub value: u32,
}

impl Named for CustomFloat {
    open spec fn name_view(&self) -> Seq<char> {
        self.name@
    }

    fn name_ref(&self) -> (s: &String) {
        &self.name
    }
}

/// The mathematical content of a [`FrameState`]. Floats are given by the bits
/// of their single-precision form.
pub struct FrameSpec {
    /// The seconds since the program started.
    pub time: u32,
    /// The pointer, each coordinate between 0.0 and 1.0.
    pub mouse_x: u32,
    pub mouse_y: u32,
    /// Whether the pointer is pressed.
    pub mouse_click: bool,
    /// The custom uniforms by name, with their values.
    pub custom: Seq<(Seq<char>, u32)>,
    /// Whether the next program stores custom uniforms in full precision.
    pub pass_f32: bool,
}

impl FrameSpec {
    /// The state at the start: time zero, the pointer released in the corner,
    /// no custom uniforms, full precision.
    pub open spec fn initial() -> FrameSpec {
        FrameSpec {
            time: 0,
            mouse_x: 0,
            mouse_y: 0,
            mouse_click: false,
            custom: Seq::empty(),
            pass_f32: true,
        }
    }
}

/// The names of the custom uniforms that a frame has values for.
pub open spec fn custom_names(custom: Seq<(Seq<char>, u32)>) -> Seq<Seq<char>> {
    Seq::new(custom.len(), |i: int| custom[i].0)
}

/// The value of the custom uniform with the given name: that of the last
/// entry with the name, and 0.0 where there is none.
pub open spec fn custom_value(custom: Seq<(Seq<char>, u32)>, name: Seq<char>) -> u32 {
    match position(custom_names(custom), name) {
        Some(k) => custom[k as int].1,
        None => 0,
    }
}

/// The names and values that two lists of the same length pair up.
pub open spec fn paired(names: Seq<Seq<char>>, values: Seq<u32>) -> Seq<(Seq<char>, u32)> {
    Seq::new(names.len(), |i: int| (names[i], values[i]))
}

/// Why a change of the frame state was refused.
#[derive(Clone, Copy, Debug, PartialEq, Eq, Structural)]
pub enum FrameError {
    /// The list of names and the list of values differ in length.
    LengthMismatch { names: usize, values: usize },
}

/// The live input of a frame: time, pointer and custom uniform values.
#[derive(Debug)]
pub struct FrameState {
    time: u32,
    mouse_x: u32,
    mouse_y: u32,
    mouse_click: bool,
    custom: Vec<CustomFloat>,
    pass_f32: bool,
}

impl View for FrameState {
    type V = FrameSpec;

    closed spec fn view(&self) -> FrameSpec {
        FrameSpec {
            time: self.time,
            mouse_x: self.mouse_x,
            mouse_y: self.mouse_y,
            mouse_click: self.mouse_click,
            custom: Seq::new(
                self.custom@.len(),
                |i: int| (self.custom@[i].name@, self.custom@[i].value),
            ),
            pass_f32: self.pass_f32,
        }
    }
}

impl FrameState {
    /// The state at the start: time zero, the pointer released in the corner,
    /// no custom uniforms, full precision.
    pub fn new() -> (state: FrameState)
        ensures
            state@ == FrameSpec::initial(),
    {
        let state = FrameState {
            time: 0,
            mouse_x: 0,
            mouse_y: 0,
            mouse_click: false,
            custom: Vec::new(),
            pass_f32: true,
        };
        assert(state@.custom =~= Seq::empty());
        state
    }

    /// Sets the elapsed time in seconds.
    pub fn set_time_elapsed(&mut self, seconds: u32)
        ensures
            final(self)@ == (FrameSpec { time: seconds, ..old(self)@ }),
    {
        self.time = seconds;
    }

    /// Sets the position of the pointer, each coordinate clamped to the range
    /// from 0.0 to 1.0.
    pub fn set_mouse_pos(&mut self, x: u32, y: u32)
        ensures
            final(self)@ == (FrameSpec {
                mouse_x: unit_clamped(x),
                mouse_y: unit_clamped(y),
                ..old(self)@
            }),
    {
        self.mouse_x = clamp_unit(x);
        self.mouse_y = clamp_unit(y);
    }

    /// Sets whether the pointer is pressed.
    pub fn set_mouse_click(&mut self, pressed: bool)
        ensures
            final(self)@ == (FrameSpec { mouse_click: pressed, ..old(self)@ }),
    {
        self.mouse_click = pressed;
    }

    /// Chooses the precision of the custom uniforms of the next program.
    pub fn set_pass_f32(&mut self, full: bool)
        ensures
            final(self)@ == (FrameSpec { pass_f32: full, ..old(self)@ }),
    {
        self.pass_f32 = full;
    }

    /// Replaces all custom uniforms by the given names with the given values.
    /// Lists of different lengths are refused, and nothing changes.
    pub fn set_custom_floats(&mut self, names: Vec<String>, values: Vec<u32>) -> (r: Result<
        (),
        FrameError,
    >)
        ensures
            names.len() == values.len() ==> r is Ok && final(self)@ == (FrameSpec {
                custom: paired(strings_view(names@), values@),
                ..old(self)@
            }),
            names.len() != values.len() ==> r == Err::<(), FrameError>(
                FrameError::LengthMismatch { names: names.len(), values: values.len() },
            ) && final(self)@ == old(self)@,
    {
        if names.len() != values.len() {
            return Err(FrameError::LengthMismatch { names: names.len(), values: values.len() });
        }
        let ghost wanted = paired(strings_view(names@), values@);
        let mut custom: Vec<CustomFloat> = Vec::new();
        let mut i: usize = 0;
        while i < names.len()
            invariant
                i <= names.len() == values.len(),
                custom.len() == i,
                forall|j: int|
                    0 <= j < i ==> (#[trigger] custom@[j]).name@ == names@[j]@ && custom@[j].value
                        == values@[j],
            decreases names.len() - i,
        {
            custom.push(CustomFloat { name: names[i].clone(), value: values[i] });
            i += 1;
        }
        self.custom = custom;
        assert(self@.custom =~= wanted);
        Ok(())
    }

    /// The elapsed time in seconds.
    pub fn time_elapsed(&self) -> (seconds: u32)
        ensures
            seconds == self@.time,
    {
        self.time
    }

    /// The position of the pointer.
    pub fn mouse_pos(&self) -> (pos: (u32, u32))
        ensures
            pos == (self@.mouse_x, self@.mouse_y),
    {
        (self.mouse_x, self.mouse_y)
    }

    /// Whether the pointer is pressed.
    pub fn mouse_click(&self) -> (pressed: bool)
        ensures
            pressed == self@.mouse_click,
    {
        self.mouse_click
    }

    /// The precision of the custom uniforms of the next program.
    pub fn pass_f32(&self) -> (full: bool)
        ensures
            full == self@.pass_f32,
    {
        self.pass_f32
    }

    /// The current value of the custom uniform with the given name.
    pub fn custom_float(&self, name: &String) -> (value: u32)
        ensures
            value == custom_value(self@.custom, name@),
    {
        assert(names_of(self.custom@) =~= custom_names(self@.custom));
        match find_named(&self.custom, name) {
            Some(k) => self.custom[k].value,
            None => 0,
        }
    }
}

/// The bytes of the custom uniforms in the uniform block, in the order of
/// their declaration: four bytes each in full precision, two bytes each in
/// reduced precision, the low byte first.
pub open spec fn custom_image(
    custom: Seq<(Seq<char>, u32)>,
    uniforms: Seq<Seq<char>>,
    full: bool,
) -> Seq<u8>
    decreases uniforms.len(),
{
    if uniforms.len() == 0 {
        Seq::empty()
    } else {
        let value = custom_value(custom, uniforms.last());
        custom_image(custom, uniforms.drop_last(), full) + if full {
            spec_u32_to_le_bytes(value)
        } else {
            spec_u16_to_le_bytes(half_of(value))
        }
    }
}

/// The bytes that fill the uniform block up to a whole word.
pub open spec fn block_padding(customs: nat, full: bool) -> Seq<u8> {
    if !full && customs % 2 == 1 {
        seq![0u8, 0u8]
    } else {
        Seq::empty()
    }
}

/// The contents of the uniform block for a frame: time, pointer position and
/// pointer state as words, then the custom uniforms that the program declares.
pub open spec fn block_image(frame: FrameSpec, uniforms: Seq<Seq<char>>, full: bool) -> Seq<u8> {
    spec_u32_to_le_bytes(frame.time) + spec_u32_to_le_bytes(frame.mouse_x) + spec_u32_to_le_bytes(
        frame.mouse_y,
    ) + spec_u32_to_le_bytes(
        if frame.mouse_click {
            1u32
        } else {
            0u32
        },
    ) + custom_image(frame.custom, uniforms, full) + block_padding(uniforms.len(), full)
}

/// The custom uniforms take four bytes each in full precision and two bytes
/// each in reduced precision.
pub proof fn lemma_custom_image_len(
    custom: Seq<(Seq<char>, u32)>,
    uniforms: Seq<Seq<char>>,
    full: bool,
)
    ensures
        custom_image(custom, uniforms, full).len() == if full {
            4 * uniforms.len()
        } else {
            2 * uniforms.len()
        },
    decreases uniforms.len(),
{
    lemma_auto_spec_u32_to_from_le_bytes();
    lemma_auto_spec_u16_to_from_le_bytes();
    if uniforms.len() > 0 {
        lemma_custom_image_len(custom, uniforms.drop_last(), full);
    }
}

/// The contents of the uniform block fill the block exactly.
pub proof fn block_image_fills_block(frame: FrameSpec, uniforms: Seq<Seq<char>>, full: bool)
    ensures
        block_image(frame, uniforms, full).len() == block_bytes(uniforms.len(), full),
{
    lemma_auto_spec_u32_to_from_le_bytes();
    lemma_custom_image_len(frame.custom, uniforms, full);
}

/// Appends the bytes of `word` to `out`.
fn push_bytes(out: &mut Vec<u8>, word: Vec<u8>)
    ensures
        final(out)@ == old(out)@ + word@,
{
    let mut word = word;
    out.append(&mut word);
}

impl FrameState {
    /// Writes the contents of the uniform block for a program that declares
    /// the given custom uniforms in the given precision.
    pub fn uniform_block(&self, uniforms: &Vec<String>, full: bool) -> (bytes: Vec<u8>)
        ensures
            bytes@ == block_image(self@, strings_view(uniforms@), full),
            bytes.len() == block_bytes(uniforms.len() as nat, full),
    {
        let ghost names = strings_view(uniforms@);
        let mut bytes: Vec<u8> = Vec::new();
        push_bytes(&mut bytes, u32_to_le_bytes(self.time));
        push_bytes(&mut bytes, u32_to_le_bytes(self.mouse_x));
        push_bytes(&mut bytes, u32_to_le_bytes(self.mouse_y));
        push_bytes(
            &mut bytes,
            u32_to_le_bytes(
                if self.mouse_click {
                    1
                } else {
                    0
                },
            ),
        );
        let ghost head = bytes@;
        let mut i: usize = 0;
        assert(names.take(0) =~= Seq::<Seq<char>>::empty());
        assert(bytes@ =~= head + custom_image(self@.custom, names.take(0), full));
        while i < uniforms.len()
            invariant
                i <= uniforms.len(),
                names == strings_view(uniforms@),
                bytes@ == head + custom_image(self@.custom, names.take(i as int), full),
            decreases uniforms.len() - i,
        {
            assert(names.take(i as int + 1).drop_last() =~= names.take(i as int));
            assert(names.take(i as int + 1).last() == uniforms@[i as int]@);
            let value = self.custom_float(&uniforms[i]);
            if full {
                push_bytes(&mut bytes, u32_to_le_bytes(value));
            } else {
                push_bytes(&mut bytes, u16_to_le_bytes(to_half(value)));
            }
            i += 1;
            assert(bytes@ =~= head + custom_image(self@.custom, names.take(i as int), full));
        }
        assert(names.take(uniforms.len() as int) =~= names);
        if !full && uniforms.len() % 2 == 1 {
            bytes.push(0);
            bytes.push(0);
        }
        proof {
            assert(bytes@ =~= block_image(self@, names, full));
            block_image_fills_block(self@, names, full);
        }
        bytes
    }
}

} // verus!
